//! Unix paths as texts.
use crate::text::{split, split_at_char, str_eq, texts};
use vstd::prelude::*;

verus! {

/// Whether a path starts at the root.
pub open spec fn absolute(path: Seq<char>) -> bool {
    path.len() > 0 && path[0] == '/'
}

/// A path below a directory; an absolute path replaces the directory.
pub open spec fn path_below(dir: Seq<char>, path: Seq<char>) -> Seq<char> {
    if absolute(path) {
        path
    } else if dir.len() == 0 || dir.last() == '/' {
        dir + path
    } else {
        dir + "/"@ + path
    }
}

/// Tests whether a path starts at the root.
pub fn is_absolute(path: &str) -> (r: bool)
    ensures
        r == absolute(path@),
{
    path.unicode_len() > 0 && path.get_char(0) == '/'
}

/// Joins a path to a directory.
pub fn join_path(dir: &str, path: &str) -> (r: String)
    ensures
        r@ == path_below(dir@, path@),
{
    if is_absolute(path) {
        return path.to_owned();
    }
    let n: usize = dir.unicode_len();
    let mut r = dir.to_owned();
    if n > 0 && dir.get_char(n - 1) != '/' {
        r.append("/");
    }
    r.append(path);
    r
}

/// Whether a part between slashes names something below the parts before it.
pub open spec fn names_entry(part: Seq<char>) -> bool {
    part.len() > 0 && part != "."@
}

/// The parts of a path that name something: repeated slashes and `.` do not count.
pub open spec fn entries_of(path: Seq<char>) -> Seq<Seq<char>> {
    split_at_char(path, '/').filter(|part: Seq<char>| names_entry(part))
}

/// Collects the parts of a path that name something.
pub fn entries(path: &str) -> (r: Vec<String>)
    ensures
        texts(r@) == entries_of(path@),
{
    let parts = split(path, '/');
    let mut r: Vec<String> = Vec::new();
    let mut i: usize = 0;
    let ghost pred = |part: Seq<char>| names_entry(part);
    let ghost all = texts(parts@);
    assert(all.take(0).filter(pred) == Seq::<Seq<char>>::empty()) by {
        reveal(Seq::filter);
    }
    while i < parts.len()
        invariant
            i <= parts.len(),
            all == texts(parts@),
            pred == (|part: Seq<char>| names_entry(part)),
            texts(r@) == all.take(i as int).filter(pred),
        decreases parts.len() - i,
    {
        let ghost before = r@;
        proof {
            reveal(Seq::filter);
            assert(all.take(i + 1).drop_last() == all.take(i as int));
            assert(all.take(i + 1).last() == parts@[i as int]@);
        }
        if parts[i].as_str().unicode_len() > 0 && !str_eq(parts[i].as_str(), ".") {
            r.push(parts[i].clone());
            assert(texts(r@) == texts(before).push(parts@[i as int]@));
        }
        i = i + 1;
    }
    assert(all.take(i as int) == all);
    r
}

/// The number of components of a relative path: a leading `.` counts as one.
pub open spec fn relative_components(path: Seq<char>) -> nat {
    let leading: nat = if split_at_char(path, '/')[0] == "."@ {
        1
    } else {
        0
    };
    leading + entries_of(path).len()
}

/// Tests whether a relative path has more than one component.
pub fn has_several_components(path: &str) -> (r: bool)
    ensures
        r == (relative_components(path@) > 1),
{
    let parts = split(path, '/');
    let n: usize = entries(path).len();
    proof {
        assert(texts(parts@).len() > 0);
        assert(texts(parts@)[0] == parts@[0]@);
    }
    if str_eq(parts[0].as_str(), ".") {
        n > 0
    } else {
        n > 1
    }
}

/// Whether two paths have the same components: repeated and trailing slashes, and `.` behind the
/// start of a path, make no difference.
pub open spec fn same_path(a: Seq<char>, b: Seq<char>) -> bool {
    &&& absolute(a) == absolute(b)
    &&& (split_at_char(a, '/')[0] == "."@) == (split_at_char(b, '/')[0] == "."@)
    &&& entries_of(a) == entries_of(b)
}

fn starts_with_dot(path: &str) -> (r: bool)
    ensures
        r == (split_at_char(path@, '/')[0] == "."@),
{
    let parts = split(path, '/');
    proof {
        assert(texts(parts@).len() > 0);
        assert(texts(parts@)[0] == parts@[0]@);
    }
    str_eq(parts[0].as_str(), ".")
}

/// Tests whether two paths have the same components.
pub fn paths_equal(a: &str, b: &str) -> (r: bool)
    ensures
        r == same_path(a@, b@),
{
    if is_absolute(a) != is_absolute(b) || starts_with_dot(a) != starts_with_dot(b) {
        return false;
    }
    let x = entries(a);
    let y = entries(b);
    if x.len() != y.len() {
        assert(texts(x@).len() != texts(y@).len());
        return false;
    }
    let mut i: usize = 0;
    while i < x.len()
        invariant
            i <= x.len(),
            x.len() == y.len(),
            texts(x@) == entries_of(a@),
            texts(y@) == entries_of(b@),
            forall|j: int| 0 <= j < i ==> texts(x@)[j] == texts(y@)[j],
        decreases x.len() - i,
    {
        assert(texts(x@)[i as int] == x@[i as int]@);
        assert(texts(y@)[i as int] == y@[i as int]@);
        if !str_eq(x[i].as_str(), y[i].as_str()) {
            return false;
        }
        i = i + 1;
    }
    assert(texts(x@) == texts(y@));
    true
}

/// The last part of a path that names something, unless that part is `..`.
pub open spec fn last_name(path: Seq<char>) -> Option<Seq<char>> {
    let parts = entries_of(path);
    if parts.len() > 0 && parts.last() != ".."@ {
        Some(parts.last())
    } else {
        None
    }
}

/// Finds the file name of a path.
pub fn file_name(path: &str) -> (r: Option<String>)
    ensures
        match r {
            Some(name) => last_name(path@) == Some(name@),
            None => last_name(path@) is None,
        },
{
    let parts = entries(path);
    let n: usize = parts.len();
    assert(texts(parts@).len() == n);
    if n > 0 && !str_eq(parts[n - 1].as_str(), "..") {
        Some(parts[n - 1].clone())
    } else {
        None
    }
}

} // verus!
