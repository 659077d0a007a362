//! Text operations on strings seen as sequences of characters.
use vstd::prelude::*;

verus! {

/// Whether a character has the Unicode `White_Space` property.
pub open spec fn is_white(c: char) -> bool {
    let n = c as u32;
    ||| 0x09 <= n <= 0x0D
    ||| n == 0x20
    ||| n == 0x85
    ||| n == 0xA0
    ||| n == 0x1680
    ||| 0x2000 <= n <= 0x200A
    ||| n == 0x2028
    ||| n == 0x2029
    ||| n == 0x202F
    ||| n == 0x205F
    ||| n == 0x3000
}

/// Tests the Unicode `White_Space` property of a character.
pub fn is_whitespace(c: char) -> (r: bool)
    ensures
        r == is_white(c),
{
    let n: u32 = c as u32;
    (0x09 <= n && n <= 0x0D) || n == 0x20 || n == 0x85 || n == 0xA0 || n == 0x1680 || (0x2000 <= n
        && n <= 0x200A) || n == 0x2028 || n == 0x2029 || n == 0x202F || n == 0x205F || n == 0x3000
}

/// The characters of every string of a sequence.
pub open spec fn texts(v: Seq<String>) -> Seq<Seq<char>> {
    Seq::new(v.len(), |i: int| v[i]@)
}

/// The characters of an optional string.
pub open spec fn opt_text(o: Option<String>) -> Option<Seq<char>> {
    match o {
        Some(s) => Some(s@),
        None => None,
    }
}

/// Collects the characters of a string.
pub fn to_chars(s: &str) -> (v: Vec<char>)
    ensures
        v@ == s@,
{
    let mut v: Vec<char> = Vec::new();
    let mut it = s.chars();
    loop
        invariant
            vstd::std_specs::iter::IteratorSpec::obeys_prophetic_iter_laws(&it),
            vstd::std_specs::iter::IteratorSpec::decrease(&it) is Some,
            v@ + vstd::std_specs::iter::IteratorSpec::remaining(&it) == s@,
        ensures
            v@ == s@,
        decreases vstd::std_specs::iter::IteratorSpec::decrease(&it)->0,
    {
        let ghost before = vstd::std_specs::iter::IteratorSpec::remaining(&it);
        match it.next() {
            Some(c) => {
                proof {
                    assert(v@ + before == v@.push(c) + before.drop_first());
                }
                v.push(c);
            },
            None => {
                assert(v@ + before == v@);
                break;
            },
        }
    }
    v
}

/// Compares two strings.
pub fn str_eq(a: &str, b: &str) -> (r: bool)
    ensures
        r == (a@ == b@),
{
    a.to_owned() == b.to_owned()
}

/// A text without its leading whitespace.
pub open spec fn trimmed_start(s: Seq<char>) -> Seq<char>
    decreases s.len(),
{
    if s.len() > 0 && is_white(s[0]) {
        trimmed_start(s.drop_first())
    } else {
        s
    }
}

/// A text without its trailing whitespace.
pub open spec fn trimmed_end(s: Seq<char>) -> Seq<char>
    decreases s.len(),
{
    if s.len() > 0 && is_white(s.last()) {
        trimmed_end(s.drop_last())
    } else {
        s
    }
}

/// A text without its leading and trailing whitespace.
pub open spec fn trimmed(s: Seq<char>) -> Seq<char> {
    trimmed_end(trimmed_start(s))
}

/// Drops the leading whitespace of a string.
pub fn trim_start<'a>(s: &'a str) -> (r: &'a str)
    ensures
        r@ == trimmed_start(s@),
{
    let cs = to_chars(s);
    let n: usize = cs.len();
    let mut i: usize = 0;
    assert(s@.skip(0) == s@);
    while i < n && is_whitespace(cs[i])
        invariant
            cs@ == s@,
            n == cs.len(),
            i <= n,
            trimmed_start(s@) == trimmed_start(s@.skip(i as int)),
        decreases n - i,
    {
        assert(s@.skip(i as int).drop_first() == s@.skip(i + 1));
        i = i + 1;
    }
    s.substring_char(i, n)
}

/// Drops the trailing whitespace of a string.
pub fn trim_end<'a>(s: &'a str) -> (r: &'a str)
    ensures
        r@ == trimmed_end(s@),
{
    let cs = to_chars(s);
    let mut n: usize = cs.len();
    assert(s@.take(n as int) == s@);
    while n > 0 && is_whitespace(cs[n - 1])
        invariant
            cs@ == s@,
            n <= cs.len(),
            trimmed_end(s@) == trimmed_end(s@.take(n as int)),
        decreases n,
    {
        assert(s@.take(n as int).drop_last() == s@.take(n - 1));
        n = n - 1;
    }
    s.substring_char(0, n)
}

/// Drops the leading and trailing whitespace of a string.
pub fn trim<'a>(s: &'a str) -> (r: &'a str)
    ensures
        r@ == trimmed(s@),
{
    trim_end(trim_start(s))
}

/// Whether `part` stands in `s` at position `i`.
pub open spec fn stands_at(s: Seq<char>, part: Seq<char>, i: int) -> bool {
    &&& 0 <= i
    &&& i + part.len() <= s.len()
    &&& s.subrange(i, i + part.len()) == part
}

/// Tests whether `part` stands in `s` at position `i`.
fn matches_at(s: &Vec<char>, part: &Vec<char>, i: usize) -> (r: bool)
    requires
        i <= s.len(),
    ensures
        r == stands_at(s@, part@, i as int),
{
    if part.len() > s.len() - i {
        return false;
    }
    let mut k: usize = 0;
    while k < part.len()
        invariant
            i <= s.len(),
            part.len() <= s.len() - i,
            k <= part.len(),
            forall|j: int| 0 <= j < k ==> s@[i + j] == part@[j],
        decreases part.len() - k,
    {
        if s[i + k] != part[k] {
            assert(s@.subrange(i as int, i + part.len())[k as int] == s@[i + k]);
            return false;
        }
        k = k + 1;
    }
    assert(s@.subrange(i as int, i + part.len()) == part@);
    true
}

/// Whether a text starts with another.
pub open spec fn has_prefix(s: Seq<char>, prefix: Seq<char>) -> bool {
    stands_at(s, prefix, 0)
}

/// Whether a text ends with another.
pub open spec fn has_suffix(s: Seq<char>, suffix: Seq<char>) -> bool {
    stands_at(s, suffix, s.len() - suffix.len())
}

/// Tests whether a string starts with another.
pub fn starts_with(s: &str, prefix: &str) -> (r: bool)
    ensures
        r == has_prefix(s@, prefix@),
{
    matches_at(&to_chars(s), &to_chars(prefix), 0)
}

/// Tests whether a string ends with another.
pub fn ends_with(s: &str, suffix: &str) -> (r: bool)
    ensures
        r == has_suffix(s@, suffix@),
{
    let cs = to_chars(s);
    let part = to_chars(suffix);
    if part.len() > cs.len() {
        false
    } else {
        matches_at(&cs, &part, cs.len() - part.len())
    }
}

/// The rest of a text behind a prefix, where it has that prefix.
pub open spec fn without_prefix(s: Seq<char>, prefix: Seq<char>) -> Option<Seq<char>> {
    if has_prefix(s, prefix) {
        Some(s.skip(prefix.len() as int))
    } else {
        None
    }
}

/// Takes a prefix off a string.
pub fn strip_prefix(s: &str, prefix: &str) -> (r: Option<String>)
    ensures
        opt_text(r) == without_prefix(s@, prefix@),
{
    if starts_with(s, prefix) {
        let n: usize = s.unicode_len();
        let k: usize = prefix.unicode_len();
        Some(s.substring_char(k, n).to_owned())
    } else {
        None
    }
}

/// Whether a text occurs in another.
pub open spec fn occurs(s: Seq<char>, part: Seq<char>) -> bool {
    exists|i: int| stands_at(s, part, i)
}

/// Whether `i` is the first position at which `part` stands in `s`.
pub open spec fn first_at(s: Seq<char>, part: Seq<char>, i: int) -> bool {
    &&& stands_at(s, part, i)
    &&& forall|j: int| stands_at(s, part, j) ==> i <= j
}

/// The first position at which a text stands in another.
pub open spec fn position_of(s: Seq<char>, part: Seq<char>) -> Option<int> {
    if occurs(s, part) {
        Some(choose|i: int| first_at(s, part, i))
    } else {
        None
    }
}

/// A first position is the only one.
pub proof fn lemma_position_of(s: Seq<char>, part: Seq<char>, i: int)
    requires
        first_at(s, part, i),
    ensures
        position_of(s, part) == Some(i),
{
    assert(stands_at(s, part, i));
    let j = choose|j: int| first_at(s, part, j);
    assert(first_at(s, part, j));
    assert(stands_at(s, part, j));
}

/// Finds the first position of a text in another.
pub fn find(s: &str, part: &str) -> (r: Option<usize>)
    ensures
        match r {
            Some(i) => i + part@.len() <= s@.len() && position_of(s@, part@) == Some(i as int),
            None => position_of(s@, part@) is None,
        },
        r is Some == occurs(s@, part@),
{
    let cs = to_chars(s);
    let ps = to_chars(part);
    let mut i: usize = 0;
    while i < cs.len()
        invariant
            cs@ == s@,
            ps@ == part@,
            i <= cs.len(),
            forall|j: int| #[trigger] stands_at(s@, part@, j) ==> i <= j,
        decreases cs.len() - i,
    {
        if matches_at(&cs, &ps, i) {
            proof {
                lemma_position_of(s@, part@, i as int);
            }
            return Some(i);
        }
        i = i + 1;
    }
    if matches_at(&cs, &ps, i) {
        proof {
            lemma_position_of(s@, part@, i as int);
        }
        Some(i)
    } else {
        None
    }
}

/// Tests whether a text occurs in another.
pub fn contains(s: &str, part: &str) -> (r: bool)
    ensures
        r == occurs(s@, part@),
{
    find(s, part).is_some()
}

/// The first position of a character in a text.
pub open spec fn char_at(s: Seq<char>, c: char) -> Option<int>
    decreases s.len(),
{
    if s.len() == 0 {
        None
    } else if s[0] == c {
        Some(0)
    } else {
        match char_at(s.drop_first(), c) {
            Some(n) => Some(n + 1),
            None => None,
        }
    }
}

/// A found position lies in the text, holds the character, and is the first to do so.
pub proof fn lemma_char_at(s: Seq<char>, c: char)
    ensures
        match char_at(s, c) {
            Some(n) => 0 <= n < s.len() && s[n] == c && forall|j: int| 0 <= j < n ==> s[j] != c,
            None => forall|j: int| 0 <= j < s.len() ==> s[j] != c,
        },
    decreases s.len(),
{
    if s.len() > 0 && s[0] != c {
        lemma_char_at(s.drop_first(), c);
        assert forall|j: int| 0 <= j < s.len() && (match char_at(s, c) {
            Some(n) => j < n,
            None => true,
        }) implies s[j] != c by {
            if j > 0 {
                assert(s[j] == s.drop_first()[j - 1]);
            }
        }
    }
}

/// Finds the first position of a character at or behind `from`.
pub fn find_char(cs: &Vec<char>, from: usize, c: char) -> (r: Option<usize>)
    requires
        from <= cs.len(),
    ensures
        match r {
            Some(i) => from <= i < cs.len() && char_at(cs@.skip(from as int), c) == Some(i - from),
            None => char_at(cs@.skip(from as int), c) is None,
        },
{
    let mut i: usize = from;
    while i < cs.len()
        invariant
            from <= i <= cs.len(),
            char_at(cs@.skip(from as int), c) == (match char_at(cs@.skip(i as int), c) {
                Some(n) => Some(n + (i - from)),
                None => None,
            }),
        decreases cs.len() - i,
    {
        if cs[i] == c {
            return Some(i);
        }
        assert(cs@.skip(i as int).drop_first() == cs@.skip(i + 1));
        i = i + 1;
    }
    None
}

/// The two parts of a text around the first occurrence of a character.
pub open spec fn parts_around(s: Seq<char>, c: char) -> Option<(Seq<char>, Seq<char>)> {
    match char_at(s, c) {
        Some(n) => Some((s.take(n), s.skip(n + 1))),
        None => None,
    }
}

/// Splits a string at the first occurrence of a character.
pub fn split_once(s: &str, c: char) -> (r: Option<(String, String)>)
    ensures
        match r {
            Some((a, b)) => parts_around(s@, c) == Some((a@, b@)),
            None => parts_around(s@, c) is None,
        },
{
    let cs = to_chars(s);
    let n: usize = cs.len();
    assert(cs@.skip(0) == s@);
    match find_char(&cs, 0, c) {
        Some(i) => Some((s.substring_char(0, i).to_owned(), s.substring_char(i + 1, n).to_owned())),
        None => None,
    }
}

/// A text without one trailing carriage return.
pub open spec fn without_cr(s: Seq<char>) -> Seq<char> {
    if s.len() > 0 && s.last() == '\r' {
        s.drop_last()
    } else {
        s
    }
}

/// The lines of a text: each is ended by a line feed, which a carriage return may precede; the
/// last one may lack its end.
pub open spec fn lines_of(s: Seq<char>) -> Seq<Seq<char>>
    decreases s.len(),
    via lines_of_decreases
{
    if s.len() == 0 {
        Seq::empty()
    } else {
        match char_at(s, '\n') {
            Some(n) => seq![without_cr(s.take(n))] + lines_of(s.skip(n + 1)),
            None => seq![s],
        }
    }
}

#[via_fn]
proof fn lines_of_decreases(s: Seq<char>) {
    lemma_char_at(s, '\n');
}

/// Splits a string into its lines.
pub fn lines(s: &str) -> (r: Vec<String>)
    ensures
        texts(r@) == lines_of(s@),
{
    let cs = to_chars(s);
    let n: usize = cs.len();
    let mut r: Vec<String> = Vec::new();
    let mut from: usize = 0;
    assert(s@.skip(0) == s@);
    assert(texts(r@) + lines_of(s@) == lines_of(s@));
    while from < n
        invariant
            cs@ == s@,
            n == cs.len(),
            from <= n,
            texts(r@) + lines_of(s@.skip(from as int)) == lines_of(s@),
        decreases n - from,
    {
        let ghost rest = s@.skip(from as int);
        let ghost before = r@;
        match find_char(&cs, from, '\n') {
            Some(i) => {
                let end: usize = if i > from && cs[i - 1] == '\r' {
                    i - 1
                } else {
                    i
                };
                let line = s.substring_char(from, end).to_owned();
                proof {
                    let raw = rest.take(i - from);
                    assert(raw == s@.subrange(from as int, i as int));
                    assert(line@ == without_cr(raw)) by {
                        if end != i {
                            assert(raw.drop_last() == s@.subrange(from as int, end as int));
                        }
                    }
                    assert(rest.skip(i - from + 1) == s@.skip(i + 1));
                    assert(lines_of(rest) == seq![line@] + lines_of(s@.skip(i + 1)));
                    assert(texts(before.push(line)) == texts(before) + seq![line@]);
                    assert(texts(before) + (seq![line@] + lines_of(s@.skip(i + 1))) == texts(
                        before.push(line),
                    ) + lines_of(s@.skip(i + 1)));
                }
                r.push(line);
                from = i + 1;
            },
            None => {
                let line = s.substring_char(from, n).to_owned();
                proof {
                    assert(line@ == rest);
                    assert(lines_of(rest) == seq![line@]);
                    assert(texts(before.push(line)) == texts(before) + seq![line@]);
                    assert(s@.skip(n as int) == Seq::<char>::empty());
                    assert(lines_of(Seq::<char>::empty()) == Seq::<Seq<char>>::empty());
                    assert(texts(before.push(line)) + Seq::<Seq<char>>::empty() == texts(
                        before.push(line),
                    ));
                }
                r.push(line);
                from = n;
            },
        }
    }
    proof {
        assert(s@.skip(n as int) == Seq::<char>::empty());
        assert(lines_of(Seq::<char>::empty()) == Seq::<Seq<char>>::empty());
        assert(texts(r@) + Seq::<Seq<char>>::empty() == texts(r@));
    }
    r
}

/// The parts of a text between the occurrences of a character.
pub open spec fn split_at_char(s: Seq<char>, c: char) -> Seq<Seq<char>>
    decreases s.len(),
    via split_at_char_decreases
{
    match char_at(s, c) {
        Some(n) => seq![s.take(n)] + split_at_char(s.skip(n + 1), c),
        None => seq![s],
    }
}

#[via_fn]
proof fn split_at_char_decreases(s: Seq<char>, c: char) {
    lemma_char_at(s, c);
}

/// Splits a string at every occurrence of a character.
pub fn split(s: &str, c: char) -> (r: Vec<String>)
    ensures
        texts(r@) == split_at_char(s@, c),
{
    let cs = to_chars(s);
    let n: usize = cs.len();
    let mut r: Vec<String> = Vec::new();
    let mut from: usize = 0;
    assert(s@.skip(0) == s@);
    assert(texts(r@) + split_at_char(s@, c) == split_at_char(s@, c));
    loop
        invariant_except_break
            cs@ == s@,
            n == cs.len(),
            from <= n,
            texts(r@) + split_at_char(s@.skip(from as int), c) == split_at_char(s@, c),
        ensures
            texts(r@) == split_at_char(s@, c),
        decreases n - from,
    {
        let ghost rest = s@.skip(from as int);
        let ghost before = r@;
        match find_char(&cs, from, c) {
            Some(i) => {
                let part = s.substring_char(from, i).to_owned();
                proof {
                    assert(rest.take(i - from) == part@);
                    assert(rest.skip(i - from + 1) == s@.skip(i + 1));
                    assert(texts(before.push(part)) == texts(before) + seq![part@]);
                    assert(texts(before) + (seq![part@] + split_at_char(s@.skip(i + 1), c)) == texts(
                        before.push(part),
                    ) + split_at_char(s@.skip(i + 1), c));
                }
                r.push(part);
                from = i + 1;
            },
            None => {
                let part = s.substring_char(from, n).to_owned();
                proof {
                    assert(part@ == rest);
                    assert(texts(before.push(part)) == texts(before) + seq![part@]);
                }
                r.push(part);
                break;
            },
        }
    }
    r
}

/// Parts put together with a separator between them.
pub open spec fn joined(parts: Seq<Seq<char>>, sep: Seq<char>) -> Seq<char>
    decreases parts.len(),
{
    if parts.len() == 0 {
        Seq::empty()
    } else if parts.len() == 1 {
        parts[0]
    } else {
        joined(parts.drop_last(), sep) + sep + parts.last()
    }
}

/// Puts strings together with a separator between them.
pub fn join(parts: &Vec<String>, sep: &str) -> (r: String)
    ensures
        r@ == joined(texts(parts@), sep@),
{
    let mut r = String::new();
    let mut i: usize = 0;
    let ghost all = texts(parts@);
    while i < parts.len()
        invariant
            i <= parts.len(),
            all == texts(parts@),
            r@ == joined(all.take(i as int), sep@),
        decreases parts.len() - i,
    {
        proof {
            assert(all.take(i + 1).drop_last() == all.take(i as int));
            assert(all.take(i + 1).last() == parts@[i as int]@);
        }
        if i > 0 {
            r.append(sep);
        }
        r.append(parts[i].as_str());
        i = i + 1;
    }
    assert(all.take(i as int) == all);
    r
}

/// The character of a decimal digit.
pub open spec fn digit(n: nat) -> char {
    if n == 0 {
        '0'
    } else if n == 1 {
        '1'
    } else if n == 2 {
        '2'
    } else if n == 3 {
        '3'
    } else if n == 4 {
        '4'
    } else if n == 5 {
        '5'
    } else if n == 6 {
        '6'
    } else if n == 7 {
        '7'
    } else if n == 8 {
        '8'
    } else {
        '9'
    }
}

/// A natural number in decimal notation.
pub open spec fn decimal(n: nat) -> Seq<char>
    decreases n,
{
    if n < 10 {
        seq![digit(n)]
    } else {
        decimal(n / 10).push(digit(n % 10))
    }
}

/// An integer in decimal notation, with a sign where it is negative.
pub open spec fn signed_decimal(n: int) -> Seq<char> {
    if n < 0 {
        seq!['-'] + decimal((-n) as nat)
    } else {
        decimal(n as nat)
    }
}

fn digit_text(d: u64) -> (r: &'static str)
    requires
        d < 10,
    ensures
        r@ == seq![digit(d as nat)],
{
    proof {
        reveal_strlit("0");
        reveal_strlit("1");
        reveal_strlit("2");
        reveal_strlit("3");
        reveal_strlit("4");
        reveal_strlit("5");
        reveal_strlit("6");
        reveal_strlit("7");
        reveal_strlit("8");
        reveal_strlit("9");
    }
    if d == 0 {
        "0"
    } else if d == 1 {
        "1"
    } else if d == 2 {
        "2"
    } else if d == 3 {
        "3"
    } else if d == 4 {
        "4"
    } else if d == 5 {
        "5"
    } else if d == 6 {
        "6"
    } else if d == 7 {
        "7"
    } else if d == 8 {
        "8"
    } else {
        "9"
    }
}

/// Writes a number in decimal notation.
pub fn wide_decimal_text(n: u128) -> (r: String)
    ensures
        r@ == decimal(n as nat),
    decreases n,
{
    if n < 10 {
        digit_text(n as u64).to_owned()
    } else {
        let mut r = wide_decimal_text(n / 10);
        r.append(digit_text((n % 10) as u64));
        assert(r@ == decimal((n / 10) as nat) + seq![digit((n % 10) as nat)]);
        r
    }
}

/// Writes a number in decimal notation.
pub fn decimal_text(n: u64) -> (r: String)
    ensures
        r@ == decimal(n as nat),
{
    wide_decimal_text(n as u128)
}

/// The character of a hexadecimal digit.
pub open spec fn hex_digit(n: nat) -> char {
    if n < 10 {
        digit(n)
    } else if n == 10 {
        'a'
    } else if n == 11 {
        'b'
    } else if n == 12 {
        'c'
    } else if n == 13 {
        'd'
    } else if n == 14 {
        'e'
    } else {
        'f'
    }
}

/// A natural number in hexadecimal notation.
pub open spec fn hexadecimal(n: nat) -> Seq<char>
    decreases n,
{
    if n < 16 {
        seq![hex_digit(n)]
    } else {
        hexadecimal(n / 16).push(hex_digit(n % 16))
    }
}

fn hex_digit_text(d: u64) -> (r: &'static str)
    requires
        d < 16,
    ensures
        r@ == seq![hex_digit(d as nat)],
{
    proof {
        reveal_strlit("a");
        reveal_strlit("b");
        reveal_strlit("c");
        reveal_strlit("d");
        reveal_strlit("e");
        reveal_strlit("f");
    }
    if d < 10 {
        digit_text(d)
    } else if d == 10 {
        "a"
    } else if d == 11 {
        "b"
    } else if d == 12 {
        "c"
    } else if d == 13 {
        "d"
    } else if d == 14 {
        "e"
    } else {
        "f"
    }
}

/// Writes a number in hexadecimal notation.
pub fn hexadecimal_text(n: u64) -> (r: String)
    ensures
        r@ == hexadecimal(n as nat),
    decreases n,
{
    if n < 16 {
        hex_digit_text(n).to_owned()
    } else {
        let mut r = hexadecimal_text(n / 16);
        r.append(hex_digit_text(n % 16));
        assert(r@ == hexadecimal((n / 16) as nat) + seq![hex_digit((n % 16) as nat)]);
        r
    }
}

/// Writes an integer in decimal notation, with a sign where it is negative.
pub fn signed_text(n: i32) -> (r: String)
    ensures
        r@ == signed_decimal(n as int),
{
    if n < 0 {
        let m: i64 = n as i64;
        let mut r = "-".to_owned();
        proof {
            reveal_strlit("-");
        }
        r.append(decimal_text((-m) as u64).as_str());
        assert(r@ == seq!['-'] + decimal((-m) as nat));
        r
    } else {
        decimal_text(n as u64)
    }
}

/// The number of bytes of a character in UTF-8.
pub open spec fn char_bytes(c: char) -> nat {
    let n = c as u32;
    if n < 0x80 {
        1
    } else if n < 0x800 {
        2
    } else if n < 0x10000 {
        3
    } else {
        4
    }
}

/// The number of bytes of a text in UTF-8.
pub open spec fn byte_len(s: Seq<char>) -> nat
    decreases s.len(),
{
    if s.len() == 0 {
        0
    } else {
        byte_len(s.drop_last()) + char_bytes(s.last())
    }
}

/// Every character takes one to four bytes, so longer prefixes take more bytes.
pub proof fn lemma_byte_len(s: Seq<char>, i: int, j: int)
    requires
        0 <= i <= j <= s.len(),
    ensures
        byte_len(s.take(i)) + (j - i) <= byte_len(s.take(j)) <= byte_len(s.take(i)) + 4 * (j - i),
    decreases j - i,
{
    if i < j {
        lemma_byte_len(s, i, j - 1);
        assert(s.take(j).drop_last() == s.take(j - 1));
    }
}

/// The number of characters of the longest prefix that takes at most some bytes in UTF-8.
pub open spec fn prefix_within(s: Seq<char>, bytes: nat) -> nat
    decreases s.len(),
{
    if s.len() == 0 || byte_len(s) <= bytes {
        s.len()
    } else {
        prefix_within(s.drop_last(), bytes)
    }
}

/// A prefix that fits, and that no longer one follows, is the longest that fits.
pub proof fn lemma_prefix_within(s: Seq<char>, bytes: nat, k: int)
    requires
        0 <= k <= s.len(),
        byte_len(s.take(k)) <= bytes,
        k < s.len() ==> byte_len(s.take(k + 1)) > bytes,
    ensures
        prefix_within(s, bytes) == k,
    decreases s.len(),
{
    assert(s.take(s.len() as int) == s);
    if k < s.len() {
        lemma_byte_len(s, k + 1, s.len() as int);
        assert(s.drop_last().take(k) == s.take(k));
        if k < s.drop_last().len() {
            assert(s.drop_last().take(k + 1) == s.take(k + 1));
        }
        lemma_prefix_within(s.drop_last(), bytes, k);
    }
}

/// The number of bytes of a character in UTF-8.
pub fn utf8_len(c: char) -> (n: usize)
    ensures
        n == char_bytes(c),
{
    let v: u32 = c as u32;
    if v < 0x80 {
        1
    } else if v < 0x800 {
        2
    } else if v < 0x10000 {
        3
    } else {
        4
    }
}

/// Whether the first text comes before the second in the order of their characters.
pub open spec fn text_less(a: Seq<char>, b: Seq<char>) -> bool
    decreases a.len(),
{
    if b.len() == 0 {
        false
    } else if a.len() == 0 {
        true
    } else if a[0] == b[0] {
        text_less(a.drop_first(), b.drop_first())
    } else {
        a[0] < b[0]
    }
}

/// Whether the first text does not come after the second.
pub open spec fn text_le(a: Seq<char>, b: Seq<char>) -> bool {
    !text_less(b, a)
}

/// Compares two strings in the order of their characters.
pub fn less(a: &str, b: &str) -> (r: bool)
    ensures
        r == text_less(a@, b@),
{
    let x = to_chars(a);
    let y = to_chars(b);
    let mut i: usize = 0;
    assert(a@.skip(0) == a@);
    assert(b@.skip(0) == b@);
    while i < x.len() && i < y.len() && x[i] == y[i]
        invariant
            x@ == a@,
            y@ == b@,
            i <= x.len(),
            i <= y.len(),
            text_less(a@, b@) == text_less(a@.skip(i as int), b@.skip(i as int)),
        decreases x.len() - i,
    {
        assert(a@.skip(i as int).drop_first() == a@.skip(i + 1));
        assert(b@.skip(i as int).drop_first() == b@.skip(i + 1));
        i = i + 1;
    }
    if i >= y.len() {
        false
    } else if i >= x.len() {
        true
    } else {
        x[i] < y[i]
    }
}

/// The order of texts is total: of two different texts one comes first.
pub proof fn lemma_text_order_total(a: Seq<char>, b: Seq<char>)
    ensures
        text_less(a, b) || text_less(b, a) || a == b,
        !(text_less(a, b) && text_less(b, a)),
    decreases a.len() + b.len(),
{
    if a.len() > 0 && b.len() > 0 && a[0] == b[0] {
        lemma_text_order_total(a.drop_first(), b.drop_first());
        if a.drop_first() == b.drop_first() {
            assert(a == seq![a[0]] + a.drop_first());
            assert(b == seq![b[0]] + b.drop_first());
        }
    } else if a.len() == 0 && b.len() == 0 {
        assert(a == b);
    }
}

/// The order of texts is transitive.
pub proof fn lemma_text_order_transitive(a: Seq<char>, b: Seq<char>, c: Seq<char>)
    requires
        text_le(a, b),
        text_le(b, c),
    ensures
        text_le(a, c),
    decreases a.len() + b.len() + c.len(),
{
    if a.len() > 0 && b.len() > 0 && c.len() > 0 && a[0] == b[0] && b[0] == c[0] {
        lemma_text_order_transitive(a.drop_first(), b.drop_first(), c.drop_first());
    }
}

/// Whether texts stand in ascending order.
pub open spec fn in_order(v: Seq<Seq<char>>) -> bool {
    forall|i: int, j: int| 0 <= i < j < v.len() ==> text_le(#[trigger] v[i], #[trigger] v[j])
}

/// Texts put into ascending order.
pub open spec fn ordered(v: Seq<Seq<char>>) -> Seq<Seq<char>> {
    v.sort_by(|a: Seq<char>, b: Seq<char>| text_le(a, b))
}

/// Texts in ascending order are what putting equally many of each into order gives.
pub proof fn lemma_ordered(v: Seq<Seq<char>>, r: Seq<Seq<char>>)
    ensures
        in_order(ordered(v)),
        ordered(v).to_multiset() == v.to_multiset(),
        in_order(r) && r.to_multiset() == v.to_multiset() ==> r == ordered(v),
{
    let leq = |a: Seq<char>, b: Seq<char>| text_le(a, b);
    assert(vstd::relations::total_ordering(leq)) by {
        assert forall|a: Seq<char>| #[trigger] leq(a, a) by {
            lemma_text_order_total(a, a);
        }
        assert forall|a: Seq<char>, b: Seq<char>|
            #[trigger] leq(a, b) && #[trigger] leq(b, a) implies a == b by {
            lemma_text_order_total(a, b);
        }
        assert forall|a: Seq<char>, b: Seq<char>, c: Seq<char>|
            #[trigger] leq(a, b) && #[trigger] leq(b, c) implies leq(a, c) by {
            lemma_text_order_transitive(a, b, c);
        }
        assert forall|a: Seq<char>, b: Seq<char>|
            #[trigger] leq(a, b) || #[trigger] leq(b, a) by {
            lemma_text_order_total(a, b);
        }
    }
    v.lemma_sort_by_ensures(leq);
    assert forall|i: int, j: int| 0 <= i < j < ordered(v).len() implies text_le(
        #[trigger] ordered(v)[i],
        #[trigger] ordered(v)[j],
    ) by {
        assert(leq(ordered(v)[i], ordered(v)[j]));
    }
    if in_order(r) && r.to_multiset() == v.to_multiset() {
        vstd::seq_lib::lemma_sorted_unique(r, ordered(v), leq);
    }
}

/// Puts strings into ascending order.
pub fn sort(v: &Vec<String>) -> (r: Vec<String>)
    ensures
        texts(r@) == ordered(texts(v@)),
{
    let mut r: Vec<String> = Vec::new();
    let mut i: usize = 0;
    assert(texts(v@).take(0) == texts(r@));
    while i < v.len()
        invariant
            i <= v.len(),
            in_order(texts(r@)),
            texts(r@).to_multiset() == texts(v@).take(i as int).to_multiset(),
        decreases v.len() - i,
    {
        let ghost before = texts(r@);
        let item = v[i].clone();
        let mut k: usize = r.len();
        while k > 0 && less(item.as_str(), r[k - 1].as_str())
            invariant
                k <= r.len(),
                before == texts(r@),
                in_order(before),
                forall|j: int| k <= j < r.len() ==> text_less(item@, #[trigger] before[j]),
            decreases k,
        {
            k = k - 1;
        }
        proof {
            assert forall|j: int| 0 <= j < k implies text_le(#[trigger] before[j], item@) by {
                if j < k - 1 {
                    lemma_text_order_transitive(before[j], before[k - 1], item@);
                }
            }
            assert forall|j: int| k <= j < before.len() implies text_le(item@, #[trigger] before[j]) by {
                lemma_text_order_total(item@, before[j]);
            }
            let after = before.insert(k as int, item@);
            assert(in_order(after));
            assert(after.to_multiset() == before.to_multiset().insert(item@)) by {
                broadcast use vstd::seq_lib::group_to_multiset_ensures;
                assert(after.remove(k as int) == before);
                assert(after[k as int] == item@);
                assert(after.contains(item@));
            }
            assert(texts(v@).take(i + 1) == texts(v@).take(i as int).push(v@[i as int]@));
            vstd::seq_lib::to_multiset_build(texts(v@).take(i as int), v@[i as int]@);
        }
        r.insert(k, item);
        assert(texts(r@) == before.insert(k as int, item@));
        i = i + 1;
    }
    proof {
        assert(texts(v@).take(i as int) == texts(v@));
        lemma_ordered(texts(v@), texts(r@));
    }
    r
}

/// The number of a character, of the small letter where it is a capital ASCII letter.
pub open spec fn ascii_folded(c: char) -> u32 {
    if 'A' <= c <= 'Z' {
        (c as u32 + 32) as u32
    } else {
        c as u32
    }
}

/// Whether two texts are equal but for the case of ASCII letters.
pub open spec fn same_but_case(a: Seq<char>, b: Seq<char>) -> bool {
    a.len() == b.len() && forall|i: int|
        0 <= i < a.len() ==> ascii_folded(#[trigger] a[i]) == ascii_folded(b[i])
}

fn fold_ascii(c: char) -> (r: u32)
    ensures
        r == ascii_folded(c),
{
    if 'A' <= c && c <= 'Z' {
        c as u32 + 32
    } else {
        c as u32
    }
}

/// Compares two strings without regard to the case of ASCII letters.
pub fn eq_ignore_ascii_case(a: &str, b: &str) -> (r: bool)
    ensures
        r == same_but_case(a@, b@),
{
    let x = to_chars(a);
    let y = to_chars(b);
    if x.len() != y.len() {
        return false;
    }
    let mut i: usize = 0;
    while i < x.len()
        invariant
            x@ == a@,
            y@ == b@,
            x.len() == y.len(),
            i <= x.len(),
            forall|j: int| 0 <= j < i ==> ascii_folded(#[trigger] a@[j]) == ascii_folded(b@[j]),
        decreases x.len() - i,
    {
        if fold_ascii(x[i]) != fold_ascii(y[i]) {
            assert(ascii_folded(a@[i as int]) != ascii_folded(b@[i as int]));
            return false;
        }
        i = i + 1;
    }
    true
}

/// Whether a text holds nothing but whitespace.
pub open spec fn blank(s: Seq<char>) -> bool {
    trimmed(s).len() == 0
}

/// Tests whether a string holds nothing but whitespace.
pub fn is_blank(s: &str) -> (r: bool)
    ensures
        r == blank(s@),
{
    trim(s).unicode_len() == 0
}

/// The first word of a text: what stands before the first whitespace behind the leading one.
pub open spec fn first_word(s: Seq<char>) -> Seq<char>
    decreases s.len(),
{
    if s.len() == 0 {
        s
    } else if is_white(s[0]) {
        first_word(s.drop_first())
    } else {
        word_at(s)
    }
}

/// What stands before the first whitespace.
pub open spec fn word_at(s: Seq<char>) -> Seq<char>
    decreases s.len(),
{
    if s.len() == 0 || is_white(s[0]) {
        Seq::empty()
    } else {
        seq![s[0]] + word_at(s.drop_first())
    }
}

/// Finds the first word of a string.
pub fn word(s: &str) -> (r: &str)
    ensures
        r@ == first_word(s@),
{
    let cs = to_chars(s);
    let n: usize = cs.len();
    let mut start: usize = 0;
    assert(s@.skip(0) == s@);
    while start < n && is_whitespace(cs[start])
        invariant
            n == cs.len(),
            start <= n,
            cs@ == s@,
            first_word(s@) == first_word(s@.skip(start as int)),
        decreases n - start,
    {
        assert(s@.skip(start as int).drop_first() == s@.skip(start + 1));
        start = start + 1;
    }
    let mut end: usize = start;
    assert(s@.subrange(start as int, start as int) + word_at(s@.skip(start as int)) == word_at(
        s@.skip(start as int),
    ));
    while end < n && !is_whitespace(cs[end])
        invariant
            n == cs.len(),
            start <= end <= n,
            cs@ == s@,
            s@.subrange(start as int, end as int) + word_at(s@.skip(end as int)) == word_at(
                s@.skip(start as int),
            ),
        decreases n - end,
    {
        proof {
            let rest = s@.skip(end as int);
            assert(rest.drop_first() == s@.skip(end + 1));
            assert(s@.subrange(start as int, end + 1) == s@.subrange(start as int, end as int)
                + seq![rest[0]]);
            assert(s@.subrange(start as int, end + 1) + word_at(s@.skip(end + 1)) == s@.subrange(
                start as int,
                end as int,
            ) + (seq![rest[0]] + word_at(s@.skip(end + 1))));
        }
        end = end + 1;
    }
    proof {
        assert(word_at(s@.skip(end as int)) == Seq::<char>::empty());
        assert(s@.subrange(start as int, end as int) + Seq::<char>::empty() == s@.subrange(
            start as int,
            end as int,
        ));
        if start == n {
            assert(s@.skip(start as int).len() == 0);
            assert(first_word(s@.skip(start as int)) == Seq::<char>::empty());
        } else {
            assert(first_word(s@.skip(start as int)) == word_at(s@.skip(start as int)));
        }
    }
    s.substring_char(start, end)
}

/// The first value that is there.
pub open spec fn first_of<T>(s: Seq<Option<T>>) -> Option<T>
    decreases s.len(),
{
    if s.len() == 0 {
        None
    } else if s[0] is Some {
        s[0]
    } else {
        first_of(s.drop_first())
    }
}

/// The first value at or behind a position is the one at it, or the first one behind it.
pub proof fn lemma_first_of<T>(s: Seq<Option<T>>, i: int)
    requires
        0 <= i < s.len(),
    ensures
        first_of(s.skip(i)) == (if s[i] is Some {
            s[i]
        } else {
            first_of(s.skip(i + 1))
        }),
{
    assert(s.skip(i).drop_first() == s.skip(i + 1));
}

/// The first value is one of the values, and where there is none, every position is empty.
pub proof fn lemma_first_among<T>(s: Seq<Option<T>>)
    ensures
        first_of(s) is Some ==> exists|i: int|
            0 <= i < s.len() && #[trigger] s[i] == first_of(s),
        first_of(s) is None ==> forall|i: int| 0 <= i < s.len() ==> (#[trigger] s[i]) is None,
    decreases s.len(),
{
    if s.len() > 0 && s[0] is None {
        let rest = s.drop_first();
        lemma_first_among(rest);
        if first_of(s) is Some {
            let i = choose|i: int| 0 <= i < rest.len() && #[trigger] rest[i] == first_of(rest);
            assert(s[i + 1] == first_of(s));
        } else {
            assert forall|i: int| 0 <= i < s.len() implies (#[trigger] s[i]) is None by {
                if i > 0 {
                    assert(rest[i - 1] is None);
                }
            }
        }
    }
}

/// The text of a string that may be missing.
pub open spec fn str_text(s: Option<&str>) -> Option<Seq<char>> {
    match s {
        Some(s) => Some(s@),
        None => None,
    }
}

/// Tests whether a string is among others.
pub fn holds_text(v: &Vec<String>, s: &str) -> (r: bool)
    ensures
        r == texts(v@).contains(s@),
{
    let mut i: usize = 0;
    while i < v.len()
        invariant
            i <= v.len(),
            forall|j: int| 0 <= j < i ==> (#[trigger] v@[j])@ != s@,
        decreases v.len() - i,
    {
        if str_eq(v[i].as_str(), s) {
            assert(texts(v@)[i as int] == s@);
            return true;
        }
        i = i + 1;
    }
    assert forall|j: int| 0 <= j < texts(v@).len() implies texts(v@)[j] != s@ by {
        assert(v@[j]@ != s@);
    }
    false
}

/// Texts without those that stand among them before.
pub open spec fn without_repeats(v: Seq<Seq<char>>) -> Seq<Seq<char>>
    decreases v.len(),
{
    if v.len() == 0 {
        v
    } else {
        let before = without_repeats(v.drop_last());
        if v.drop_last().contains(v.last()) {
            before
        } else {
            before.push(v.last())
        }
    }
}

/// Leaving out repeats keeps the same texts, each of them once.
pub proof fn lemma_without_repeats(v: Seq<Seq<char>>)
    ensures
        forall|t: Seq<char>| #[trigger] without_repeats(v).contains(t) <==> v.contains(t),
        without_repeats(v).no_duplicates(),
    decreases v.len(),
{
    if v.len() > 0 {
        let before = v.drop_last();
        lemma_without_repeats(before);
        assert(v == before.push(v.last()));
        assert forall|t: Seq<char>| #[trigger] without_repeats(v).contains(t) <==> v.contains(t) by {
            assert(v.contains(t) <==> before.contains(t) || t == v.last()) by {
                if before.contains(t) {
                    let i = choose|i: int| 0 <= i < before.len() && before[i] == t;
                    assert(v[i] == t);
                }
                if t == v.last() {
                    assert(v[v.len() - 1] == t);
                }
            }
            let kept = without_repeats(before);
            if !before.contains(v.last()) {
                let longer = kept.push(v.last());
                assert(longer.contains(t) <==> kept.contains(t) || t == v.last()) by {
                    if kept.contains(t) {
                        let i = choose|i: int| 0 <= i < kept.len() && kept[i] == t;
                        assert(longer[i] == t);
                    }
                    if t == v.last() {
                        assert(longer[longer.len() - 1] == t);
                    }
                }
            }
        }
        if !before.contains(v.last()) {
            let kept = without_repeats(before);
            assert(!kept.contains(v.last()));
            assert forall|i: int, j: int|
                0 <= i < kept.len() + 1 && 0 <= j < kept.len() + 1 && i != j implies kept.push(
                v.last(),
            )[i] != kept.push(v.last())[j] by {
                if i == kept.len() {
                    assert(kept.contains(kept[j]));
                } else if j == kept.len() {
                    assert(kept.contains(kept[i]));
                }
            }
        }
    }
}

/// Leaves out strings that stand among others before.
pub fn unique(v: &Vec<String>) -> (r: Vec<String>)
    ensures
        texts(r@) == without_repeats(texts(v@)),
{
    let mut r: Vec<String> = Vec::new();
    let ghost all = texts(v@);
    let mut i: usize = 0;
    assert(texts(r@) == without_repeats(all.take(0)));
    while i < v.len()
        invariant
            i <= v.len(),
            all == texts(v@),
            texts(r@) == without_repeats(all.take(i as int)),
        decreases v.len() - i,
    {
        let ghost kept = r@;
        proof {
            assert(all.take(i + 1).drop_last() == all.take(i as int));
            assert(all.take(i + 1).last() == all[i as int]);
            lemma_without_repeats(all.take(i as int));
        }
        if !holds_text(&r, v[i].as_str()) {
            r.push(v[i].clone());
            assert(texts(r@) == texts(kept).push(all[i as int]));
        }
        i = i + 1;
    }
    assert(all.take(i as int) == all);
    r
}

} // verus!
