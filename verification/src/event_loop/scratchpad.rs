//! Scratchpad paths, completion, and its part of the prompt.
use crate::config::scratchpad::ScratchpadConfig;
use crate::path::{join_path, path_below};
use crate::text::{
    blank, byte_len, char_at, decimal, find_char, has_prefix, is_blank, join, joined,
    lemma_prefix_within, lines, lines_of, prefix_within, starts_with,
    texts, to_chars, trim_start, trimmed_start, utf8_len, wide_decimal_text,
};
use vstd::prelude::*;

verus! {

/// The size in bytes up to which a scratchpad is shown whole.
pub const SCRATCHPAD_BUDGET: u128 = 16000;

/// The number of characters that are left off a long scratchpad: a tail of the size of the budget
/// stays, from the first whole line on, or whole where no line begins in it.
pub open spec fn left_off(content: Seq<char>) -> int {
    let start = prefix_within(content, (byte_len(content) - SCRATCHPAD_BUDGET) as nat) as int;
    match char_at(content.skip(start), '\n') {
        Some(n) if start + n + 1 < content.len() => start + n + 1,
        _ => start,
    }
}

/// Whether a line is a markdown heading.
pub open spec fn is_heading(line: Seq<char>) -> bool {
    line.len() > 0 && line[0] == '#'
}

/// The markdown headings of a text.
pub open spec fn headings_of(text: Seq<char>) -> Seq<Seq<char>> {
    lines_of(text).filter(|line: Seq<char>| is_heading(line))
}

/// The note on what is left off a long scratchpad.
pub open spec fn omission_note(discarded: Seq<char>) -> Seq<char> {
    let note = "<!-- earlier content truncated ("@ + decimal(byte_len(discarded))
        + " chars omitted) -->"@;
    if headings_of(discarded).len() == 0 {
        note
    } else {
        note + "\n<!-- discarded sections: "@ + joined(headings_of(discarded), " | "@) + " -->"@
    }
}

/// What is shown of a scratchpad.
pub open spec fn shown_scratchpad(content: Seq<char>) -> Seq<char> {
    if byte_len(content) > SCRATCHPAD_BUDGET {
        omission_note(content.take(left_off(content))) + "\n\n"@ + content.skip(left_off(content))
    } else {
        content
    }
}

/// A prompt behind the scratchpad, where that is enabled, could be read and is not blank.
pub open spec fn with_scratchpad(
    prompt: Seq<char>,
    scratchpad: ScratchpadConfig,
    content: Option<Seq<char>>,
) -> Seq<char> {
    if scratchpad.enabled && content is Some && !blank(content->0) {
        "<scratchpad path=\""@ + scratchpad.path@ + "\">\n"@ + shown_scratchpad(content->0)
            + "\n</scratchpad>\n\n"@ + prompt
    } else {
        prompt
    }
}

/// Counts the bytes of a text in UTF-8.
pub fn count_bytes(cs: &Vec<char>) -> (r: u128)
    ensures
        r == byte_len(cs@),
{
    let mut bytes: u128 = 0;
    let mut i: usize = 0;
    while i < cs.len()
        invariant
            i <= cs.len(),
            bytes == byte_len(cs@.take(i as int)),
            bytes <= 4 * i,
        decreases cs.len() - i,
    {
        assert(cs@.take(i + 1).drop_last() == cs@.take(i as int));
        bytes = bytes + utf8_len(cs[i]) as u128;
        i = i + 1;
    }
    assert(cs@.take(i as int) == cs@);
    bytes
}

/// Finds the longest prefix that takes at most some bytes.
fn find_prefix(cs: &Vec<char>, limit: u128) -> (r: usize)
    ensures
        r == prefix_within(cs@, limit as nat),
        r <= cs.len(),
{
    let mut bytes: u128 = 0;
    let mut i: usize = 0;
    assert(byte_len(cs@.take(0)) == 0);
    while i < cs.len()
        invariant
            i <= cs.len(),
            bytes == byte_len(cs@.take(i as int)),
            bytes <= 4 * i,
            bytes <= limit,
        decreases cs.len() - i,
    {
        assert(cs@.take(i + 1).drop_last() == cs@.take(i as int));
        let next: u128 = bytes + utf8_len(cs[i]) as u128;
        if next > limit {
            proof {
                lemma_prefix_within(cs@, limit as nat, i as int);
            }
            return i;
        }
        bytes = next;
        i = i + 1;
    }
    proof {
        lemma_prefix_within(cs@, limit as nat, i as int);
    }
    i
}

/// Collects the markdown headings of a text.
pub fn headings(text: &str) -> (r: Vec<String>)
    ensures
        texts(r@) == headings_of(text@),
{
    let all_lines = lines(text);
    let ghost all = texts(all_lines@);
    let ghost pred = |line: Seq<char>| is_heading(line);
    let mut r: Vec<String> = Vec::new();
    let mut i: usize = 0;
    proof {
        reveal(Seq::filter);
        assert(texts(r@) == all.take(0).filter(pred));
    }
    while i < all_lines.len()
        invariant
            i <= all_lines.len(),
            all == texts(all_lines@),
            pred == (|line: Seq<char>| is_heading(line)),
            texts(r@) == all.take(i as int).filter(pred),
        decreases all_lines.len() - i,
    {
        let ghost before = r@;
        proof {
            reveal(Seq::filter);
            assert(all.take(i + 1).drop_last() == all.take(i as int));
            assert(all.take(i + 1).last() == all_lines@[i as int]@);
        }
        let line = all_lines[i].as_str();
        if line.unicode_len() > 0 && line.get_char(0) == '#' {
            r.push(all_lines[i].clone());
            assert(texts(r@) == texts(before).push(all_lines@[i as int]@));
        }
        i = i + 1;
    }
    assert(all.take(i as int) == all);
    r
}

fn omission_text(discarded: &str) -> (r: String)
    ensures
        r@ == omission_note(discarded@),
{
    let sections = headings(discarded);
    let mut r = "<!-- earlier content truncated (".to_owned();
    r.append(wide_decimal_text(count_bytes(&to_chars(discarded))).as_str());
    r.append(" chars omitted) -->");
    assert(texts(sections@).len() == sections@.len());
    if sections.len() > 0 {
        r.append("\n<!-- discarded sections: ");
        r.append(join(&sections, " | ").as_str());
        r.append(" -->");
    }
    r
}

/// Selects what is shown of a scratchpad.
pub fn show_scratchpad(content: &str) -> (r: String)
    ensures
        r@ == shown_scratchpad(content@),
{
    let cs = to_chars(content);
    let n: usize = cs.len();
    let bytes: u128 = count_bytes(&cs);
    if bytes <= SCRATCHPAD_BUDGET {
        return content.to_owned();
    }
    let start: usize = find_prefix(&cs, bytes - SCRATCHPAD_BUDGET);
    let line_start: usize = match find_char(&cs, start, '\n') {
        Some(i) => if i + 1 < n {
            i + 1
        } else {
            start
        },
        None => start,
    };
    let mut r = omission_text(content.substring_char(0, line_start));
    r.append("\n\n");
    r.append(content.substring_char(line_start, n));
    r
}

/// Puts the scratchpad before a prompt. `content` is what was read of the scratchpad file, where
/// it exists and could be read.
pub fn prepend_scratchpad(prompt: &str, scratchpad: &ScratchpadConfig, content: Option<&str>) -> (r:
    String)
    ensures
        r@ == with_scratchpad(
            prompt@,
            *scratchpad,
            match content {
                Some(text) => Some(text@),
                None => None,
            },
        ),
{
    if !scratchpad.enabled {
        return prompt.to_owned();
    }
    match content {
        Some(text) => {
            if is_blank(text) {
                return prompt.to_owned();
            }
            let mut r = "<scratchpad path=\"".to_owned();
            r.append(scratchpad.path.as_str());
            r.append("\">\n");
            r.append(show_scratchpad(text).as_str());
            r.append("\n</scratchpad>\n\n");
            r.append(prompt);
            r
        },
        None => prompt.to_owned(),
    }
}

// ---- paths ----

/// The path of the active scratchpad: in the workspace of the loop, where it has one of its own.
pub open spec fn active_path(scratchpad: ScratchpadConfig, workspace: Option<Seq<char>>) -> Seq<
    char,
> {
    match workspace {
        Some(dir) => path_below(dir, scratchpad.path@),
        None => scratchpad.path@,
    }
}

/// Finds the path of the active scratchpad.
pub fn scratchpad_path(scratchpad: &ScratchpadConfig, workspace: Option<&str>) -> (r: String)
    ensures
        r@ == active_path(
            *scratchpad,
            match workspace {
                Some(dir) => Some(dir@),
                None => None,
            },
        ),
{
    match workspace {
        Some(dir) => join_path(dir, scratchpad.path.as_str()),
        None => scratchpad.path.clone(),
    }
}

/// The file that guidance is written to.
pub open spec fn guidance_file(
    active: ScratchpadConfig,
    global: ScratchpadConfig,
    workspace: Option<Seq<char>>,
    loop_global: Option<Seq<char>>,
    root: Seq<char>,
) -> Option<Seq<char>> {
    if active.enabled {
        Some(path_below(root, active_path(active, workspace)))
    } else if global.enabled {
        Some(
            path_below(
                root,
                match loop_global {
                    Some(path) => path,
                    None => global.path@,
                },
            ),
        )
    } else {
        None
    }
}

/// Finds the file that guidance is written to: the active scratchpad, or the global one where the
/// active one is disabled; none where both are. `loop_global` is the path of the global scratchpad
/// in the workspace of the loop, where it has one of its own.
pub fn guidance_path(
    active: &ScratchpadConfig,
    global: &ScratchpadConfig,
    workspace: Option<&str>,
    loop_global: Option<&str>,
    workspace_root: &str,
) -> (r: Option<String>)
    ensures
        match r {
            Some(path) => (active.enabled || global.enabled) && path@ == path_below(
                workspace_root@,
                if active.enabled {
                    active_path(
                        *active,
                        match workspace {
                            Some(dir) => Some(dir@),
                            None => None,
                        },
                    )
                } else {
                    match loop_global {
                        Some(path) => path@,
                        None => global.path@,
                    }
                },
            ),
            None => !active.enabled && !global.enabled,
        },
        crate::text::opt_text(r) == guidance_file(
            *active,
            *global,
            crate::text::str_text(workspace),
            crate::text::str_text(loop_global),
            workspace_root@,
        ),
{
    if active.enabled {
        let path = scratchpad_path(active, workspace);
        Some(join_path(workspace_root, path.as_str()))
    } else if global.enabled {
        match loop_global {
            Some(path) => Some(join_path(workspace_root, path)),
            None => Some(join_path(workspace_root, global.path.as_str())),
        }
    } else {
        None
    }
}

// ---- completion ----

/// Whether a line is an open checkbox.
pub open spec fn is_open_box(line: Seq<char>) -> bool {
    has_prefix(trimmed_start(line), "- [ ]"@)
}

/// Whether a scratchpad has an open checkbox.
pub open spec fn has_open_box(content: Seq<char>) -> bool {
    exists|i: int|
        0 <= i < lines_of(content).len() && is_open_box(#[trigger] lines_of(content)[i])
}

/// What a look at the scratchpad tells of the work.
#[derive(Debug, Clone, Copy, PartialEq, Eq, Structural)]
pub enum ScratchpadStatus {
    /// Nothing is left open.
    Complete,
    /// An open checkbox is left.
    Pending,
    /// The scratchpad is enabled and not there.
    Missing,
}

/// What a scratchpad says of the work.
pub open spec fn scratchpad_status(enabled: bool, content: Option<Seq<char>>) -> ScratchpadStatus {
    if !enabled {
        ScratchpadStatus::Complete
    } else if content is None {
        ScratchpadStatus::Missing
    } else if has_open_box(content->0) {
        ScratchpadStatus::Pending
    } else {
        ScratchpadStatus::Complete
    }
}

/// Tells whether all tasks in the scratchpad are done. A disabled scratchpad has none; `content` is
/// what the scratchpad file holds, where it exists.
pub fn scratchpad_complete(enabled: bool, content: Option<&str>) -> (r: ScratchpadStatus)
    ensures
        r == (if !enabled {
            ScratchpadStatus::Complete
        } else {
            match content {
                Some(text) => if has_open_box(text@) {
                    ScratchpadStatus::Pending
                } else {
                    ScratchpadStatus::Complete
                },
                None => ScratchpadStatus::Missing,
            }
        }),
        r == scratchpad_status(
            enabled,
            match content {
                Some(text) => Some(text@),
                None => None,
            },
        ),
{
    if !enabled {
        return ScratchpadStatus::Complete;
    }
    match content {
        Some(text) => {
            let all = lines(text);
            let ghost views = texts(all@);
            let mut i: usize = 0;
            while i < all.len()
                invariant
                    i <= all.len(),
                    views == texts(all@),
                    views == lines_of(text@),
                    enabled,
                    content == Some(text),
                    forall|j: int| 0 <= j < i ==> !is_open_box(#[trigger] views[j]),
                decreases all.len() - i,
            {
                assert(views[i as int] == all@[i as int]@);
                if starts_with(trim_start(all[i].as_str()), "- [ ]") {
                    assert(is_open_box(lines_of(text@)[i as int]));
                    return ScratchpadStatus::Pending;
                }
                i = i + 1;
            }
            ScratchpadStatus::Complete
        },
        None => ScratchpadStatus::Missing,
    }
}

} // verus!
