//! Process group leadership.
use vstd::prelude::*;

verus! {

/// What is done about the process group.
#[derive(Debug, Clone, Copy, PartialEq, Eq, Structural)]
pub enum GroupChange {
    /// The process leads its group already.
    AlreadyLeader,
    /// The group stays, as it is in the foreground of the terminal.
    KeepForeground,
    /// The process makes a group of its own.
    Lead,
}

/// Whether a group is in the foreground of the terminal: standard input tells, or else standard
/// output.
pub open spec fn in_foreground(
    group: i32,
    stdin_foreground: Option<i32>,
    stdout_foreground: Option<i32>,
) -> bool {
    match stdin_foreground {
        Some(foreground) => foreground == group,
        None => stdout_foreground == Some(group),
    }
}

fn is_foreground_tty_group(
    group: i32,
    stdin_foreground: Option<i32>,
    stdout_foreground: Option<i32>,
) -> (r: bool)
    ensures
        r == in_foreground(group, stdin_foreground, stdout_foreground),
{
    match stdin_foreground {
        Some(foreground) => foreground == group,
        None => match stdout_foreground {
            Some(foreground) => foreground == group,
            None => false,
        },
    }
}

/// What becomes of the process group.
pub open spec fn group_change(
    pid: i32,
    group: i32,
    stdin_foreground: Option<i32>,
    stdout_foreground: Option<i32>,
) -> GroupChange {
    if group == pid {
        GroupChange::AlreadyLeader
    } else if in_foreground(group, stdin_foreground, stdout_foreground) {
        GroupChange::KeepForeground
    } else {
        GroupChange::Lead
    }
}

/// Decides what is done about the process group, so that all processes of the orchestrator can be
/// signalled at once. A group in the foreground of the terminal is kept, as leaving it would cut the
/// process off from the input. The foreground groups are those of the terminals on standard input
/// and output, where they are terminals whose foreground group is known.
pub fn setup_process_group(
    pid: i32,
    group: i32,
    stdin_foreground: Option<i32>,
    stdout_foreground: Option<i32>,
) -> (r: GroupChange)
    ensures
        r == (if group == pid {
            GroupChange::AlreadyLeader
        } else if in_foreground(group, stdin_foreground, stdout_foreground) {
            GroupChange::KeepForeground
        } else {
            GroupChange::Lead
        }),
        r == group_change(pid, group, stdin_foreground, stdout_foreground),
{
    if group == pid {
        return GroupChange::AlreadyLeader;
    }
    if is_foreground_tty_group(group, stdin_foreground, stdout_foreground) {
        return GroupChange::KeepForeground;
    }
    GroupChange::Lead
}

} // verus!
