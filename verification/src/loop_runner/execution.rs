//! How prompts are executed, and what is taken of their output.
use crate::cli::types::Verbosity;
use crate::config::hats::HatBackend;
use crate::event_loop::routing::clone_texts;
use crate::loop_runner::termination::TerminationReason;
use crate::path::{file_name, last_name};
use crate::text::{first_word, str_eq, texts, unique, without_repeats, word};
use vstd::prelude::*;

verus! {

/// How a pseudo-terminal session ended.
#[derive(Debug, Clone, Copy, PartialEq, Eq, Structural)]
pub enum TerminationType {
    Natural,
    IdleTimeout,
    UserInterrupt,
    ForceKill,
}

/// The reason for which the end of a session ends the loop.
pub open spec fn session_reason(termination_type: TerminationType, interactive: bool) -> Option<
    TerminationReason,
> {
    match termination_type {
        TerminationType::Natural => None,
        TerminationType::IdleTimeout => if interactive {
            None
        } else {
            Some(TerminationReason::Stopped)
        },
        TerminationType::UserInterrupt | TerminationType::ForceKill => Some(
            TerminationReason::Interrupted,
        ),
    }
}

/// The reason for which the end of a session ends the loop: an idle timeout of an interactive
/// session only ends the iteration.
pub fn convert_termination_type(termination_type: TerminationType, interactive: bool) -> (r: Option<
    TerminationReason,
>)
    ensures
        r == (match termination_type {
            TerminationType::Natural => None,
            TerminationType::IdleTimeout => if interactive {
                None
            } else {
                Some(TerminationReason::Stopped)
            },
            TerminationType::UserInterrupt | TerminationType::ForceKill => Some(
                TerminationReason::Interrupted,
            ),
        }),
        r == session_reason(termination_type, interactive),
{
    match termination_type {
        TerminationType::Natural => None,
        TerminationType::IdleTimeout => if interactive {
            None
        } else {
            Some(TerminationReason::Stopped)
        },
        TerminationType::UserInterrupt => Some(TerminationReason::Interrupted),
        TerminationType::ForceKill => Some(TerminationReason::Interrupted),
    }
}

/// How a loop runs.
#[derive(Debug, Clone, Copy, PartialEq, Eq, Structural)]
pub struct ExecutionMode {
    /// Whether the user takes part in sessions.
    pub interactive: bool,
    /// Whether prompts are executed in a pseudo-terminal.
    pub pty: bool,
    /// Whether the terminal interface is shown.
    pub tui: bool,
    /// Seconds after which an idle session ends; zero for never.
    pub idle_timeout_secs: u32,
    /// Whether the pseudo-terminal is made very wide, so that long lines are not wrapped.
    pub wide: bool,
}

/// How a loop runs.
pub open spec fn mode_of(
    default_mode: Seq<char>,
    enable_tui: bool,
    enable_rpc: bool,
    stdin_terminal: bool,
    stdout_terminal: bool,
    idle_timeout_secs: u32,
) -> ExecutionMode {
    let interactive = default_mode == "interactive"@ && !enable_tui && stdout_terminal;
    ExecutionMode {
        interactive,
        pty: enable_tui || enable_rpc || interactive,
        tui: enable_tui && !enable_rpc && stdin_terminal && stdout_terminal,
        idle_timeout_secs: if interactive {
            idle_timeout_secs
        } else {
            0
        },
        wide: !interactive,
    }
}

/// Decides how a loop runs. Interactive sessions need a terminal and no terminal interface; a
/// pseudo-terminal is used wherever someone looks on; the terminal interface needs both terminals
/// and no remote caller.
pub fn execution_mode(
    default_mode: &str,
    enable_tui: bool,
    enable_rpc: bool,
    stdin_terminal: bool,
    stdout_terminal: bool,
    idle_timeout_secs: u32,
) -> (r: ExecutionMode)
    ensures
        r.interactive == (default_mode@ == "interactive"@ && !enable_tui && stdout_terminal),
        r.pty == (enable_tui || enable_rpc || r.interactive),
        r.tui == (enable_tui && !enable_rpc && stdin_terminal && stdout_terminal),
        r.idle_timeout_secs == if r.interactive {
            idle_timeout_secs
        } else {
            0
        },
        r.wide == !r.interactive,
        r == mode_of(
            default_mode@,
            enable_tui,
            enable_rpc,
            stdin_terminal,
            stdout_terminal,
            idle_timeout_secs,
        ),
{
    let interactive = str_eq(default_mode, "interactive") && !enable_tui && stdout_terminal;
    ExecutionMode {
        interactive,
        pty: enable_tui || enable_rpc || interactive,
        tui: enable_tui && !enable_rpc && stdin_terminal && stdout_terminal,
        idle_timeout_secs: if interactive {
            idle_timeout_secs
        } else {
            0
        },
        wide: !interactive,
    }
}

/// What executes a prompt.
#[derive(Debug, Clone, Copy, PartialEq, Eq, Structural)]
pub enum Executor {
    Acp,
    Pty,
    Cli,
}

/// What executes a prompt.
pub open spec fn executor_of(acp_backend: bool, pty: bool) -> Executor {
    if acp_backend {
        Executor::Acp
    } else if pty {
        Executor::Pty
    } else {
        Executor::Cli
    }
}

/// Chooses what executes a prompt.
pub fn choose_executor(acp_backend: bool, pty: bool) -> (r: Executor)
    ensures
        r == (if acp_backend {
            Executor::Acp
        } else if pty {
            Executor::Pty
        } else {
            Executor::Cli
        }),
        r == executor_of(acp_backend, pty),
{
    if acp_backend {
        Executor::Acp
    } else if pty {
        Executor::Pty
    } else {
        Executor::Cli
    }
}

/// Where the output of an execution goes.
#[derive(Debug, Clone, Copy, PartialEq, Eq, Structural)]
pub enum OutputStream {
    /// To and from the terminal of the user, without any handler.
    Raw,
    /// To the terminal interface.
    Tui { verbose: bool },
    /// To the remote caller.
    Rpc,
    /// Nowhere.
    Quiet,
    /// To the console, rendered.
    Pretty { verbose: bool },
    /// To the console, as it is.
    Console { verbose: bool },
}

/// Where console output goes, by verbosity.
pub open spec fn console_stream(verbosity: Verbosity, pretty: bool) -> OutputStream {
    match verbosity {
        Verbosity::Quiet => OutputStream::Quiet,
        _ => if pretty {
            OutputStream::Pretty { verbose: verbosity == Verbosity::Verbose }
        } else {
            OutputStream::Console { verbose: verbosity == Verbosity::Verbose }
        },
    }
}

fn console(verbosity: Verbosity, pretty: bool) -> (r: OutputStream)
    ensures
        r == console_stream(verbosity, pretty),
{
    match verbosity {
        Verbosity::Quiet => OutputStream::Quiet,
        Verbosity::Normal => if pretty {
            OutputStream::Pretty { verbose: false }
        } else {
            OutputStream::Console { verbose: false }
        },
        Verbosity::Verbose => if pretty {
            OutputStream::Pretty { verbose: true }
        } else {
            OutputStream::Console { verbose: true }
        },
    }
}

/// Where the output of a session goes.
pub open spec fn session_stream(
    raw: bool,
    tui: bool,
    rpc: bool,
    verbosity: Verbosity,
    pretty: bool,
) -> OutputStream {
    if tui {
        OutputStream::Tui { verbose: verbosity == Verbosity::Verbose }
    } else if rpc {
        OutputStream::Rpc
    } else if raw {
        OutputStream::Raw
    } else {
        console_stream(verbosity, pretty)
    }
}

/// Chooses where the output of an agent protocol session goes.
pub fn acp_stream(tui: bool, rpc: bool, verbosity: Verbosity) -> (r: OutputStream)
    ensures
        r == (if tui {
            OutputStream::Tui { verbose: verbosity == Verbosity::Verbose }
        } else if rpc {
            OutputStream::Rpc
        } else {
            console_stream(verbosity, false)
        }),
        r == session_stream(false, tui, rpc, verbosity, false),
{
    if tui {
        OutputStream::Tui { verbose: verbosity == Verbosity::Verbose }
    } else if rpc {
        OutputStream::Rpc
    } else {
        console(verbosity, false)
    }
}

/// Chooses where the output of a pseudo-terminal session goes. Output is rendered where the backend
/// streams JSON to a terminal.
pub fn pty_stream(
    interactive: bool,
    tui: bool,
    rpc: bool,
    verbosity: Verbosity,
    stream_json: bool,
    stdout_terminal: bool,
) -> (r: OutputStream)
    ensures
        r == (if tui {
            OutputStream::Tui { verbose: verbosity == Verbosity::Verbose }
        } else if rpc {
            OutputStream::Rpc
        } else if interactive {
            OutputStream::Raw
        } else {
            console_stream(verbosity, stream_json && stdout_terminal)
        }),
        r == session_stream(interactive, tui, rpc, verbosity, stream_json && stdout_terminal),
{
    if interactive && !tui && !rpc {
        OutputStream::Raw
    } else if tui {
        OutputStream::Tui { verbose: verbosity == Verbosity::Verbose }
    } else if rpc {
        OutputStream::Rpc
    } else {
        console(verbosity, stream_json && stdout_terminal)
    }
}

/// Tells whether an execution switches the terminal to raw mode: an interactive one, unless an
/// executor that is connected to an interface looks after the terminal.
pub fn owns_raw_mode(interactive: bool, connected: bool) -> (r: bool)
    ensures
        r == (interactive && !connected),
{
    interactive && !connected
}

/// Chooses the output that is looked through for events: the extracted text, or the stripped output
/// where no text was extracted.
pub fn output_for_parsing(extracted: String, stripped: String) -> (r: String)
    ensures
        r == if extracted@.len() == 0 {
            stripped
        } else {
            extracted
        },
{
    if extracted.as_str().unicode_len() == 0 {
        stripped
    } else {
        extracted
    }
}

/// The name of the command of a backend: the file name of its first word.
pub open spec fn command_name(command: Seq<char>) -> Seq<char> {
    let base = if first_word(command).len() == 0 {
        command
    } else {
        first_word(command)
    };
    match last_name(base) {
        Some(name) => name,
        None => "custom"@,
    }
}

/// The name under which the settings of a backend of a hat are found.
pub open spec fn backend_name(backend: HatBackend) -> Seq<char> {
    match backend {
        HatBackend::Named(name) => name@,
        HatBackend::NamedWithArgs { backend_type, .. } => backend_type@,
        HatBackend::KiroAgent { backend_type, .. } => backend_type@,
        HatBackend::Custom { command, .. } => command_name(command@),
    }
}

/// Finds the name under which the settings of the backend in use are found: that of the hat, where
/// it has one that could be made, or the global one.
pub fn backend_name_for_timeout(hat_backend: Option<&HatBackend>, made: bool, global: &str) -> (r:
    String)
    ensures
        r@ == (match hat_backend {
            Some(backend) => if made {
                backend_name(*backend)
            } else {
                global@
            },
            None => global@,
        }),
{
    match hat_backend {
        Some(backend) => {
            if !made {
                return global.to_owned();
            }
            match backend {
                HatBackend::Named(name) => name.clone(),
                HatBackend::NamedWithArgs { backend_type, .. } => backend_type.clone(),
                HatBackend::KiroAgent { backend_type, .. } => backend_type.clone(),
                HatBackend::Custom { command, .. } => {
                    let first = word(command.as_str());
                    let base = if first.unicode_len() == 0 {
                        command.as_str()
                    } else {
                        first
                    };
                    match file_name(base) {
                        Some(name) => name,
                        None => "custom".to_owned(),
                    }
                },
            }
        },
        None => global.to_owned(),
    }
}

/// The hat that a prompt is executed for.
pub open spec fn displayed_hat(id: Seq<char>, active: Seq<Seq<char>>, preview: Seq<char>) -> Seq<char> {
    if id != "ralph"@ {
        id
    } else if active.len() > 0 {
        active[0]
    } else {
        preview
    }
}

/// Chooses the hat that is shown before a prompt is built: where the coordinator executes, the
/// active hat.
pub fn preview_display_hat(hat_id: &str, active_hat: &str) -> (r: String)
    ensures
        r@ == if hat_id@ == "ralph"@ {
            active_hat@
        } else {
            hat_id@
        },
        r@ == displayed_hat(hat_id@, Seq::empty(), active_hat@),
{
    if str_eq(hat_id, "ralph") {
        active_hat.to_owned()
    } else {
        hat_id.to_owned()
    }
}

/// Chooses the hat that a prompt is executed for: where the coordinator executes, the first hat that
/// the prompt was built for.
pub fn resolve_display_hat_for_execution(
    hat_id: &str,
    last_active_hat_ids: &Vec<String>,
    preview_display_hat: &str,
) -> (r: String)
    ensures
        r@ == (if hat_id@ != "ralph"@ {
            hat_id@
        } else if last_active_hat_ids@.len() > 0 {
            last_active_hat_ids@[0]@
        } else {
            preview_display_hat@
        }),
        r@ == displayed_hat(hat_id@, texts(last_active_hat_ids@), preview_display_hat@),
{
    if !str_eq(hat_id, "ralph") {
        return hat_id.to_owned();
    }
    if last_active_hat_ids.len() > 0 {
        last_active_hat_ids[0].clone()
    } else {
        preview_display_hat.to_owned()
    }
}

/// The hats whose default events are tried in turn where an agent wrote no events: the hat that was
/// shown, unless it is the coordinator, then the active hats.
pub open spec fn hats_for_defaults(display: Seq<char>, active: Seq<Seq<char>>) -> Seq<Seq<char>> {
    if display == "ralph"@ {
        without_repeats(active)
    } else {
        without_repeats(seq![display] + active)
    }
}

/// Lists the hats whose default events are tried in turn, up to the first one that leads to pending
/// events.
pub fn fallback_hats(display_hat: &str, last_active_hat_ids: &Vec<String>) -> (r: Vec<String>)
    ensures
        texts(r@) == hats_for_defaults(display_hat@, texts(last_active_hat_ids@)),
{
    if str_eq(display_hat, "ralph") {
        return unique(last_active_hat_ids);
    }
    let mut all: Vec<String> = Vec::new();
    all.push(display_hat.to_owned());
    let mut active = clone_texts(last_active_hat_ids);
    all.append(&mut active);
    assert(texts(all@) == seq![display_hat@] + texts(last_active_hat_ids@));
    unique(&all)
}

/// The hat whose default events are tried next.
pub open spec fn tried_next(hats: Seq<Seq<char>>, tried: nat, pending: bool) -> Option<Seq<char>> {
    if tried < hats.len() && (tried == 0 || !pending) {
        Some(hats[tried as int])
    } else {
        None
    }
}

/// Chooses the hat whose default events are tried next, where `tried` of the hats were tried and
/// `pending` tells whether events are pending now. One default is sufficient: behind a hat whose
/// defaults led to pending events no other one is tried. Before the first hat, what is pending does
/// not count.
pub fn next_default(hats: &Vec<String>, tried: usize, pending: bool) -> (r: Option<&String>)
    ensures
        match r {
            Some(hat) => tried < hats@.len() && (tried == 0 || !pending) && hat@
                == hats@[tried as int]@,
            None => tried >= hats@.len() || (tried > 0 && pending),
        },
        match r {
            Some(hat) => tried_next(texts(hats@), tried as nat, pending) == Some(hat@),
            None => tried_next(texts(hats@), tried as nat, pending) is None,
        },
{
    if tried >= hats.len() || (tried > 0 && pending) {
        None
    } else {
        Some(&hats[tried])
    }
}

} // verus!
