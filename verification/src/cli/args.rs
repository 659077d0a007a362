//! Arguments of the command line.
use crate::cli::hooks_report::HooksArgs;
use crate::cli::types::OutputFormat;
use vstd::prelude::*;

verus! {

/// A command.
#[derive(Debug)]
pub enum Commands {
    /// Run the orchestration loop, which is also what happens without a command.
    Run(RunArgs),
    /// Run the checks before a run.
    Preflight,
    /// Validate hooks configuration and command wiring.
    Hooks(HooksArgs),
    /// Run first-run diagnostics and environment checks.
    Doctor,
    /// Walk through hats, hat collections and workflow.
    Tutorial,
    /// Resume an interrupted loop (deprecated).
    Resume(ResumeArgs),
    /// View the history of events.
    Events(EventsArgs),
    /// Make a new configuration file.
    Init,
    /// Remove files of earlier runs.
    Clean,
    /// Emit an event to the events file of the current run.
    Emit(EmitArgs),
    /// Start a planning session.
    Plan,
    /// Generate code task files.
    CodeTask,
    /// Another name for code tasks.
    Task,
    /// Runtime tools for agents.
    Tools,
    /// Dispatch wave events.
    Wave,
    /// Manage parallel loops.
    Loops,
    /// Manage configured hats.
    Hats,
    /// Attach a terminal interface to a server.
    Tui(TuiArgs),
    /// Run the web dashboard.
    Web,
    /// Run as a protocol server over standard input and output.
    Mcp,
    /// Manage the bot.
    Bot,
    /// Generate shell completions.
    Completions,
}

/// Arguments for running the loop.
#[derive(Debug)]
pub struct RunArgs {
    /// Inline prompt text.
    pub prompt_text: Option<String>,
    /// Backend in place of the configured one.
    pub backend: Option<String>,
    /// Prompt file.
    pub prompt_file: Option<String>,
    /// Iteration limit in place of the configured one.
    pub max_iterations: Option<u32>,
    /// Completion promise in place of the configured one.
    pub completion_promise: Option<String>,
    /// Show what would be executed without running.
    pub dry_run: bool,
    /// Continue from the existing scratchpad.
    pub continue_mode: bool,
    /// Identifier of the loop to continue.
    pub loop_id: Option<String>,
    /// No terminal interface.
    pub no_tui: bool,
    /// Headless, non-interactive.
    pub autonomous: bool,
    /// JSON lines on standard input and output.
    pub rpc: bool,
    /// Terminal interface within the process.
    pub legacy_tui: bool,
    /// Idle timeout in seconds in place of the configured one.
    pub idle_timeout: Option<u32>,
    /// Wait for the primary loop slot.
    pub exclusive: bool,
    /// Keep the worktree instead of merging it.
    pub no_auto_merge: bool,
    /// No checks before the run.
    pub skip_preflight: bool,
    pub verbose: bool,
    pub quiet: bool,
    /// File that the session is recorded to.
    pub record_session: Option<String>,
    /// Arguments for the backend.
    pub custom_args: Vec<String>,
}

impl Default for RunArgs {
    /// The arguments of a run without any.
    fn default() -> (r: Self)
        ensures
            r.prompt_text is None,
            r.backend is None,
            r.prompt_file is None,
            r.max_iterations is None,
            r.completion_promise is None,
            !r.dry_run,
            !r.continue_mode,
            r.loop_id is None,
            !r.no_tui,
            !r.autonomous,
            !r.rpc,
            !r.legacy_tui,
            r.idle_timeout is None,
            !r.exclusive,
            !r.no_auto_merge,
            !r.skip_preflight,
            !r.verbose,
            !r.quiet,
            r.record_session is None,
            r.custom_args@.len() == 0,
    {
        RunArgs {
            prompt_text: None,
            backend: None,
            prompt_file: None,
            max_iterations: None,
            completion_promise: None,
            dry_run: false,
            continue_mode: false,
            loop_id: None,
            no_tui: false,
            autonomous: false,
            rpc: false,
            legacy_tui: false,
            idle_timeout: None,
            exclusive: false,
            no_auto_merge: false,
            skip_preflight: false,
            verbose: false,
            quiet: false,
            record_session: None,
            custom_args: Vec::new(),
        }
    }
}

/// Arguments for resuming a loop.
#[derive(Debug)]
pub struct ResumeArgs {
    /// Iteration limit in place of the configured one.
    pub max_iterations: Option<u32>,
    /// No terminal interface.
    pub no_tui: bool,
    /// Headless, non-interactive.
    pub autonomous: bool,
    /// JSON lines on standard input and output.
    pub rpc: bool,
    /// Idle timeout in seconds in place of the configured one.
    pub idle_timeout: Option<u32>,
    pub verbose: bool,
    pub quiet: bool,
    /// File that the session is recorded to.
    pub record_session: Option<String>,
}

/// Arguments for the terminal interface of a server.
#[derive(Debug)]
pub struct TuiArgs {
    /// Address of the server.
    pub url: Option<String>,
}

/// Arguments for the history of events.
#[derive(Debug)]
pub struct EventsArgs {
    /// Only the last events, this many.
    pub last: Option<usize>,
    /// Only events of a topic.
    pub topic: Option<String>,
    /// Only events of an iteration.
    pub iteration: Option<u32>,
    pub format: OutputFormat,
    /// Events file in place of that of the current run.
    pub file: Option<String>,
    /// Remove the history.
    pub clear: bool,
}

/// Arguments for emitting an event.
#[derive(Debug)]
pub struct EmitArgs {
    pub topic: String,
    pub payload: String,
    /// Whether the payload is JSON.
    pub json: bool,
    /// Time of the event in place of the current one.
    pub ts: Option<String>,
    /// Events file.
    pub file: String,
}

/// Whether a command runs a loop.
pub open spec fn runs_loop(command: Option<Commands>) -> bool {
    command is None || command->0 is Run || command->0 is Resume
}

/// Tells whether a command may make a directory for diagnostics: only those that run a loop may, as
/// others would leave empty ones behind.
pub fn is_diagnostics_eligible_command(command: Option<&Commands>) -> (r: bool)
    ensures
        r == (match command {
            Some(command) => runs_loop(Some(*command)),
            None => true,
        }),
{
    match command {
        Some(Commands::Run(_)) => true,
        Some(Commands::Resume(_)) => true,
        None => true,
        _ => false,
    }
}

/// Whether the terminal interface is asked for.
pub open spec fn asks_tui(no_tui: bool, autonomous: bool, rpc: bool) -> bool {
    !no_tui && !autonomous && !rpc
}

/// Whether a command shows the terminal interface.
pub open spec fn shows_tui(command: Option<Commands>) -> bool {
    match command {
        Some(Commands::Run(args)) => asks_tui(args.no_tui, args.autonomous, args.rpc),
        Some(Commands::Resume(args)) => asks_tui(args.no_tui, args.autonomous, args.rpc),
        Some(_) => false,
        None => true,
    }
}

/// Tells whether the terminal interface owns the terminal: it does by default in commands that run
/// a loop.
pub fn tui_enabled(command: Option<&Commands>) -> (r: bool)
    ensures
        r == (match command {
            Some(Commands::Run(args)) => asks_tui(args.no_tui, args.autonomous, args.rpc),
            Some(Commands::Resume(args)) => asks_tui(args.no_tui, args.autonomous, args.rpc),
            Some(_) => false,
            None => true,
        }),
        r == shows_tui(
            match command {
                Some(command) => Some(*command),
                None => None,
            },
        ),
{
    match command {
        Some(Commands::Run(args)) => !args.no_tui && !args.autonomous && !args.rpc,
        Some(Commands::Resume(args)) => !args.no_tui && !args.autonomous && !args.rpc,
        Some(_) => false,
        None => true,
    }
}

/// Tells whether the output is reserved for a remote caller.
pub fn rpc_enabled(command: Option<&Commands>) -> (r: bool)
    ensures
        r == (match command {
            Some(Commands::Run(args)) => args.rpc,
            Some(Commands::Resume(args)) => args.rpc,
            _ => false,
        }),
{
    match command {
        Some(Commands::Run(args)) => args.rpc,
        Some(Commands::Resume(args)) => args.rpc,
        _ => false,
    }
}

/// Tells whether the output is reserved for a protocol.
pub fn mcp_enabled(command: Option<&Commands>) -> (r: bool)
    ensures
        r == (command matches Some(command) && command is Mcp),
{
    match command {
        Some(Commands::Mcp) => true,
        _ => false,
    }
}

} // verus!
