//! Running and resuming loops from the command line.
use crate::cli::args::{asks_tui, ResumeArgs, RunArgs, TuiArgs};
use crate::cli::config_source::{
    source_text, source_texts, source_views, ConfigSource, HatsSource, SourceView,
};
use crate::cli::hooks_text::{bool_text, bool_word};
use crate::config::event_loop::EventLoopConfig;
use crate::config::hats::NamedHat;
use crate::config::ralph_config::RalphConfig;
use crate::config::settings::CliConfig;
use crate::event_loop::routing::clone_texts;
use crate::loop_runner::termination::TerminationReason;
use crate::text::{
    decimal, decimal_text, join, joined, opt_text, str_eq, str_text, texts, to_chars,
};
use vstd::prelude::*;

verus! {

/// The shell command that restarts a loop.
pub fn required_restart_command(pid: u32) -> (r: String)
    ensures
        r@ == "kill "@ + decimal(pid as nat)
            + " && RALPH_DIAGNOSTICS=1 cargo run --bin ralph -- resume -c ralph.test.yml"@,
{
    let mut r = "kill ".to_owned();
    r.append(decimal_text(pid as u64).as_str());
    r.append(" && RALPH_DIAGNOSTICS=1 cargo run --bin ralph -- resume -c ralph.test.yml");
    r
}

/// Chooses the address of the server that a terminal interface is attached to: the given one, that
/// of `RALPH_API_URL`, or the local one.
pub fn tui_url(args: &TuiArgs, ralph_api_url: Option<&str>) -> (r: String)
    ensures
        r@ == (match args.url {
            Some(url) => url@,
            None => match ralph_api_url {
                Some(url) => url@,
                None => "http://127.0.0.1:3000"@,
            },
        }),
{
    match &args.url {
        Some(url) => url.clone(),
        None => match ralph_api_url {
            Some(url) => url.to_owned(),
            None => "http://127.0.0.1:3000".to_owned(),
        },
    }
}

/// Why a run cannot be continued.
pub open spec fn continue_fault(resume: bool, scratchpad_exists: bool, path: Seq<char>) -> Option<
    Seq<char>,
> {
    if resume && !scratchpad_exists {
        Some(
            "Cannot continue: scratchpad not found at '"@ + path
                + "'. Start a fresh run with `ralph run`."@,
        )
    } else {
        None
    }
}

/// Refuses to continue a loop whose scratchpad is gone.
pub fn check_continue(resume: bool, scratchpad_exists: bool, scratchpad_path: &str) -> (r: Result<
    (),
    String,
>)
    ensures
        match r {
            Ok(_) => !resume || scratchpad_exists,
            Err(message) => resume && !scratchpad_exists && message@
                == "Cannot continue: scratchpad not found at '"@ + scratchpad_path@
                + "'. Start a fresh run with `ralph run`."@,
        },
        match r {
            Ok(_) => continue_fault(resume, scratchpad_exists, scratchpad_path@) is None,
            Err(message) => continue_fault(resume, scratchpad_exists, scratchpad_path@) == Some(
                message@,
            ),
        },
{
    if !resume || scratchpad_exists {
        return Ok(());
    }
    let mut message = "Cannot continue: scratchpad not found at '".to_owned();
    message.append(scratchpad_path);
    message.append("'. Start a fresh run with `ralph run`.");
    Err(message)
}

/// The prompt of a run: a given text or file replaces both settings.
pub open spec fn run_prompt(args: RunArgs, config: EventLoopConfig) -> (
    Option<Seq<char>>,
    Seq<char>,
) {
    if args.prompt_text is Some {
        (opt_text(args.prompt_text), ""@)
    } else if args.prompt_file is Some {
        (None, args.prompt_file->0@)
    } else {
        (opt_text(config.prompt), config.prompt_file@)
    }
}

/// The mode that flags ask for: interactive, unless they say otherwise.
pub open spec fn mode_of(autonomous: bool, no_tui: bool, configured: Seq<char>) -> Seq<char> {
    if autonomous {
        "autonomous"@
    } else if !no_tui {
        "interactive"@
    } else {
        configured
    }
}

/// A given value, or a configured one.
pub open spec fn given_or<T>(given: Option<T>, configured: T) -> T {
    match given {
        Some(value) => value,
        None => configured,
    }
}

fn apply_mode(cli: &mut CliConfig, autonomous: bool, no_tui: bool, idle_timeout: Option<u32>)
    ensures
        final(cli).default_mode@ == mode_of(autonomous, no_tui, old(cli).default_mode@),
        final(cli).idle_timeout_secs == given_or(idle_timeout, old(cli).idle_timeout_secs),
        *final(cli) == (CliConfig {
            default_mode: final(cli).default_mode,
            idle_timeout_secs: final(cli).idle_timeout_secs,
            ..*old(cli)
        }),
{
    if autonomous {
        cli.default_mode = "autonomous".to_owned();
    } else if !no_tui {
        cli.default_mode = "interactive".to_owned();
    }
    if let Some(timeout) = idle_timeout {
        cli.idle_timeout_secs = timeout;
    }
}

fn apply_loop(event_loop: &mut EventLoopConfig, args: &RunArgs)
    ensures
        (opt_text(final(event_loop).prompt), final(event_loop).prompt_file@) == run_prompt(
            *args,
            *old(event_loop),
        ),
        final(event_loop).max_iterations == given_or(
            args.max_iterations,
            old(event_loop).max_iterations,
        ),
        final(event_loop).completion_promise == given_or(
            args.completion_promise,
            old(event_loop).completion_promise,
        ),
        *final(event_loop) == (EventLoopConfig {
            prompt: final(event_loop).prompt,
            prompt_file: final(event_loop).prompt_file,
            max_iterations: final(event_loop).max_iterations,
            completion_promise: final(event_loop).completion_promise,
            ..*old(event_loop)
        }),
{
    if let Some(text) = &args.prompt_text {
        event_loop.prompt = Some(text.clone());
        event_loop.prompt_file = "".to_owned();
    } else if let Some(path) = &args.prompt_file {
        event_loop.prompt_file = path.clone();
        event_loop.prompt = None;
    }
    if let Some(limit) = args.max_iterations {
        event_loop.max_iterations = limit;
    }
    if let Some(promise) = &args.completion_promise {
        event_loop.completion_promise = promise.clone();
    }
}

/// Sets what the arguments of a run give in place of the configuration.
pub fn apply_run_overrides(config: &mut RalphConfig, args: &RunArgs, verbose: bool)
    ensures
        (opt_text(final(config).event_loop.prompt), final(config).event_loop.prompt_file@)
            == run_prompt(*args, old(config).event_loop),
        final(config).event_loop.max_iterations == given_or(
            args.max_iterations,
            old(config).event_loop.max_iterations,
        ),
        final(config).event_loop.completion_promise == given_or(
            args.completion_promise,
            old(config).event_loop.completion_promise,
        ),
        final(config).verbose == (old(config).verbose || verbose),
        final(config).cli.default_mode@ == mode_of(
            args.autonomous,
            args.no_tui,
            old(config).cli.default_mode@,
        ),
        final(config).cli.idle_timeout_secs == given_or(
            args.idle_timeout,
            old(config).cli.idle_timeout_secs,
        ),
        final(config).cli.backend == given_or(args.backend, old(config).cli.backend),
        *final(config) == (RalphConfig {
            event_loop: EventLoopConfig {
                prompt: final(config).event_loop.prompt,
                prompt_file: final(config).event_loop.prompt_file,
                max_iterations: final(config).event_loop.max_iterations,
                completion_promise: final(config).event_loop.completion_promise,
                ..old(config).event_loop
            },
            cli: CliConfig {
                default_mode: final(config).cli.default_mode,
                idle_timeout_secs: final(config).cli.idle_timeout_secs,
                backend: final(config).cli.backend,
                ..old(config).cli
            },
            verbose: final(config).verbose,
            ..*old(config)
        }),
{
    apply_loop(&mut config.event_loop, args);
    if verbose {
        config.verbose = true;
    }
    apply_mode(&mut config.cli, args.autonomous, args.no_tui, args.idle_timeout);
    if let Some(backend) = &args.backend {
        config.cli.backend = backend.clone();
    }
}

/// Sets what the arguments of a resumed loop give in place of the configuration.
pub fn apply_resume_overrides(config: &mut RalphConfig, args: &ResumeArgs, verbose: bool)
    ensures
        final(config).cli.default_mode@ == mode_of(
            args.autonomous,
            args.no_tui,
            old(config).cli.default_mode@,
        ),
        *final(config) == (RalphConfig {
            event_loop: EventLoopConfig {
                max_iterations: given_or(
                    args.max_iterations,
                    old(config).event_loop.max_iterations,
                ),
                ..old(config).event_loop
            },
            cli: CliConfig {
                default_mode: final(config).cli.default_mode,
                idle_timeout_secs: given_or(args.idle_timeout, old(config).cli.idle_timeout_secs),
                ..old(config).cli
            },
            verbose: old(config).verbose || verbose,
            ..*old(config)
        }),
{
    if let Some(limit) = args.max_iterations {
        config.event_loop.max_iterations = limit;
    }
    if verbose {
        config.verbose = true;
    }
    apply_mode(&mut config.cli, args.autonomous, args.no_tui, args.idle_timeout);
}

/// Tells whether a backend has to be detected.
pub fn needs_detection(config: &RalphConfig) -> (r: bool)
    ensures
        r == (config.cli.backend@ == "auto"@),
{
    str_eq(config.cli.backend.as_str(), "auto")
}

/// How a run is executed.
#[derive(Debug, Clone, Copy, PartialEq, Eq, Structural)]
pub struct RunModes {
    /// In a child process, with the terminal interface in this one.
    pub subprocess_tui: bool,
    /// With the terminal interface in the process of the loop.
    pub enable_tui: bool,
    /// With JSON lines on standard input and output.
    pub enable_rpc: bool,
    /// What is said about merging, where something is.
    pub auto_merge_override: Option<bool>,
}

/// How a run is looked at.
pub open spec fn modes_asked(args: RunArgs, terminal: bool) -> RunModes {
    let tui = asks_tui(args.no_tui, args.autonomous, args.rpc);
    RunModes {
        subprocess_tui: tui && !args.legacy_tui && terminal,
        enable_tui: tui && args.legacy_tui,
        enable_rpc: args.rpc,
        auto_merge_override: if args.no_auto_merge {
            Some(false)
        } else {
            None
        },
    }
}

/// Decides how a run is executed. The terminal interface needs a terminal; it has the loop in a
/// child process, unless the loop is to stay in its process.
pub fn run_modes(args: &RunArgs, terminal: bool) -> (r: RunModes)
    ensures
        r.subprocess_tui == (asks_tui(args.no_tui, args.autonomous, args.rpc) && !args.legacy_tui
            && terminal),
        r.enable_tui == (asks_tui(args.no_tui, args.autonomous, args.rpc) && args.legacy_tui),
        r.enable_rpc == args.rpc,
        r.auto_merge_override == if args.no_auto_merge {
            Some(false)
        } else {
            None
        },
        r == modes_asked(*args, terminal),
{
    let wants_tui = !args.no_tui && !args.autonomous && !args.rpc;
    RunModes {
        subprocess_tui: wants_tui && !args.legacy_tui && terminal,
        enable_tui: wants_tui && args.legacy_tui,
        enable_rpc: args.rpc,
        auto_merge_override: if args.no_auto_merge {
            Some(false)
        } else {
            None
        },
    }
}

/// What came of asking for the lock of the primary loop.
#[derive(Debug)]
pub enum LockAttempt {
    Acquired,
    /// Another loop has it.
    Held { pid: u32, prompt: String },
    /// The platform has no locks.
    Unsupported,
    Failed,
}

/// How a run goes on after asking for the lock.
#[derive(Debug)]
pub enum LockPlan {
    /// As the primary loop, with the lock.
    Primary,
    /// As the primary loop, as soon as the lock is free.
    WaitForLock,
    /// Not at all.
    Refuse(String),
    /// As a parallel loop in a worktree.
    Worktree,
    /// As the primary loop, without a lock.
    Unlocked,
    /// Not at all, as the lock failed.
    Fail,
}

/// The first characters of a text.
pub open spec fn beginning(s: Seq<char>, count: int) -> Seq<char> {
    if s.len() <= count {
        s
    } else {
        s.take(count)
    }
}

fn first_chars(s: &str, count: usize) -> (r: &str)
    ensures
        r@ == beginning(s@, count as int),
{
    if s.unicode_len() <= count {
        s
    } else {
        s.substring_char(0, count)
    }
}

/// Why a run is refused while another loop is running.
pub open spec fn lock_refusal(pid: u32, prompt: Seq<char>) -> Seq<char> {
    "Another loop is already running (PID "@ + decimal(pid as nat) + ", prompt: \""@ + beginning(
        prompt,
        50,
    )
        + "\"). Parallel loops are disabled in config (features.parallel: false). Use --exclusive to wait for the lock, or enable parallel loops."@
}

/// Whether a plan is the one for what came of an attempt to take the lock.
pub open spec fn lock_planned(
    attempt: LockAttempt,
    exclusive: bool,
    parallel: bool,
    plan: LockPlan,
) -> bool {
    match attempt {
        LockAttempt::Acquired => plan is Primary,
        LockAttempt::Held { pid, prompt } => if exclusive {
            plan is WaitForLock
        } else if parallel {
            plan is Worktree
        } else {
            plan matches LockPlan::Refuse(message) && message@ == lock_refusal(pid, prompt@)
        },
        LockAttempt::Unsupported => plan is Unlocked,
        LockAttempt::Failed => plan is Fail,
    }
}

/// Decides how a run goes on after asking for the lock.
pub fn plan_lock(attempt: &LockAttempt, exclusive: bool, parallel: bool) -> (r: LockPlan)
    ensures
        match *attempt {
            LockAttempt::Acquired => r is Primary,
            LockAttempt::Held { pid, prompt } => if exclusive {
                r is WaitForLock
            } else if parallel {
                r is Worktree
            } else {
                r matches LockPlan::Refuse(message) && message@ == lock_refusal(pid, prompt@)
            },
            LockAttempt::Unsupported => r is Unlocked,
            LockAttempt::Failed => r is Fail,
        },
        lock_planned(*attempt, exclusive, parallel, r),
{
    match attempt {
        LockAttempt::Acquired => LockPlan::Primary,
        LockAttempt::Held { pid, prompt } => {
            if exclusive {
                LockPlan::WaitForLock
            } else if parallel {
                LockPlan::Worktree
            } else {
                let mut message = "Another loop is already running (PID ".to_owned();
                message.append(decimal_text(*pid as u64).as_str());
                message.append(", prompt: \"");
                message.append(first_chars(prompt.as_str(), 50));
                message.append(
                    "\"). Parallel loops are disabled in config (features.parallel: false). Use --exclusive to wait for the lock, or enable parallel loops.",
                );
                LockPlan::Refuse(message)
            }
        },
        LockAttempt::Unsupported => LockPlan::Unlocked,
        LockAttempt::Failed => LockPlan::Fail,
    }
}

/// A text that is cut to a length, with three dots in place of what is missing. Of a length that the
/// dots alone exceed only the dots are left.
pub open spec fn shortened(s: Seq<char>, max: nat) -> Seq<char> {
    if s.len() <= max {
        s
    } else if max <= 3 {
        "..."@
    } else {
        s.take(max - 3) + "..."@
    }
}

/// Cuts a text to a length. It is a choice made here that lengths are counted in characters, and that
/// the cut falls between two of them; the dots count as part of the length.
pub fn truncate_with_ellipsis(s: &str, max: usize) -> (r: String)
    ensures
        r@ == shortened(s@, max as nat),
        max >= 3 ==> r@.len() <= max,
{
    proof {
        reveal_strlit("...");
    }
    if s.unicode_len() <= max {
        return s.to_owned();
    }
    if max <= 3 {
        return "...".to_owned();
    }
    let mut r = s.substring_char(0, max - 3).to_owned();
    r.append("...");
    r
}

/// What is told of the prompt of a run: the inline prompt, or what the prompt file holds, cut to a
/// hundred characters.
pub open spec fn summary_of_prompt(
    prompt: Option<Seq<char>>,
    prompt_file: Seq<char>,
    content: Option<Seq<char>>,
) -> Seq<char> {
    if prompt is Some {
        shortened(prompt->0, 100)
    } else if prompt_file.len() > 0 && content is Some {
        shortened(content->0, 100)
    } else {
        "[no prompt]"@
    }
}

/// Tells of the prompt of a run. `content` is what the prompt file holds, where it can be read.
pub fn prompt_summary(event_loop: &EventLoopConfig, content: Option<&str>) -> (r: String)
    ensures
        r@ == summary_of_prompt(
            opt_text(event_loop.prompt),
            event_loop.prompt_file@,
            str_text(content),
        ),
{
    if let Some(prompt) = &event_loop.prompt {
        return truncate_with_ellipsis(prompt.as_str(), 100);
    }
    if event_loop.prompt_file.as_str().unicode_len() > 0 {
        if let Some(content) = content {
            return truncate_with_ellipsis(content, 100);
        }
    }
    "[no prompt]".to_owned()
}

/// The reason for which a child process ended.
pub open spec fn reason_of_exit(success: bool, code: Option<i32>) -> TerminationReason {
    if success {
        TerminationReason::CompletionPromise
    } else if code == Some(1i32) {
        TerminationReason::MaxIterations
    } else if code == Some(130i32) {
        TerminationReason::Interrupted
    } else {
        TerminationReason::Stopped
    }
}

/// The reason for which a loop in a child process ended, by its exit status.
pub fn exit_reason(success: bool, code: Option<i32>) -> (r: TerminationReason)
    ensures
        r == (if success {
            TerminationReason::CompletionPromise
        } else if code == Some(1i32) {
            TerminationReason::MaxIterations
        } else if code == Some(130i32) {
            TerminationReason::Interrupted
        } else {
            TerminationReason::Stopped
        }),
        r == reason_of_exit(success, code),
{
    if success {
        return TerminationReason::CompletionPromise;
    }
    match code {
        Some(n) => if n == 1 {
            TerminationReason::MaxIterations
        } else if n == 130 {
            TerminationReason::Interrupted
        } else {
            TerminationReason::Stopped
        },
        None => TerminationReason::Stopped,
    }
}

/// Arguments that a loop in a child process is given.
#[derive(Debug)]
pub struct SubprocessTuiArgs {
    pub prompt_text: Option<String>,
    pub prompt_file: Option<String>,
    pub backend: Option<String>,
    pub max_iterations: Option<u32>,
    pub completion_promise: Option<String>,
    pub continue_mode: bool,
    pub loop_id: Option<String>,
    pub idle_timeout: Option<u32>,
    pub verbose: bool,
    pub quiet: bool,
    pub record_session: Option<String>,
    pub exclusive: bool,
    pub no_auto_merge: bool,
    pub skip_preflight: bool,
    /// Texts that name the sources of the configuration.
    pub config_sources: Vec<String>,
    /// Text that names the hat collection.
    pub hats_source: Option<String>,
}

fn copied(o: &Option<String>) -> (r: Option<String>)
    ensures
        r == *o,
{
    match o {
        Some(s) => Some(s.clone()),
        None => None,
    }
}

/// Arguments that are there when something is on.
pub open spec fn flag_args(flag: Seq<char>, on: bool) -> Seq<Seq<char>> {
    if on {
        seq![flag]
    } else {
        Seq::empty()
    }
}

/// Arguments that are there with a value.
pub open spec fn value_args(flag: Seq<char>, value: Option<Seq<char>>) -> Seq<Seq<char>> {
    match value {
        Some(value) => seq![flag, value],
        None => Seq::empty(),
    }
}

/// Arguments with one flag for each of some values.
pub open spec fn repeated_args(flag: Seq<char>, values: Seq<Seq<char>>) -> Seq<Seq<char>>
    decreases values.len(),
{
    if values.len() == 0 {
        Seq::empty()
    } else {
        repeated_args(flag, values.drop_last()) + seq![flag, values.last()]
    }
}

/// A number in words, where it is there.
pub open spec fn number_text(n: Option<u32>) -> Option<Seq<char>> {
    match n {
        Some(n) => Some(decimal(n as nat)),
        None => None,
    }
}

/// The arguments of the child process: the sources come before the command, as they belong to all
/// commands, and the arguments for the backend come last.
pub open spec fn child_command(
    args: SubprocessTuiArgs,
    resume: bool,
    custom: Seq<Seq<char>>,
) -> Seq<Seq<char>> {
    repeated_args("-c"@, texts(args.config_sources@)) + value_args("-H"@, opt_text(args.hats_source))
        + seq!["run"@, "--rpc"@] + value_args("-p"@, opt_text(args.prompt_text)) + value_args(
        "-P"@,
        opt_text(args.prompt_file),
    ) + value_args("-b"@, opt_text(args.backend)) + value_args(
        "--max-iterations"@,
        number_text(args.max_iterations),
    ) + value_args("--completion-promise"@, opt_text(args.completion_promise)) + flag_args(
        "--continue"@,
        resume || args.continue_mode,
    ) + value_args("--loop-id"@, opt_text(args.loop_id)) + value_args(
        "--idle-timeout"@,
        number_text(args.idle_timeout),
    ) + flag_args("-v"@, args.verbose) + flag_args("-q"@, args.quiet) + value_args(
        "--record-session"@,
        opt_text(args.record_session),
    ) + flag_args("--exclusive"@, args.exclusive) + flag_args("--no-auto-merge"@, args.no_auto_merge)
        + flag_args("--skip-preflight"@, args.skip_preflight) + if custom.len() > 0 {
        seq!["--"@] + custom
    } else {
        Seq::empty()
    }
}

fn push_flag(out: &mut Vec<String>, flag: &str, on: bool)
    ensures
        texts(final(out)@) == texts(old(out)@) + flag_args(flag@, on),
{
    let ghost before = texts(out@);
    if on {
        out.push(flag.to_owned());
        assert(texts(out@) == before + seq![flag@]);
    } else {
        assert(texts(out@) == before + Seq::<Seq<char>>::empty());
    }
}

fn push_value(out: &mut Vec<String>, flag: &str, value: &Option<String>)
    ensures
        texts(final(out)@) == texts(old(out)@) + value_args(flag@, opt_text(*value)),
{
    let ghost before = texts(out@);
    match value {
        Some(value) => {
            out.push(flag.to_owned());
            out.push(value.clone());
            assert(texts(out@) == before + seq![flag@, value@]);
        },
        None => {
            assert(texts(out@) == before + Seq::<Seq<char>>::empty());
        },
    }
}

fn number(n: Option<u32>) -> (r: Option<String>)
    ensures
        opt_text(r) == number_text(n),
{
    match n {
        Some(n) => Some(decimal_text(n as u64)),
        None => None,
    }
}

impl SubprocessTuiArgs {
    /// Takes the arguments that a loop in a child process is given from those of a run.
    pub fn new(
        args: &RunArgs,
        config_sources: &Vec<ConfigSource>,
        hats_source: Option<&HatsSource>,
    ) -> (r: SubprocessTuiArgs)
        ensures
            r.prompt_text == args.prompt_text,
            r.prompt_file == args.prompt_file,
            r.backend == args.backend,
            r.max_iterations == args.max_iterations,
            r.completion_promise == args.completion_promise,
            r.continue_mode == args.continue_mode,
            r.loop_id == args.loop_id,
            r.idle_timeout == args.idle_timeout,
            r.verbose == args.verbose,
            r.quiet == args.quiet,
            r.record_session == args.record_session,
            r.exclusive == args.exclusive,
            r.no_auto_merge == args.no_auto_merge,
            r.skip_preflight == args.skip_preflight,
            texts(r.config_sources@) == source_views(config_sources@).map_values(
                |source: SourceView| source_text(source),
            ),
            opt_text(r.hats_source) == (match hats_source {
                Some(source) => Some(source_text(source@)),
                None => None,
            }),
    {
        let hats_source = match hats_source {
            Some(source) => Some(source.label()),
            None => None,
        };
        SubprocessTuiArgs {
            prompt_text: copied(&args.prompt_text),
            prompt_file: copied(&args.prompt_file),
            backend: copied(&args.backend),
            max_iterations: args.max_iterations,
            completion_promise: copied(&args.completion_promise),
            continue_mode: args.continue_mode,
            loop_id: copied(&args.loop_id),
            idle_timeout: args.idle_timeout,
            verbose: args.verbose,
            quiet: args.quiet,
            record_session: copied(&args.record_session),
            exclusive: args.exclusive,
            no_auto_merge: args.no_auto_merge,
            skip_preflight: args.skip_preflight,
            config_sources: source_texts(config_sources),
            hats_source,
        }
    }

    fn source_args(&self) -> (r: Vec<String>)
        ensures
            texts(r@) == repeated_args("-c"@, texts(self.config_sources@)) + value_args(
                "-H"@,
                opt_text(self.hats_source),
            ),
    {
        let mut out: Vec<String> = Vec::new();
        let ghost all = texts(self.config_sources@);
        let mut i: usize = 0;
        assert(texts(out@) == repeated_args("-c"@, all.take(0)));
        while i < self.config_sources.len()
            invariant
                i <= self.config_sources.len(),
                all == texts(self.config_sources@),
                texts(out@) == repeated_args("-c"@, all.take(i as int)),
            decreases self.config_sources.len() - i,
        {
            let ghost before = texts(out@);
            out.push("-c".to_owned());
            out.push(self.config_sources[i].clone());
            proof {
                assert(all.take(i + 1).drop_last() == all.take(i as int));
                assert(all.take(i + 1).last() == self.config_sources@[i as int]@);
                assert(texts(out@) == before + seq!["-c"@, all[i as int]]);
            }
            i = i + 1;
        }
        assert(all.take(i as int) == all);
        push_value(&mut out, "-H", &self.hats_source);
        out
    }

    /// Makes the arguments of the child process.
    pub fn child_args(&self, resume: bool, custom_args: &Vec<String>) -> (r: Vec<String>)
        ensures
            texts(r@) == child_command(*self, resume, texts(custom_args@)),
    {
        let mut out = self.source_args();
        let ghost sources = texts(out@);
        out.push("run".to_owned());
        out.push("--rpc".to_owned());
        assert(texts(out@) == sources + seq!["run"@, "--rpc"@]);
        push_value(&mut out, "-p", &self.prompt_text);
        push_value(&mut out, "-P", &self.prompt_file);
        push_value(&mut out, "-b", &self.backend);
        push_value(&mut out, "--max-iterations", &number(self.max_iterations));
        push_value(&mut out, "--completion-promise", &self.completion_promise);
        push_flag(&mut out, "--continue", resume || self.continue_mode);
        push_value(&mut out, "--loop-id", &self.loop_id);
        push_value(&mut out, "--idle-timeout", &number(self.idle_timeout));
        push_flag(&mut out, "-v", self.verbose);
        push_flag(&mut out, "-q", self.quiet);
        push_value(&mut out, "--record-session", &self.record_session);
        push_flag(&mut out, "--exclusive", self.exclusive);
        push_flag(&mut out, "--no-auto-merge", self.no_auto_merge);
        push_flag(&mut out, "--skip-preflight", self.skip_preflight);
        let ghost before = texts(out@);
        if custom_args.len() > 0 {
            out.push("--".to_owned());
            let mut custom = clone_texts(custom_args);
            out.append(&mut custom);
            assert(texts(out@) == before + (seq!["--"@] + texts(custom_args@)));
        } else {
            assert(texts(out@) == before + Seq::<Seq<char>>::empty());
        }
        out
    }
}

/// The identifiers of hats.
pub open spec fn hat_ids(hats: Seq<NamedHat>) -> Seq<Seq<char>> {
    hats.map_values(|hat: NamedHat| hat.id@)
}

/// A text in which line breaks are spaces.
pub open spec fn on_one_line(s: Seq<char>) -> Seq<char> {
    s.map_values(
        |c: char|
            if c == '\n' {
                ' '
            } else {
                c
            },
    )
}

/// The configuration of a run that is only shown.
pub open spec fn dry_run_lines(config: RalphConfig, warnings: nat) -> Seq<Seq<char>> {
    seq![
        "Dry run mode - configuration:"@,
        "  Hats: "@ + if config.hats@.len() == 0 {
            "planner, builder (default)"@
        } else {
            joined(hat_ids(config.hats@), ", "@)
        },
        match config.event_loop.prompt {
            Some(inline) => "  Prompt: inline text ("@ + shortened(on_one_line(inline@), 60) + ")"@,
            None => "  Prompt file: "@ + config.event_loop.prompt_file@,
        },
        "  Completion promise: "@ + config.event_loop.completion_promise@,
        "  Max iterations: "@ + decimal(config.event_loop.max_iterations as nat),
        "  Max runtime: "@ + decimal(config.event_loop.max_runtime_seconds as nat) + "s"@,
        "  Scratchpad: "@ + config.core.scratchpad.path@ + " (enabled: "@ + bool_text(
            config.core.scratchpad.enabled,
        ) + ")"@,
        "  Specs dir: "@ + config.core.specs_dir@,
        "  Backend: "@ + config.cli.backend@,
        "  Verbose: "@ + bool_text(config.verbose),
        "  Default mode: "@ + config.cli.default_mode@,
    ] + (if config.cli.default_mode@ == "interactive"@ {
        seq!["  Idle timeout: "@ + decimal(config.cli.idle_timeout_secs as nat) + "s"@]
    } else {
        Seq::empty()
    }) + if warnings > 0 {
        seq!["  Warnings: "@ + decimal(warnings)]
    } else {
        Seq::empty()
    }
}

fn labelled(label: &str, value: &str) -> (r: String)
    ensures
        r@ == label@ + value@,
{
    let mut r = label.to_owned();
    r.append(value);
    r
}

fn flatten(s: &str) -> (r: String)
    ensures
        r@ == on_one_line(s@),
{
    let cs = to_chars(s);
    let n: usize = cs.len();
    let mut r = String::new();
    let mut i: usize = 0;
    proof {
        reveal_strlit(" ");
    }
    assert(r@ == on_one_line(s@).take(0));
    while i < n
        invariant
            i <= n,
            n == cs.len(),
            cs@ == s@,
            " "@ == seq![' '],
            r@ == on_one_line(s@).take(i as int),
        decreases n - i,
    {
        let ghost before = r@;
        if cs[i] == '\n' {
            r.append(" ");
            assert(r@ == before + seq![' ']);
        } else {
            r.append(s.substring_char(i, i + 1));
            assert(s@.subrange(i as int, i + 1) == seq![s@[i as int]]);
        }
        assert(on_one_line(s@).take(i + 1) == on_one_line(s@).take(i as int)
            + seq![on_one_line(s@)[i as int]]);
        i = i + 1;
    }
    assert(on_one_line(s@).take(i as int) == on_one_line(s@));
    r
}

fn list_hats(config: &RalphConfig) -> (r: String)
    ensures
        r@ == if config.hats@.len() == 0 {
            "planner, builder (default)"@
        } else {
            joined(hat_ids(config.hats@), ", "@)
        },
{
    if config.hats.len() == 0 {
        return "planner, builder (default)".to_owned();
    }
    let mut ids: Vec<String> = Vec::new();
    let mut i: usize = 0;
    while i < config.hats.len()
        invariant
            i <= config.hats.len(),
            ids.len() == i,
            forall|j: int| 0 <= j < i ==> (#[trigger] ids@[j])@ == config.hats@[j].id@,
        decreases config.hats.len() - i,
    {
        ids.push(config.hats[i].id.clone());
        i = i + 1;
    }
    assert(texts(ids@) == hat_ids(config.hats@));
    join(&ids, ", ")
}

/// Tells the configuration of a run that is only shown.
pub fn describe_dry_run(config: &RalphConfig, warnings: usize) -> (r: Vec<String>)
    ensures
        texts(r@) == dry_run_lines(*config, warnings as nat),
{
    let prompt = match &config.event_loop.prompt {
        Some(inline) => {
            let preview = truncate_with_ellipsis(flatten(inline.as_str()).as_str(), 60);
            let mut line = labelled("  Prompt: inline text (", preview.as_str());
            line.append(")");
            line
        },
        None => labelled("  Prompt file: ", config.event_loop.prompt_file.as_str()),
    };
    let mut runtime = labelled(
        "  Max runtime: ",
        decimal_text(config.event_loop.max_runtime_seconds).as_str(),
    );
    runtime.append("s");
    let mut scratchpad = labelled("  Scratchpad: ", config.core.scratchpad.path.as_str());
    scratchpad.append(" (enabled: ");
    scratchpad.append(bool_word(config.core.scratchpad.enabled));
    scratchpad.append(")");
    let mut out: Vec<String> = Vec::new();
    out.push("Dry run mode - configuration:".to_owned());
    out.push(labelled("  Hats: ", list_hats(config).as_str()));
    out.push(prompt);
    out.push(
        labelled("  Completion promise: ", config.event_loop.completion_promise.as_str()),
    );
    out.push(
        labelled(
            "  Max iterations: ",
            decimal_text(config.event_loop.max_iterations as u64).as_str(),
        ),
    );
    out.push(runtime);
    out.push(scratchpad);
    out.push(labelled("  Specs dir: ", config.core.specs_dir.as_str()));
    out.push(labelled("  Backend: ", config.cli.backend.as_str()));
    out.push(labelled("  Verbose: ", bool_word(config.verbose)));
    out.push(labelled("  Default mode: ", config.cli.default_mode.as_str()));
    let ghost head = texts(out@);
    assert(head.len() == 11);
    if str_eq(config.cli.default_mode.as_str(), "interactive") {
        let mut idle = labelled(
            "  Idle timeout: ",
            decimal_text(config.cli.idle_timeout_secs as u64).as_str(),
        );
        idle.append("s");
        out.push(idle);
    }
    let ghost middle = texts(out@);
    if warnings > 0 {
        out.push(labelled("  Warnings: ", decimal_text(warnings as u64).as_str()));
    }
    assert(texts(out@) == dry_run_lines(*config, warnings as nat));
    out
}

} // verus!
