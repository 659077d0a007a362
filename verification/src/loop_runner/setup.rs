//! What a loop is set up with: identifiers, files and settings.
use crate::cli::types::{ColorMode, Verbosity};
use crate::config::hats::NamedHat;
use crate::config::hooks::HooksConfig;
use crate::config::ralph_config::RalphConfig;
use crate::event_loop::orchestrator::starting_topic;
use crate::json::{
    json_entries, json_from_object, json_from_text, json_of_entries, json_of_text, json_to_string,
    json_written, no_entries,
};
use crate::path::{join_path, path_below, paths_equal, same_path};
use crate::text::{opt_text, str_text, texts, trim, trimmed};
use serde_json::Value;
use vstd::prelude::*;

verus! {

/// The identifier of a loop: that of its worktree, or, for a primary loop that is continued, the
/// given one or the one in the marker file, or else one made of the time.
pub open spec fn loop_id_of(
    context: Option<Seq<char>>,
    resume: bool,
    given: Option<Seq<char>>,
    marker: Option<Seq<char>>,
    timestamp: Seq<char>,
) -> Seq<char> {
    if context is Some {
        context->0
    } else if resume && given is Some {
        given->0
    } else if resume && marker is Some && trimmed(marker->0).len() > 0 {
        trimmed(marker->0)
    } else {
        "primary-"@ + timestamp
    }
}

/// Resolves the identifier of a loop. `marker` is what the marker file holds, where it can be read.
pub fn resolve_loop_id(
    context_loop_id: Option<&str>,
    resume: bool,
    explicit_loop_id: Option<&str>,
    marker: Option<&str>,
    timestamp: &str,
) -> (r: String)
    ensures
        r@ == loop_id_of(
            str_text(context_loop_id),
            resume,
            str_text(explicit_loop_id),
            str_text(marker),
            timestamp@,
        ),
{
    if let Some(id) = context_loop_id {
        return id.to_owned();
    }
    if resume {
        if let Some(id) = explicit_loop_id {
            return id.to_owned();
        }
        if let Some(text) = marker {
            let existing = trim(text);
            if existing.unicode_len() > 0 {
                return existing.to_owned();
            }
        }
    }
    let mut r = "primary-".to_owned();
    r.append(timestamp);
    r
}

/// The events file of a fresh run, relative to the workspace.
pub fn fresh_events_path(run_id: &str) -> (r: String)
    ensures
        r@ == ".ralph/events-"@ + run_id@ + ".jsonl"@,
{
    let mut r = ".ralph/events-".to_owned();
    r.append(run_id);
    r.append(".jsonl");
    r
}

/// The events file in use: the one that the marker file names, relative to the workspace, or the
/// default one where there is no marker file.
pub fn resolve_current_events_path(marker: Option<&str>, workspace: &str, default_path: &str) -> (r:
    String)
    ensures
        r@ == (match marker {
            Some(relative) => path_below(workspace@, trimmed(relative@)),
            None => default_path@,
        }),
{
    match marker {
        Some(relative) => join_path(workspace, trim(relative)),
        None => default_path.to_owned(),
    }
}

/// Whether a path is among others.
pub open spec fn path_among(paths: Seq<Seq<char>>, path: Seq<char>) -> bool {
    exists|i: int| 0 <= i < paths.len() && same_path(#[trigger] paths[i], path)
}

/// The scratchpads of the hats in front of the global one, each once.
pub open spec fn scratchpads_of(
    workspace: Seq<char>,
    global: Seq<char>,
    hats: Seq<NamedHat>,
) -> Seq<Seq<char>>
    decreases hats.len(),
{
    if hats.len() == 0 {
        seq![path_below(workspace, global)]
    } else {
        let before = scratchpads_of(workspace, global, hats.drop_last());
        match hats.last().hat.scratchpad {
            Some(scratchpad) => {
                let path = path_below(workspace, scratchpad.path@);
                if scratchpad.enabled && !path_among(before, path) {
                    before.push(path)
                } else {
                    before
                }
            },
            None => before,
        }
    }
}

fn holds_path(paths: &Vec<String>, path: &str) -> (r: bool)
    ensures
        r == path_among(texts(paths@), path@),
{
    let mut i: usize = 0;
    while i < paths.len()
        invariant
            i <= paths.len(),
            forall|j: int| 0 <= j < i ==> !same_path(#[trigger] texts(paths@)[j], path@),
        decreases paths.len() - i,
    {
        assert(texts(paths@)[i as int] == paths@[i as int]@);
        if paths_equal(paths[i].as_str(), path) {
            return true;
        }
        i = i + 1;
    }
    false
}

/// Lists the scratchpads that a fresh run clears: the global one, and those that hats have for
/// themselves.
pub fn scratchpads_to_clear(config: &RalphConfig, workspace: &str) -> (r: Vec<String>)
    ensures
        texts(r@) == scratchpads_of(
            workspace@,
            config.core.scratchpad.path@,
            config.hats@,
        ),
{
    let mut r: Vec<String> = Vec::new();
    r.push(join_path(workspace, config.core.scratchpad.path.as_str()));
    let mut i: usize = 0;
    assert(texts(r@) == seq![path_below(workspace@, config.core.scratchpad.path@)]);
    assert(config.hats@.take(0).len() == 0);
    while i < config.hats.len()
        invariant
            i <= config.hats.len(),
            texts(r@) == scratchpads_of(
                workspace@,
                config.core.scratchpad.path@,
                config.hats@.take(i as int),
            ),
        decreases config.hats.len() - i,
    {
        proof {
            assert(config.hats@.take(i + 1).drop_last() == config.hats@.take(i as int));
            assert(config.hats@.take(i + 1).last() == config.hats@[i as int]);
        }
        let ghost kept = r@;
        if let Some(scratchpad) = &config.hats[i].hat.scratchpad {
            if scratchpad.enabled {
                let path = join_path(workspace, scratchpad.path.as_str());
                if !holds_path(&r, path.as_str()) {
                    r.push(path);
                    assert(texts(r@) == texts(kept).push(path@));
                }
            }
        }
        i = i + 1;
    }
    assert(config.hats@.take(i as int) == config.hats@);
    r
}

/// Tells whether hooks are dispatched at all.
pub fn hooks_dispatch_enabled(hooks: &HooksConfig) -> (r: bool)
    ensures
        r == (hooks.enabled && hooks.events@.len() > 0),
{
    hooks.enabled && hooks.events.len() > 0
}

/// How a loop starts.
#[derive(Debug)]
pub struct StartPlan {
    /// Topic of the event that starts the loop.
    pub topic: String,
    /// Whether the scratchpads of earlier runs are removed.
    pub clear_scratchpads: bool,
    /// Whether the marker file is made to name a new events file.
    pub rewrite_marker: bool,
}

/// Decides how a loop starts: only a fresh one leaves earlier runs behind.
pub fn start_plan(starting_event: &Option<String>, resume: bool) -> (r: StartPlan)
    ensures
        r.topic@ == starting_topic(opt_text(*starting_event), resume),
        r.clear_scratchpads == !resume,
        r.rewrite_marker == !resume,
{
    let topic = if resume {
        "task.resume".to_owned()
    } else {
        match starting_event {
            Some(topic) => topic.clone(),
            None => "task.start".to_owned(),
        }
    };
    StartPlan { topic, clear_scratchpads: !resume, rewrite_marker: !resume }
}

/// Chooses the topic under which the start of a loop is logged: the configured one, or that of the
/// mode.
pub fn start_topic(starting_event: &Option<String>, resume: bool) -> (r: String)
    ensures
        r@ == (match *starting_event {
            Some(topic) => topic@,
            None => if resume {
                "task.resume"@
            } else {
                "task.start"@
            },
        }),
{
    match starting_event {
        Some(topic) => topic.clone(),
        None => if resume {
            "task.resume".to_owned()
        } else {
            "task.start".to_owned()
        },
    }
}

/// What the human-in-the-loop bot is started with.
#[derive(Debug)]
pub struct RobotSettings {
    pub timeout_secs: u64,
    pub loop_id: String,
}

/// Makes the settings of the human-in-the-loop bot. Only primary loops have one.
pub fn robot_settings(config: &RalphConfig, primary: bool, loop_id: Option<&str>) -> (r: Option<
    RobotSettings,
>)
    ensures
        r is Some == (config.robot.enabled && primary),
        r matches Some(settings) ==> settings.timeout_secs
            == (match config.robot.timeout_seconds {
            Some(seconds) => seconds,
            None => 300,
        }) && settings.loop_id@ == (match loop_id {
            Some(id) => id@,
            None => "main"@,
        }),
{
    if !config.robot.enabled || !primary {
        return None;
    }
    let timeout_secs: u64 = match config.robot.timeout_seconds {
        Some(seconds) => seconds,
        None => 300,
    };
    let loop_id = match loop_id {
        Some(id) => id.to_owned(),
        None => "main".to_owned(),
    };
    Some(RobotSettings { timeout_secs, loop_id })
}

/// Tells whether finished worktree loops are queued for merging: an explicit setting comes before
/// the configuration.
pub fn auto_merge(auto_merge_override: Option<bool>, configured: bool) -> (r: bool)
    ensures
        r == (match auto_merge_override {
            Some(chosen) => chosen,
            None => configured,
        }),
{
    match auto_merge_override {
        Some(chosen) => chosen,
        None => configured,
    }
}

/// The members of a guidance event in the events file.
pub open spec fn guidance_members(message: Seq<char>, timestamp: Seq<char>) -> Map<
    Seq<char>,
    Value,
> {
    no_entries().insert("topic"@, json_of_text("human.guidance"@)).insert(
        "payload"@,
        json_of_text(message),
    ).insert("ts"@, json_of_text(timestamp))
}

/// Makes the line of a guidance event in the events file.
pub fn guidance_line(message: &str, timestamp: &str) -> (r: Result<String, String>)
    ensures
        match r {
            Ok(line) => json_written(json_of_entries(guidance_members(message@, timestamp@)))
                == Ok::<Seq<char>, Seq<char>>(line@),
            Err(error) => json_written(json_of_entries(guidance_members(message@, timestamp@)))
                == Err::<Seq<char>, Seq<char>>(error@),
        },
{
    let mut event = serde_json::Map::new();
    event.insert("topic".to_owned(), json_from_text("human.guidance".to_owned()));
    event.insert("payload".to_owned(), json_from_text(message.to_owned()));
    event.insert("ts".to_owned(), json_from_text(timestamp.to_owned()));
    assert(json_entries(event) == guidance_members(message@, timestamp@));
    json_to_string(&json_from_object(event))
}

/// What a loop runs with beside its configuration.
#[derive(Debug)]
pub struct LoopModes {
    /// Whether an earlier loop is continued.
    pub resume: bool,
    /// Whether the terminal interface is shown.
    pub enable_tui: bool,
    /// Whether a remote caller takes part.
    pub enable_rpc: bool,
    pub colors: ColorMode,
    pub verbosity: Verbosity,
    /// The file that the session is recorded to.
    pub record_session: Option<String>,
    /// Whether the loop is the primary one of its workspace.
    pub primary: bool,
    /// Arguments for the backend.
    pub custom_args: Vec<String>,
    /// Whether worktrees are queued for a merge, where it is not for the configuration to say.
    pub auto_merge_override: Option<bool>,
    /// The identifier of the loop that is continued.
    pub loop_id: Option<String>,
}

/// Puts a loop that is started from outside into headless mode, with its prompt and workspace. The
/// caller talks to the human, so the loop has no bot of its own. The loop runs afresh, as the primary
/// one, and without terminal interface and remote caller.
pub fn start_loop(config: &mut RalphConfig, prompt: &str, workspace_root: &str) -> (r: LoopModes)
    ensures
        !r.resume && !r.enable_tui && !r.enable_rpc,
        r.colors == ColorMode::Never,
        r.verbosity == Verbosity::Normal,
        r.record_session is None,
        r.primary,
        r.custom_args@.len() == 0,
        r.auto_merge_override is None,
        r.loop_id is None,
        opt_text(final(config).event_loop.prompt) == Some(prompt@),
        final(config).event_loop.prompt_file@ == ""@,
        final(config).cli.default_mode@ == "autonomous"@,
        final(config).core.workspace_root@ == workspace_root@,
        !final(config).robot.enabled,
        *final(config) == (RalphConfig {
            event_loop: crate::config::event_loop::EventLoopConfig {
                prompt: final(config).event_loop.prompt,
                prompt_file: final(config).event_loop.prompt_file,
                ..old(config).event_loop
            },
            cli: crate::config::settings::CliConfig {
                default_mode: final(config).cli.default_mode,
                ..old(config).cli
            },
            core: crate::config::core_config::CoreConfig {
                workspace_root: final(config).core.workspace_root,
                ..old(config).core
            },
            robot: crate::config::settings::RobotConfig { enabled: false, ..old(config).robot },
            ..*old(config)
        }),
{
    config.robot.enabled = false;
    config.core.workspace_root = workspace_root.to_owned();
    config.event_loop.prompt = Some(prompt.to_owned());
    config.event_loop.prompt_file = "".to_owned();
    config.cli.default_mode = "autonomous".to_owned();
    LoopModes {
        resume: false,
        enable_tui: false,
        enable_rpc: false,
        colors: ColorMode::Never,
        verbosity: Verbosity::Normal,
        record_session: None,
        primary: true,
        custom_args: Vec::new(),
        auto_merge_override: None,
        loop_id: None,
    }
}

/// Chooses the configuration file of a loop that is started from outside.
pub fn start_config_path(config_path: Option<&str>, workspace_root: &str) -> (r: String)
    ensures
        r@ == (match config_path {
            Some(path) => path@,
            None => path_below(workspace_root@, "ralph.yml"@),
        }),
{
    match config_path {
        Some(path) => path.to_owned(),
        None => join_path(workspace_root, "ralph.yml"),
    }
}

} // verus!
