//! Lifecycle hooks configuration (pre.* / post.* phase-events).
use crate::text::str_eq;
use vstd::prelude::*;

verus! {

/// Hooks configuration.
#[derive(Debug)]
pub struct HooksConfig {
    /// Whether lifecycle hooks are enabled.
    pub enabled: bool,
    /// Guardrails applied where a hook has none of its own.
    pub defaults: HookDefaults,
    /// Hook lists by phase-event, each phase-event at most once.
    pub events: Vec<PhaseHooks>,
    /// Names of the unknown keys.
    pub extra: Vec<String>,
}

/// The hooks of one phase-event.
#[derive(Debug)]
pub struct PhaseHooks {
    pub phase_event: HookPhaseEvent,
    pub hooks: Vec<HookSpec>,
}

/// Whether hook settings are the default ones: no hooks, and the default limits.
pub open spec fn is_default_hooks(hooks: HooksConfig) -> bool {
    &&& !hooks.enabled
    &&& hooks.defaults.timeout_seconds == 30
    &&& hooks.defaults.max_output_bytes == 8192
    &&& hooks.defaults.suspend_mode == HookSuspendMode::WaitForResume
    &&& hooks.events@.len() == 0
    &&& hooks.extra@.len() == 0
}

impl Default for HooksConfig {
    fn default() -> (r: Self)
        ensures
            is_default_hooks(r),
    {
        HooksConfig {
            enabled: false,
            defaults: HookDefaults::default(),
            events: Vec::new(),
            extra: Vec::new(),
        }
    }
}

/// Hook defaults applied when a hook omits optional limits.
#[derive(Debug)]
pub struct HookDefaults {
    /// Maximum execution time per hook in seconds.
    pub timeout_seconds: u64,
    /// Maximum bytes stored per output stream.
    pub max_output_bytes: u64,
    /// Suspend strategy used where a hook names none.
    pub suspend_mode: HookSuspendMode,
}

/// Execution time limit in seconds unless a configuration says otherwise.
pub fn default_hook_timeout_seconds() -> (r: u64)
    ensures
        r == 30,
{
    30
}

/// Output limit in bytes unless a configuration says otherwise.
pub fn default_hook_max_output_bytes() -> (r: u64)
    ensures
        r == 8192,
{
    8192
}

impl Default for HookDefaults {
    fn default() -> (r: Self)
        ensures
            r.timeout_seconds == 30,
            r.max_output_bytes == 8192,
            r.suspend_mode == HookSuspendMode::WaitForResume,
    {
        HookDefaults {
            timeout_seconds: default_hook_timeout_seconds(),
            max_output_bytes: default_hook_max_output_bytes(),
            suspend_mode: HookSuspendMode::default(),
        }
    }
}

/// Supported lifecycle phase-events.
#[derive(Debug, Clone, Copy, PartialEq, Eq, Hash, Structural)]
pub enum HookPhaseEvent {
    PreLoopStart,
    PostLoopStart,
    PreIterationStart,
    PostIterationStart,
    PrePlanCreated,
    PostPlanCreated,
    PreHumanInteract,
    PostHumanInteract,
    PreLoopComplete,
    PostLoopComplete,
    PreLoopError,
    PostLoopError,
}

/// The key of a phase-event.
pub open spec fn phase_key(phase: HookPhaseEvent) -> Seq<char> {
    match phase {
        HookPhaseEvent::PreLoopStart => "pre.loop.start"@,
        HookPhaseEvent::PostLoopStart => "post.loop.start"@,
        HookPhaseEvent::PreIterationStart => "pre.iteration.start"@,
        HookPhaseEvent::PostIterationStart => "post.iteration.start"@,
        HookPhaseEvent::PrePlanCreated => "pre.plan.created"@,
        HookPhaseEvent::PostPlanCreated => "post.plan.created"@,
        HookPhaseEvent::PreHumanInteract => "pre.human.interact"@,
        HookPhaseEvent::PostHumanInteract => "post.human.interact"@,
        HookPhaseEvent::PreLoopComplete => "pre.loop.complete"@,
        HookPhaseEvent::PostLoopComplete => "post.loop.complete"@,
        HookPhaseEvent::PreLoopError => "pre.loop.error"@,
        HookPhaseEvent::PostLoopError => "post.loop.error"@,
    }
}

/// Different phase-events have different keys.
pub proof fn lemma_phase_keys_distinct(a: HookPhaseEvent, b: HookPhaseEvent)
    ensures
        phase_key(a) == phase_key(b) ==> a == b,
{
    reveal_strlit("pre.loop.start");
    reveal_strlit("post.loop.start");
    reveal_strlit("pre.iteration.start");
    reveal_strlit("post.iteration.start");
    reveal_strlit("pre.plan.created");
    reveal_strlit("post.plan.created");
    reveal_strlit("pre.human.interact");
    reveal_strlit("post.human.interact");
    reveal_strlit("pre.loop.complete");
    reveal_strlit("post.loop.complete");
    reveal_strlit("pre.loop.error");
    reveal_strlit("post.loop.error");
    if phase_key(a) == phase_key(b) && a != b {
        assert(phase_key(a).len() == phase_key(b).len());
        assert(phase_key(a)[0] == phase_key(b)[0]);
        assert(phase_key(a)[4] == phase_key(b)[4]);
        assert(phase_key(a)[5] == phase_key(b)[5]);
        assert(phase_key(a)[9] == phase_key(b)[9]);
        assert(phase_key(a)[10] == phase_key(b)[10]);
    }
}

impl HookPhaseEvent {
    /// The key used in configurations and telemetry.
    pub fn as_str(self) -> (r: &'static str)
        ensures
            r@ == phase_key(self),
    {
        match self {
            HookPhaseEvent::PreLoopStart => "pre.loop.start",
            HookPhaseEvent::PostLoopStart => "post.loop.start",
            HookPhaseEvent::PreIterationStart => "pre.iteration.start",
            HookPhaseEvent::PostIterationStart => "post.iteration.start",
            HookPhaseEvent::PrePlanCreated => "pre.plan.created",
            HookPhaseEvent::PostPlanCreated => "post.plan.created",
            HookPhaseEvent::PreHumanInteract => "pre.human.interact",
            HookPhaseEvent::PostHumanInteract => "post.human.interact",
            HookPhaseEvent::PreLoopComplete => "pre.loop.complete",
            HookPhaseEvent::PostLoopComplete => "post.loop.complete",
            HookPhaseEvent::PreLoopError => "pre.loop.error",
            HookPhaseEvent::PostLoopError => "post.loop.error",
        }
    }

    /// Finds the phase-event of a key.
    pub fn parse(value: &str) -> (r: Option<Self>)
        ensures
            match r {
                Some(phase) => phase_key(phase) == value@,
                None => forall|phase: HookPhaseEvent| phase_key(phase) != value@,
            },
    {
        if str_eq(value, "pre.loop.start") {
            Some(HookPhaseEvent::PreLoopStart)
        } else if str_eq(value, "post.loop.start") {
            Some(HookPhaseEvent::PostLoopStart)
        } else if str_eq(value, "pre.iteration.start") {
            Some(HookPhaseEvent::PreIterationStart)
        } else if str_eq(value, "post.iteration.start") {
            Some(HookPhaseEvent::PostIterationStart)
        } else if str_eq(value, "pre.plan.created") {
            Some(HookPhaseEvent::PrePlanCreated)
        } else if str_eq(value, "post.plan.created") {
            Some(HookPhaseEvent::PostPlanCreated)
        } else if str_eq(value, "pre.human.interact") {
            Some(HookPhaseEvent::PreHumanInteract)
        } else if str_eq(value, "post.human.interact") {
            Some(HookPhaseEvent::PostHumanInteract)
        } else if str_eq(value, "pre.loop.complete") {
            Some(HookPhaseEvent::PreLoopComplete)
        } else if str_eq(value, "post.loop.complete") {
            Some(HookPhaseEvent::PostLoopComplete)
        } else if str_eq(value, "pre.loop.error") {
            Some(HookPhaseEvent::PreLoopError)
        } else if str_eq(value, "post.loop.error") {
            Some(HookPhaseEvent::PostLoopError)
        } else {
            None
        }
    }
}

/// Per-hook failure disposition.
#[derive(Debug, Clone, Copy, PartialEq, Eq, Structural)]
pub enum HookOnError {
    /// Continue orchestration and record warning telemetry.
    Warn,
    /// Stop the current lifecycle action as a failure.
    Block,
    /// Suspend orchestration and await policy-specific recovery.
    Suspend,
}

/// Suspend mode used where a failing hook suspends.
#[derive(Debug, Clone, Copy, PartialEq, Eq, Structural)]
pub enum HookSuspendMode {
    /// Pause the loop until an explicit resume signal is received.
    WaitForResume,
    /// Retry automatically with bounded backoff.
    RetryBackoff,
    /// Wait for resume, then retry once.
    WaitThenRetry,
}

impl Default for HookSuspendMode {
    fn default() -> (r: Self)
        ensures
            r == HookSuspendMode::WaitForResume,
    {
        HookSuspendMode::WaitForResume
    }
}

/// Mutation settings for a hook.
#[derive(Debug)]
pub struct HookMutationConfig {
    /// Whether the output of the hook is read as mutation JSON.
    pub enabled: bool,
    /// Explicit payload format.
    pub format: Option<String>,
    /// Names of the unknown keys.
    pub extra: Vec<String>,
}

impl Default for HookMutationConfig {
    fn default() -> (r: Self)
        ensures
            !r.enabled,
            r.format is None,
            r.extra@.len() == 0,
    {
        HookMutationConfig { enabled: false, format: None, extra: Vec::new() }
    }
}

/// One environment variable of a hook.
#[derive(Debug)]
pub struct EnvVar {
    pub name: String,
    pub value: String,
}

/// One hook.
#[derive(Debug)]
pub struct HookSpec {
    /// Stable hook identifier.
    pub name: String,
    /// Executable and its arguments.
    pub command: Vec<String>,
    /// Working directory override.
    pub cwd: Option<String>,
    /// Environment variable overrides, each name at most once.
    pub env: Vec<EnvVar>,
    /// Timeout override in seconds.
    pub timeout_seconds: Option<u64>,
    /// Output cap override in bytes.
    pub max_output_bytes: Option<u64>,
    /// Failure behavior; required.
    pub on_error: Option<HookOnError>,
    /// Suspend strategy override.
    pub suspend_mode: Option<HookSuspendMode>,
    /// Mutation policy.
    pub mutate: HookMutationConfig,
    /// Names of the unknown keys.
    pub extra: Vec<String>,
}

} // verus!
