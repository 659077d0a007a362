//! Event loop configuration.
use vstd::prelude::*;

verus! {

/// Event loop configuration.
///
/// Amounts of money and percentages are kept as the bit patterns of IEEE 754 binary64 numbers.
#[derive(Debug)]
pub struct EventLoopConfig {
    /// Inline prompt text (mutually exclusive with prompt_file).
    pub prompt: Option<String>,
    /// Path to the prompt file.
    pub prompt_file: String,
    /// Event topic that signals loop completion.
    pub completion_promise: String,
    /// Maximum number of iterations.
    pub max_iterations: u32,
    /// Maximum runtime in seconds.
    pub max_runtime_seconds: u64,
    /// Maximum cost in USD before stopping (bit pattern).
    pub max_cost_usd: Option<u64>,
    /// Stop after this many consecutive failures.
    pub max_consecutive_failures: u32,
    /// Delay in seconds before starting the next iteration.
    pub cooldown_delay_seconds: u64,
    /// Starting hat for multi-hat mode (deprecated, use starting_event instead).
    pub starting_hat: Option<String>,
    /// Event to publish after the initial coordination.
    pub starting_event: Option<String>,
    /// Warn when the mutation testing score drops below this percentage (bit pattern).
    pub mutation_score_warn_threshold: Option<u64>,
    /// When true, the completion event does not terminate the loop.
    pub persistent: bool,
    /// Event topics that must have been seen before completion is accepted.
    pub required_events: Vec<String>,
    /// Event topic that triggers graceful early termination; empty when disabled.
    pub cancellation_promise: String,
    /// When true, events are held to the publish lists of the active hats.
    pub enforce_hat_scope: bool,
}

/// Path of the prompt file unless a configuration says otherwise.
pub fn default_prompt_file() -> (r: String)
    ensures
        r@ == "PROMPT.md"@,
{
    "PROMPT.md".to_owned()
}

/// Completion topic unless a configuration says otherwise.
pub fn default_completion_promise() -> (r: String)
    ensures
        r@ == "LOOP_COMPLETE"@,
{
    "LOOP_COMPLETE".to_owned()
}

/// Iteration limit unless a configuration says otherwise.
pub fn default_max_iterations() -> (r: u32)
    ensures
        r == 100,
{
    100
}

/// Runtime limit in seconds (4 hours) unless a configuration says otherwise.
pub fn default_max_runtime() -> (r: u64)
    ensures
        r == 14400,
{
    14400
}

/// Limit of consecutive failures unless a configuration says otherwise.
pub fn default_max_failures() -> (r: u32)
    ensures
        r == 5,
{
    5
}

/// Whether settings of the loop are the default ones.
pub open spec fn is_default_loop(config: EventLoopConfig) -> bool {
    &&& config.prompt is None
    &&& config.prompt_file@ == "PROMPT.md"@
    &&& config.completion_promise@ == "LOOP_COMPLETE"@
    &&& config.max_iterations == 100
    &&& config.max_runtime_seconds == 14400
    &&& config.max_cost_usd is None
    &&& config.max_consecutive_failures == 5
    &&& config.cooldown_delay_seconds == 0
    &&& config.starting_hat is None
    &&& config.starting_event is None
    &&& config.mutation_score_warn_threshold is None
    &&& !config.persistent
    &&& config.required_events@.len() == 0
    &&& config.cancellation_promise@.len() == 0
    &&& !config.enforce_hat_scope
}

impl Default for EventLoopConfig {
    fn default() -> (r: Self)
        ensures
            is_default_loop(r),
    {
        EventLoopConfig {
            prompt: None,
            prompt_file: default_prompt_file(),
            completion_promise: default_completion_promise(),
            max_iterations: default_max_iterations(),
            max_runtime_seconds: default_max_runtime(),
            max_cost_usd: None,
            max_consecutive_failures: default_max_failures(),
            cooldown_delay_seconds: 0,
            starting_hat: None,
            starting_event: None,
            mutation_score_warn_threshold: None,
            persistent: false,
            required_events: Vec::new(),
            cancellation_promise: String::new(),
            enforce_hat_scope: false,
        }
    }
}

/// Whether a bit pattern is that of a number from 0 to 100: the non-negative binary64 numbers are
/// ordered as their bit patterns, 100 has the pattern `0x4059_0000_0000_0000`, and the negative
/// zero, which equals zero, has only its sign bit set.
pub open spec fn is_percentage(bits: u64) -> bool {
    bits <= 0x4059_0000_0000_0000 || bits == 0x8000_0000_0000_0000
}

/// Tests whether a bit pattern is that of a number from 0 to 100.
pub fn percentage_in_range(bits: u64) -> (r: bool)
    ensures
        r == is_percentage(bits),
{
    bits <= 0x4059_0000_0000_0000 || bits == 0x8000_0000_0000_0000
}

} // verus!
