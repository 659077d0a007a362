//! Top-level configuration: normalization of flat fields, and validation.
use crate::config::core_config::{
    are_default_adapters, AdapterSettings, AdaptersConfig, CoreConfig,
};
use crate::config::errors::{ConfigError, ConfigFault, ConfigNote, ConfigWarning};
use crate::config::event_loop::{
    is_default_loop, is_percentage, percentage_in_range, EventLoopConfig,
};
use crate::config::hats::{HatConfig, NamedHat};
use crate::config::hooks::{
    is_default_hooks, phase_key, HookMutationConfig, HookOnError, HookPhaseEvent, HookSpec,
    HooksConfig, PhaseHooks,
};
use crate::config::settings::{
    CliConfig, FeaturesConfig, MemoriesConfig, RobotConfig, SkillsConfig,
};
use crate::config::tasks::TasksConfig;
use crate::text::{
    blank, decimal, decimal_text, eq_ignore_ascii_case, first_of, is_blank, lemma_first_of, opt_text,
    same_but_case, str_eq, texts,
};
use serde_json::Value;
use vstd::prelude::*;

verus! {

/// What a configuration says of an event topic.
#[derive(Debug)]
pub struct NamedEvent {
    pub topic: String,
    /// The metadata of the topic, as it stands in the document.
    pub metadata: Value,
}

/// Top-level configuration. The flat fields stand for nested ones and take precedence over them.
#[derive(Debug)]
pub struct RalphConfig {
    /// Event loop configuration.
    pub event_loop: EventLoopConfig,
    /// Backend configuration.
    pub cli: CliConfig,
    /// Core paths and settings shared across all hats.
    pub core: CoreConfig,
    /// Custom hats, each key at most once, in the order in which they are walked.
    pub hats: Vec<NamedHat>,
    /// Metadata of event topics, each topic at most once. It is carried along for the instructions
    /// of hats, and nothing here reads it.
    pub events: Vec<NamedEvent>,
    /// Flat field for `cli.backend`.
    pub agent: Option<String>,
    /// Fallback order for auto-detection.
    pub agent_priority: Vec<String>,
    /// Flat field for `event_loop.prompt_file`.
    pub prompt_file: Option<String>,
    /// Flat field for `event_loop.completion_promise`.
    pub completion_promise: Option<String>,
    /// Flat field for `event_loop.max_iterations`.
    pub max_iterations: Option<u32>,
    /// Flat field for `event_loop.max_runtime_seconds`.
    pub max_runtime: Option<u64>,
    /// Flat field for `event_loop.max_cost_usd` (bit pattern).
    pub max_cost: Option<u64>,
    /// Enable verbose output.
    pub verbose: bool,
    /// Archive prompts after completion (not available).
    pub archive_prompts: bool,
    /// Enable metrics collection (not available).
    pub enable_metrics: bool,
    /// Token limits (accepted and ignored).
    pub max_tokens: Option<u32>,
    /// Retry delay (accepted and ignored).
    pub retry_delay: Option<u32>,
    /// Adapter settings.
    pub adapters: AdaptersConfig,
    /// Suppress all warnings.
    pub suppress_warnings: bool,
    /// Settings of the terminal interface, as they stand in the document. They are carried along, and
    /// nothing here reads them.
    pub tui: Option<Value>,
    /// Memories configuration.
    pub memories: MemoriesConfig,
    /// Tasks configuration.
    pub tasks: TasksConfig,
    /// Lifecycle hooks configuration.
    pub hooks: HooksConfig,
    /// Skills configuration.
    pub skills: SkillsConfig,
    /// Feature flags.
    pub features: FeaturesConfig,
    /// Human-in-the-loop bot configuration.
    pub robot: RobotConfig,
}

/// What a check of the configuration found wrong.
pub open spec fn fault_of(r: Result<(), ConfigError>) -> Option<ConfigFault> {
    match r {
        Ok(_) => None,
        Err(error) => Some(error@),
    }
}

/// Whether a key asks for hooks beyond the project.
pub open spec fn is_scope_key(key: Seq<char>) -> bool {
    ||| key == "global"@
    ||| key == "globals"@
    ||| key == "global_defaults"@
    ||| key == "global_hooks"@
    ||| key == "scope"@
}

/// Whether a key asks for hooks that run at once.
pub open spec fn is_parallel_key(key: Seq<char>) -> bool {
    ||| key == "parallel"@
    ||| key == "parallelism"@
    ||| key == "max_parallel"@
    ||| key == "concurrency"@
    ||| key == "run_in_parallel"@
}

/// What is wrong with one unknown key of a hook.
pub open spec fn key_fault(prefix: Seq<char>, key: Seq<char>) -> Option<ConfigFault> {
    if is_scope_key(key) {
        Some(
            ConfigFault::UnsupportedHookField {
                field: prefix + "."@ + key,
                reason: "Use ~/.ralph/config.yml for user-level defaults; per-hook `global`/`scope` fields are not supported in v1"@,
            },
        )
    } else if is_parallel_key(key) {
        Some(
            ConfigFault::UnsupportedHookField {
                field: prefix + "."@ + key,
                reason: "Parallel hook execution is out of scope for v1; hooks must run sequentially"@,
            },
        )
    } else {
        None
    }
}

/// What is wrong with the unknown keys of a hook: the first fault of one of them.
pub open spec fn keys_fault(prefix: Seq<char>, keys: Seq<String>) -> Option<ConfigFault> {
    first_of(Seq::new(keys.len(), |i: int| key_fault(prefix, keys[i]@)))
}

/// Why a mutation setting is refused.
pub open spec fn mutation_key_reason(key: Seq<char>) -> Seq<char> {
    if key == "prompt"@ || key == "prompt_mutation"@ || key == "events"@ || key == "event"@ || key
        == "config"@ || key == "full_context"@ {
        "v1 allows metadata-only mutation; prompt/event/config mutation is unsupported"@
    } else if key == "xml"@ {
        "v1 mutation payloads are JSON-only"@
    } else {
        "unsupported mutate field in v1 (supported keys: enabled, format)"@
    }
}

/// What is wrong with the mutation settings of a hook.
pub open spec fn mutation_fault(base: Seq<char>, mutate: HookMutationConfig) -> Option<ConfigFault> {
    let field = base + ".mutate"@;
    if !mutate.enabled {
        if mutate.format is Some || mutate.extra@.len() > 0 {
            Some(
                ConfigFault::HookValidation {
                    field,
                    message: "mutation settings require mutate.enabled: true"@,
                },
            )
        } else {
            None
        }
    } else if mutate.format is Some && !same_but_case(mutate.format->0@, "json"@) {
        Some(
            ConfigFault::HookValidation {
                field: field + ".format"@,
                message: "only 'json' is supported for v1 mutation payloads"@,
            },
        )
    } else if mutate.extra@.len() > 0 {
        Some(
            ConfigFault::UnsupportedHookField {
                field: field + "."@ + mutate.extra@[0]@,
                reason: mutation_key_reason(mutate.extra@[0]@),
            },
        )
    } else {
        None
    }
}

/// A fault of one field of a hook.
pub open spec fn hook_field_fault(base: Seq<char>, field: Seq<char>, message: Seq<char>) -> Option<
    ConfigFault,
> {
    Some(ConfigFault::HookValidation { field: base + field, message })
}

/// What is wrong with one hook.
pub open spec fn hook_fault(base: Seq<char>, hook: HookSpec) -> Option<ConfigFault> {
    if blank(hook.name@) {
        hook_field_fault(base, ".name"@, "is required and must be non-empty"@)
    } else if hook.command@.len() == 0 || blank(hook.command@[0]@) {
        hook_field_fault(
            base,
            ".command"@,
            "is required and must include an executable at command[0]"@,
        )
    } else if hook.on_error is None {
        hook_field_fault(base, ".on_error"@, "is required in v1 (warn | block | suspend)"@)
    } else if hook.timeout_seconds == Some(0u64) {
        hook_field_fault(base, ".timeout_seconds"@, "must be greater than 0 when specified"@)
    } else if hook.max_output_bytes == Some(0u64) {
        hook_field_fault(base, ".max_output_bytes"@, "must be greater than 0 when specified"@)
    } else if hook.suspend_mode is Some && hook.on_error != Some(HookOnError::Suspend) {
        hook_field_fault(base, ".suspend_mode"@, "requires on_error: suspend"@)
    } else if keys_fault(base, hook.extra@) is Some {
        keys_fault(base, hook.extra@)
    } else {
        mutation_fault(base, hook.mutate)
    }
}

/// The place of a hook in the configuration.
pub open spec fn hook_place(phase: HookPhaseEvent, index: nat) -> Seq<char> {
    "hooks.events."@ + phase_key(phase) + "["@ + decimal(index) + "]"@
}

/// What is wrong with the hooks of one phase-event: the first fault of one of them.
pub open spec fn phase_fault(phase: PhaseHooks) -> Option<ConfigFault> {
    first_of(
        Seq::new(
            phase.hooks@.len(),
            |j: int| hook_fault(hook_place(phase.phase_event, j as nat), phase.hooks@[j]),
        ),
    )
}

/// What is wrong with the hooks configuration.
pub open spec fn hooks_fault(hooks: HooksConfig) -> Option<ConfigFault> {
    if keys_fault("hooks"@, hooks.extra@) is Some {
        keys_fault("hooks"@, hooks.extra@)
    } else if hooks.defaults.timeout_seconds == 0 {
        hook_field_fault("hooks.defaults"@, ".timeout_seconds"@, "must be greater than 0"@)
    } else if hooks.defaults.max_output_bytes == 0 {
        hook_field_fault("hooks.defaults"@, ".max_output_bytes"@, "must be greater than 0"@)
    } else {
        first_of(Seq::new(hooks.events@.len(), |i: int| phase_fault(hooks.events@[i])))
    }
}

fn hook_error(base: &str, field: &str, message: &str) -> (r: Result<(), ConfigError>)
    ensures
        fault_of(r) == hook_field_fault(base@, field@, message@),
{
    let mut path = base.to_owned();
    path.append(field);
    Err(ConfigError::HookValidation { field: path, message: message.to_owned() })
}

fn unsupported_error(base: &str, key: &str, reason: &str) -> (r: Result<(), ConfigError>)
    ensures
        fault_of(r) == Some(
            (ConfigFault::UnsupportedHookField { field: base@ + "."@ + key@, reason: reason@ }),
        ),
{
    let mut path = base.to_owned();
    path.append(".");
    path.append(key);
    Err(ConfigError::UnsupportedHookField { field: path, reason: reason.to_owned() })
}

impl RalphConfig {
    fn validate_non_v1_hook_fields(path_prefix: &str, fields: &Vec<String>) -> (r: Result<
        (),
        ConfigError,
    >)
        ensures
            fault_of(r) == keys_fault(path_prefix@, fields@),
    {
        let ghost faults = Seq::new(
            fields@.len(),
            |i: int| key_fault(path_prefix@, fields@[i]@),
        );
        let mut i: usize = 0;
        assert(faults.skip(0) == faults);
        while i < fields.len()
            invariant
                i <= fields.len(),
                faults == Seq::new(fields@.len(), |i: int| key_fault(path_prefix@, fields@[i]@)),
                first_of(faults) == first_of(faults.skip(i as int)),
            decreases fields.len() - i,
        {
            proof {
                lemma_first_of(faults, i as int);
            }
            let key = fields[i].as_str();
            if str_eq(key, "global") || str_eq(key, "globals") || str_eq(key, "global_defaults")
                || str_eq(key, "global_hooks") || str_eq(key, "scope") {
                return unsupported_error(
                    path_prefix,
                    key,
                    "Use ~/.ralph/config.yml for user-level defaults; per-hook `global`/`scope` fields are not supported in v1",
                );
            }
            if str_eq(key, "parallel") || str_eq(key, "parallelism") || str_eq(key, "max_parallel")
                || str_eq(key, "concurrency") || str_eq(key, "run_in_parallel") {
                return unsupported_error(
                    path_prefix,
                    key,
                    "Parallel hook execution is out of scope for v1; hooks must run sequentially",
                );
            }
            i = i + 1;
        }
        Ok(())
    }

    fn validate_mutation_contract(hook_field_base: &str, mutate: &HookMutationConfig) -> (r: Result<
        (),
        ConfigError,
    >)
        ensures
            fault_of(r) == mutation_fault(hook_field_base@, *mutate),
    {
        if !mutate.enabled {
            if mutate.format.is_some() || mutate.extra.len() > 0 {
                return hook_error(
                    hook_field_base,
                    ".mutate",
                    "mutation settings require mutate.enabled: true",
                );
            }
            return Ok(());
        }
        let mut base = hook_field_base.to_owned();
        base.append(".mutate");
        if let Some(format) = &mutate.format {
            if !eq_ignore_ascii_case(format.as_str(), "json") {
                return hook_error(
                    base.as_str(),
                    ".format",
                    "only 'json' is supported for v1 mutation payloads",
                );
            }
        }
        if mutate.extra.len() > 0 {
            let key = mutate.extra[0].as_str();
            let reason = if str_eq(key, "prompt") || str_eq(key, "prompt_mutation") || str_eq(
                key,
                "events",
            ) || str_eq(key, "event") || str_eq(key, "config") || str_eq(key, "full_context") {
                "v1 allows metadata-only mutation; prompt/event/config mutation is unsupported"
            } else if str_eq(key, "xml") {
                "v1 mutation payloads are JSON-only"
            } else {
                "unsupported mutate field in v1 (supported keys: enabled, format)"
            };
            return unsupported_error(base.as_str(), key, reason);
        }
        Ok(())
    }

    fn validate_hook(base: &str, hook: &HookSpec) -> (r: Result<(), ConfigError>)
        ensures
            fault_of(r) == hook_fault(base@, *hook),
    {
        if is_blank(hook.name.as_str()) {
            return hook_error(base, ".name", "is required and must be non-empty");
        }
        if hook.command.len() == 0 || is_blank(hook.command[0].as_str()) {
            return hook_error(
                base,
                ".command",
                "is required and must include an executable at command[0]",
            );
        }
        if hook.on_error.is_none() {
            return hook_error(base, ".on_error", "is required in v1 (warn | block | suspend)");
        }
        if let Some(timeout_seconds) = hook.timeout_seconds {
            if timeout_seconds == 0 {
                return hook_error(
                    base,
                    ".timeout_seconds",
                    "must be greater than 0 when specified",
                );
            }
        }
        if let Some(max_output_bytes) = hook.max_output_bytes {
            if max_output_bytes == 0 {
                return hook_error(
                    base,
                    ".max_output_bytes",
                    "must be greater than 0 when specified",
                );
            }
        }
        let suspends = match hook.on_error {
            Some(HookOnError::Suspend) => true,
            _ => false,
        };
        if hook.suspend_mode.is_some() && !suspends {
            return hook_error(base, ".suspend_mode", "requires on_error: suspend");
        }
        match RalphConfig::validate_non_v1_hook_fields(base, &hook.extra) {
            Ok(_) => {},
            Err(error) => {
                return Err(error);
            },
        }
        RalphConfig::validate_mutation_contract(base, &hook.mutate)
    }

    fn validate_phase(phase: &PhaseHooks) -> (r: Result<(), ConfigError>)
        ensures
            fault_of(r) == phase_fault(*phase),
    {
        let ghost faults = Seq::new(
            phase.hooks@.len(),
            |j: int| hook_fault(hook_place(phase.phase_event, j as nat), phase.hooks@[j]),
        );
        let mut j: usize = 0;
        assert(faults.skip(0) == faults);
        while j < phase.hooks.len()
            invariant
                j <= phase.hooks.len(),
                faults == Seq::new(
                    phase.hooks@.len(),
                    |j: int| hook_fault(hook_place(phase.phase_event, j as nat), phase.hooks@[j]),
                ),
                first_of(faults) == first_of(faults.skip(j as int)),
            decreases phase.hooks.len() - j,
        {
            proof {
                lemma_first_of(faults, j as int);
            }
            let mut base = "hooks.events.".to_owned();
            base.append(phase.phase_event.as_str());
            base.append("[");
            base.append(decimal_text(j as u64).as_str());
            base.append("]");
            match RalphConfig::validate_hook(base.as_str(), &phase.hooks[j]) {
                Ok(_) => {},
                Err(error) => {
                    return Err(error);
                },
            }
            j = j + 1;
        }
        Ok(())
    }

    /// Validates the semantics of the hooks configuration.
    pub fn validate_hooks(&self) -> (r: Result<(), ConfigError>)
        ensures
            fault_of(r) == hooks_fault(self.hooks),
    {
        match RalphConfig::validate_non_v1_hook_fields("hooks", &self.hooks.extra) {
            Ok(_) => {},
            Err(error) => {
                return Err(error);
            },
        }
        if self.hooks.defaults.timeout_seconds == 0 {
            return hook_error("hooks.defaults", ".timeout_seconds", "must be greater than 0");
        }
        if self.hooks.defaults.max_output_bytes == 0 {
            return hook_error("hooks.defaults", ".max_output_bytes", "must be greater than 0");
        }
        let ghost faults = Seq::new(
            self.hooks.events@.len(),
            |i: int| phase_fault(self.hooks.events@[i]),
        );
        let mut i: usize = 0;
        assert(faults.skip(0) == faults);
        while i < self.hooks.events.len()
            invariant
                i <= self.hooks.events.len(),
                faults == Seq::new(
                    self.hooks.events@.len(),
                    |i: int| phase_fault(self.hooks.events@[i]),
                ),
                hooks_fault(self.hooks) == first_of(faults),
                first_of(faults) == first_of(faults.skip(i as int)),
            decreases self.hooks.events.len() - i,
        {
            proof {
                lemma_first_of(faults, i as int);
            }
            match RalphConfig::validate_phase(&self.hooks.events[i]) {
                Ok(_) => {},
                Err(error) => {
                    return Err(error);
                },
            }
            i = i + 1;
        }
        Ok(())
    }
}

/// Instructions with fragments appended, each on a line of its own.
pub open spec fn merged(instructions: Seq<char>, fragments: Seq<Seq<char>>) -> Seq<char>
    decreases fragments.len(),
{
    if fragments.len() == 0 {
        instructions
    } else {
        let before = merged(instructions, fragments.drop_last());
        if before.len() > 0 && before.last() == '\n' {
            before + fragments.last()
        } else {
            before + "\n"@ + fragments.last()
        }
    }
}

/// Whether a hat is another one with its fragments merged into its instructions.
pub open spec fn is_merged_hat(new: NamedHat, old: NamedHat) -> bool {
    &&& new.id == old.id
    &&& new.hat == (HatConfig {
        instructions: new.hat.instructions,
        extra_instructions: new.hat.extra_instructions,
        ..old.hat
    })
    &&& new.hat.instructions@ == merged(old.hat.instructions@, texts(old.hat.extra_instructions@))
    &&& new.hat.extra_instructions@.len() == 0
}

/// A value, where a flat field is set the value of that field.
pub open spec fn flat_or<T>(flat: Option<T>, nested: T) -> T {
    match flat {
        Some(value) => value,
        None => nested,
    }
}

/// Whether a configuration is another one with its flat fields put into the nested ones and the
/// extra instructions of every hat merged into its instructions.
pub open spec fn is_normalized(before: RalphConfig, after: RalphConfig) -> bool {
    &&& after == (RalphConfig {
        cli: CliConfig { backend: flat_or(before.agent, before.cli.backend), ..before.cli },
        event_loop: EventLoopConfig {
            prompt_file: flat_or(before.prompt_file, before.event_loop.prompt_file),
            completion_promise: flat_or(
                before.completion_promise,
                before.event_loop.completion_promise,
            ),
            max_iterations: flat_or(before.max_iterations, before.event_loop.max_iterations),
            max_runtime_seconds: flat_or(before.max_runtime, before.event_loop.max_runtime_seconds),
            max_cost_usd: if before.max_cost is Some {
                before.max_cost
            } else {
                before.event_loop.max_cost_usd
            },
            ..before.event_loop
        },
        hats: after.hats,
        ..before
    })
    &&& after.hats@.len() == before.hats@.len()
    &&& forall|i: int|
        0 <= i < before.hats@.len() ==> is_merged_hat(#[trigger] after.hats@[i], before.hats@[i])
}

/// Normalizing twice gives nothing new: a normalized configuration keeps all its settings, and every
/// hat keeps its instructions.
pub proof fn law_normalizing_twice_changes_nothing(
    first: RalphConfig,
    second: RalphConfig,
    third: RalphConfig,
)
    requires
        is_normalized(first, second),
        is_normalized(second, third),
    ensures
        third == (RalphConfig { hats: third.hats, ..second }),
        third.hats@.len() == second.hats@.len(),
        forall|i: int|
            0 <= i < second.hats@.len() ==> {
                let old = second.hats@[i];
                let new = #[trigger] third.hats@[i];
                &&& new.id == old.id
                &&& new.hat == (HatConfig {
                    instructions: new.hat.instructions,
                    extra_instructions: new.hat.extra_instructions,
                    ..old.hat
                })
                &&& new.hat.instructions@ == old.hat.instructions@
                &&& new.hat.extra_instructions@ == old.hat.extra_instructions@
            },
{
    assert forall|i: int| 0 <= i < second.hats@.len() implies {
        let old = second.hats@[i];
        let new = #[trigger] third.hats@[i];
        &&& new.hat.instructions@ == old.hat.instructions@
        &&& new.hat.extra_instructions@ == old.hat.extra_instructions@
    } by {
        assert(is_merged_hat(second.hats@[i], first.hats@[i]));
        assert(is_merged_hat(third.hats@[i], second.hats@[i]));
        assert(texts(second.hats@[i].hat.extra_instructions@).len() == 0);
        assert(third.hats@[i].hat.extra_instructions@
            == second.hats@[i].hat.extra_instructions@);
    }
}

fn merge_instructions(instructions: &str, fragments: &Vec<String>) -> (r: String)
    ensures
        r@ == merged(instructions@, texts(fragments@)),
{
    let mut r = instructions.to_owned();
    let mut i: usize = 0;
    let ghost all = texts(fragments@);
    while i < fragments.len()
        invariant
            i <= fragments.len(),
            all == texts(fragments@),
            r@ == merged(instructions@, all.take(i as int)),
        decreases fragments.len() - i,
    {
        proof {
            assert(all.take(i + 1).drop_last() == all.take(i as int));
            assert(all.take(i + 1).last() == fragments@[i as int]@);
        }
        let n: usize = r.as_str().unicode_len();
        if n == 0 || r.as_str().get_char(n - 1) != '\n' {
            r.append("\n");
        }
        r.append(fragments[i].as_str());
        i = i + 1;
    }
    assert(all.take(i as int) == all);
    r
}

fn flat_text(flat: &Option<String>, nested: &String) -> (r: String)
    ensures
        r == flat_or(*flat, *nested),
{
    match flat {
        Some(value) => value.clone(),
        None => nested.clone(),
    }
}

fn merge_hats(hats: &mut Vec<NamedHat>)
    ensures
        final(hats)@.len() == old(hats)@.len(),
        forall|i: int|
            0 <= i < old(hats)@.len() ==> is_merged_hat(
                #[trigger] final(hats)@[i],
                old(hats)@[i],
            ),
{
    let mut i: usize = 0;
    let ghost start = hats@;
    while i < hats.len()
        invariant
            i <= hats.len(),
            hats@.len() == start.len(),
            forall|k: int| 0 <= k < i ==> is_merged_hat(#[trigger] hats@[k], start[k]),
            forall|k: int| i <= k < hats@.len() ==> #[trigger] hats@[k] == start[k],
        decreases hats.len() - i,
    {
        if hats[i].hat.extra_instructions.len() > 0 {
            let text = merge_instructions(
                hats[i].hat.instructions.as_str(),
                &hats[i].hat.extra_instructions,
            );
            let hat = &mut hats[i];
            hat.hat.instructions = text;
            hat.hat.extra_instructions = Vec::new();
        }
        i = i + 1;
    }
}

impl RalphConfig {
    /// Makes the default configuration from core settings and from the sections that have defaults
    /// of their own.
    pub fn with_sections(
        core: CoreConfig,
        cli: CliConfig,
        memories: MemoriesConfig,
        skills: SkillsConfig,
        features: FeaturesConfig,
        robot: RobotConfig,
    ) -> (r: RalphConfig)
        ensures
            r.core == core,
            r.cli == cli,
            r.memories == memories,
            r.skills == skills,
            r.features == features,
            r.robot == robot,
            r.hats@.len() == 0,
            r.events@.len() == 0,
            r.tui is None,
            r.agent is None,
            r.agent_priority@.len() == 0,
            r.prompt_file is None,
            r.completion_promise is None,
            r.max_iterations is None,
            r.max_runtime is None,
            r.max_cost is None,
            !r.verbose,
            !r.archive_prompts,
            !r.enable_metrics,
            r.max_tokens is None,
            r.retry_delay is None,
            !r.suppress_warnings,
            r.tasks.enabled,
            is_default_loop(r.event_loop),
            is_default_hooks(r.hooks),
            are_default_adapters(r.adapters),
    {
        RalphConfig {
            event_loop: EventLoopConfig::default(),
            cli,
            core,
            hats: Vec::new(),
            events: Vec::new(),
            agent: None,
            agent_priority: Vec::new(),
            prompt_file: None,
            completion_promise: None,
            max_iterations: None,
            max_runtime: None,
            max_cost: None,
            verbose: false,
            archive_prompts: false,
            enable_metrics: false,
            max_tokens: None,
            retry_delay: None,
            adapters: AdaptersConfig::default(),
            suppress_warnings: false,
            tui: None,
            memories,
            tasks: TasksConfig::default(),
            hooks: HooksConfig::default(),
            skills,
            features,
            robot,
        }
    }

    /// Normalizes the flat fields into the nested ones, over which they take precedence, and
    /// merges the extra instructions of every hat into its instructions.
    pub fn normalize(&mut self)
        ensures
            is_normalized(*old(self), *final(self)),
    {
        let event_loop = &self.event_loop;
        let backend = flat_text(&self.agent, &self.cli.backend);
        let prompt_file = flat_text(&self.prompt_file, &event_loop.prompt_file);
        let completion_promise = flat_text(
            &self.completion_promise,
            &event_loop.completion_promise,
        );
        let max_iterations: u32 = match self.max_iterations {
            Some(value) => value,
            None => event_loop.max_iterations,
        };
        let max_runtime: u64 = match self.max_runtime {
            Some(value) => value,
            None => event_loop.max_runtime_seconds,
        };
        let max_cost = if self.max_cost.is_some() {
            self.max_cost
        } else {
            event_loop.max_cost_usd
        };
        self.cli.backend = backend;
        self.event_loop.prompt_file = prompt_file;
        self.event_loop.completion_promise = completion_promise;
        self.event_loop.max_iterations = max_iterations;
        self.event_loop.max_runtime_seconds = max_runtime;
        self.event_loop.max_cost_usd = max_cost;
        merge_hats(&mut self.hats);
    }
}

/// The plain values of warnings.
pub open spec fn notes_of(warnings: Seq<ConfigWarning>) -> Seq<ConfigNote> {
    Seq::new(warnings.len(), |i: int| warnings[i]@)
}

/// One note where a condition holds, else none.
pub open spec fn note_if(condition: bool, note: ConfigNote) -> Seq<ConfigNote> {
    if condition {
        seq![note]
    } else {
        Seq::empty()
    }
}

/// What a user should be told of a configuration, in this order.
pub open spec fn notes_on(config: RalphConfig) -> Seq<ConfigNote> {
    note_if(
        config.archive_prompts,
        ConfigNote::DeferredFeature {
            field: "archive_prompts"@,
            message: "Feature not yet available in v2"@,
        },
    ) + note_if(
        config.enable_metrics,
        ConfigNote::DeferredFeature {
            field: "enable_metrics"@,
            message: "Feature not yet available in v2"@,
        },
    ) + note_if(
        config.max_tokens is Some,
        ConfigNote::DroppedField {
            field: "max_tokens"@,
            reason: "Token limits are controlled by the CLI tool"@,
        },
    ) + note_if(
        config.retry_delay is Some,
        ConfigNote::DroppedField {
            field: "retry_delay"@,
            reason: "Retry logic handled differently in v2"@,
        },
    ) + note_if(
        config.event_loop.mutation_score_warn_threshold is Some && !is_percentage(
            config.event_loop.mutation_score_warn_threshold->0,
        ),
        ConfigNote::InvalidValue {
            field: "event_loop.mutation_score_warn_threshold"@,
            message: "Value must be between 0 and 100"@,
        },
    ) + note_if(
        sets_tool_permissions(config.adapters),
        ConfigNote::DroppedField {
            field: "adapters.*.tool_permissions"@,
            reason: "CLI tool manages its own permissions"@,
        },
    )
}

/// Whether an adapter sets tool permissions.
pub open spec fn sets_tool_permissions(adapters: AdaptersConfig) -> bool {
    ||| adapters.claude.tool_permissions is Some
    ||| adapters.gemini.tool_permissions is Some
    ||| adapters.kiro.tool_permissions is Some
    ||| adapters.codex.tool_permissions is Some
    ||| adapters.amp.tool_permissions is Some
}

/// What is wrong with the description of a hat.
pub open spec fn description_fault(hat: NamedHat) -> Option<ConfigFault> {
    if hat.hat.description is None || blank(hat.hat.description->0@) {
        Some(ConfigFault::MissingDescription { hat: hat.id@ })
    } else {
        None
    }
}

/// What is wrong with the wave settings of a hat.
pub open spec fn wave_fault(hat: NamedHat) -> Option<ConfigFault> {
    if hat.hat.concurrency == 0 {
        Some(ConfigFault::InvalidConcurrency { hat: hat.id@, value: 0 })
    } else if hat.hat.aggregate && hat.hat.concurrency > 1 {
        Some(ConfigFault::AggregateOnConcurrentHat { hat: hat.id@ })
    } else {
        None
    }
}

/// Whether a topic is reserved for the coordinator.
pub open spec fn reserved(trigger: Seq<char>) -> bool {
    trigger == "task.start"@ || trigger == "task.resume"@
}

/// What is wrong with one trigger of a hat.
pub open spec fn reserved_fault(hat: NamedHat, i: int) -> Option<ConfigFault> {
    if reserved(hat.hat.triggers@[i]@) {
        Some(ConfigFault::ReservedTrigger { trigger: hat.hat.triggers@[i]@, hat: hat.id@ })
    } else {
        None
    }
}

/// What is wrong with the triggers of a hat: the first reserved one.
pub open spec fn triggers_fault(hat: NamedHat) -> Option<ConfigFault> {
    first_of(Seq::new(hat.hat.triggers@.len(), |i: int| reserved_fault(hat, i)))
}

/// The triggers of one hat, each with the key of the hat.
pub open spec fn routes_of(hat: NamedHat) -> Seq<(Seq<char>, Seq<char>)> {
    Seq::new(hat.hat.triggers@.len(), |i: int| (hat.id@, hat.hat.triggers@[i]@))
}

/// The triggers of all hats, each with the key of its hat, in the order of the hats.
pub open spec fn all_routes(hats: Seq<NamedHat>) -> Seq<(Seq<char>, Seq<char>)>
    decreases hats.len(),
{
    if hats.len() == 0 {
        Seq::empty()
    } else {
        all_routes(hats.drop_last()) + routes_of(hats.last())
    }
}

/// The first route among some that has a trigger.
pub open spec fn route_with(routes: Seq<(Seq<char>, Seq<char>)>, trigger: Seq<char>) -> Option<
    Seq<char>,
> {
    first_of(
        Seq::new(
            routes.len(),
            |j: int|
                if routes[j].1 == trigger {
                    Some(routes[j].0)
                } else {
                    None
                },
        ),
    )
}

/// What is wrong with one route: a route before it has the same trigger.
pub open spec fn clash_fault(routes: Seq<(Seq<char>, Seq<char>)>, k: int) -> Option<ConfigFault> {
    match route_with(routes.take(k), routes[k].1) {
        Some(hat1) => Some(
            ConfigFault::AmbiguousRouting { trigger: routes[k].1, hat1, hat2: routes[k].0 },
        ),
        None => None,
    }
}

/// What is wrong with the routes of all hats: the first that clashes with one before it.
pub open spec fn routing_fault(hats: Seq<NamedHat>) -> Option<ConfigFault> {
    let routes = all_routes(hats);
    first_of(Seq::new(routes.len(), |k: int| clash_fault(routes, k)))
}

/// What is wrong with the hats: descriptions, wave settings, reserved triggers and ambiguous
/// routes are looked at in this order, each over all hats.
pub open spec fn hats_fault(hats: Seq<NamedHat>) -> Option<ConfigFault> {
    let descriptions = first_of(Seq::new(hats.len(), |i: int| description_fault(hats[i])));
    let waves = first_of(Seq::new(hats.len(), |i: int| wave_fault(hats[i])));
    let triggers = first_of(Seq::new(hats.len(), |i: int| triggers_fault(hats[i])));
    if descriptions is Some {
        descriptions
    } else if waves is Some {
        waves
    } else if triggers is Some {
        triggers
    } else {
        routing_fault(hats)
    }
}

/// What is wrong with the prompt and the backend.
pub open spec fn basics_fault(config: RalphConfig) -> Option<ConfigFault> {
    if config.event_loop.prompt is Some && config.event_loop.prompt_file@.len() > 0
        && config.event_loop.prompt_file@ != "PROMPT.md"@ {
        Some(
            ConfigFault::MutuallyExclusive {
                field1: "event_loop.prompt"@,
                field2: "event_loop.prompt_file"@,
            },
        )
    } else if blank(config.event_loop.completion_promise@) {
        Some(ConfigFault::InvalidCompletionPromise)
    } else if config.cli.backend@ == "custom"@ && (config.cli.command is None
        || config.cli.command->0@.len() == 0) {
        Some(ConfigFault::CustomBackendRequiresCommand)
    } else {
        None
    }
}

/// What makes a configuration unusable: the first fault, unless warnings are suppressed.
pub open spec fn config_fault(config: RalphConfig) -> Option<ConfigFault> {
    if config.suppress_warnings {
        None
    } else if basics_fault(config) is Some {
        basics_fault(config)
    } else if config.robot.fault is Some {
        Some(ConfigFault::InvalidRobot { message: config.robot.fault->0@ })
    } else if hooks_fault(config.hooks) is Some {
        hooks_fault(config.hooks)
    } else {
        hats_fault(config.hats@)
    }
}

fn push_warning(warnings: &mut Vec<ConfigWarning>, warning: ConfigWarning)
    ensures
        notes_of(final(warnings)@) == notes_of(old(warnings)@) + seq![warning@],
{
    warnings.push(warning);
    assert(notes_of(warnings@) == notes_of(old(warnings)@) + seq![warning@]);
}

/// One trigger of a hat.
struct Route {
    hat: String,
    trigger: String,
}

spec fn route_views(routes: Seq<Route>) -> Seq<(Seq<char>, Seq<char>)> {
    Seq::new(routes.len(), |i: int| (routes[i].hat@, routes[i].trigger@))
}

fn collect_routes(hats: &Vec<NamedHat>) -> (r: Vec<Route>)
    ensures
        route_views(r@) == all_routes(hats@),
{
    let mut r: Vec<Route> = Vec::new();
    let mut i: usize = 0;
    assert(hats@.take(0) == Seq::<NamedHat>::empty());
    assert(route_views(r@) == all_routes(hats@.take(0)));
    while i < hats.len()
        invariant
            i <= hats.len(),
            route_views(r@) == all_routes(hats@.take(i as int)),
        decreases hats.len() - i,
    {
        let hat = &hats[i];
        let mut j: usize = 0;
        let ghost start = route_views(r@);
        let ghost own = routes_of(*hat);
        assert(start + own.take(0) == start);
        while j < hat.hat.triggers.len()
            invariant
                j <= hat.hat.triggers.len(),
                own == routes_of(*hat),
                route_views(r@) == start + own.take(j as int),
            decreases hat.hat.triggers.len() - j,
        {
            let ghost before = r@;
            r.push(Route { hat: hat.id.clone(), trigger: hat.hat.triggers[j].clone() });
            proof {
                assert(own.take(j + 1) == own.take(j as int).push(own[j as int]));
                assert(route_views(r@) == route_views(before).push(own[j as int]));
                assert(start + own.take(j + 1) == (start + own.take(j as int)).push(own[j as int]));
            }
            j = j + 1;
        }
        proof {
            assert(own.take(j as int) == own);
            assert(hats@.take(i + 1).drop_last() == hats@.take(i as int));
            assert(hats@.take(i + 1).last() == *hat);
        }
        i = i + 1;
    }
    assert(hats@.take(i as int) == hats@);
    r
}

fn find_route(routes: &Vec<Route>, count: usize, trigger: &str) -> (r: Option<String>)
    requires
        count <= routes.len(),
    ensures
        opt_text(r) == route_with(route_views(routes@).take(count as int), trigger@),
{
    let ghost some = route_views(routes@).take(count as int);
    let ghost hits = Seq::new(
        some.len(),
        |j: int|
            if some[j].1 == trigger@ {
                Some(some[j].0)
            } else {
                None
            },
    );
    let mut j: usize = 0;
    assert(hits.skip(0) == hits);
    while j < count
        invariant
            j <= count <= routes.len(),
            some == route_views(routes@).take(count as int),
            hits == Seq::new(
                some.len(),
                |j: int|
                    if some[j].1 == trigger@ {
                        Some(some[j].0)
                    } else {
                        None
                    },
            ),
            first_of(hits) == first_of(hits.skip(j as int)),
        decreases count - j,
    {
        proof {
            lemma_first_of(hits, j as int);
            assert(some[j as int] == (routes@[j as int].hat@, routes@[j as int].trigger@));
        }
        if str_eq(routes[j].trigger.as_str(), trigger) {
            return Some(routes[j].hat.clone());
        }
        j = j + 1;
    }
    None
}

/// The order in which backends are tried: the configured one, or the default order where none is
/// configured, which starts with a given backend.
pub open spec fn backend_order(config: RalphConfig, first_backend: Seq<char>) -> Seq<Seq<char>> {
    if config.agent_priority@.len() == 0 {
        seq![first_backend, "kiro"@, "gemini"@, "codex"@, "amp"@]
    } else {
        texts(config.agent_priority@)
    }
}

/// The name of the backend in use.
pub open spec fn backend_in_use(config: RalphConfig, first_backend: Seq<char>) -> Seq<char> {
    if config.cli.backend@ == "auto"@ {
        backend_order(config, first_backend)[0]
    } else {
        config.cli.backend@
    }
}

/// The settings of a backend.
pub open spec fn settings_of(adapters: AdaptersConfig, backend: Seq<char>) -> AdapterSettings {
    if backend == "gemini"@ {
        adapters.gemini
    } else if backend == "kiro"@ {
        adapters.kiro
    } else if backend == "codex"@ {
        adapters.codex
    } else if backend == "amp"@ {
        adapters.amp
    } else {
        adapters.claude
    }
}

impl RalphConfig {
    fn validate_descriptions(&self) -> (r: Result<(), ConfigError>)
        ensures
            fault_of(r) == first_of(
                Seq::new(self.hats@.len(), |i: int| description_fault(self.hats@[i])),
            ),
    {
        let ghost faults = Seq::new(self.hats@.len(), |i: int| description_fault(self.hats@[i]));
        let mut i: usize = 0;
        assert(faults.skip(0) == faults);
        while i < self.hats.len()
            invariant
                i <= self.hats.len(),
                faults == Seq::new(self.hats@.len(), |i: int| description_fault(self.hats@[i])),
                first_of(faults) == first_of(faults.skip(i as int)),
            decreases self.hats.len() - i,
        {
            proof {
                lemma_first_of(faults, i as int);
            }
            let missing = match &self.hats[i].hat.description {
                Some(description) => is_blank(description.as_str()),
                None => true,
            };
            if missing {
                return Err(ConfigError::MissingDescription { hat: self.hats[i].id.clone() });
            }
            i = i + 1;
        }
        Ok(())
    }

    fn validate_waves(&self) -> (r: Result<(), ConfigError>)
        ensures
            fault_of(r) == first_of(
                Seq::new(self.hats@.len(), |i: int| wave_fault(self.hats@[i])),
            ),
    {
        let ghost faults = Seq::new(self.hats@.len(), |i: int| wave_fault(self.hats@[i]));
        let mut i: usize = 0;
        assert(faults.skip(0) == faults);
        while i < self.hats.len()
            invariant
                i <= self.hats.len(),
                faults == Seq::new(self.hats@.len(), |i: int| wave_fault(self.hats@[i])),
                first_of(faults) == first_of(faults.skip(i as int)),
            decreases self.hats.len() - i,
        {
            proof {
                lemma_first_of(faults, i as int);
            }
            let hat = &self.hats[i];
            if hat.hat.concurrency == 0 {
                return Err(ConfigError::InvalidConcurrency { hat: hat.id.clone(), value: 0 });
            }
            if hat.hat.aggregate && hat.hat.concurrency > 1 {
                return Err(ConfigError::AggregateOnConcurrentHat { hat: hat.id.clone() });
            }
            i = i + 1;
        }
        Ok(())
    }

    fn validate_hat_triggers(hat: &NamedHat) -> (r: Result<(), ConfigError>)
        ensures
            fault_of(r) == triggers_fault(*hat),
    {
        let ghost faults = Seq::new(hat.hat.triggers@.len(), |i: int| reserved_fault(*hat, i));
        let mut i: usize = 0;
        assert(faults.skip(0) == faults);
        while i < hat.hat.triggers.len()
            invariant
                i <= hat.hat.triggers.len(),
                faults == Seq::new(hat.hat.triggers@.len(), |i: int| reserved_fault(*hat, i)),
                first_of(faults) == first_of(faults.skip(i as int)),
            decreases hat.hat.triggers.len() - i,
        {
            proof {
                lemma_first_of(faults, i as int);
            }
            let trigger = hat.hat.triggers[i].as_str();
            if str_eq(trigger, "task.start") || str_eq(trigger, "task.resume") {
                return Err(
                    ConfigError::ReservedTrigger {
                        trigger: trigger.to_owned(),
                        hat: hat.id.clone(),
                    },
                );
            }
            i = i + 1;
        }
        Ok(())
    }

    fn validate_reserved_triggers(&self) -> (r: Result<(), ConfigError>)
        ensures
            fault_of(r) == first_of(
                Seq::new(self.hats@.len(), |i: int| triggers_fault(self.hats@[i])),
            ),
    {
        let ghost faults = Seq::new(self.hats@.len(), |i: int| triggers_fault(self.hats@[i]));
        let mut i: usize = 0;
        assert(faults.skip(0) == faults);
        while i < self.hats.len()
            invariant
                i <= self.hats.len(),
                faults == Seq::new(self.hats@.len(), |i: int| triggers_fault(self.hats@[i])),
                first_of(faults) == first_of(faults.skip(i as int)),
            decreases self.hats.len() - i,
        {
            proof {
                lemma_first_of(faults, i as int);
            }
            match RalphConfig::validate_hat_triggers(&self.hats[i]) {
                Ok(_) => {},
                Err(error) => {
                    return Err(error);
                },
            }
            i = i + 1;
        }
        Ok(())
    }

    fn validate_routing(&self) -> (r: Result<(), ConfigError>)
        ensures
            fault_of(r) == routing_fault(self.hats@),
    {
        let routes = collect_routes(&self.hats);
        let ghost views = route_views(routes@);
        let ghost faults = Seq::new(views.len(), |k: int| clash_fault(views, k));
        let mut k: usize = 0;
        assert(faults.skip(0) == faults);
        while k < routes.len()
            invariant
                k <= routes.len(),
                views == route_views(routes@),
                faults == Seq::new(views.len(), |k: int| clash_fault(views, k)),
                first_of(faults) == first_of(faults.skip(k as int)),
                first_of(faults) == routing_fault(self.hats@),
            decreases routes.len() - k,
        {
            proof {
                lemma_first_of(faults, k as int);
                assert(views[k as int] == (routes@[k as int].hat@, routes@[k as int].trigger@));
            }
            if let Some(hat1) = find_route(&routes, k, routes[k].trigger.as_str()) {
                return Err(
                    ConfigError::AmbiguousRouting {
                        trigger: routes[k].trigger.clone(),
                        hat1,
                        hat2: routes[k].hat.clone(),
                    },
                );
            }
            k = k + 1;
        }
        Ok(())
    }

    fn validate_hats(&self) -> (r: Result<(), ConfigError>)
        ensures
            fault_of(r) == hats_fault(self.hats@),
    {
        match self.validate_descriptions() {
            Ok(_) => {},
            Err(error) => {
                return Err(error);
            },
        }
        match self.validate_waves() {
            Ok(_) => {},
            Err(error) => {
                return Err(error);
            },
        }
        match self.validate_reserved_triggers() {
            Ok(_) => {},
            Err(error) => {
                return Err(error);
            },
        }
        self.validate_routing()
    }

    fn validate_basics(&self) -> (r: Result<(), ConfigError>)
        ensures
            fault_of(r) == basics_fault(*self),
    {
        if self.event_loop.prompt.is_some() && self.event_loop.prompt_file.as_str().unicode_len()
            > 0 && !str_eq(self.event_loop.prompt_file.as_str(), "PROMPT.md") {
            return Err(
                ConfigError::MutuallyExclusive {
                    field1: "event_loop.prompt".to_owned(),
                    field2: "event_loop.prompt_file".to_owned(),
                },
            );
        }
        if is_blank(self.event_loop.completion_promise.as_str()) {
            return Err(ConfigError::InvalidCompletionPromise);
        }
        if str_eq(self.cli.backend.as_str(), "custom") {
            let missing = match &self.cli.command {
                Some(command) => command.as_str().unicode_len() == 0,
                None => true,
            };
            if missing {
                return Err(ConfigError::CustomBackendRequiresCommand);
            }
        }
        Ok(())
    }

    fn collect_warnings(&self) -> (r: Vec<ConfigWarning>)
        ensures
            notes_of(r@) == notes_on(*self),
    {
        let mut warnings: Vec<ConfigWarning> = Vec::new();
        if self.archive_prompts {
            push_warning(
                &mut warnings,
                ConfigWarning::DeferredFeature {
                    field: "archive_prompts".to_owned(),
                    message: "Feature not yet available in v2".to_owned(),
                },
            );
        }
        if self.enable_metrics {
            push_warning(
                &mut warnings,
                ConfigWarning::DeferredFeature {
                    field: "enable_metrics".to_owned(),
                    message: "Feature not yet available in v2".to_owned(),
                },
            );
        }
        if self.max_tokens.is_some() {
            push_warning(
                &mut warnings,
                ConfigWarning::DroppedField {
                    field: "max_tokens".to_owned(),
                    reason: "Token limits are controlled by the CLI tool".to_owned(),
                },
            );
        }
        if self.retry_delay.is_some() {
            push_warning(
                &mut warnings,
                ConfigWarning::DroppedField {
                    field: "retry_delay".to_owned(),
                    reason: "Retry logic handled differently in v2".to_owned(),
                },
            );
        }
        let out_of_range = match self.event_loop.mutation_score_warn_threshold {
            Some(bits) => !percentage_in_range(bits),
            None => false,
        };
        if out_of_range {
            push_warning(
                &mut warnings,
                ConfigWarning::InvalidValue {
                    field: "event_loop.mutation_score_warn_threshold".to_owned(),
                    message: "Value must be between 0 and 100".to_owned(),
                },
            );
        }
        if self.adapters.claude.tool_permissions.is_some()
            || self.adapters.gemini.tool_permissions.is_some()
            || self.adapters.kiro.tool_permissions.is_some()
            || self.adapters.codex.tool_permissions.is_some()
            || self.adapters.amp.tool_permissions.is_some() {
            push_warning(
                &mut warnings,
                ConfigWarning::DroppedField {
                    field: "adapters.*.tool_permissions".to_owned(),
                    reason: "CLI tool manages its own permissions".to_owned(),
                },
            );
        }
        assert(notes_of(warnings@) =~= notes_on(*self));
        warnings
    }

    /// Validates the configuration and returns warnings that should be shown to the user. Where
    /// warnings are suppressed, nothing is looked at.
    pub fn validate(&self) -> (r: Result<Vec<ConfigWarning>, ConfigError>)
        ensures
            match r {
                Ok(warnings) => config_fault(*self) is None && notes_of(warnings@) == (
                if self.suppress_warnings {
                    Seq::empty()
                } else {
                    notes_on(*self)
                }),
                Err(error) => config_fault(*self) == Some(error@),
            },
    {
        if self.suppress_warnings {
            let none: Vec<ConfigWarning> = Vec::new();
            assert(notes_of(none@) == Seq::<ConfigNote>::empty());
            return Ok(none);
        }
        match self.validate_basics() {
            Ok(_) => {},
            Err(error) => {
                return Err(error);
            },
        }
        if let Some(message) = &self.robot.fault {
            return Err(ConfigError::InvalidRobot { message: message.clone() });
        }
        match self.validate_hooks() {
            Ok(_) => {},
            Err(error) => {
                return Err(error);
            },
        }
        match self.validate_hats() {
            Ok(_) => {},
            Err(error) => {
                return Err(error);
            },
        }
        Ok(self.collect_warnings())
    }

    /// The name of the backend: where it is to be detected, the one that is tried first.
    /// `first_backend` is what [`RalphConfig::get_agent_priority`] is told.
    pub fn effective_backend<'a>(&'a self, first_backend: &'a str) -> (r: &'a str)
        ensures
            r@ == (if self.cli.backend@ == "auto"@ {
                backend_order(*self, first_backend@)[0]
            } else {
                self.cli.backend@
            }),
            r@ == backend_in_use(*self, first_backend@),
    {
        if !str_eq(self.cli.backend.as_str(), "auto") {
            return self.cli.backend.as_str();
        }
        if self.agent_priority.len() == 0 {
            first_backend
        } else {
            assert(texts(self.agent_priority@)[0] == self.agent_priority@[0]@);
            self.agent_priority[0].as_str()
        }
    }

    /// The order in which backends are tried: the configured one, or the default order where none
    /// is configured. `first_backend` is the name of the backend that the default order starts
    /// with, the one that the first field of `adapters` is for.
    pub fn get_agent_priority(&self, first_backend: &str) -> (r: Vec<String>)
        ensures
            texts(r@) == backend_order(*self, first_backend@),
    {
        let mut r: Vec<String> = Vec::new();
        if self.agent_priority.len() == 0 {
            r.push(first_backend.to_owned());
            r.push("kiro".to_owned());
            r.push("gemini".to_owned());
            r.push("codex".to_owned());
            r.push("amp".to_owned());
            assert(texts(r@) == seq![first_backend@, "kiro"@, "gemini"@, "codex"@, "amp"@]);
            r
        } else {
            let mut i: usize = 0;
            while i < self.agent_priority.len()
                invariant
                    i <= self.agent_priority.len(),
                    r@ == self.agent_priority@.take(i as int),
                decreases self.agent_priority.len() - i,
            {
                r.push(self.agent_priority[i].clone());
                i = i + 1;
            }
            assert(r@ == self.agent_priority@);
            r
        }
    }

    /// The settings of a backend: any backend but the four that are told apart here has those of
    /// the first field of `adapters`.
    pub fn adapter_settings(&self, backend: &str) -> (r: &AdapterSettings)
        ensures
            *r == (if backend@ == "gemini"@ {
                self.adapters.gemini
            } else if backend@ == "kiro"@ {
                self.adapters.kiro
            } else if backend@ == "codex"@ {
                self.adapters.codex
            } else if backend@ == "amp"@ {
                self.adapters.amp
            } else {
                self.adapters.claude
            }),
            *r == settings_of(self.adapters, backend@),
    {
        if str_eq(backend, "gemini") {
            &self.adapters.gemini
        } else if str_eq(backend, "kiro") {
            &self.adapters.kiro
        } else if str_eq(backend, "codex") {
            &self.adapters.codex
        } else if str_eq(backend, "amp") {
            &self.adapters.amp
        } else {
            &self.adapters.claude
        }
    }
}

} // verus!
