//! Which configurations are valid, and what is told of those that are not.
use crate::config::core_config::AdaptersConfig;
use crate::config::errors::{ConfigFault, ConfigNote};
use crate::config::hats::HatConfig;
use crate::config::event_loop::{is_default_loop, EventLoopConfig};
use crate::config::hooks::{
    is_default_hooks, phase_key, HookOnError, HookPhaseEvent, HookSpec, HookSuspendMode,
    HooksConfig, PhaseHooks,
};
use crate::config::keys::{
    document_fault, event_keys, is_phase_key, member, phase_key_fault, phase_keys_fault,
};
use crate::config::laws::{law_valid_hats_are_complete, law_valid_triggers_are_unambiguous};
use crate::config::ralph_config::{
    all_routes, backend_in_use, backend_order, clash_fault, config_fault, description_fault, hook_fault,
    hook_place, hooks_fault, is_normalized, key_fault, keys_fault, merged, mutation_key_reason,
    notes_on, phase_fault, reserved_fault, route_with, routing_fault, settings_of, triggers_fault,
    wave_fault, RalphConfig,
};
use crate::event_loop::processing_laws::lemma_first_at;
use crate::text::{blank, first_of, lemma_first_among, same_but_case, texts};
use serde_yaml::Value;
use vstd::prelude::*;

verus! {

proof fn lemma_none_of<T>(s: Seq<Option<T>>)
    requires
        forall|i: int| 0 <= i < s.len() ==> (#[trigger] s[i]) is None,
    ensures
        first_of(s) is None,
{
    lemma_first_among(s);
    if first_of(s) is Some {
        let i = choose|i: int| 0 <= i < s.len() && #[trigger] s[i] == first_of(s);
        assert(s[i] is None);
    }
}

proof fn lemma_none_at<T>(s: Seq<Option<T>>, i: int)
    requires
        first_of(s) is None,
        0 <= i < s.len(),
    ensures
        s[i] is None,
{
    lemma_first_among(s);
}

// ---- triggers ----

/// No hat of a valid configuration is triggered by `task.start` or by `task.resume`.
pub proof fn law_starts_and_resumes_are_left_to_the_coordinator(
    config: RalphConfig,
    i: int,
    k: int,
)
    requires
        config_fault(config) is None,
        !config.suppress_warnings,
        0 <= i < config.hats@.len(),
        0 <= k < config.hats@[i].hat.triggers@.len(),
    ensures
        config.hats@[i].hat.triggers@[k]@ != "task.start"@,
        config.hats@[i].hat.triggers@[k]@ != "task.resume"@,
{
    law_valid_hats_are_complete(config, i);
}

proof fn lemma_routes_split(hats: Seq<crate::config::hats::NamedHat>, i: int, k: int)
    requires
        0 <= i < hats.len(),
        0 <= k < hats[i].hat.triggers@.len(),
    ensures
        all_routes(hats.take(i)).len() + k < all_routes(hats).len(),
        all_routes(hats)[all_routes(hats.take(i)).len() + k] == (
            hats[i].id@,
            hats[i].hat.triggers@[k]@,
        ),
    decreases hats.len(),
{
    let init = hats.drop_last();
    if i == hats.len() - 1 {
        assert(hats.take(i) == init);
    } else {
        lemma_routes_split(init, i, k);
        assert(init.take(i) == hats.take(i));
    }
}

proof fn lemma_routes_grow(hats: Seq<crate::config::hats::NamedHat>, i: int, j: int)
    requires
        0 <= i < j < hats.len(),
    ensures
        all_routes(hats.take(i)).len() + hats[i].hat.triggers@.len() <= all_routes(
            hats.take(j),
        ).len(),
    decreases j,
{
    let up = hats.take(j);
    assert(up.drop_last() == hats.take(j - 1));
    assert(up.last() == hats[j - 1]);
    if i < j - 1 {
        lemma_routes_grow(hats, i, j - 1);
    }
}

/// No two triggers of a valid configuration are the same, be they of one hat or of two.
pub proof fn law_triggers_lead_to_one_hat(config: RalphConfig, i: int, k: int, j: int, l: int)
    requires
        config_fault(config) is None,
        !config.suppress_warnings,
        0 <= i <= j < config.hats@.len(),
        0 <= k < config.hats@[i].hat.triggers@.len(),
        0 <= l < config.hats@[j].hat.triggers@.len(),
        i < j || k < l,
    ensures
        config.hats@[i].hat.triggers@[k]@ != config.hats@[j].hat.triggers@[l]@,
{
    let hats = config.hats@;
    lemma_routes_split(hats, i, k);
    lemma_routes_split(hats, j, l);
    if i < j {
        lemma_routes_grow(hats, i, j);
    }
    law_valid_triggers_are_unambiguous(
        config,
        all_routes(hats.take(i)).len() + k,
        all_routes(hats.take(j)).len() + l,
    );
}

/// The routes of hats are their triggers, hat by hat and in order.
pub proof fn law_routes_are_the_triggers(
    a: Seq<crate::config::hats::NamedHat>,
    hat: crate::config::hats::NamedHat,
)
    ensures
        all_routes(a.push(hat)).len() == all_routes(a).len() + hat.hat.triggers@.len(),
        forall|k: int|
            0 <= k < hat.hat.triggers@.len() ==> #[trigger] all_routes(a.push(hat))[all_routes(
                a,
            ).len() + k] == (hat.id@, hat.hat.triggers@[k]@),
        all_routes(Seq::empty()).len() == 0,
{
    assert(a.push(hat).drop_last() == a);
}

// ---- prompt, promise, backend, robot ----

/// A valid configuration has one source of its prompt, a promise that is not blank, a command for a
/// backend of its own, and a robot without fault.
pub proof fn law_valid_basics(config: RalphConfig)
    requires
        config_fault(config) is None,
        !config.suppress_warnings,
    ensures
        config.event_loop.prompt is Some ==> config.event_loop.prompt_file@.len() == 0
            || config.event_loop.prompt_file@ == "PROMPT.md"@,
        !blank(config.event_loop.completion_promise@),
        config.cli.backend@ == "custom"@ ==> config.cli.command is Some
            && config.cli.command->0@.len() > 0,
        config.robot.fault is None,
{
}

// ---- hooks ----

/// The defaults of the hooks of a valid configuration limit time and output, and every hook of it is
/// complete: it has a name and a command, says what its failure means, and limits nothing to zero. It
/// waits only where its failure suspends, and mutates only as far as it is told to, in JSON.
pub proof fn law_valid_hooks_are_complete(config: RalphConfig, p: int, j: int)
    requires
        config_fault(config) is None,
        !config.suppress_warnings,
        0 <= p < config.hooks.events@.len(),
        0 <= j < config.hooks.events@[p].hooks@.len(),
    ensures
        config.hooks.defaults.timeout_seconds > 0,
        config.hooks.defaults.max_output_bytes > 0,
        ({
            let hook = config.hooks.events@[p].hooks@[j];
            &&& !blank(hook.name@)
            &&& hook.command@.len() > 0 && !blank(hook.command@[0]@)
            &&& hook.on_error is Some
            &&& hook.timeout_seconds is Some ==> hook.timeout_seconds->0 > 0
            &&& hook.max_output_bytes is Some ==> hook.max_output_bytes->0 > 0
            &&& hook.suspend_mode is Some ==> hook.on_error == Some(HookOnError::Suspend)
            &&& hook.mutate.extra@.len() == 0
            &&& !hook.mutate.enabled ==> hook.mutate.format is None
            &&& hook.mutate.format is Some ==> same_but_case(hook.mutate.format->0@, "json"@)
        }),
{
    let phases = Seq::new(
        config.hooks.events@.len(),
        |i: int| phase_fault(config.hooks.events@[i]),
    );
    assert(hooks_fault(config.hooks) is None);
    lemma_none_at(phases, p);
    lemma_hook_of_phase(config.hooks.events@[p], j);
    lemma_key_faults(
        hook_place(config.hooks.events@[p].phase_event, j as nat),
        config.hooks.events@[p].hooks@[j].extra@,
    );
}

proof fn lemma_hook_of_phase(phase: PhaseHooks, j: int)
    requires
        phase_fault(phase) is None,
        0 <= j < phase.hooks@.len(),
    ensures
        hook_fault(hook_place(phase.phase_event, j as nat), phase.hooks@[j]) is None,
{
    let faults = Seq::new(
        phase.hooks@.len(),
        |j: int| hook_fault(hook_place(phase.phase_event, j as nat), phase.hooks@[j]),
    );
    lemma_none_at(faults, j);
}

proof fn lemma_key_faults(prefix: Seq<char>, keys: Seq<String>)
    ensures
        keys_fault(prefix, keys) is None <==> forall|k: int|
            0 <= k < keys.len() ==> key_fault(prefix, (#[trigger] keys[k])@) is None,
{
    let faults = Seq::new(keys.len(), |i: int| key_fault(prefix, keys[i]@));
    lemma_first_among(faults);
    if keys_fault(prefix, keys) is None {
        assert forall|k: int| 0 <= k < keys.len() implies key_fault(
            prefix,
            (#[trigger] keys[k])@,
        ) is None by {
            assert(faults[k] is None);
        }
    }
    if forall|k: int| 0 <= k < keys.len() ==> key_fault(prefix, (#[trigger] keys[k])@) is None {
        assert forall|k: int| 0 <= k < faults.len() implies (#[trigger] faults[k]) is None by {
            assert(key_fault(prefix, keys[k]@) is None);
        }
        lemma_none_of(faults);
    }
}

/// No hook of a valid configuration asks for a scope of its own or to run beside others, and neither
/// does the section as a whole.
pub proof fn law_valid_hooks_ask_for_nothing_unsupported(
    config: RalphConfig,
    p: int,
    j: int,
    k: int,
    key: Seq<char>,
)
    requires
        config_fault(config) is None,
        !config.suppress_warnings,
        key == "global"@ || key == "globals"@ || key == "global_defaults"@ || key
            == "global_hooks"@ || key == "scope"@ || key == "parallel"@ || key == "parallelism"@
            || key == "max_parallel"@ || key == "concurrency"@ || key == "run_in_parallel"@,
    ensures
        0 <= k < config.hooks.extra@.len() ==> config.hooks.extra@[k]@ != key,
        0 <= p < config.hooks.events@.len() && 0 <= j < config.hooks.events@[p].hooks@.len() && 0
            <= k < config.hooks.events@[p].hooks@[j].extra@.len()
            ==> config.hooks.events@[p].hooks@[j].extra@[k]@ != key,
{
    assert(hooks_fault(config.hooks) is None);
    lemma_key_faults("hooks"@, config.hooks.extra@);
    if 0 <= p < config.hooks.events@.len() && 0 <= j < config.hooks.events@[p].hooks@.len() {
        let phases = Seq::new(
            config.hooks.events@.len(),
            |i: int| phase_fault(config.hooks.events@[i]),
        );
        lemma_none_at(phases, p);
        lemma_hook_of_phase(config.hooks.events@[p], j);
        lemma_key_faults(
            hook_place(config.hooks.events@[p].phase_event, j as nat),
            config.hooks.events@[p].hooks@[j].extra@,
        );
    }
}

/// What is told of a hook that is not complete names its place and the field, and the first field that is
/// wrong.
pub proof fn law_incomplete_hooks_are_told(base: Seq<char>, hook: HookSpec)
    ensures
        ({
            let fault = hook_fault(base, hook);
            let named = !blank(hook.name@);
            let runs = named && hook.command@.len() > 0 && !blank(hook.command@[0]@);
            let decided = runs && hook.on_error is Some;
            let timed = decided && hook.timeout_seconds != Some(0u64);
            let limited = timed && hook.max_output_bytes != Some(0u64);
            &&& !named ==> fault == Some(
                ConfigFault::HookValidation {
                    field: base + ".name"@,
                    message: "is required and must be non-empty"@,
                },
            )
            &&& named && !runs ==> fault == Some(
                ConfigFault::HookValidation {
                    field: base + ".command"@,
                    message: "is required and must include an executable at command[0]"@,
                },
            )
            &&& runs && !decided ==> fault == Some(
                ConfigFault::HookValidation {
                    field: base + ".on_error"@,
                    message: "is required in v1 (warn | block | suspend)"@,
                },
            )
            &&& decided && !timed ==> fault == Some(
                ConfigFault::HookValidation {
                    field: base + ".timeout_seconds"@,
                    message: "must be greater than 0 when specified"@,
                },
            )
            &&& timed && !limited ==> fault == Some(
                ConfigFault::HookValidation {
                    field: base + ".max_output_bytes"@,
                    message: "must be greater than 0 when specified"@,
                },
            )
            &&& limited && hook.suspend_mode is Some && hook.on_error != Some(HookOnError::Suspend)
                ==> fault == Some(
                ConfigFault::HookValidation {
                    field: base + ".suspend_mode"@,
                    message: "requires on_error: suspend"@,
                },
            )
        }),
{
}

/// Whether nothing is wrong with a hook.
pub open spec fn hook_is_sound(hook: HookSpec) -> bool {
    &&& !blank(hook.name@)
    &&& hook.command@.len() > 0 && !blank(hook.command@[0]@)
    &&& hook.on_error is Some
    &&& hook.timeout_seconds != Some(0u64)
    &&& hook.max_output_bytes != Some(0u64)
    &&& hook.suspend_mode is None || hook.on_error == Some(HookOnError::Suspend)
    &&& hook.extra@.len() == 0
    &&& hook.mutate.extra@.len() == 0
    &&& hook.mutate.format is None || hook.mutate.enabled && hook.mutate.format->0@ == "json"@
}

/// Whether nothing is wrong with a hat.
pub open spec fn hat_is_sound(hat: HatConfig) -> bool {
    &&& hat.description is Some && !blank(hat.description->0@)
    &&& hat.concurrency == 1 || hat.concurrency > 1 && !hat.aggregate
    &&& forall|k: int|
        0 <= k < hat.triggers@.len() ==> (#[trigger] hat.triggers@[k])@ != "task.start"@
            && hat.triggers@[k]@ != "task.resume"@
}

proof fn lemma_sound_hook(base: Seq<char>, hook: HookSpec)
    requires
        hook_is_sound(hook),
    ensures
        hook_fault(base, hook) is None,
{
    lemma_key_faults(base, hook.extra@);
}

proof fn lemma_sound_phase(phase: PhaseHooks)
    requires
        forall|j: int| 0 <= j < phase.hooks@.len() ==> hook_is_sound(#[trigger] phase.hooks@[j]),
    ensures
        phase_fault(phase) is None,
{
    let faults = Seq::new(
        phase.hooks@.len(),
        |j: int| hook_fault(hook_place(phase.phase_event, j as nat), phase.hooks@[j]),
    );
    assert forall|j: int| 0 <= j < faults.len() implies (#[trigger] faults[j]) is None by {
        lemma_sound_hook(hook_place(phase.phase_event, j as nat), phase.hooks@[j]);
    }
    lemma_none_of(faults);
}

proof fn lemma_sound_triggers(hat: crate::config::hats::NamedHat)
    requires
        hat_is_sound(hat.hat),
    ensures
        triggers_fault(hat) is None,
        description_fault(hat) is None,
        wave_fault(hat) is None,
{
    let faults = Seq::new(hat.hat.triggers@.len(), |i: int| reserved_fault(hat, i));
    assert forall|k: int| 0 <= k < faults.len() implies (#[trigger] faults[k]) is None by {
        assert(hat.hat.triggers@[k]@ != "task.start"@);
    }
    lemma_none_of(faults);
}

/// No more is asked of a configuration: where the prompt has one source, the promise is not blank, a
/// backend of its own has its command, the robot has no fault, the hooks have limits, every hook and
/// every hat is sound and no trigger is there twice, the configuration is valid.
pub proof fn law_sound_configurations_are_valid(config: RalphConfig)
    requires
        config.event_loop.prompt is None || config.event_loop.prompt_file@.len() == 0
            || config.event_loop.prompt_file@ == "PROMPT.md"@,
        !blank(config.event_loop.completion_promise@),
        config.cli.backend@ != "custom"@ || config.cli.command is Some
            && config.cli.command->0@.len() > 0,
        config.robot.fault is None,
        config.hooks.extra@.len() == 0,
        config.hooks.defaults.timeout_seconds > 0,
        config.hooks.defaults.max_output_bytes > 0,
        forall|p: int, j: int|
            0 <= p < config.hooks.events@.len() && 0 <= j < config.hooks.events@[p].hooks@.len()
                ==> hook_is_sound(#[trigger] config.hooks.events@[p].hooks@[j]),
        forall|i: int| 0 <= i < config.hats@.len() ==> hat_is_sound((#[trigger] config.hats@[i]).hat),
        forall|m: int, n: int|
            0 <= m < n < all_routes(config.hats@).len() ==> (#[trigger] all_routes(config.hats@)[m]).1
                != (#[trigger] all_routes(config.hats@)[n]).1,
    ensures
        config_fault(config) is None,
{
    let hats = config.hats@;
    lemma_key_faults("hooks"@, config.hooks.extra@);
    let phases = Seq::new(
        config.hooks.events@.len(),
        |i: int| phase_fault(config.hooks.events@[i]),
    );
    assert forall|p: int| 0 <= p < phases.len() implies (#[trigger] phases[p]) is None by {
        lemma_sound_phase(config.hooks.events@[p]);
    }
    lemma_none_of(phases);
    assert(hooks_fault(config.hooks) is None);
    let descriptions = Seq::new(hats.len(), |i: int| description_fault(hats[i]));
    let waves = Seq::new(hats.len(), |i: int| wave_fault(hats[i]));
    let triggers = Seq::new(hats.len(), |i: int| triggers_fault(hats[i]));
    assert forall|i: int| 0 <= i < hats.len() implies (#[trigger] descriptions[i]) is None by {
        lemma_sound_triggers(hats[i]);
    }
    assert forall|i: int| 0 <= i < hats.len() implies (#[trigger] waves[i]) is None by {
        lemma_sound_triggers(hats[i]);
    }
    assert forall|i: int| 0 <= i < hats.len() implies (#[trigger] triggers[i]) is None by {
        lemma_sound_triggers(hats[i]);
    }
    lemma_none_of(descriptions);
    lemma_none_of(waves);
    lemma_none_of(triggers);
    let routes = all_routes(hats);
    let clashes = Seq::new(routes.len(), |k: int| clash_fault(routes, k));
    assert forall|n: int| 0 <= n < clashes.len() implies (#[trigger] clashes[n]) is None by {
        let before = routes.take(n);
        let hits = Seq::new(
            before.len(),
            |j: int|
                if before[j].1 == routes[n].1 {
                    Some(before[j].0)
                } else {
                    None
                },
        );
        assert forall|m: int| 0 <= m < hits.len() implies (#[trigger] hits[m]) is None by {
            assert(routes[m].1 != routes[n].1);
        }
        lemma_none_of(hits);
        assert(route_with(before, routes[n].1) == first_of(hits));
    }
    lemma_none_of(clashes);
}

/// What is told of a configuration holds of it: a fault of the prompt, the promise, the backend, the robot
/// or a hat is there.
pub proof fn law_faults_are_there(config: RalphConfig)
    requires
        config_fault(config) is Some,
    ensures
        !config.suppress_warnings,
        match config_fault(config)->0 {
            ConfigFault::MutuallyExclusive { field1, field2 } => field1 == "event_loop.prompt"@
                && field2 == "event_loop.prompt_file"@ && config.event_loop.prompt is Some
                && config.event_loop.prompt_file@.len() > 0 && config.event_loop.prompt_file@
                != "PROMPT.md"@,
            ConfigFault::InvalidCompletionPromise => blank(config.event_loop.completion_promise@),
            ConfigFault::CustomBackendRequiresCommand => config.cli.backend@ == "custom"@ && (
            config.cli.command is None || config.cli.command->0@.len() == 0),
            ConfigFault::InvalidRobot { message } => config.robot.fault is Some
                && config.robot.fault->0@ == message,
            ConfigFault::HookValidation { .. } => hooks_fault(config.hooks) == config_fault(config),
            ConfigFault::UnsupportedHookField { .. } => hooks_fault(config.hooks) == config_fault(
                config,
            ),
            ConfigFault::MissingDescription { hat } => exists|i: int|
                0 <= i < config.hats@.len() && (#[trigger] config.hats@[i]).id@ == hat && (
                config.hats@[i].hat.description is None || blank(
                    config.hats@[i].hat.description->0@,
                )),
            ConfigFault::InvalidConcurrency { hat, value } => value == 0 && exists|i: int|
                0 <= i < config.hats@.len() && (#[trigger] config.hats@[i]).id@ == hat
                    && config.hats@[i].hat.concurrency == 0,
            ConfigFault::AggregateOnConcurrentHat { hat } => exists|i: int|
                0 <= i < config.hats@.len() && (#[trigger] config.hats@[i]).id@ == hat
                    && config.hats@[i].hat.aggregate && config.hats@[i].hat.concurrency > 1,
            ConfigFault::ReservedTrigger { trigger, hat } => (trigger == "task.start"@ || trigger
                == "task.resume"@) && exists|i: int|
                0 <= i < config.hats@.len() && (#[trigger] config.hats@[i]).id@ == hat && texts(
                    config.hats@[i].hat.triggers@,
                ).contains(trigger),
            ConfigFault::AmbiguousRouting { trigger, hat1, hat2 } => exists|m: int, n: int|
                0 <= m < n < all_routes(config.hats@).len() && #[trigger] all_routes(
                    config.hats@,
                )[m] == (hat1, trigger) && #[trigger] all_routes(config.hats@)[n] == (
                    hat2,
                    trigger,
                ),
            _ => false,
        },
{
    let hats = config.hats@;
    let descriptions = Seq::new(hats.len(), |i: int| description_fault(hats[i]));
    let waves = Seq::new(hats.len(), |i: int| wave_fault(hats[i]));
    let triggers = Seq::new(hats.len(), |i: int| triggers_fault(hats[i]));
    let routes = all_routes(hats);
    let clashes = Seq::new(routes.len(), |k: int| clash_fault(routes, k));
    lemma_first_among(descriptions);
    lemma_first_among(waves);
    lemma_first_among(triggers);
    lemma_first_among(clashes);
    if crate::config::ralph_config::basics_fault(config) is None && config.robot.fault is None {
        if hooks_fault(config.hooks) is Some {
            lemma_hook_fault_kind(config.hooks);
        } else if first_of(descriptions) is Some {
            let i = choose|i: int|
                0 <= i < descriptions.len() && #[trigger] descriptions[i] == first_of(descriptions);
            assert(description_fault(hats[i]) == config_fault(config));
        } else if first_of(waves) is Some {
            let i = choose|i: int| 0 <= i < waves.len() && #[trigger] waves[i] == first_of(waves);
            assert(wave_fault(hats[i]) == config_fault(config));
        } else if first_of(triggers) is Some {
            let i = choose|i: int|
                0 <= i < triggers.len() && #[trigger] triggers[i] == first_of(triggers);
            let hat = hats[i];
            let faults = Seq::new(hat.hat.triggers@.len(), |i: int| reserved_fault(hat, i));
            lemma_first_among(faults);
            assert(triggers_fault(hat) == first_of(faults));
            let k = choose|k: int| 0 <= k < faults.len() && #[trigger] faults[k] == first_of(faults);
            assert(reserved_fault(hat, k) == config_fault(config));
            assert(texts(hat.hat.triggers@)[k] == hat.hat.triggers@[k]@);
        } else {
            assert(routing_fault(hats) == config_fault(config));
            let n = choose|n: int|
                0 <= n < clashes.len() && #[trigger] clashes[n] == first_of(clashes);
            assert(clash_fault(routes, n) == config_fault(config));
            let before = routes.take(n);
            let hits = Seq::new(
                before.len(),
                |j: int|
                    if before[j].1 == routes[n].1 {
                        Some(before[j].0)
                    } else {
                        None
                    },
            );
            lemma_first_among(hits);
            assert(route_with(before, routes[n].1) == first_of(hits));
            let m = choose|m: int| 0 <= m < hits.len() && #[trigger] hits[m] == first_of(hits);
            assert(before[m] == routes[m]);
            assert(routes[m].1 == routes[n].1);
        }
    }
}

proof fn lemma_key_fault_kind(prefix: Seq<char>, keys: Seq<String>)
    ensures
        keys_fault(prefix, keys) is Some ==> keys_fault(prefix, keys)->0 is UnsupportedHookField,
{
    let faults = Seq::new(keys.len(), |i: int| key_fault(prefix, keys[i]@));
    lemma_first_among(faults);
    if first_of(faults) is Some {
        let k = choose|k: int| 0 <= k < faults.len() && #[trigger] faults[k] == first_of(faults);
        assert(key_fault(prefix, keys[k]@) is Some);
    }
}

proof fn lemma_hook_fault_kind(hooks: crate::config::hooks::HooksConfig)
    requires
        hooks_fault(hooks) is Some,
    ensures
        hooks_fault(hooks)->0 is HookValidation || hooks_fault(hooks)->0 is UnsupportedHookField,
{
    lemma_key_fault_kind("hooks"@, hooks.extra@);
    let phases = Seq::new(hooks.events@.len(), |i: int| phase_fault(hooks.events@[i]));
    lemma_first_among(phases);
    if first_of(phases) is Some && hooks_fault(hooks) == first_of(phases) {
        let p = choose|p: int| 0 <= p < phases.len() && #[trigger] phases[p] == first_of(phases);
        let phase = hooks.events@[p];
        assert(phase_fault(phase) == first_of(phases));
        let faults = Seq::new(
            phase.hooks@.len(),
            |j: int| hook_fault(hook_place(phase.phase_event, j as nat), phase.hooks@[j]),
        );
        lemma_first_among(faults);
        let j = choose|j: int| 0 <= j < faults.len() && #[trigger] faults[j] == first_of(faults);
        let base = hook_place(phase.phase_event, j as nat);
        assert(hook_fault(base, phase.hooks@[j]) == phase_fault(phase));
        lemma_key_fault_kind(base, phase.hooks@[j].extra@);
    }
}

/// A setting of the mutation of a hook is refused for the reason that fits it.
pub proof fn law_mutation_settings_are_refused_for_a_reason(key: Seq<char>)
    ensures
        key == "prompt"@ || key == "prompt_mutation"@ || key == "events"@ || key == "event"@ || key
            == "config"@ || key == "full_context"@ ==> mutation_key_reason(key)
            == "v1 allows metadata-only mutation; prompt/event/config mutation is unsupported"@,
        key == "xml"@ ==> mutation_key_reason(key) == "v1 mutation payloads are JSON-only"@,
{
    reveal_strlit("xml");
    reveal_strlit("prompt");
    reveal_strlit("prompt_mutation");
    reveal_strlit("events");
    reveal_strlit("event");
    reveal_strlit("config");
    reveal_strlit("full_context");
    assert("xml"@.len() == 3);
    assert("prompt"@.len() != 3 && "prompt_mutation"@.len() != 3 && "events"@.len() != 3
        && "event"@.len() != 3 && "config"@.len() != 3 && "full_context"@.len() != 3);
}

// ---- notes ----

/// A user is told of every setting that is without effect, and of nothing else.
pub proof fn law_settings_without_effect_are_told(config: RalphConfig)
    ensures
        ({
            let notes = notes_on(config);
            let archive = ConfigNote::DeferredFeature {
                field: "archive_prompts"@,
                message: "Feature not yet available in v2"@,
            };
            let metrics = ConfigNote::DeferredFeature {
                field: "enable_metrics"@,
                message: "Feature not yet available in v2"@,
            };
            let tokens = ConfigNote::DroppedField {
                field: "max_tokens"@,
                reason: "Token limits are controlled by the CLI tool"@,
            };
            let retry = ConfigNote::DroppedField {
                field: "retry_delay"@,
                reason: "Retry logic handled differently in v2"@,
            };
            let score = ConfigNote::InvalidValue {
                field: "event_loop.mutation_score_warn_threshold"@,
                message: "Value must be between 0 and 100"@,
            };
            let permissions = ConfigNote::DroppedField {
                field: "adapters.*.tool_permissions"@,
                reason: "CLI tool manages its own permissions"@,
            };
            let a = if config.archive_prompts { 1int } else { 0int };
            let m = if config.enable_metrics { 1int } else { 0int };
            let t = if config.max_tokens is Some { 1int } else { 0int };
            let r = if config.retry_delay is Some { 1int } else { 0int };
            let threshold = config.event_loop.mutation_score_warn_threshold;
            let s = if threshold is Some && threshold->0 > 0x4059_0000_0000_0000 && threshold->0
                != 0x8000_0000_0000_0000 { 1int } else { 0int };
            let p = if config.adapters.claude.tool_permissions is Some
                || config.adapters.gemini.tool_permissions is Some
                || config.adapters.kiro.tool_permissions is Some
                || config.adapters.codex.tool_permissions is Some
                || config.adapters.amp.tool_permissions is Some { 1int } else { 0int };
            &&& notes.len() == a + m + t + r + s + p
            &&& a == 1 ==> notes[0] == archive
            &&& m == 1 ==> notes[a] == metrics
            &&& t == 1 ==> notes[a + m] == tokens
            &&& r == 1 ==> notes[a + m + t] == retry
            &&& s == 1 ==> notes[a + m + t + r] == score
            &&& p == 1 ==> notes[a + m + t + r + s] == permissions
        }),
{
}

// ---- normalization ----

/// A flat field that is set takes the place of the nested one, and one that is not set leaves it.
pub proof fn law_flat_fields_come_first(before: RalphConfig, after: RalphConfig)
    requires
        is_normalized(before, after),
    ensures
        before.agent is Some ==> after.cli.backend@ == before.agent->0@,
        before.agent is None ==> after.cli.backend@ == before.cli.backend@,
        before.prompt_file is Some ==> after.event_loop.prompt_file@ == before.prompt_file->0@,
        before.prompt_file is None ==> after.event_loop.prompt_file@
            == before.event_loop.prompt_file@,
        before.completion_promise is Some ==> after.event_loop.completion_promise@
            == before.completion_promise->0@,
        before.completion_promise is None ==> after.event_loop.completion_promise@
            == before.event_loop.completion_promise@,
        before.max_iterations is Some ==> after.event_loop.max_iterations
            == before.max_iterations->0,
        before.max_iterations is None ==> after.event_loop.max_iterations
            == before.event_loop.max_iterations,
        before.max_runtime is Some ==> after.event_loop.max_runtime_seconds
            == before.max_runtime->0,
        before.max_runtime is None ==> after.event_loop.max_runtime_seconds
            == before.event_loop.max_runtime_seconds,
        before.max_cost is Some ==> after.event_loop.max_cost_usd == before.max_cost,
        before.max_cost is None ==> after.event_loop.max_cost_usd == before.event_loop.max_cost_usd,
        after.event_loop.cancellation_promise == before.event_loop.cancellation_promise,
        after.event_loop.prompt == before.event_loop.prompt,
        after.event_loop.starting_event == before.event_loop.starting_event,
        after.event_loop.enforce_hat_scope == before.event_loop.enforce_hat_scope,
        after.cli.command == before.cli.command,
        after.hooks == before.hooks,
        after.suppress_warnings == before.suppress_warnings,
        after.hats@.len() == before.hats@.len(),
{
}

/// Extra instructions follow the instructions of their hat, each on a line of its own, and are none of
/// their own afterwards. Merging some of them and then the others is merging them all.
pub proof fn law_extra_instructions_follow(
    instructions: Seq<char>,
    a: Seq<Seq<char>>,
    b: Seq<Seq<char>>,
    fragment: Seq<char>,
)
    ensures
        merged(instructions, Seq::empty()) == instructions,
        merged(instructions, seq![fragment]) == (if instructions.len() > 0 && instructions.last()
            == '\n' {
            instructions + fragment
        } else {
            instructions + "\n"@ + fragment
        }),
        merged(instructions, a + b) == merged(merged(instructions, a), b),
    decreases b.len(),
{
    reveal_with_fuel(merged, 2);
    assert(seq![fragment].drop_last() == Seq::<Seq<char>>::empty());
    assert(seq![fragment].last() == fragment);
    if b.len() == 0 {
        assert(a + b == a);
    } else {
        law_extra_instructions_follow(instructions, a, b.drop_last(), fragment);
        assert((a + b).drop_last() == a + b.drop_last());
        assert((a + b).last() == b.last());
    }
}

/// Every hat of a normalized configuration has its extra instructions merged, and is otherwise the same.
pub proof fn law_hats_are_merged_one_by_one(before: RalphConfig, after: RalphConfig, i: int)
    requires
        is_normalized(before, after),
        0 <= i < before.hats@.len(),
    ensures
        ({
            let old = before.hats@[i];
            let new = after.hats@[i];
            &&& new.id@ == old.id@
            &&& new.hat.instructions@ == merged(
                old.hat.instructions@,
                texts(old.hat.extra_instructions@),
            )
            &&& new.hat.extra_instructions@.len() == 0
            &&& new.hat.triggers == old.hat.triggers
            &&& new.hat.publishes == old.hat.publishes
            &&& new.hat.description == old.hat.description
            &&& new.hat.concurrency == old.hat.concurrency
            &&& new.hat.max_activations == old.hat.max_activations
            &&& new.hat.default_publishes == old.hat.default_publishes
        }),
{
}

/// Backends are tried in the configured order, and in the order of the adapters where none is configured.
pub proof fn law_configured_backends_come_first(config: RalphConfig, first: Seq<char>)
    ensures
        config.agent_priority@.len() > 0 ==> backend_order(config, first).len()
            == config.agent_priority@.len() && forall|i: int|
            0 <= i < config.agent_priority@.len() ==> #[trigger] backend_order(config, first)[i]
                == config.agent_priority@[i]@,
        config.agent_priority@.len() == 0 ==> backend_order(config, first).len() == 5
            && backend_order(config, first)[0] == first && backend_order(config, first)[1]
            == "kiro"@ && backend_order(config, first)[2] == "gemini"@ && backend_order(
            config,
            first,
        )[3] == "codex"@ && backend_order(config, first)[4] == "amp"@,
{
}

/// A backend that is named is the one in use, and one that is to be detected is the first in order.
pub proof fn law_named_backends_are_used(config: RalphConfig, first: Seq<char>)
    ensures
        config.cli.backend@ != "auto"@ ==> backend_in_use(config, first) == config.cli.backend@,
        config.cli.backend@ == "auto"@ && config.agent_priority@.len() > 0 ==> backend_in_use(
            config,
            first,
        ) == config.agent_priority@[0]@,
        config.cli.backend@ == "auto"@ && config.agent_priority@.len() == 0 ==> backend_in_use(
            config,
            first,
        ) == first,
{
}

/// A backend has its own settings, and one without any has those that come first.
pub proof fn law_backends_have_their_own_settings(adapters: AdaptersConfig, backend: Seq<char>)
    ensures
        settings_of(adapters, "gemini"@) == adapters.gemini,
        settings_of(adapters, "kiro"@) == adapters.kiro,
        settings_of(adapters, "codex"@) == adapters.codex,
        settings_of(adapters, "amp"@) == adapters.amp,
        backend != "gemini"@ && backend != "kiro"@ && backend != "codex"@ && backend != "amp"@
            ==> settings_of(adapters, backend) == adapters.claude,
{
    reveal_strlit("gemini");
    reveal_strlit("kiro");
    reveal_strlit("codex");
    reveal_strlit("amp");
    assert("gemini"@.len() == 6 && "kiro"@.len() == 4 && "codex"@.len() == 5 && "amp"@.len() == 3);
}

// ---- documents ----

/// Every phase-event is written by its key.
pub proof fn law_phase_events_are_written_by_their_keys()
    ensures
        phase_key(HookPhaseEvent::PreLoopStart) == "pre.loop.start"@,
        phase_key(HookPhaseEvent::PostLoopStart) == "post.loop.start"@,
        phase_key(HookPhaseEvent::PreIterationStart) == "pre.iteration.start"@,
        phase_key(HookPhaseEvent::PostIterationStart) == "post.iteration.start"@,
        phase_key(HookPhaseEvent::PrePlanCreated) == "pre.plan.created"@,
        phase_key(HookPhaseEvent::PostPlanCreated) == "post.plan.created"@,
        phase_key(HookPhaseEvent::PreHumanInteract) == "pre.human.interact"@,
        phase_key(HookPhaseEvent::PostHumanInteract) == "post.human.interact"@,
        phase_key(HookPhaseEvent::PreLoopComplete) == "pre.loop.complete"@,
        phase_key(HookPhaseEvent::PostLoopComplete) == "post.loop.complete"@,
        phase_key(HookPhaseEvent::PreLoopError) == "pre.loop.error"@,
        phase_key(HookPhaseEvent::PostLoopError) == "post.loop.error"@,
{
}

/// A document is refused where it holds the key `project`, and else where a key of its hooks is no
/// phase-event; the first such key is told. Keys that are no texts are passed over.
pub proof fn law_documents_hold_known_phase_events(
    document: Value,
    keys: Seq<Option<Seq<char>>>,
    i: int,
)
    ensures
        member(document, "project"@) is Some ==> document_fault(document) == Some(
            ConfigFault::DeprecatedProjectKey,
        ),
        member(document, "project"@) is None ==> document_fault(document) == phase_keys_fault(
            event_keys(document),
        ),
        0 <= i < keys.len() && keys[i] is Some && !is_phase_key(keys[i]->0) && (forall|j: int|
            0 <= j < i ==> (#[trigger] keys[j]) is None || is_phase_key(keys[j]->0))
            ==> phase_keys_fault(keys) == Some(
            ConfigFault::InvalidHookPhaseEvent { phase_event: keys[i]->0 },
        ),
        (forall|j: int|
            0 <= j < keys.len() ==> (#[trigger] keys[j]) is None || is_phase_key(keys[j]->0))
            ==> phase_keys_fault(keys) is None,
{
    let faults = Seq::new(keys.len(), |i: int| phase_key_fault(keys[i]));
    if 0 <= i < keys.len() && keys[i] is Some && !is_phase_key(keys[i]->0) && (forall|j: int|
        0 <= j < i ==> (#[trigger] keys[j]) is None || is_phase_key(keys[j]->0)) {
        assert forall|j: int| 0 <= j < i implies (#[trigger] faults[j]) is None by {
            assert(keys[j] is None || is_phase_key(keys[j]->0));
        }
        lemma_first_at(faults, i);
    }
    if forall|j: int|
        0 <= j < keys.len() ==> (#[trigger] keys[j]) is None || is_phase_key(keys[j]->0) {
        assert forall|j: int| 0 <= j < faults.len() implies (#[trigger] faults[j]) is None by {
            assert(keys[j] is None || is_phase_key(keys[j]->0));
        }
        lemma_none_of(faults);
    }
}

// ---- defaults ----

/// Loops run for a hundred iterations or four hours and give up at five failures in a row where nothing
/// else is configured; their promise and their prompt have names of their own, nothing cancels them and
/// no scope is enforced.
pub proof fn law_loops_have_limits_by_default(config: EventLoopConfig)
    requires
        is_default_loop(config),
    ensures
        config.max_iterations == 100,
        config.max_runtime_seconds == 4 * 60 * 60,
        config.max_consecutive_failures == 5,
        config.completion_promise@ == "LOOP_COMPLETE"@,
        config.prompt_file@ == "PROMPT.md"@,
        config.prompt is None,
        config.max_cost_usd is None,
        config.cancellation_promise@.len() == 0,
        config.cooldown_delay_seconds == 0,
        config.starting_event is None,
        !config.enforce_hat_scope,
        !config.persistent,
{
}

/// Hooks are off where nothing is configured, and limited to half a minute and eight kilobytes where they
/// are on.
pub proof fn law_hooks_have_limits_by_default(hooks: HooksConfig)
    requires
        is_default_hooks(hooks),
    ensures
        !hooks.enabled,
        hooks.events@.len() == 0,
        hooks.defaults.timeout_seconds == 30,
        hooks.defaults.max_output_bytes == 8 * 1024,
        hooks.defaults.suspend_mode == HookSuspendMode::WaitForResume,
{
}

} // verus!
