//! Which hooks run at a phase-event, with the defaults filled in.
use crate::config::hooks::{
    HookDefaults, HookMutationConfig, HookPhaseEvent, HookSpec, HooksConfig, PhaseHooks,
};
use crate::event_loop::routing::clone_texts;
use crate::loop_runner::hooks::ResolvedHook;
use crate::loop_runner::requests::{clone_env, env_pairs};
use crate::text::{opt_text, texts};
use vstd::prelude::*;

verus! {

/// Whether a hook is one of the configuration, with the defaults in place of limits and of a suspend
/// strategy that it does not name.
pub open spec fn resolves(
    hook: ResolvedHook,
    spec: HookSpec,
    defaults: HookDefaults,
    phase_event: HookPhaseEvent,
) -> bool {
    &&& hook.phase_event == phase_event
    &&& hook.name@ == spec.name@
    &&& texts(hook.command@) == texts(spec.command@)
    &&& opt_text(hook.cwd) == opt_text(spec.cwd)
    &&& env_pairs(hook.env@) == env_pairs(spec.env@)
    &&& hook.timeout_seconds == (match spec.timeout_seconds {
        Some(seconds) => seconds,
        None => defaults.timeout_seconds,
    })
    &&& hook.max_output_bytes == (match spec.max_output_bytes {
        Some(bytes) => bytes,
        None => defaults.max_output_bytes,
    })
    &&& spec.on_error == Some(hook.on_error)
    &&& hook.suspend_mode == (match spec.suspend_mode {
        Some(mode) => mode,
        None => defaults.suspend_mode,
    })
    &&& hook.mutate.enabled == spec.mutate.enabled
    &&& opt_text(hook.mutate.format) == opt_text(spec.mutate.format)
    &&& texts(hook.mutate.extra@) == texts(spec.mutate.extra@)
}

/// The hooks among some that say what their failure means.
pub open spec fn complete_hooks(specs: Seq<HookSpec>) -> Seq<HookSpec> {
    specs.filter(|spec: HookSpec| spec.on_error is Some)
}

/// The hooks of a phase-event, in the order of the configuration.
pub open spec fn hooks_at(events: Seq<PhaseHooks>, phase_event: HookPhaseEvent) -> Seq<HookSpec>
    decreases events.len(),
{
    if events.len() == 0 {
        Seq::empty()
    } else {
        let before = hooks_at(events.drop_last(), phase_event);
        if events.last().phase_event == phase_event {
            before + complete_hooks(events.last().hooks@)
        } else {
            before
        }
    }
}

/// Whether hooks are those of the configuration, one by one.
pub open spec fn all_resolve(
    hooks: Seq<ResolvedHook>,
    specs: Seq<HookSpec>,
    defaults: HookDefaults,
    phase_event: HookPhaseEvent,
) -> bool {
    &&& hooks.len() == specs.len()
    &&& forall|i: int|
        0 <= i < hooks.len() ==> resolves(
            #[trigger] hooks[i],
            specs[i],
            defaults,
            phase_event,
        )
}

fn resolve_hook(spec: &HookSpec, defaults: &HookDefaults, phase_event: HookPhaseEvent) -> (r: Option<
    ResolvedHook,
>)
    ensures
        match r {
            Some(hook) => resolves(hook, *spec, *defaults, phase_event),
            None => spec.on_error is None,
        },
{
    match spec.on_error {
        None => None,
        Some(on_error) => {
            Some(
                ResolvedHook {
                    phase_event,
                    name: spec.name.clone(),
                    command: clone_texts(&spec.command),
                    cwd: match &spec.cwd {
                        Some(dir) => Some(dir.clone()),
                        None => None,
                    },
                    env: clone_env(&spec.env),
                    timeout_seconds: match spec.timeout_seconds {
                        Some(seconds) => seconds,
                        None => defaults.timeout_seconds,
                    },
                    max_output_bytes: match spec.max_output_bytes {
                        Some(bytes) => bytes,
                        None => defaults.max_output_bytes,
                    },
                    on_error,
                    suspend_mode: match spec.suspend_mode {
                        Some(mode) => mode,
                        None => defaults.suspend_mode,
                    },
                    mutate: HookMutationConfig {
                        enabled: spec.mutate.enabled,
                        format: match &spec.mutate.format {
                            Some(format) => Some(format.clone()),
                            None => None,
                        },
                        extra: clone_texts(&spec.mutate.extra),
                    },
                },
            )
        },
    }
}

fn resolve_all(
    out: &mut Vec<ResolvedHook>,
    specs: &Vec<HookSpec>,
    defaults: &HookDefaults,
    phase_event: HookPhaseEvent,
)
    ensures
        forall|before: Seq<HookSpec>|
            #[trigger] all_resolve(old(out)@, before, *defaults, phase_event) ==> all_resolve(
                final(out)@,
                before + complete_hooks(specs@),
                *defaults,
                phase_event,
            ),
{
    let ghost start = out@;
    let ghost complete = |spec: HookSpec| spec.on_error is Some;
    let mut i: usize = 0;
    proof {
        reveal(Seq::filter);
        assert(specs@.take(0).filter(complete) == Seq::<HookSpec>::empty());
        assert forall|before: Seq<HookSpec>|
            #[trigger] all_resolve(start, before, *defaults, phase_event) implies all_resolve(
            out@,
            before + specs@.take(0).filter(complete),
            *defaults,
            phase_event,
        ) by {
            assert(before + specs@.take(0).filter(complete) == before);
        }
    }
    while i < specs.len()
        invariant
            i <= specs.len(),
            start == old(out)@,
            complete == (|spec: HookSpec| spec.on_error is Some),
            forall|before: Seq<HookSpec>|
                #[trigger] all_resolve(start, before, *defaults, phase_event) ==> all_resolve(
                    out@,
                    before + specs@.take(i as int).filter(complete),
                    *defaults,
                    phase_event,
                ),
        decreases specs.len() - i,
    {
        let ghost previous = out@;
        let ghost kept = specs@.take(i as int).filter(complete);
        proof {
            reveal(Seq::filter);
            assert(specs@.take(i + 1).drop_last() == specs@.take(i as int));
            assert(specs@.take(i + 1).last() == specs@[i as int]);
        }
        if let Some(hook) = resolve_hook(&specs[i], defaults, phase_event) {
            out.push(hook);
            proof {
                assert(specs@.take(i + 1).filter(complete) == kept.push(specs@[i as int]));
                assert forall|before: Seq<HookSpec>|
                    #[trigger] all_resolve(start, before, *defaults, phase_event) implies all_resolve(
                    out@,
                    before + kept.push(specs@[i as int]),
                    *defaults,
                    phase_event,
                ) by {
                    assert(all_resolve(previous, before + kept, *defaults, phase_event));
                    assert(before + kept.push(specs@[i as int]) == (before + kept).push(
                        specs@[i as int],
                    ));
                }
            }
        }
        i = i + 1;
    }
    assert(specs@.take(i as int) == specs@);
}

/// Resolves the hooks of a phase-event: limits and a suspend strategy that a hook does not name are
/// those of the defaults. A hook that does not say what its failure means is left out; validation
/// refuses it.
pub fn resolve_phase_event(config: &HooksConfig, phase_event: HookPhaseEvent) -> (r: Vec<ResolvedHook>)
    ensures
        all_resolve(r@, hooks_at(config.events@, phase_event), config.defaults, phase_event),
        forall|i: int|
            0 <= i < r@.len() ==> {
                let spec = hooks_at(config.events@, phase_event)[i];
                let hook = #[trigger] r@[i];
                &&& spec.on_error == Some(hook.on_error)
                &&& hook.name@ == spec.name@
                &&& hook.phase_event == phase_event
                &&& spec.suspend_mode is Some ==> spec.suspend_mode == Some(hook.suspend_mode)
                &&& spec.timeout_seconds is Some ==> spec.timeout_seconds == Some(
                    hook.timeout_seconds,
                )
                &&& spec.max_output_bytes is Some ==> spec.max_output_bytes == Some(
                    hook.max_output_bytes,
                )
            },
{
    let mut r: Vec<ResolvedHook> = Vec::new();
    let mut i: usize = 0;
    while i < config.events.len()
        invariant
            i <= config.events.len(),
            all_resolve(
                r@,
                hooks_at(config.events@.take(i as int), phase_event),
                config.defaults,
                phase_event,
            ),
        decreases config.events.len() - i,
    {
        proof {
            assert(config.events@.take(i + 1).drop_last() == config.events@.take(i as int));
            assert(config.events@.take(i + 1).last() == config.events@[i as int]);
        }
        if config.events[i].phase_event == phase_event {
            resolve_all(&mut r, &config.events[i].hooks, &config.defaults, phase_event);
        }
        i = i + 1;
    }
    assert(config.events@.take(i as int) == config.events@);
    r
}

} // verus!
