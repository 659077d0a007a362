//! What holds of configurations.
use crate::config::hooks::{lemma_phase_keys_distinct, phase_key, HookPhaseEvent};
use crate::config::keys::is_phase_key;
use crate::config::ralph_config::{
    all_routes, clash_fault, config_fault, description_fault, reserved, reserved_fault, route_with,
    routing_fault, triggers_fault, wave_fault, RalphConfig,
};
use crate::text::{blank, first_of};
use vstd::prelude::*;

verus! {

/// No value is there only where none of all values is there.
proof fn lemma_first_of_none<T>(s: Seq<Option<T>>, i: int)
    requires
        first_of(s) is None,
        0 <= i < s.len(),
    ensures
        s[i] is None,
    decreases s.len(),
{
    if i > 0 {
        lemma_first_of_none(s.drop_first(), i - 1);
        assert(s.drop_first()[i - 1] == s[i]);
    }
}

/// A value is there wherever one of some values is there.
proof fn lemma_first_of_some<T>(s: Seq<Option<T>>, i: int)
    requires
        0 <= i < s.len(),
        s[i] is Some,
    ensures
        first_of(s) is Some,
    decreases s.len(),
{
    if s[0] is None {
        assert(s.drop_first()[i - 1] == s[i]);
        lemma_first_of_some(s.drop_first(), i - 1);
    }
}

/// Every trigger of a valid configuration leads to one hat: no two hats, and no hat twice, share a
/// trigger.
pub proof fn law_valid_triggers_are_unambiguous(config: RalphConfig, i: int, j: int)
    requires
        config_fault(config) is None,
        !config.suppress_warnings,
        0 <= i < j < all_routes(config.hats@).len(),
    ensures
        all_routes(config.hats@)[i].1 != all_routes(config.hats@)[j].1,
{
    let routes = all_routes(config.hats@);
    let clashes = Seq::new(routes.len(), |k: int| clash_fault(routes, k));
    assert(routing_fault(config.hats@) is None);
    lemma_first_of_none(clashes, j);
    assert(clash_fault(routes, j) is None);
    if routes[i].1 == routes[j].1 {
        let before = routes.take(j);
        let hits = Seq::new(
            before.len(),
            |k: int|
                if before[k].1 == routes[j].1 {
                    Some(before[k].0)
                } else {
                    None
                },
        );
        assert(before[i] == routes[i]);
        lemma_first_of_some(hits, i);
        assert(route_with(before, routes[j].1) is Some);
    }
}

/// Every hat of a valid configuration is described, works on at least one event at a time, and leaves
/// the events that start and resume work to the coordinator.
pub proof fn law_valid_hats_are_complete(config: RalphConfig, i: int)
    requires
        config_fault(config) is None,
        !config.suppress_warnings,
        0 <= i < config.hats@.len(),
    ensures
        ({
            let hat = config.hats@[i].hat;
            &&& hat.description is Some && !blank(hat.description->0@)
            &&& hat.concurrency >= 1
            &&& hat.aggregate ==> hat.concurrency == 1
            &&& forall|k: int|
                0 <= k < hat.triggers@.len() ==> !reserved((#[trigger] hat.triggers@[k])@)
        }),
{
    let hats = config.hats@;
    let descriptions = Seq::new(hats.len(), |i: int| description_fault(hats[i]));
    let waves = Seq::new(hats.len(), |i: int| wave_fault(hats[i]));
    let triggers = Seq::new(hats.len(), |i: int| triggers_fault(hats[i]));
    lemma_first_of_none(descriptions, i);
    lemma_first_of_none(waves, i);
    lemma_first_of_none(triggers, i);
    let hat = hats[i];
    assert(description_fault(hat) is None);
    assert(wave_fault(hat) is None);
    assert(triggers_fault(hat) is None);
    assert forall|k: int| 0 <= k < hat.hat.triggers@.len() implies !reserved(
        (#[trigger] hat.hat.triggers@[k])@,
    ) by {
        let faults = Seq::new(hat.hat.triggers@.len(), |k: int| reserved_fault(hat, k));
        lemma_first_of_none(faults, k);
        assert(reserved_fault(hat, k) is None);
    }
}

/// A phase-event is known by its key: its key is one, and no other phase-event has it.
pub proof fn law_phase_events_are_known_by_their_keys(phase: HookPhaseEvent, other: HookPhaseEvent)
    ensures
        is_phase_key(phase_key(phase)),
        phase_key(phase) == phase_key(other) ==> phase == other,
{
    lemma_phase_keys_distinct(phase, other);
}

} // verus!
