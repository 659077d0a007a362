//! What holds of routing, activation and dispatch, whatever the events are.
use crate::config::event_loop::EventLoopConfig;
use crate::config::hats::HatConfig;
use crate::event_loop::event::{EventView, IncomingView};
use crate::event_loop::processing::occurrences;
use crate::event_loop::registry::HatRegistry;
use crate::event_loop::routing::{
    activated_hat, activated_hats, active_hats, default_topic, dispatches_wave, event_line,
    event_lines, exhausted, exhaustion_report, fallback_event, first_active, is_entrypoint, is_kickoff,
    next_hat_of, publishes_of, shown_events, topics_of, PendingHats,
};
use crate::event_loop::state::LoopState;
use crate::text::{decimal, joined, ordered, texts};
use vstd::prelude::*;

verus! {

// ---- which hats are active ----

/// Work starts or resumes with the topics `task.start` and `task.resume` and with those that end with
/// `.start`; the configured starting event is an entrypoint besides.
pub proof fn law_entrypoints_are_known_by_their_topic(config: EventLoopConfig, topic: Seq<char>)
    ensures
        ({
            let starts = topic == "task.start"@ || topic == "task.resume"@ || topic.len() >= 6
                && topic.skip(topic.len() - 6) == ".start"@;
            &&& is_kickoff(topic) <==> starts
            &&& is_entrypoint(config, topic) <==> starts || config.starting_event is Some
                && config.starting_event->0@ == topic
        }),
{
    reveal_strlit(".start");
    assert(".start"@.len() == 6);
    if topic.len() >= 6 {
        assert(topic.skip(topic.len() - 6) == topic.subrange(
            topic.len() - 6,
            topic.len() as int,
        ));
    }
}

/// An event activates the hat that it is directed at, where that is registered, and else the one that
/// handles its topic.
pub proof fn law_targets_come_before_handlers(registry: HatRegistry, event: EventView)
    ensures
        event.target is Some && registry.hat(event.target->0) is Some ==> activated_hat(
            registry,
            event,
        ) == event.target,
        event.target is Some && registry.hat(event.target->0) is None ==> activated_hat(
            registry,
            event,
        ) == registry.handler(event.topic),
        event.target is None ==> activated_hat(registry, event) == registry.handler(event.topic),
{
}

proof fn lemma_activated(
    config: EventLoopConfig,
    registry: HatRegistry,
    events: Seq<EventView>,
    entrypoints: bool,
    i: int,
    hat: Seq<char>,
)
    requires
        0 <= i < events.len(),
        is_entrypoint(config, events[i].topic) == entrypoints,
        activated_hat(registry, events[i]) == Some(hat),
    ensures
        activated_hats(config, registry, events, entrypoints).contains(hat),
    decreases events.len(),
{
    let before = activated_hats(config, registry, events.drop_last(), entrypoints);
    let now = activated_hats(config, registry, events, entrypoints);
    if i == events.len() - 1 {
        if !before.contains(hat) {
            assert(now.last() == hat);
        }
    } else {
        lemma_activated(config, registry, events.drop_last(), entrypoints, i, hat);
        let k = before.index_of(hat);
        assert(now[k] == hat);
    }
}

proof fn lemma_activating(
    config: EventLoopConfig,
    registry: HatRegistry,
    events: Seq<EventView>,
    entrypoints: bool,
    hat: Seq<char>,
)
    requires
        activated_hats(config, registry, events, entrypoints).contains(hat),
    ensures
        exists|i: int|
            0 <= i < events.len() && is_entrypoint(config, (#[trigger] events[i]).topic)
                == entrypoints && activated_hat(registry, events[i]) == Some(hat),
    decreases events.len(),
{
    if events.len() > 0 {
        let before = activated_hats(config, registry, events.drop_last(), entrypoints);
        if before.contains(hat) {
            lemma_activating(config, registry, events.drop_last(), entrypoints, hat);
            let init = events.drop_last();
            let i = choose|i: int|
                0 <= i < init.len() && is_entrypoint(config, (#[trigger] init[i]).topic)
                    == entrypoints && activated_hat(registry, init[i]) == Some(hat);
            assert(events[i] == init[i]);
        } else {
            assert(events[events.len() - 1] == events.last());
        }
    }
}

/// Every event beyond the entrypoints activates its hat, wherever it stands among the events.
pub proof fn law_every_event_activates_its_hat(
    config: EventLoopConfig,
    registry: HatRegistry,
    events: Seq<EventView>,
    i: int,
    hat: Seq<char>,
)
    requires
        0 <= i < events.len(),
        !is_entrypoint(config, events[i].topic),
        activated_hat(registry, events[i]) == Some(hat),
    ensures
        active_hats(config, registry, events).contains(hat),
{
    lemma_activated(config, registry, events, false, i, hat);
}

/// Where no event beyond the entrypoints activates a hat, every entrypoint event activates its own.
pub proof fn law_entrypoints_activate_where_nothing_else_does(
    config: EventLoopConfig,
    registry: HatRegistry,
    events: Seq<EventView>,
    i: int,
    hat: Seq<char>,
)
    requires
        0 <= i < events.len(),
        is_entrypoint(config, events[i].topic),
        activated_hat(registry, events[i]) == Some(hat),
        forall|j: int|
            0 <= j < events.len() && !is_entrypoint(config, (#[trigger] events[j]).topic)
                ==> activated_hat(registry, events[j]) is None,
    ensures
        active_hats(config, registry, events).contains(hat),
{
    lemma_activated(config, registry, events, true, i, hat);
    let progressed = activated_hats(config, registry, events, false);
    if progressed.len() > 0 {
        assert(progressed.contains(progressed[0]));
        lemma_activating(config, registry, events, false, progressed[0]);
    }
}

/// No hat is active but one that an event activates, and none by an entrypoint event where another event
/// activates one.
pub proof fn law_active_hats_have_an_event(
    config: EventLoopConfig,
    registry: HatRegistry,
    events: Seq<EventView>,
    hat: Seq<char>,
)
    requires
        active_hats(config, registry, events).contains(hat),
    ensures
        exists|i: int|
            0 <= i < events.len() && activated_hat(registry, #[trigger] events[i]) == Some(hat) && (
            !is_entrypoint(config, events[i].topic) || forall|j: int|
                0 <= j < events.len() && !is_entrypoint(config, (#[trigger] events[j]).topic)
                    ==> activated_hat(registry, events[j]) is None),
{
    let progressed = activated_hats(config, registry, events, false);
    let entrypoints = progressed.len() == 0;
    lemma_activating(config, registry, events, entrypoints, hat);
    let i = choose|i: int|
        0 <= i < events.len() && is_entrypoint(config, (#[trigger] events[i]).topic) == entrypoints
            && activated_hat(registry, events[i]) == Some(hat);
    if entrypoints {
        assert forall|j: int|
            0 <= j < events.len() && !is_entrypoint(config, (#[trigger] events[j]).topic) implies
            activated_hat(registry, events[j]) is None by {
            if let Some(other) = activated_hat(registry, events[j]) {
                lemma_activated(config, registry, events, false, j, other);
            }
        }
    }
    assert(activated_hat(registry, events[i]) == Some(hat));
}

/// Hats are active in the order in which events activate them: events that come later put no hat before
/// those that are active already.
pub proof fn law_hats_are_active_in_the_order_of_events(
    config: EventLoopConfig,
    registry: HatRegistry,
    events: Seq<EventView>,
    more: Seq<EventView>,
    entrypoints: bool,
)
    ensures
        ({
            let earlier = activated_hats(config, registry, events, entrypoints);
            let later = activated_hats(config, registry, events + more, entrypoints);
            &&& earlier.len() <= later.len()
            &&& later.take(earlier.len() as int) == earlier
        }),
    decreases more.len(),
{
    if more.len() == 0 {
        assert(events + more == events);
    } else {
        law_hats_are_active_in_the_order_of_events(
            config,
            registry,
            events,
            more.drop_last(),
            entrypoints,
        );
        assert((events + more).drop_last() == events + more.drop_last());
        let earlier = activated_hats(config, registry, events, entrypoints);
        let between = activated_hats(config, registry, events + more.drop_last(), entrypoints);
        let later = activated_hats(config, registry, events + more, entrypoints);
        assert(later.take(earlier.len() as int) == between.take(earlier.len() as int));
    }
}

/// The hat that is shown is the first one that pending events activate, and the coordinator where they
/// activate none.
pub proof fn law_the_first_active_hat_is_shown(
    config: EventLoopConfig,
    registry: HatRegistry,
    event: EventView,
    more: Seq<EventView>,
    hat: Seq<char>,
)
    ensures
        !is_entrypoint(config, event.topic) && activated_hat(registry, event) == Some(hat)
            ==> first_active(config, registry, seq![event] + more) == hat,
        (forall|i: int|
            0 <= i < more.len() ==> activated_hat(registry, #[trigger] more[i]) is None)
            ==> first_active(config, registry, more) == "ralph"@,
{
    if !is_entrypoint(config, event.topic) && activated_hat(registry, event) == Some(hat) {
        law_hats_are_active_in_the_order_of_events(config, registry, seq![event], more, false);
        reveal_with_fuel(activated_hats, 2);
        assert(seq![event].drop_last() == Seq::<EventView>::empty());
        assert(seq![event].last() == event);
        let earlier = activated_hats(config, registry, seq![event], false);
        assert(earlier == seq![hat]);
        let later = activated_hats(config, registry, seq![event] + more, false);
        assert(later.take(1)[0] == later[0]);
    }
    if forall|i: int| 0 <= i < more.len() ==> activated_hat(registry, #[trigger] more[i]) is None {
        let active = active_hats(config, registry, more);
        if active.len() > 0 {
            assert(active.contains(active[0]));
            law_active_hats_have_an_event(config, registry, more, active[0]);
        }
    }
}

/// The hat to execute next: without custom hats whichever has events pending; with custom hats, and
/// where only a human's events are pending, the coordinator, if it is registered; and none where
/// nothing is pending.
pub proof fn law_next_hats_have_work(registry: HatRegistry, pending: PendingHats)
    ensures
        pending.next is None && !pending.human ==> next_hat_of(registry, pending) is None,
        pending.next is Some && registry.hats@.len() == 0 ==> next_hat_of(registry, pending)
            == Some(pending.next->0@),
        (pending.next is None && pending.human || pending.next is Some && registry.hats@.len() > 0)
            ==> {
            let known = exists|i: int|
                0 <= i < pending.hat_ids@.len() && (#[trigger] pending.hat_ids@[i])@ == "ralph"@;
            next_hat_of(registry, pending) == (if known {
                Some("ralph"@)
            } else {
                None
            })
        },
{
    let ids = texts(pending.hat_ids@);
    if ids.contains("ralph"@) {
        let i = ids.index_of("ralph"@);
        assert(pending.hat_ids@[i]@ == "ralph"@);
    }
    if exists|i: int|
        0 <= i < pending.hat_ids@.len() && (#[trigger] pending.hat_ids@[i])@ == "ralph"@ {
        let i = choose|i: int|
            0 <= i < pending.hat_ids@.len() && (#[trigger] pending.hat_ids@[i])@ == "ralph"@;
        assert(ids[i] == "ralph"@);
    }
}

/// A hat may publish the topics that it is registered with, and an unknown one none.
pub proof fn law_hats_publish_their_topics(registry: HatRegistry, id: Seq<char>)
    ensures
        registry.hat(id) is None ==> publishes_of(registry, id).len() == 0,
        registry.hat(id) is Some ==> publishes_of(registry, id) == texts(
            registry.hat(id)->0.publishes@,
        ),
{
}

/// A stalled loop is resumed: with an event that is directed at the hat that was executed last and names
/// the topics that it may publish, or with one for whoever handles it where that was the coordinator or
/// no hat.
pub proof fn law_fallback_events_resume_the_last_hat(
    registry: HatRegistry,
    last_hat: Option<Seq<char>>,
)
    ensures
        ({
            let event = fallback_event(registry, last_hat);
            let directed = last_hat is Some && last_hat != Some("ralph"@);
            &&& event.topic == "task.resume"@
            &&& event.source is None
            &&& directed ==> event.target == last_hat
            &&& !directed ==> event.target is None && event.payload
                == "RECOVERY: Previous iteration did not publish an event. Review the scratchpad and either dispatch the next task or complete the loop."@
            &&& directed && publishes_of(registry, last_hat->0).len() == 0 ==> event.payload
                == "RECOVERY: Previous iteration by hat `"@ + last_hat->0
                + "` did not publish an event. Emit exactly one valid next event via `ralph emit`, or stop only after publishing the configured completion event."@
            &&& directed && publishes_of(registry, last_hat->0).len() > 0 ==> event.payload
                == "RECOVERY: Previous iteration by hat `"@ + last_hat->0
                + "` did not publish an event. This failed because no event was emitted. Emit exactly ONE valid next event via `ralph emit`. Allowed topics: `"@
                + joined(publishes_of(registry, last_hat->0), "`, `"@)
                + "`. Do not only write prose or update files. Stop immediately after emitting."@
        }),
{
}

// ---- which events are shown ----

/// Where there is work beyond kickoffs, kickoffs are not shown, and leaving one out changes nothing.
/// Work alone, and kickoffs alone, are shown as they are.
pub proof fn law_kickoffs_give_way_to_work(a: Seq<EventView>, event: EventView, b: Seq<EventView>)
    ensures
        is_kickoff(event.topic) && (exists|i: int|
            0 <= i < (a + b).len() && !is_kickoff((#[trigger] (a + b)[i]).topic)) ==> shown_events(
            a + seq![event] + b,
        ) == shown_events(a + b),
        (forall|i: int| 0 <= i < a.len() ==> !is_kickoff((#[trigger] a[i]).topic)) ==> shown_events(a)
            == a,
        (forall|i: int| 0 <= i < a.len() ==> is_kickoff((#[trigger] a[i]).topic)) ==> shown_events(a)
            == a,
{
    let work = |e: EventView| !is_kickoff(e.topic);
    if is_kickoff(event.topic) && (exists|i: int|
        0 <= i < (a + b).len() && !is_kickoff((#[trigger] (a + b)[i]).topic)) {
        let i = choose|i: int|
            0 <= i < (a + b).len() && !is_kickoff((#[trigger] (a + b)[i]).topic);
        let all = a + seq![event] + b;
        if i < a.len() {
            assert(all[i] == (a + b)[i]);
        } else {
            assert(all[i + 1] == (a + b)[i]);
        }
        Seq::filter_distributes_over_add(a, b, work);
        Seq::filter_distributes_over_add(a + seq![event], b, work);
        Seq::filter_distributes_over_add(a, seq![event], work);
        reveal(Seq::filter);
        reveal_with_fuel(Seq::filter, 2);
        assert(seq![event].drop_last() == Seq::<EventView>::empty());
        assert(seq![event].filter(work) == Seq::<EventView>::empty());
        assert(a.filter(work) + Seq::<EventView>::empty() == a.filter(work));
    }
    if forall|i: int| 0 <= i < a.len() ==> !is_kickoff((#[trigger] a[i]).topic) {
        lemma_all_shown(a, work);
    }
}

proof fn lemma_all_shown(a: Seq<EventView>, work: spec_fn(EventView) -> bool)
    requires
        forall|i: int| 0 <= i < a.len() ==> work(#[trigger] a[i]),
    ensures
        a.filter(work) == a,
    decreases a.len(),
{
    reveal(Seq::filter);
    if a.len() > 0 {
        let init = a.drop_last();
        assert forall|i: int| 0 <= i < init.len() implies work(#[trigger] init[i]) by {
            assert(init[i] == a[i]);
        }
        lemma_all_shown(init, work);
        assert(work(a[a.len() - 1]));
        assert(a == init.push(a.last()));
    }
}

/// An event is shown by its topic and its payload. The request of the user is set off from the rest, and
/// the payload of no other event is.
pub proof fn law_requests_are_set_off(event: EventView)
    ensures
        event.topic == "task.start"@ || event.topic == "task.resume"@ ==> event_line(event)
            == "Event: "@ + event.topic + " - <top-level-prompt>\n"@ + event.payload
            + "\n</top-level-prompt>"@,
        event.topic != "task.start"@ && event.topic != "task.resume"@ ==> event_line(event)
            == "Event: "@ + event.topic + " - "@ + event.payload,
        event_lines(seq![event]) == event_line(event),
        event_lines(Seq::empty()) == Seq::<char>::empty(),
{
    let one = Seq::new(1, |i: int| event_line(seq![event][i]));
    assert(one == seq![event_line(event)]);
    reveal_with_fuel(joined, 2);
    assert(seq![event_line(event)].len() == 1);
}

// ---- how often hats are activated ----

/// Occurrences are counted one by one.
pub proof fn law_occurrences_are_counted(a: Seq<Seq<char>>, b: Seq<Seq<char>>, x: Seq<char>, y: Seq<char>)
    ensures
        occurrences(a + b, x) == occurrences(a, x) + occurrences(b, x),
        occurrences(seq![y], x) == (if x == y {
            1nat
        } else {
            0nat
        }),
        occurrences(Seq::empty(), x) == 0,
    decreases b.len(),
{
    reveal_with_fuel(occurrences, 2);
    assert(seq![y].drop_last() == Seq::<Seq<char>>::empty());
    assert(seq![y].last() == y);
    if b.len() == 0 {
        assert(a + b == a);
    } else {
        law_occurrences_are_counted(a, b.drop_last(), x, y);
        assert((a + b).drop_last() == a + b.drop_last());
        assert((a + b).last() == b.last());
    }
}

/// A hat with a limit is exhausted from the activation on that reaches it, and one without never.
pub proof fn law_hats_are_exhausted_at_their_limit(
    registry: HatRegistry,
    state: LoopState,
    id: Seq<char>,
    definition: HatConfig,
)
    ensures
        registry.definition(id) is None ==> !exhausted(registry, state, id),
        registry.definition(id) == Some(definition) ==> match definition.max_activations {
            None => !exhausted(registry, state, id),
            Some(limit) => exhausted(registry, state, id) <==> limit
                <= state.hat_activation_counts.count(id),
        },
{
}

/// The report of an exhausted hat names it, its limit, its activations, and the topics of the dropped
/// events in order.
pub proof fn law_exhaustion_is_told(
    registry: HatRegistry,
    state: LoopState,
    id: Seq<char>,
    definition: HatConfig,
    dropped: Seq<EventView>,
)
    requires
        registry.definition(id) == Some(definition),
        definition.max_activations is Some,
    ensures
        ({
            let report = exhaustion_report(registry, state, id, dropped);
            &&& report.topic == id + ".exhausted"@
            &&& report.payload == "Hat '"@ + id + "' exhausted.\n- max_activations: "@ + decimal(
                definition.max_activations->0 as nat,
            ) + "\n- activations: "@ + decimal(state.hat_activation_counts.count(id))
                + "\n- dropped_topics:\n  - "@ + joined(ordered(topics_of(dropped)), "\n  - "@)
            &&& report.source is None
            &&& report.target is None
        }),
        topics_of(dropped).len() == dropped.len(),
        forall|i: int| 0 <= i < dropped.len() ==> #[trigger] topics_of(dropped)[i] == dropped[i].topic,
{
}

/// The default event of a hat is the one of its definition.
pub proof fn law_defaults_come_from_the_definition(
    registry: HatRegistry,
    id: Seq<char>,
    definition: HatConfig,
)
    ensures
        registry.definition(id) is None ==> default_topic(registry, id) is None,
        registry.definition(id) == Some(definition) ==> default_topic(registry, id) == (
        match definition.default_publishes {
            Some(topic) => Some(topic@),
            None => None,
        }),
{
}

/// An event dispatches a wave where it belongs to one and triggers a hat that may run at least twice at a
/// time, and nowhere else.
pub proof fn law_waves_need_a_concurrent_hat(
    registry: HatRegistry,
    event: IncomingView,
    id: Seq<char>,
    definition: HatConfig,
)
    ensures
        event.wave_id is None ==> !dispatches_wave(registry, event),
        registry.triggered(event.topic) is None ==> !dispatches_wave(registry, event),
        registry.triggered(event.topic) == Some(id) && registry.definition(id) is None
            ==> !dispatches_wave(registry, event),
        event.wave_id is Some && registry.triggered(event.topic) == Some(id)
            && registry.definition(id) == Some(definition) ==> (dispatches_wave(registry, event)
            <==> definition.concurrency >= 2),
{
}

} // verus!
