//! What holds of the records of events, and of the set-up of a loop.
use crate::config::hats::NamedHat;
use crate::event_loop::event::EventView;
use crate::event_loop::registry::{Hat, HatRegistry};
use crate::loop_runner::event_log::{
    orphan_event, records_of, records_of_output, subscribed_topics, RecordView,
};
use crate::loop_runner::execution::{
    backend_name, command_name, displayed_hat, hats_for_defaults, tried_next,
};
use crate::loop_runner::setup::{guidance_members, loop_id_of, path_among, scratchpads_of};
use crate::config::hats::HatBackend;
use crate::debug::debug_list;
use crate::json::json_of_text;
use crate::path::{last_name, path_below, same_path};
use crate::text::{first_word, texts, trimmed, without_repeats};
use vstd::prelude::*;

verus! {

// ---- records ----

/// The events of an output are recorded one by one, in order.
pub proof fn law_events_are_recorded_one_by_one(
    registry: HatRegistry,
    iteration: u32,
    hat: Seq<char>,
    a: Seq<EventView>,
    b: Seq<EventView>,
    event: EventView,
)
    ensures
        records_of_output(registry, iteration, hat, a + b) == records_of_output(
            registry,
            iteration,
            hat,
            a,
        ) + records_of_output(registry, iteration, hat, b),
        records_of_output(registry, iteration, hat, seq![event]) == records_of(
            registry,
            iteration,
            hat,
            event,
        ),
        records_of_output(registry, iteration, hat, Seq::empty()).len() == 0,
    decreases b.len(),
{
    reveal_with_fuel(records_of_output, 2);
    assert(seq![event].drop_last() == Seq::<EventView>::empty());
    assert(seq![event].last() == event);
    assert(Seq::<RecordView>::empty() + records_of(registry, iteration, hat, event) == records_of(
        registry,
        iteration,
        hat,
        event,
    ));
    if b.len() == 0 {
        assert(a + b == a);
        assert(records_of_output(registry, iteration, hat, a) + records_of_output(
            registry,
            iteration,
            hat,
            b,
        ) == records_of_output(registry, iteration, hat, a));
    } else {
        law_events_are_recorded_one_by_one(registry, iteration, hat, a, b.drop_last(), event);
        assert((a + b).drop_last() == a + b.drop_last());
        assert((a + b).last() == b.last());
    }
}

/// Every event is recorded as it is, with its iteration, its hat and the hat that it triggers. One that
/// triggers none is recorded behind a note of the loop that names it and the topics that would.
pub proof fn law_orphans_are_noted(
    registry: HatRegistry,
    iteration: u32,
    hat: Seq<char>,
    event: EventView,
)
    ensures
        ({
            let records = records_of(registry, iteration, hat, event);
            let record = records.last();
            &&& record.iteration == iteration
            &&& record.hat == hat
            &&& record.event == event
            &&& record.triggered == registry.triggered(event.topic)
            &&& registry.triggered(event.topic) is Some ==> records.len() == 1
            &&& registry.triggered(event.topic) is None ==> {
                &&& records.len() == 2
                &&& records[0].iteration == iteration
                &&& records[0].hat == "loop"@
                &&& records[0].triggered is None
                &&& records[0].event == orphan_event(registry, hat, event.topic)
            }
        }),
        ({
            let note = orphan_event(registry, hat, event.topic);
            &&& note.topic == "event.orphaned"@
            &&& note.payload == "Event '"@ + event.topic
                + "' has no subscriber hat. Valid events to publish: "@ + debug_list(
                without_repeats(subscribed_topics(registry.hats@)),
            )
            &&& note.source == Some(hat)
            &&& note.target is None
        }),
{
}

/// The topics that hats subscribe to are told hat by hat, without the wildcard.
pub proof fn law_subscriptions_are_told_hat_by_hat(a: Seq<Hat>, b: Seq<Hat>, hat: Hat, topic: Seq<char>)
    ensures
        subscribed_topics(a + b) == subscribed_topics(a) + subscribed_topics(b),
        texts(hat.subscriptions@) == seq![topic] ==> subscribed_topics(seq![hat]) == (if topic
            == "*"@ {
            Seq::empty()
        } else {
            seq![topic]
        }),
        texts(hat.subscriptions@).contains(topic) && topic != "*"@ ==> subscribed_topics(
            seq![hat],
        ).contains(topic),
        !subscribed_topics(seq![hat]).contains("*"@),
        subscribed_topics(Seq::empty()).len() == 0,
    decreases b.len(),
{
    let named = |t: Seq<char>| t != "*"@;
    reveal_with_fuel(subscribed_topics, 2);
    assert(seq![hat].drop_last() == Seq::<Hat>::empty());
    assert(seq![hat].last() == hat);
    let own = texts(hat.subscriptions@);
    assert(Seq::<Seq<char>>::empty() + own.filter(named) == own.filter(named));
    assert(subscribed_topics(seq![hat]) == own.filter(named));
    if own == seq![topic] {
        reveal(Seq::filter);
        reveal_with_fuel(Seq::filter, 2);
        assert(seq![topic].drop_last() == Seq::<Seq<char>>::empty());
        assert(seq![topic].last() == topic);
        assert(Seq::<Seq<char>>::empty().push(topic) == seq![topic]);
    }
    broadcast use vstd::seq_lib::group_filter_ensures;

    if own.contains(topic) && topic != "*"@ {
        let i = own.index_of(topic);
        assert(named(own[i]));
        assert(own.filter(named).contains(own[i]));
    }
    if own.filter(named).contains("*"@) {
        let k = own.filter(named).index_of("*"@);
        assert(named(own.filter(named)[k]));
    }
    if b.len() == 0 {
        assert(a + b == a);
        assert(subscribed_topics(a) + subscribed_topics(b) == subscribed_topics(a));
    } else {
        law_subscriptions_are_told_hat_by_hat(a, b.drop_last(), hat, topic);
        assert((a + b).drop_last() == a + b.drop_last());
        assert((a + b).last() == b.last());
    }
}

// ---- set-up ----

/// A loop is known by the identifier of its context, else, where it is continued, by the one that is given
/// or by that of its marker, and else by its time.
pub proof fn law_loops_are_known_by_their_context(
    context: Seq<char>,
    resume: bool,
    given: Option<Seq<char>>,
    marker: Option<Seq<char>>,
    id: Seq<char>,
    timestamp: Seq<char>,
)
    ensures
        loop_id_of(Some(context), resume, given, marker, timestamp) == context,
        loop_id_of(None, true, Some(id), marker, timestamp) == id,
        trimmed(id).len() > 0 ==> loop_id_of(None, true, None, Some(id), timestamp) == trimmed(id),
        trimmed(id).len() == 0 ==> loop_id_of(None, true, None, Some(id), timestamp)
            == "primary-"@ + timestamp,
        loop_id_of(None, true, None, None, timestamp) == "primary-"@ + timestamp,
        loop_id_of(None, false, given, marker, timestamp) == "primary-"@ + timestamp,
{
}

/// The common scratchpad and every enabled scratchpad of a hat are cleared, each once.
pub proof fn law_scratchpads_are_cleared_once(
    workspace: Seq<char>,
    global: Seq<char>,
    hats: Seq<NamedHat>,
    i: int,
)
    ensures
        ({
            let paths = scratchpads_of(workspace, global, hats);
            &&& paths.len() > 0
            &&& paths[0] == path_below(workspace, global)
            &&& forall|m: int, n: int|
                0 <= m < n < paths.len() ==> !same_path(#[trigger] paths[m], #[trigger] paths[n])
            &&& 0 <= i < hats.len() && hats[i].hat.scratchpad is Some
                && hats[i].hat.scratchpad->0.enabled ==> exists|k: int|
                0 <= k < paths.len() && same_path(
                    #[trigger] paths[k],
                    path_below(workspace, hats[i].hat.scratchpad->0.path@),
                )
        }),
    decreases hats.len(),
{
    if hats.len() > 0 {
        let init = hats.drop_last();
        law_scratchpads_are_cleared_once(workspace, global, init, i);
        let before = scratchpads_of(workspace, global, init);
        let now = scratchpads_of(workspace, global, hats);
        if 0 <= i < init.len() {
            assert(init[i] == hats[i]);
            if hats[i].hat.scratchpad is Some && hats[i].hat.scratchpad->0.enabled {
                let path = path_below(workspace, hats[i].hat.scratchpad->0.path@);
                let k = choose|k: int|
                    0 <= k < before.len() && same_path(#[trigger] before[k], path);
                assert(now[k] == before[k]);
            }
        } else if i == hats.len() - 1 && hats[i].hat.scratchpad is Some
            && hats[i].hat.scratchpad->0.enabled {
            let path = path_below(workspace, hats[i].hat.scratchpad->0.path@);
            if path_among(before, path) {
                let k = choose|k: int|
                    0 <= k < before.len() && same_path(#[trigger] before[k], path);
                assert(now[k] == before[k]);
            } else {
                assert(now[before.len() as int] == path);
            }
        }
    }
}

/// A scratchpad that a hat has disabled is not cleared for its sake.
pub proof fn law_disabled_scratchpads_are_left(
    workspace: Seq<char>,
    global: Seq<char>,
    hats: Seq<NamedHat>,
    hat: NamedHat,
)
    requires
        hat.hat.scratchpad is None || !hat.hat.scratchpad->0.enabled,
    ensures
        scratchpads_of(workspace, global, hats.push(hat)) == scratchpads_of(workspace, global, hats),
{
    assert(hats.push(hat).drop_last() == hats);
}

/// Guidance of a human is written down as an event with its time.
pub proof fn law_guidance_is_an_event(message: Seq<char>, timestamp: Seq<char>)
    ensures
        ({
            let members = guidance_members(message, timestamp);
            &&& members.contains_key("topic"@) && members["topic"@] == json_of_text(
                "human.guidance"@,
            )
            &&& members.contains_key("payload"@) && members["payload"@] == json_of_text(message)
            &&& members.contains_key("ts"@) && members["ts"@] == json_of_text(timestamp)
        }),
{
    reveal_strlit("topic");
    reveal_strlit("payload");
    reveal_strlit("ts");
    assert("topic"@.len() != "payload"@.len());
    assert("topic"@.len() != "ts"@.len());
    assert("payload"@.len() != "ts"@.len());
}

/// A backend is known by its name, one with arguments or an agent by its type, and one of the user by the
/// last part of its command.
pub proof fn law_backends_are_known_by_name(backend: HatBackend, command: Seq<char>)
    ensures
        backend matches HatBackend::Named(name) ==> backend_name(backend) == name@,
        backend matches HatBackend::NamedWithArgs { backend_type, .. } ==> backend_name(backend)
            == backend_type@,
        backend matches HatBackend::KiroAgent { backend_type, .. } ==> backend_name(backend)
            == backend_type@,
        backend matches HatBackend::Custom { command, .. } ==> backend_name(backend)
            == command_name(command@),
        first_word(command).len() > 0 && last_name(first_word(command)) is Some ==> command_name(
            command,
        ) == last_name(first_word(command))->0,
        first_word(command).len() > 0 && last_name(first_word(command)) is None ==> command_name(
            command,
        ) == "custom"@,
{
}

/// Default events are asked of the hat that was shown and then of the active ones, each once; the
/// coordinator has none of its own.
pub proof fn law_defaults_are_asked_of_each_hat_once(display: Seq<char>, active: Seq<Seq<char>>)
    ensures
        display == "ralph"@ ==> hats_for_defaults(display, active) == without_repeats(active),
        display != "ralph"@ ==> hats_for_defaults(display, active) == without_repeats(
            seq![display] + active,
        ),
{
}

/// A prompt is executed for its own hat. The coordinator stands for the first hat that the prompt was
/// built for, or for the one that was shown before.
pub proof fn law_the_coordinator_stands_for_a_hat(
    id: Seq<char>,
    active: Seq<Seq<char>>,
    preview: Seq<char>,
)
    ensures
        id != "ralph"@ ==> displayed_hat(id, active, preview) == id,
        active.len() > 0 ==> displayed_hat("ralph"@, active, preview) == active[0],
        active.len() == 0 ==> displayed_hat("ralph"@, active, preview) == preview,
{
}

/// Default events of hats are tried in turn, until one leads to pending events. What is pending before the
/// first does not count.
pub proof fn law_one_default_is_sufficient(hats: Seq<Seq<char>>, tried: nat, pending: bool)
    ensures
        hats.len() > 0 ==> tried_next(hats, 0, pending) == Some(hats[0]),
        0 < tried < hats.len() ==> tried_next(hats, tried, false) == Some(hats[tried as int]),
        tried > 0 ==> tried_next(hats, tried, true) is None,
        tried >= hats.len() ==> tried_next(hats, tried, pending) is None,
{
}

} // verus!
