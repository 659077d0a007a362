//! What holds of every batch of events that is taken in.
use crate::config::event_loop::EventLoopConfig;
use crate::event_loop::event::{EventView, Evidence, IncomingView, ReadView};
use crate::event_loop::processing::{
    answered_context, any_orphan, any_plan, batch_begun, batch_events, batch_published,
    batch_reports, blocked_tasks, kept_events, malformed_events, question_in, validated_events,
    violation_events, HumanReply,
};
use crate::event_loop::registry::{
    hat_hits, hat_with, route_for, route_hits, HatRegistry,
};
use crate::event_loop::state::LoopState;
use crate::json::{json_of_text, json_of_u64};
use crate::text::{decimal, first_of, lemma_first_among, lines_of, opt_text, texts, trimmed};
use serde_json::Value;
use vstd::prelude::*;

verus! {

// ---- registry ----

/// The first of some values is the one that no other comes before.
pub proof fn lemma_first_at<T>(s: Seq<Option<T>>, i: int)
    requires
        0 <= i < s.len(),
        s[i] is Some,
        forall|j: int| 0 <= j < i ==> (#[trigger] s[j]) is None,
    ensures
        first_of(s) == s[i],
    decreases s.len(),
{
    if i > 0 {
        assert(s[0] is None);
        assert(s.drop_first()[i - 1] == s[i]);
        assert forall|j: int| 0 <= j < i - 1 implies (#[trigger] s.drop_first()[j]) is None by {
            assert(s.drop_first()[j] == s[j + 1]);
        }
        lemma_first_at(s.drop_first(), i - 1);
    }
}

/// What is known of a topic is what its route says: who subscribes to it, handles it, is triggered by
/// it and may publish it.
pub proof fn law_topics_go_by_their_route(registry: HatRegistry, i: int, hat: Seq<char>)
    requires
        registry.wf(),
        0 <= i < registry.routes@.len(),
    ensures
        ({
            let route = registry.routes@[i];
            let topic = route.topic@;
            &&& registry.subscribed(topic) == route.subscribed
            &&& registry.handler(topic) == opt_text(route.handler)
            &&& registry.triggered(topic) == opt_text(route.triggered)
            &&& registry.may_publish(hat, topic) <==> exists|k: int|
                0 <= k < route.publishers@.len() && (#[trigger] route.publishers@[k])@ == hat
        }),
{
    let routes = registry.routes@;
    let route = routes[i];
    let hits = route_hits(routes, route.topic@);
    assert forall|j: int| 0 <= j < i implies (#[trigger] hits[j]) is None by {
        assert(routes[j].topic@ != routes[i].topic@);
    }
    lemma_first_at(hits, i);
    assert(route_for(routes, route.topic@) == Some(route));
    let publishers = texts(route.publishers@);
    if registry.may_publish(hat, route.topic@) {
        let k = publishers.index_of(hat);
        assert(route.publishers@[k]@ == hat);
    }
    if exists|k: int| 0 <= k < route.publishers@.len() && (#[trigger] route.publishers@[k])@ == hat {
        let k = choose|k: int|
            0 <= k < route.publishers@.len() && (#[trigger] route.publishers@[k])@ == hat;
        assert(publishers[k] == hat);
    }
}

/// A topic without a route is subscribed to, handled, triggered and published by no hat.
pub proof fn law_topics_without_a_route_are_unknown(
    registry: HatRegistry,
    topic: Seq<char>,
    hat: Seq<char>,
)
    requires
        forall|i: int| 0 <= i < registry.routes@.len() ==> (#[trigger] registry.routes@[i]).topic@
            != topic,
    ensures
        !registry.subscribed(topic),
        registry.handler(topic) is None,
        registry.triggered(topic) is None,
        !registry.may_publish(hat, topic),
{
    let hits = route_hits(registry.routes@, topic);
    lemma_first_among(hits);
    if first_of(hits) is Some {
        let i = choose|i: int| 0 <= i < hits.len() && #[trigger] hits[i] == first_of(hits);
        assert(registry.routes@[i].topic@ != topic);
    }
}

/// A hat is found by its identifier, the first where several share it, and no other is.
pub proof fn law_hats_are_found_by_their_identifier(registry: HatRegistry, id: Seq<char>, i: int)
    requires
        0 <= i < registry.hats@.len(),
        registry.hats@[i].id@ == id,
        forall|j: int| 0 <= j < i ==> (#[trigger] registry.hats@[j]).id@ != id,
    ensures
        registry.hat(id) == Some(registry.hats@[i]),
        registry.definition(id) == registry.hats@[i].config,
{
    let hits = hat_hits(registry.hats@, id);
    assert forall|j: int| 0 <= j < i implies (#[trigger] hits[j]) is None by {
        assert(registry.hats@[j].id@ != id);
    }
    lemma_first_at(hits, i);
    assert(hat_with(registry.hats@, id) == Some(registry.hats@[i]));
}

/// No hat is found for an identifier that none has.
pub proof fn law_unknown_identifiers_find_no_hat(registry: HatRegistry, id: Seq<char>)
    requires
        forall|j: int| 0 <= j < registry.hats@.len() ==> (#[trigger] registry.hats@[j]).id@ != id,
    ensures
        registry.hat(id) is None,
        registry.definition(id) is None,
{
    let hits = hat_hits(registry.hats@, id);
    lemma_first_among(hits);
    if first_of(hits) is Some {
        let i = choose|i: int| 0 <= i < hits.len() && #[trigger] hits[i] == first_of(hits);
        assert(registry.hats@[i].id@ != id);
    }
}

// ---- scope ----

/// An event is in scope as soon as any one of the active hats may publish its topic, wherever that hat
/// stands among them: it is kept, and it is not reported.
pub proof fn law_any_active_hat_may_publish(
    registry: HatRegistry,
    active: Seq<Seq<char>>,
    events: Seq<IncomingView>,
    i: int,
    k: int,
)
    requires
        0 <= i < active.len(),
        0 <= k < events.len(),
        registry.may_publish(active[i], events[k].topic),
    ensures
        kept_events(true, registry, active, events).contains(events[k]),
        kept_events(true, registry, active, seq![events[k]]) == seq![events[k]],
        violation_events(true, registry, active, seq![events[k]]).len() == 0,
{
    law_scope_goes_by_the_active_hats(registry, active, events[k]);
    let before = events.take(k);
    let after = events.skip(k + 1);
    assert(events == before + seq![events[k]] + after);
    law_scope_is_told_event_by_event(true, registry, active, before + seq![events[k]], after);
    law_scope_is_told_event_by_event(true, registry, active, before, seq![events[k]]);
    let kept = kept_events(true, registry, active, events);
    let at = kept_events(true, registry, active, before).len() as int;
    assert(kept[at] == events[k]);
}

/// What becomes of one event where the scope is enforced: it is kept where no hat is active or an active
/// hat may publish its topic, and else it is reported in the name of the first active hat.
pub proof fn law_scope_goes_by_the_active_hats(
    registry: HatRegistry,
    active: Seq<Seq<char>>,
    event: IncomingView,
)
    ensures
        ({
            let allowed = active.len() == 0 || exists|i: int|
                0 <= i < active.len() && registry.may_publish(#[trigger] active[i], event.topic);
            let kept = kept_events(true, registry, active, seq![event]);
            let reports = violation_events(true, registry, active, seq![event]);
            &&& allowed ==> kept == seq![event] && reports.len() == 0
            &&& !allowed ==> {
                &&& kept.len() == 0
                &&& reports.len() == 1
                &&& reports[0].topic == active[0] + ".scope_violation"@
                &&& reports[0].payload == "Attempted to publish '"@ + event.topic + "': "@ + (
                match event.payload {
                    Some(payload) => payload,
                    None => Seq::empty(),
                })
                &&& reports[0].source is None
                &&& reports[0].target is None
            }
        }),
{
    reveal(Seq::filter);
    reveal_with_fuel(Seq::filter, 2);
    assert(seq![event].drop_last() == Seq::<IncomingView>::empty());
    assert(seq![event].last() == event);
    assert(Seq::<IncomingView>::empty().push(event) == seq![event]);
}

/// What becomes of events where the scope is enforced goes event by event, and nothing is dropped or
/// reported where it is not.
pub proof fn law_scope_is_told_event_by_event(
    enforce: bool,
    registry: HatRegistry,
    active: Seq<Seq<char>>,
    a: Seq<IncomingView>,
    b: Seq<IncomingView>,
)
    ensures
        kept_events(enforce, registry, active, a + b) == kept_events(enforce, registry, active, a)
            + kept_events(enforce, registry, active, b),
        violation_events(enforce, registry, active, a + b) == violation_events(
            enforce,
            registry,
            active,
            a,
        ) + violation_events(enforce, registry, active, b),
        kept_events(false, registry, active, a) == a,
        violation_events(false, registry, active, a).len() == 0,
        kept_events(true, registry, active, Seq::<IncomingView>::empty()).len() == 0,
        violation_events(true, registry, active, Seq::<IncomingView>::empty()).len() == 0,
{
    let inside = |e: IncomingView| crate::event_loop::processing::in_scope(registry, active, e.topic);
    let outside = |e: IncomingView|
        !crate::event_loop::processing::in_scope(registry, active, e.topic);
    Seq::filter_distributes_over_add(a, b, inside);
    Seq::filter_distributes_over_add(a, b, outside);
    reveal(Seq::filter);
    let report = |e: IncomingView| crate::event_loop::processing::violation_event(active, e);
    assert((a.filter(outside) + b.filter(outside)).map_values(report) == a.filter(
        outside,
    ).map_values(report) + b.filter(outside).map_values(report));
}

// ---- checks, cancellation, completion ----

/// Events are held to their checks event by event.
pub proof fn law_events_are_validated_one_by_one(
    config: EventLoopConfig,
    a: Seq<IncomingView>,
    b: Seq<IncomingView>,
)
    ensures
        validated_events(config, a + b) == validated_events(config, a) + validated_events(config, b),
        validated_events(config, Seq::<IncomingView>::empty()).len() == 0,
    decreases b.len(),
{
    if b.len() == 0 {
        assert(a + b == a);
    } else {
        law_events_are_validated_one_by_one(config, a, b.drop_last());
        assert((a + b).drop_last() == a + b.drop_last());
        assert((a + b).last() == b.last());
    }
}

/// An event that names the promise of cancellation, where there is one, or of completion is left out of
/// the validated ones. Every other event is one of them.
pub proof fn law_promises_are_left_out(config: EventLoopConfig, event: IncomingView)
    ensures
        ({
            let promise = event.topic == config.completion_promise@ || event.topic
                == config.cancellation_promise@ && config.cancellation_promise@.len() > 0;
            validated_events(config, seq![event]).len() == (if promise {
                0nat
            } else {
                1nat
            })
        }),
{
    reveal_with_fuel(validated_events, 2);
    assert(seq![event].drop_last() == Seq::<IncomingView>::empty());
    assert(seq![event].last() == event);
}

/// An event whose checks passed, and every event that reports none, stands as it came: with its topic
/// and its payload. Reviews of a wave report no checks.
pub proof fn law_passed_events_stand(config: EventLoopConfig, event: IncomingView)
    requires
        validated_events(config, seq![event]).len() > 0,
        event.evidence == Evidence::Passed || event.topic != "build.done"@ && event.topic
            != "verify.passed"@ && (event.topic != "review.done"@ || event.wave_id is Some),
    ensures
        validated_events(config, seq![event]) == seq![
            EventView {
                topic: event.topic,
                payload: match event.payload {
                    Some(payload) => payload,
                    None => Seq::empty(),
                },
                source: None,
                target: None,
            },
        ],
{
    reveal_with_fuel(validated_events, 2);
    assert(seq![event].drop_last() == Seq::<IncomingView>::empty());
    assert(seq![event].last() == event);
}

/// An event whose checks failed or are missing is replaced by one that says so, under another topic, and
/// with another payload where checks are missing than where they failed.
pub proof fn law_failed_events_are_replaced(config: EventLoopConfig, event: IncomingView)
    requires
        validated_events(config, seq![event]).len() > 0,
        event.evidence != Evidence::Passed,
    ensures
        ({
            let refused = validated_events(config, seq![event])[0];
            let missing = event.evidence == Evidence::Missing;
            &&& event.topic == "build.done"@ ==> refused.topic == "build.blocked"@
                && refused.payload == (if missing {
                "Missing backpressure evidence. Include 'tests: pass', 'lint: pass', 'typecheck: pass', 'audit: pass', 'coverage: pass', 'complexity: <score>', 'duplication: pass', 'performance: pass' (optional), 'specs: pass' (optional) in build.done payload."@
            } else {
                "Backpressure checks failed. Fix tests/lint/typecheck/audit/coverage/complexity/duplication/specs before emitting build.done."@
            })
            &&& event.topic == "review.done"@ && event.wave_id is None ==> refused.topic
                == "review.blocked"@ && refused.payload == (if missing {
                "Missing verification evidence. Include 'tests: pass' and 'build: pass' in review.done payload."@
            } else {
                "Review verification failed. Run tests and build before emitting review.done."@
            })
            &&& event.topic == "verify.passed"@ ==> refused.topic == "verify.failed"@
                && refused.payload == (if missing {
                "Missing quality report. Include quality.tests, quality.coverage, quality.lint, quality.audit, quality.mutation, quality.complexity in verify.passed payload."@
            } else {
                "Quality thresholds failed. Include quality.tests, quality.coverage, quality.lint, quality.audit, quality.mutation, quality.complexity with thresholds in verify.passed payload."@
            })
            &&& refused.source is None
            &&& refused.target is None
        }),
{
    reveal_with_fuel(validated_events, 2);
    assert(seq![event].drop_last() == Seq::<IncomingView>::empty());
    assert(seq![event].last() == event);
    reveal_strlit("build.done");
    reveal_strlit("review.done");
    reveal_strlit("verify.passed");
    assert("build.done"@.len() != "review.done"@.len());
    assert("build.done"@.len() != "verify.passed"@.len());
    assert("review.done"@.len() != "verify.passed"@.len());
}

// ---- blocked builds ----

/// Blocked builds are told event by event.
pub proof fn law_blocked_builds_are_told_one_by_one(a: Seq<EventView>, b: Seq<EventView>)
    ensures
        blocked_tasks(a + b) == blocked_tasks(a) + blocked_tasks(b),
        blocked_tasks(Seq::<EventView>::empty()).len() == 0,
    decreases b.len(),
{
    if b.len() == 0 {
        assert(a + b == a);
    } else {
        law_blocked_builds_are_told_one_by_one(a, b.drop_last());
        assert((a + b).drop_last() == a + b.drop_last());
        assert((a + b).last() == b.last());
    }
}

/// A blocked build is about the task that the first line of its payload names, without the blanks around
/// it. No other event is about a blocked task.
pub proof fn law_blocked_builds_name_their_task(event: EventView)
    ensures
        event.topic != "build.blocked"@ ==> blocked_tasks(seq![event]).len() == 0,
        event.topic == "build.blocked"@ && lines_of(event.payload).len() > 0 ==> blocked_tasks(
            seq![event],
        ) == seq![trimmed(lines_of(event.payload)[0])],
        event.topic == "build.blocked"@ && lines_of(event.payload).len() == 0 ==> blocked_tasks(
            seq![event],
        ) == seq![trimmed("unknown"@)],
{
    reveal_with_fuel(blocked_tasks, 2);
    assert(seq![event].drop_last() == Seq::<EventView>::empty());
    assert(seq![event].last() == event);
}

// ---- batches ----

/// What a batch requests: cancellation where any event that is kept names its promise, and completion
/// where the last one names its promise and does not cancel. A request that stands is not taken back.
pub proof fn law_batches_note_requests(
    config: EventLoopConfig,
    registry: HatRegistry,
    before: LoopState,
    after: LoopState,
    read: ReadView,
)
    requires
        batch_begun(config, registry, before, after, read),
    ensures
        ({
            let kept = kept_events(
                config.enforce_hat_scope,
                registry,
                texts(before.last_active_hat_ids@),
                read.events,
            );
            &&& after.cancellation_requested <==> before.cancellation_requested || (
            config.cancellation_promise@.len() > 0 && exists|i: int|
                0 <= i < kept.len() && (#[trigger] kept[i]).topic == config.cancellation_promise@)
            &&& after.completion_requested <==> before.completion_requested || (kept.len() > 0
                && kept.last().topic == config.completion_promise@ && !(
            config.cancellation_promise@.len() > 0 && config.cancellation_promise@
                == config.completion_promise@))
        }),
{
    let kept = kept_events(
        config.enforce_hat_scope,
        registry,
        texts(before.last_active_hat_ids@),
        read.events,
    );
    reveal(Seq::filter);
    if read.events.len() == 0 {
        assert(kept.len() == 0);
    }
    if config.cancellation_promise@.len() > 0 && exists|i: int|
        0 <= i < kept.len() && (#[trigger] kept[i]).topic == config.cancellation_promise@ {
        let i = choose|i: int|
            0 <= i < kept.len() && (#[trigger] kept[i]).topic == config.cancellation_promise@;
        assert(crate::event_loop::processing::cancels(config, kept[i].topic));
    }
}

/// What a batch counts: malformed lines in a row, which any event ends, and batches with blocked builds
/// in a row, which one without ends. Nothing else of the state changes but the requests, the counts of
/// tasks and the tasks given up.
pub proof fn law_batches_count(
    config: EventLoopConfig,
    registry: HatRegistry,
    before: LoopState,
    after: LoopState,
    read: ReadView,
)
    requires
        batch_begun(config, registry, before, after, read),
    ensures
        read.events.len() > 0 ==> after.consecutive_malformed_events == 0,
        read.events.len() == 0 && before.consecutive_malformed_events + read.malformed.len()
            <= u32::MAX ==> after.consecutive_malformed_events
            == before.consecutive_malformed_events + read.malformed.len(),
        ({
            let blocked = blocked_tasks(batch_events(config, registry, before, read)).len() > 0;
            let idle = read.events.len() == 0 && read.malformed.len() == 0;
            &&& idle ==> after == before
            &&& !idle && blocked ==> after.consecutive_blocked == before.consecutive_blocked + 1
                && after.last_blocked_hat == before.last_blocked_hat
            &&& !idle && !blocked ==> after.consecutive_blocked == 0
                && after.last_blocked_hat is None
        }),
        after == (LoopState {
            consecutive_malformed_events: after.consecutive_malformed_events,
            cancellation_requested: after.cancellation_requested,
            completion_requested: after.completion_requested,
            task_block_counts: after.task_block_counts,
            abandoned_tasks: after.abandoned_tasks,
            consecutive_blocked: after.consecutive_blocked,
            last_blocked_hat: after.last_blocked_hat,
            ..before
        }),
{
}

/// Every malformed line is reported, in order and before anything else of its batch.
pub proof fn law_malformed_lines_are_reported_first(
    config: EventLoopConfig,
    registry: HatRegistry,
    state: LoopState,
    read: ReadView,
    i: int,
)
    requires
        0 <= i < read.malformed.len(),
    ensures
        ({
            let line = read.malformed[i];
            let reports = batch_reports(config, registry, state, read);
            &&& i < reports.len()
            &&& reports[i] == (EventView {
                topic: "event.malformed"@,
                payload: "Line "@ + decimal(line.line_number as nat) + ": "@ + line.error@
                    + "\nContent: "@ + line.content@,
                source: None,
                target: None,
            })
        }),
        malformed_events(read.malformed).len() == read.malformed.len(),
{
}

/// The reports of events out of scope follow those of malformed lines.
pub proof fn law_violations_are_reported_next(
    config: EventLoopConfig,
    registry: HatRegistry,
    state: LoopState,
    read: ReadView,
    i: int,
)
    requires
        0 <= i < violation_events(
            config.enforce_hat_scope,
            registry,
            texts(state.last_active_hat_ids@),
            read.events,
        ).len(),
    ensures
        ({
            let reports = batch_reports(config, registry, state, read);
            &&& read.malformed.len() + i < reports.len()
            &&& reports[read.malformed.len() + i] == violation_events(
                config.enforce_hat_scope,
                registry,
                texts(state.last_active_hat_ids@),
                read.events,
            )[i]
        }),
{
}

/// What is validated of a batch is what is kept of it.
pub proof fn law_batches_validate_what_they_keep(
    config: EventLoopConfig,
    registry: HatRegistry,
    state: LoopState,
    read: ReadView,
)
    ensures
        !config.enforce_hat_scope || state.last_active_hat_ids@.len() == 0 ==> batch_events(
            config,
            registry,
            state,
            read,
        ) == validated_events(config, read.events),
        batch_events(config, registry, state, read) == validated_events(
            config,
            kept_events(
                config.enforce_hat_scope,
                registry,
                texts(state.last_active_hat_ids@),
                read.events,
            ),
        ),
{
    let active = texts(state.last_active_hat_ids@);
    if config.enforce_hat_scope && active.len() == 0 {
        lemma_all_kept(registry, active, read.events);
    }
}

proof fn lemma_all_kept(registry: HatRegistry, active: Seq<Seq<char>>, events: Seq<IncomingView>)
    requires
        active.len() == 0,
    ensures
        kept_events(true, registry, active, events) == events,
    decreases events.len(),
{
    reveal(Seq::filter);
    if events.len() > 0 {
        lemma_all_kept(registry, active, events.drop_last());
        assert(events == events.drop_last().push(events.last()));
    }
}

// ---- questions and publication ----

/// The question of a batch is the payload of its first event that asks a human, and there is none where
/// no event asks one.
pub proof fn law_the_first_question_is_asked(events: Seq<EventView>, i: int)
    ensures
        0 <= i < events.len() && events[i].topic == "human.interact"@ && (forall|j: int|
            0 <= j < i ==> (#[trigger] events[j]).topic != "human.interact"@) ==> question_in(events)
            == Some(events[i].payload),
        (forall|j: int| 0 <= j < events.len() ==> (#[trigger] events[j]).topic != "human.interact"@)
            ==> question_in(events) is None,
{
    let hits = Seq::new(
        events.len(),
        |k: int|
            if events[k].topic == "human.interact"@ {
                Some(events[k].payload)
            } else {
                None
            },
    );
    let asked = question_in(events);
    assert(asked == first_of(hits)) by {
        lemma_question_hits(events, hits);
    }
    if 0 <= i < events.len() && events[i].topic == "human.interact"@ && (forall|j: int|
        0 <= j < i ==> (#[trigger] events[j]).topic != "human.interact"@) {
        assert forall|j: int| 0 <= j < i implies (#[trigger] hits[j]) is None by {
            assert(events[j].topic != "human.interact"@);
        }
        lemma_first_at(hits, i);
    }
    if forall|j: int| 0 <= j < events.len() ==> (#[trigger] events[j]).topic != "human.interact"@ {
        lemma_first_among(hits);
        if first_of(hits) is Some {
            let k = choose|k: int| 0 <= k < hits.len() && #[trigger] hits[k] == first_of(hits);
            assert(events[k].topic != "human.interact"@);
        }
    }
}

proof fn lemma_question_hits(events: Seq<EventView>, hits: Seq<Option<Seq<char>>>)
    requires
        hits.len() == events.len(),
        forall|k: int|
            0 <= k < events.len() ==> #[trigger] hits[k] == (if events[k].topic
                == "human.interact"@ {
                Some(events[k].payload)
            } else {
                None
            }),
    ensures
        question_in(events) == first_of(hits),
{
    let own = Seq::new(
        events.len(),
        |i: int|
            if events[i].topic == "human.interact"@ {
                Some(events[i].payload)
            } else {
                None
            },
    );
    assert(own == hits);
}

/// The validated events are published as they are, in order, and what became of a question comes
/// behind them: an answer, or a timeout that repeats the question. Without a service, and where the
/// question could not be sent, nothing is added.
pub proof fn law_replies_follow_their_batch(events: Seq<EventView>, reply: HumanReply)
    ensures
        batch_published(events, reply).take(events.len() as int) == events,
        question_in(events) is None ==> batch_published(events, reply) == events,
        question_in(events) is Some ==> {
            let question = question_in(events)->0;
            let published = batch_published(events, reply);
            match reply {
                HumanReply::NoRobotService => published == events,
                HumanReply::SendFailure { error } => published == events,
                HumanReply::Response { response } => published.len() == events.len() + 1
                    && published.last() == (EventView {
                    topic: "human.response"@,
                    payload: response@,
                    source: None,
                    target: None,
                }),
                HumanReply::Timeout { seconds } => published.len() == events.len() + 1
                    && published.last() == (EventView {
                    topic: "human.timeout"@,
                    payload: "No response after "@ + decimal(seconds as nat)
                        + "s. Original question: "@ + question,
                    source: None,
                    target: None,
                }),
                HumanReply::WaitError { error } => published.len() == events.len() + 1
                    && published.last() == (EventView {
                    topic: "human.timeout"@,
                    payload: "Error waiting for response: "@ + error@ + ". Original question: "@
                        + question,
                    source: None,
                    target: None,
                }),
            }
        },
{
    assert(events.take(events.len() as int) == events);
}

/// The context of a question tells what became of it, and keeps all else that it held.
pub proof fn law_contexts_tell_what_became_of_a_question(
    context: Map<Seq<char>, Value>,
    reply: HumanReply,
    key: Seq<char>,
)
    ensures
        ({
            let noted = answered_context(context, reply);
            &&& key != "outcome"@ && key != "error"@ && key != "response"@ && key
                != "timeout_seconds"@ ==> noted.contains_key(key) == context.contains_key(key)
                && noted[key] == context[key]
            &&& noted.contains_key("outcome"@)
            &&& noted["outcome"@] == json_of_text(
                match reply {
                    HumanReply::NoRobotService => "no_robot_service"@,
                    HumanReply::SendFailure { error } => "send_failure"@,
                    HumanReply::Response { response } => "response"@,
                    HumanReply::Timeout { seconds } => "timeout"@,
                    HumanReply::WaitError { error } => "wait_error"@,
                },
            )
            &&& match reply {
                HumanReply::NoRobotService => true,
                HumanReply::SendFailure { error } => noted.contains_key("error"@) && noted["error"@]
                    == json_of_text(error@),
                HumanReply::Response { response } => noted.contains_key("response"@)
                    && noted["response"@] == json_of_text(response@),
                HumanReply::Timeout { seconds } => noted.contains_key("timeout_seconds"@)
                    && noted["timeout_seconds"@] == json_of_u64(seconds),
                HumanReply::WaitError { error } => noted.contains_key("error"@) && noted["error"@]
                    == json_of_text(error@),
            }
        }),
{
    reveal_strlit("outcome");
    reveal_strlit("error");
    reveal_strlit("response");
    reveal_strlit("timeout_seconds");
    assert("outcome"@.len() != "error"@.len());
    assert("outcome"@.len() != "response"@.len());
    assert("outcome"@.len() != "timeout_seconds"@.len());
}

/// Events of the `plan.*` family are noticed wherever they stand in a batch, and so are events that no
/// hat subscribes to.
pub proof fn law_batches_notice_plans_and_orphans(
    registry: HatRegistry,
    a: Seq<EventView>,
    b: Seq<EventView>,
    event: EventView,
)
    ensures
        any_plan(a + b) == (any_plan(a) || any_plan(b)),
        any_plan(seq![event]) == (event.topic.len() >= 5 && event.topic.take(5) == "plan."@),
        any_orphan(registry, a + b) == (any_orphan(registry, a) || any_orphan(registry, b)),
        any_orphan(registry, seq![event]) == !registry.subscribed(event.topic),
        !any_plan(Seq::empty()),
        !any_orphan(registry, Seq::empty()),
{
    reveal_strlit("plan.");
    assert("plan."@.len() == 5);
    assert(seq![event][0] == event);
    if event.topic.len() >= 5 {
        assert(event.topic.take(5) == event.topic.subrange(0, 5));
    }
    let all = a + b;
    assert forall|i: int| 0 <= i < a.len() implies all[i] == #[trigger] a[i] by {}
    assert forall|i: int| 0 <= i < b.len() implies all[a.len() + i] == #[trigger] b[i] by {}
    assert forall|i: int| 0 <= i < all.len() implies #[trigger] all[i] == (if i < a.len() {
        a[i]
    } else {
        b[i - a.len()]
    }) by {}
}

} // verus!
