//! Event processing: malformed lines, scope enforcement, backpressure, blocked tasks, questions to
//! a human, and publication.
use crate::config::event_loop::EventLoopConfig;
use crate::event_loop::event::{
    append_events, event_views, incoming_views, plain_event, push_event, Event, EventView, Evidence,
    IncomingEvent, IncomingView, MalformedLine, ParseResult, ReadView,
};
use crate::event_loop::guidance::{context_of, question_context};
use crate::event_loop::registry::HatRegistry;
use crate::event_loop::state::{Counters, LoopState};
use crate::json::{
    json_from_object, json_from_text, json_from_u64, json_of_entries, json_of_text, json_of_u64,
    json_read,
};
use crate::text::{
    decimal, decimal_text, first_of, has_prefix, holds_text, lemma_first_of, lines, lines_of,
    opt_text, starts_with, str_eq, texts, trim, trimmed,
};
use serde_json::Value;
use vstd::prelude::*;

verus! {

// ---- malformed lines ----

/// The event that reports a malformed line.
pub open spec fn malformed_event(line: MalformedLine) -> EventView {
    plain_event(
        "event.malformed"@,
        "Line "@ + decimal(line.line_number as nat) + ": "@ + line.error@ + "\nContent: "@
            + line.content@,
    )
}

/// The events that report malformed lines.
pub open spec fn malformed_events(lines: Seq<MalformedLine>) -> Seq<EventView> {
    Seq::new(lines.len(), |i: int| malformed_event(lines[i]))
}

/// Reports malformed lines.
pub fn publish_malformed(outbox: &mut Vec<Event>, malformed: &Vec<MalformedLine>)
    ensures
        event_views(final(outbox)@) == event_views(old(outbox)@) + malformed_events(malformed@),
{
    let ghost start = event_views(outbox@);
    let ghost all = malformed_events(malformed@);
    let mut i: usize = 0;
    assert(start + all.take(0) == start);
    while i < malformed.len()
        invariant
            i <= malformed.len(),
            all == malformed_events(malformed@),
            event_views(outbox@) == start + all.take(i as int),
        decreases malformed.len() - i,
    {
        let line = &malformed[i];
        let mut payload = "Line ".to_owned();
        payload.append(decimal_text(line.line_number).as_str());
        payload.append(": ");
        payload.append(line.error.as_str());
        payload.append("\nContent: ");
        payload.append(line.content.as_str());
        push_event(outbox, Event::new("event.malformed", payload.as_str()));
        proof {
            assert(all.take(i + 1) == all.take(i as int).push(all[i as int]));
            assert(start + all.take(i + 1) == (start + all.take(i as int)).push(all[i as int]));
        }
        i = i + 1;
    }
    assert(all.take(i as int) == all);
}

// ---- scope enforcement ----

/// Whether an event may be published: no hat is active, or an active hat may publish its topic.
pub open spec fn in_scope(registry: HatRegistry, active: Seq<Seq<char>>, topic: Seq<char>) -> bool {
    active.len() == 0 || exists|i: int|
        0 <= i < active.len() && registry.may_publish(#[trigger] active[i], topic)
}

/// The events that are kept: all of them, or those in scope where the scope is enforced.
pub open spec fn kept_events(
    enforce: bool,
    registry: HatRegistry,
    active: Seq<Seq<char>>,
    events: Seq<IncomingView>,
) -> Seq<IncomingView> {
    if enforce {
        events.filter(|e: IncomingView| in_scope(registry, active, e.topic))
    } else {
        events
    }
}

/// The event that reports an event out of scope.
pub open spec fn violation_event(active: Seq<Seq<char>>, event: IncomingView) -> EventView {
    let hat = if active.len() > 0 {
        active[0]
    } else {
        "unknown"@
    };
    plain_event(
        hat + ".scope_violation"@,
        "Attempted to publish '"@ + event.topic + "': "@ + payload_of(event),
    )
}

/// The events that report the events out of scope.
pub open spec fn violation_events(
    enforce: bool,
    registry: HatRegistry,
    active: Seq<Seq<char>>,
    events: Seq<IncomingView>,
) -> Seq<EventView> {
    if enforce {
        events.filter(|e: IncomingView| !in_scope(registry, active, e.topic)).map_values(
            |e: IncomingView| violation_event(active, e),
        )
    } else {
        Seq::empty()
    }
}

/// The payload of an event, empty where it has none.
pub open spec fn payload_of(event: IncomingView) -> Seq<char> {
    match event.payload {
        Some(payload) => payload,
        None => Seq::empty(),
    }
}

fn payload_text(event: &IncomingEvent) -> (r: String)
    ensures
        r@ == payload_of(event@),
{
    match &event.payload {
        Some(payload) => payload.clone(),
        None => String::new(),
    }
}

/// Tests whether an event may be published.
pub fn is_in_scope(registry: &HatRegistry, active: &Vec<String>, topic: &str) -> (r: bool)
    ensures
        r == in_scope(*registry, texts(active@), topic@),
{
    if active.len() == 0 {
        return true;
    }
    let mut i: usize = 0;
    while i < active.len()
        invariant
            i <= active.len(),
            active.len() > 0,
            forall|j: int|
                0 <= j < i ==> !registry.may_publish(#[trigger] texts(active@)[j], topic@),
        decreases active.len() - i,
    {
        if registry.can_publish(active[i].as_str(), topic) {
            assert(registry.may_publish(texts(active@)[i as int], topic@));
            return true;
        }
        i = i + 1;
    }
    false
}

fn publish_violation(outbox: &mut Vec<Event>, active: &Vec<String>, event: &IncomingEvent)
    ensures
        event_views(final(outbox)@) == event_views(old(outbox)@).push(
            violation_event(texts(active@), event@),
        ),
{
    let mut topic = if active.len() > 0 {
        assert(texts(active@)[0] == active@[0]@);
        active[0].clone()
    } else {
        "unknown".to_owned()
    };
    topic.append(".scope_violation");
    let mut payload = "Attempted to publish '".to_owned();
    payload.append(event.topic.as_str());
    payload.append("': ");
    payload.append(payload_text(event).as_str());
    push_event(outbox, Event::new(topic.as_str(), payload.as_str()));
}

/// Keeps the events that may be published, and reports the others.
pub fn enforce_scope(
    outbox: &mut Vec<Event>,
    enforce: bool,
    registry: &HatRegistry,
    active: &Vec<String>,
    events: &Vec<IncomingEvent>,
) -> (r: Vec<IncomingEvent>)
    ensures
        incoming_views(r@) == kept_events(
            enforce,
            *registry,
            texts(active@),
            incoming_views(events@),
        ),
        event_views(final(outbox)@) == event_views(old(outbox)@) + violation_events(
            enforce,
            *registry,
            texts(active@),
            incoming_views(events@),
        ),
{
    let ghost all = incoming_views(events@);
    let ghost hats = texts(active@);
    let ghost start = event_views(outbox@);
    let mut kept: Vec<IncomingEvent> = Vec::new();
    let mut i: usize = 0;
    proof {
        lemma_scope_step(*registry, hats, all, 0);
        assert(kept_events(enforce, *registry, hats, all.take(0)) == Seq::<IncomingView>::empty());
        assert(start + violation_events(enforce, *registry, hats, all.take(0)) == start);
    }
    while i < events.len()
        invariant
            i <= events.len(),
            all == incoming_views(events@),
            hats == texts(active@),
            incoming_views(kept@) == kept_events(enforce, *registry, hats, all.take(i as int)),
            event_views(outbox@) == start + violation_events(
                enforce,
                *registry,
                hats,
                all.take(i as int),
            ),
        decreases events.len() - i,
    {
        let ghost before = kept@;
        proof {
            lemma_scope_step(*registry, hats, all, i as int);
        }
        if !enforce || is_in_scope(registry, active, events[i].topic.as_str()) {
            kept.push(events[i].clone());
            proof {
                assert(incoming_views(kept@) == incoming_views(before).push(all[i as int]));
                assert(all.take(i + 1) == all.take(i as int).push(all[i as int]));
            }
        } else {
            publish_violation(outbox, active, &events[i]);
            proof {
                let so_far = violation_events(enforce, *registry, hats, all.take(i as int));
                assert(start + so_far.push(violation_event(hats, all[i as int])) == (start
                    + so_far).push(violation_event(hats, all[i as int])));
            }
        }
        i = i + 1;
    }
    assert(all.take(i as int) == all);
    kept
}

proof fn lemma_scope_step(
    registry: HatRegistry,
    active: Seq<Seq<char>>,
    all: Seq<IncomingView>,
    i: int,
)
    requires
        0 <= i <= all.len(),
    ensures
        kept_events(true, registry, active, all.take(0)) == Seq::<IncomingView>::empty(),
        violation_events(true, registry, active, all.take(0)) == Seq::<EventView>::empty(),
        i < all.len() ==> {
            let now = kept_events(true, registry, active, all.take(i));
            let out = violation_events(true, registry, active, all.take(i));
            if in_scope(registry, active, all[i].topic) {
                &&& kept_events(true, registry, active, all.take(i + 1)) == now.push(all[i])
                &&& violation_events(true, registry, active, all.take(i + 1)) == out
            } else {
                &&& kept_events(true, registry, active, all.take(i + 1)) == now
                &&& violation_events(true, registry, active, all.take(i + 1)) == out.push(
                    violation_event(active, all[i]),
                )
            }
        },
{
    reveal(Seq::filter);
    let inside = |e: IncomingView| in_scope(registry, active, e.topic);
    let outside = |e: IncomingView| !in_scope(registry, active, e.topic);
    let report = |e: IncomingView| violation_event(active, e);
    assert(all.take(0).filter(inside) == Seq::<IncomingView>::empty());
    assert(all.take(0).filter(outside).map_values(report) == Seq::<EventView>::empty());
    if i < all.len() {
        assert(all.take(i + 1).drop_last() == all.take(i));
        assert(all.take(i + 1).last() == all[i]);
        if !in_scope(registry, active, all[i].topic) {
            let before = all.take(i).filter(outside);
            assert(before.push(all[i]).map_values(report) == before.map_values(report).push(
                report(all[i]),
            ));
        }
    }
}

// ---- backpressure ----

/// Whether an event asks for cancellation.
pub open spec fn cancels(config: EventLoopConfig, topic: Seq<char>) -> bool {
    config.cancellation_promise@.len() > 0 && topic == config.cancellation_promise@
}

/// Whether an event asks for completion.
pub open spec fn completes(config: EventLoopConfig, topic: Seq<char>) -> bool {
    !cancels(config, topic) && topic == config.completion_promise@
}

/// What an event becomes that reports checks: itself where all of them passed.
pub open spec fn checked_event(
    event: IncomingView,
    refused: Seq<char>,
    failed: Seq<char>,
    missing: Seq<char>,
) -> EventView {
    match event.evidence {
        Evidence::Passed => plain_event(event.topic, payload_of(event)),
        Evidence::Failed => plain_event(refused, failed),
        Evidence::Missing => plain_event(refused, missing),
    }
}

/// What an event becomes that asks neither for cancellation nor for completion.
pub open spec fn validated_event(event: IncomingView) -> EventView {
    if event.topic == "build.done"@ {
        checked_event(
            event,
            "build.blocked"@,
            "Backpressure checks failed. Fix tests/lint/typecheck/audit/coverage/complexity/duplication/specs before emitting build.done."@,
            "Missing backpressure evidence. Include 'tests: pass', 'lint: pass', 'typecheck: pass', 'audit: pass', 'coverage: pass', 'complexity: <score>', 'duplication: pass', 'performance: pass' (optional), 'specs: pass' (optional) in build.done payload."@,
        )
    } else if event.topic == "review.done"@ && event.wave_id is None {
        checked_event(
            event,
            "review.blocked"@,
            "Review verification failed. Run tests and build before emitting review.done."@,
            "Missing verification evidence. Include 'tests: pass' and 'build: pass' in review.done payload."@,
        )
    } else if event.topic == "verify.passed"@ {
        checked_event(
            event,
            "verify.failed"@,
            "Quality thresholds failed. Include quality.tests, quality.coverage, quality.lint, quality.audit, quality.mutation, quality.complexity with thresholds in verify.passed payload."@,
            "Missing quality report. Include quality.tests, quality.coverage, quality.lint, quality.audit, quality.mutation, quality.complexity in verify.passed payload."@,
        )
    } else {
        plain_event(event.topic, payload_of(event))
    }
}

/// What events become: those that ask for cancellation or completion are left out.
pub open spec fn validated_events(config: EventLoopConfig, events: Seq<IncomingView>) -> Seq<EventView>
    decreases events.len(),
{
    if events.len() == 0 {
        Seq::empty()
    } else {
        let before = validated_events(config, events.drop_last());
        let event = events.last();
        if cancels(config, event.topic) || completes(config, event.topic) {
            before
        } else {
            before.push(validated_event(event))
        }
    }
}

/// Whether an event among some asks for cancellation.
pub open spec fn any_cancels(config: EventLoopConfig, events: Seq<IncomingView>) -> bool {
    exists|i: int| 0 <= i < events.len() && cancels(config, (#[trigger] events[i]).topic)
}

/// Whether the last event asks for completion; anywhere else the request is ignored.
pub open spec fn last_completes(config: EventLoopConfig, events: Seq<IncomingView>) -> bool {
    events.len() > 0 && completes(config, events.last().topic)
}

fn checked(event: &IncomingEvent, refused: &str, failed: &str, missing: &str) -> (r: Event)
    ensures
        r@ == checked_event(event@, refused@, failed@, missing@),
{
    match event.evidence {
        Evidence::Passed => Event::new(event.topic.as_str(), payload_text(event).as_str()),
        Evidence::Failed => Event::new(refused, failed),
        Evidence::Missing => Event::new(refused, missing),
    }
}

/// Holds one event to the checks that events of its topic report.
pub fn validate_event(event: &IncomingEvent) -> (r: Event)
    ensures
        r@ == validated_event(event@),
{
    let topic = event.topic.as_str();
    if str_eq(topic, "build.done") {
        checked(
            event,
            "build.blocked",
            "Backpressure checks failed. Fix tests/lint/typecheck/audit/coverage/complexity/duplication/specs before emitting build.done.",
            "Missing backpressure evidence. Include 'tests: pass', 'lint: pass', 'typecheck: pass', 'audit: pass', 'coverage: pass', 'complexity: <score>', 'duplication: pass', 'performance: pass' (optional), 'specs: pass' (optional) in build.done payload.",
        )
    } else if str_eq(topic, "review.done") && event.wave_id.is_none() {
        checked(
            event,
            "review.blocked",
            "Review verification failed. Run tests and build before emitting review.done.",
            "Missing verification evidence. Include 'tests: pass' and 'build: pass' in review.done payload.",
        )
    } else if str_eq(topic, "verify.passed") {
        checked(
            event,
            "verify.failed",
            "Quality thresholds failed. Include quality.tests, quality.coverage, quality.lint, quality.audit, quality.mutation, quality.complexity with thresholds in verify.passed payload.",
            "Missing quality report. Include quality.tests, quality.coverage, quality.lint, quality.audit, quality.mutation, quality.complexity in verify.passed payload.",
        )
    } else {
        Event::new(topic, payload_text(event).as_str())
    }
}

/// What a batch of events asks for.
pub struct ValidatedBatch {
    pub events: Vec<Event>,
    pub cancelled: bool,
    pub completed: bool,
}

/// Validates events in their order.
pub fn validate_events(config: &EventLoopConfig, events: &Vec<IncomingEvent>) -> (r: ValidatedBatch)
    ensures
        event_views(r.events@) == validated_events(*config, incoming_views(events@)),
        r.cancelled == any_cancels(*config, incoming_views(events@)),
        r.completed == last_completes(*config, incoming_views(events@)),
{
    let ghost all = incoming_views(events@);
    let total: usize = events.len();
    let mut validated: Vec<Event> = Vec::new();
    let mut cancelled = false;
    let mut completed = false;
    let mut index: usize = 0;
    assert(event_views(validated@) == validated_events(*config, all.take(0)));
    while index < total
        invariant
            index <= total,
            total == events.len(),
            all == incoming_views(events@),
            event_views(validated@) == validated_events(*config, all.take(index as int)),
            cancelled == any_cancels(*config, all.take(index as int)),
            completed == (index == total && last_completes(*config, all)),
        decreases total - index,
    {
        let event = &events[index];
        let topic = event.topic.as_str();
        proof {
            let now = all.take(index as int);
            let next = all.take(index + 1);
            assert(next.drop_last() == now);
            assert(next.last() == event@);
            assert(any_cancels(*config, next) == (any_cancels(*config, now) || cancels(
                *config,
                event@.topic,
            ))) by {
                if any_cancels(*config, now) {
                    let i = choose|i: int|
                        0 <= i < now.len() && cancels(*config, (#[trigger] now[i]).topic);
                    assert(cancels(*config, next[i].topic));
                }
                if cancels(*config, event@.topic) {
                    assert(cancels(*config, next[index as int].topic));
                }
                if any_cancels(*config, next) {
                    let i = choose|i: int|
                        0 <= i < next.len() && cancels(*config, (#[trigger] next[i]).topic);
                    if i < index {
                        assert(cancels(*config, now[i].topic));
                    }
                }
            }
            assert(index + 1 == total ==> all.last() == event@);
        }
        if config.cancellation_promise.as_str().unicode_len() > 0 && str_eq(
            topic,
            config.cancellation_promise.as_str(),
        ) {
            cancelled = true;
        } else if str_eq(topic, config.completion_promise.as_str()) {
            if index + 1 == total {
                completed = true;
            }
        } else {
            push_event(&mut validated, validate_event(event));
        }
        index = index + 1;
    }
    assert(all.take(index as int) == all);
    ValidatedBatch { events: validated, cancelled, completed }
}

// ---- blocked tasks ----

/// The task that a blocked build is about: the first line of the payload.
pub open spec fn task_of(payload: Seq<char>) -> Seq<char> {
    trimmed(
        if lines_of(payload).len() > 0 {
            lines_of(payload)[0]
        } else {
            "unknown"@
        },
    )
}

/// Finds the task that a blocked build is about.
pub fn extract_task_id(payload: &str) -> (r: String)
    ensures
        r@ == task_of(payload@),
{
    let all = lines(payload);
    proof {
        assert(texts(all@).len() == all@.len());
    }
    if all.len() > 0 {
        assert(texts(all@)[0] == all@[0]@);
        trim(all[0].as_str()).to_owned()
    } else {
        trim("unknown").to_owned()
    }
}

/// The tasks whose builds are blocked, one for every blocked build.
pub open spec fn blocked_tasks(events: Seq<EventView>) -> Seq<Seq<char>>
    decreases events.len(),
{
    if events.len() == 0 {
        Seq::empty()
    } else {
        let before = blocked_tasks(events.drop_last());
        if events.last().topic == "build.blocked"@ {
            before.push(task_of(events.last().payload))
        } else {
            before
        }
    }
}

/// How often a text occurs among others.
pub open spec fn occurrences(items: Seq<Seq<char>>, item: Seq<char>) -> nat
    decreases items.len(),
{
    if items.len() == 0 {
        0
    } else {
        occurrences(items.drop_last(), item) + (if items.last() == item {
            1nat
        } else {
            0nat
        })
    }
}

/// The tasks given up once builds were blocked: a task is given up at its third blocked build, and
/// only once.
pub open spec fn abandoned_after(counts: Counters, abandoned: Seq<Seq<char>>, tasks: Seq<Seq<char>>) -> Seq<
    Seq<char>,
>
    decreases tasks.len(),
{
    if tasks.len() == 0 {
        abandoned
    } else {
        let before = abandoned_after(counts, abandoned, tasks.drop_last());
        let task = tasks.last();
        if counts.count(task) + occurrences(tasks, task) >= 3 && !before.contains(task) {
            before.push(task)
        } else {
            before
        }
    }
}

/// The event that reports a task given up.
pub open spec fn abandoned_event(task: Seq<char>) -> EventView {
    plain_event(
        "build.task.abandoned"@,
        "Task '"@ + task + "' abandoned after 3 consecutive build.blocked events"@,
    )
}

/// The events that report the tasks newly given up.
pub open spec fn abandoned_events(
    counts: Counters,
    abandoned: Seq<Seq<char>>,
    tasks: Seq<Seq<char>>,
) -> Seq<EventView> {
    abandoned_after(counts, abandoned, tasks).skip(abandoned.len() as int).map_values(
        |task: Seq<char>| abandoned_event(task),
    )
}

proof fn lemma_blocked_prefix(events: Seq<EventView>, n: int, task: Seq<char>)
    requires
        0 <= n <= events.len(),
    ensures
        occurrences(blocked_tasks(events.take(n)), task) <= occurrences(
            blocked_tasks(events),
            task,
        ),
    decreases events.len(),
{
    if n == events.len() {
        assert(events.take(n) == events);
    } else {
        let init = events.drop_last();
        assert(init.take(n) == events.take(n));
        lemma_blocked_prefix(init, n, task);
        assert(blocked_tasks(init).push(task_of(events.last().payload)).drop_last()
            == blocked_tasks(init));
    }
}

/// No task is taken off the list of those given up.
pub proof fn lemma_abandoned_grows(
    counts: Counters,
    abandoned: Seq<Seq<char>>,
    tasks: Seq<Seq<char>>,
)
    ensures
        abandoned.len() <= abandoned_after(counts, abandoned, tasks).len(),
        abandoned_after(counts, abandoned, tasks).take(abandoned.len() as int) == abandoned,
    decreases tasks.len(),
{
    if tasks.len() > 0 {
        lemma_abandoned_grows(counts, abandoned, tasks.drop_last());
        let before = abandoned_after(counts, abandoned, tasks.drop_last());
        assert(before.push(tasks.last()).take(abandoned.len() as int) == before.take(
            abandoned.len() as int,
        ));
    } else {
        assert(abandoned.take(abandoned.len() as int) == abandoned);
    }
}

/// The events that report the tasks given up over a batch of validated events.
pub open spec fn abandonments(state: LoopState, events: Seq<EventView>) -> Seq<EventView> {
    abandoned_events(
        state.task_block_counts,
        texts(state.abandoned_tasks@),
        blocked_tasks(events),
    )
}

/// What the state becomes by a batch of validated events.
pub open spec fn blocks_tracked(before: LoopState, after: LoopState, events: Seq<EventView>) -> bool {
    let tasks = blocked_tasks(events);
    let abandoned = texts(before.abandoned_tasks@);
    &&& after == (LoopState {
        task_block_counts: after.task_block_counts,
        abandoned_tasks: after.abandoned_tasks,
        consecutive_blocked: after.consecutive_blocked,
        last_blocked_hat: after.last_blocked_hat,
        ..before
    })
    &&& forall|task: Seq<char>| #[trigger]
        after.task_block_counts.count(task) == before.task_block_counts.count(task) + occurrences(
            tasks,
            task,
        )
    &&& texts(after.abandoned_tasks@) == abandoned_after(before.task_block_counts, abandoned, tasks)
    &&& after.consecutive_blocked == (if tasks.len() > 0 {
        before.consecutive_blocked + 1
    } else {
        0
    })
    &&& after.last_blocked_hat == (if tasks.len() > 0 {
        before.last_blocked_hat
    } else {
        None
    })
}

/// Whether counting a batch of events stays within the limits of the counters.
pub open spec fn counts_fit(state: LoopState, events: Seq<EventView>) -> bool {
    &&& blocked_tasks(events).len() > 0 ==> state.consecutive_blocked < u32::MAX
    &&& forall|task: Seq<char>| #[trigger]
        state.task_block_counts.count(task) + occurrences(blocked_tasks(events), task) <= u32::MAX
}

fn track_blocked_task(state: &mut LoopState, outbox: &mut Vec<Event>, task: String)
    requires
        old(state).task_block_counts.count(task@) < u32::MAX,
    ensures
        *final(state) == (LoopState {
            task_block_counts: final(state).task_block_counts,
            abandoned_tasks: final(state).abandoned_tasks,
            ..*old(state)
        }),
        forall|k: Seq<char>|
            #[trigger] final(state).task_block_counts.count(k) == old(
                state,
            ).task_block_counts.count(k) + (if k == task@ {
                1nat
            } else {
                0nat
            }),
        ({
            let abandoned = texts(old(state).abandoned_tasks@);
            if old(state).task_block_counts.count(task@) + 1 >= 3 && !abandoned.contains(task@) {
                &&& texts(final(state).abandoned_tasks@) == abandoned.push(task@)
                &&& event_views(final(outbox)@) == event_views(old(outbox)@).push(
                    abandoned_event(task@),
                )
            } else {
                &&& final(state).abandoned_tasks == old(state).abandoned_tasks
                &&& *final(outbox) == *old(outbox)
            }
        }),
{
    let count: u32 = state.task_block_counts.bump(task.as_str());
    if count >= 3 && !holds_text(&state.abandoned_tasks, task.as_str()) {
        let mut payload = "Task '".to_owned();
        payload.append(task.as_str());
        payload.append("' abandoned after 3 consecutive build.blocked events");
        push_event(outbox, Event::new("build.task.abandoned", payload.as_str()));
        state.abandoned_tasks.push(task);
        assert(texts(state.abandoned_tasks@) == texts(old(state).abandoned_tasks@).push(task@));
    }
}

/// Counts the blocked builds of every task, and gives tasks up.
pub fn track_blocked(state: &mut LoopState, outbox: &mut Vec<Event>, validated: &Vec<Event>)
    requires
        counts_fit(*old(state), event_views(validated@)),
    ensures
        blocks_tracked(*old(state), *final(state), event_views(validated@)),
        event_views(final(outbox)@) == event_views(old(outbox)@) + abandonments(
            *old(state),
            event_views(validated@),
        ),
{
    let ghost all = event_views(validated@);
    let ghost counts = state.task_block_counts;
    let ghost abandoned = texts(state.abandoned_tasks@);
    let ghost start = event_views(outbox@);
    let mut any_blocked = false;
    let mut i: usize = 0;
    proof {
        assert(abandoned.skip(abandoned.len() as int) == Seq::<Seq<char>>::empty());
        assert(abandoned_events(counts, abandoned, Seq::empty()) == Seq::<EventView>::empty());
        assert(start + Seq::<EventView>::empty() == start);
    }
    while i < validated.len()
        invariant
            i <= validated.len(),
            all == event_views(validated@),
            counts == old(state).task_block_counts,
            abandoned == texts(old(state).abandoned_tasks@),
            counts_fit(*old(state), all),
            *state == (LoopState {
                task_block_counts: state.task_block_counts,
                abandoned_tasks: state.abandoned_tasks,
                ..*old(state)
            }),
            forall|task: Seq<char>|
                #[trigger] state.task_block_counts.count(task) == counts.count(task) + occurrences(
                    blocked_tasks(all.take(i as int)),
                    task,
                ),
            texts(state.abandoned_tasks@) == abandoned_after(
                counts,
                abandoned,
                blocked_tasks(all.take(i as int)),
            ),
            event_views(outbox@) == start + abandoned_events(
                counts,
                abandoned,
                blocked_tasks(all.take(i as int)),
            ),
            any_blocked == (blocked_tasks(all.take(i as int)).len() > 0),
        decreases validated.len() - i,
    {
        let ghost tasks = blocked_tasks(all.take(i as int));
        proof {
            assert(all.take(i + 1).drop_last() == all.take(i as int));
            assert(all.take(i + 1).last() == validated@[i as int]@);
        }
        if str_eq(validated[i].topic.as_str(), "build.blocked") {
            any_blocked = true;
            let task = extract_task_id(validated[i].payload.as_str());
            let ghost more = tasks.push(task@);
            proof {
                assert(blocked_tasks(all.take(i + 1)) == more);
                assert(more.drop_last() == tasks);
                lemma_blocked_prefix(all, i + 1, task@);
                assert(state.task_block_counts.count(task@) == counts.count(task@) + occurrences(
                    tasks,
                    task@,
                ));
                assert(counts.count(task@) + occurrences(blocked_tasks(all), task@) <= u32::MAX);
                lemma_abandoned_grows(counts, abandoned, tasks);
                let given_up = abandoned_after(counts, abandoned, tasks);
                let n = abandoned.len() as int;
                assert(given_up.push(task@).skip(n).map_values(
                    |t: Seq<char>| abandoned_event(t),
                ) == given_up.skip(n).map_values(|t: Seq<char>| abandoned_event(t)).push(
                    abandoned_event(task@),
                ));
                let so_far = abandoned_events(counts, abandoned, tasks);
                assert(start + so_far.push(abandoned_event(task@)) == (start + so_far).push(
                    abandoned_event(task@),
                ));
            }
            track_blocked_task(state, outbox, task);
        }
        i = i + 1;
    }
    assert(all.take(i as int) == all);
    if any_blocked {
        state.consecutive_blocked = state.consecutive_blocked + 1;
    } else {
        state.consecutive_blocked = 0;
        state.last_blocked_hat = None;
    }
}

// ---- beginning a batch ----

/// The validated events of what was read.
pub open spec fn batch_events(
    config: EventLoopConfig,
    registry: HatRegistry,
    state: LoopState,
    read: ReadView,
) -> Seq<EventView> {
    validated_events(
        config,
        kept_events(
            config.enforce_hat_scope,
            registry,
            texts(state.last_active_hat_ids@),
            read.events,
        ),
    )
}

/// The events that are published before the validated ones: reports of malformed lines, of events
/// out of scope, and of tasks given up.
pub open spec fn batch_reports(
    config: EventLoopConfig,
    registry: HatRegistry,
    state: LoopState,
    read: ReadView,
) -> Seq<EventView> {
    malformed_events(read.malformed) + violation_events(
        config.enforce_hat_scope,
        registry,
        texts(state.last_active_hat_ids@),
        read.events,
    ) + abandonments(state, batch_events(config, registry, state, read))
}

/// What the state becomes by what was read.
pub open spec fn batch_begun(
    config: EventLoopConfig,
    registry: HatRegistry,
    before: LoopState,
    after: LoopState,
    read: ReadView,
) -> bool {
    let kept = kept_events(
        config.enforce_hat_scope,
        registry,
        texts(before.last_active_hat_ids@),
        read.events,
    );
    if read.events.len() == 0 && read.malformed.len() == 0 {
        after == before
    } else {
        blocks_tracked(
            LoopState {
                consecutive_malformed_events: if read.events.len() > 0 {
                    0
                } else {
                    (before.consecutive_malformed_events + read.malformed.len()) as u32
                },
                cancellation_requested: before.cancellation_requested || any_cancels(config, kept),
                completion_requested: before.completion_requested || last_completes(config, kept),
                ..before
            },
            after,
            validated_events(config, kept),
        )
    }
}

/// Whether the counters can take what was read.
pub open spec fn batch_fits(
    config: EventLoopConfig,
    registry: HatRegistry,
    state: LoopState,
    read: ReadView,
) -> bool {
    &&& counts_fit(state, batch_events(config, registry, state, read))
    &&& state.consecutive_malformed_events + read.malformed.len() <= u32::MAX
}

/// Takes in what was read from the events file: reports malformed lines, drops events out of
/// scope, holds events to their checks, notes requests for cancellation and completion, and counts
/// blocked builds. The validated events are handed out; they are published once a question among
/// them is answered.
pub fn begin_batch(
    config: &EventLoopConfig,
    registry: &HatRegistry,
    state: &mut LoopState,
    outbox: &mut Vec<Event>,
    result: &ParseResult,
) -> (r: Vec<Event>)
    requires
        batch_fits(*config, *registry, *old(state), result@),
    ensures
        event_views(r@) == batch_events(*config, *registry, *old(state), result@),
        event_views(final(outbox)@) == event_views(old(outbox)@) + batch_reports(
            *config,
            *registry,
            *old(state),
            result@,
        ),
        batch_begun(*config, *registry, *old(state), *final(state), result@),
{
    let ghost start = event_views(outbox@);
    let ghost active = texts(state.last_active_hat_ids@);
    let ghost all = incoming_views(result.events@);
    publish_malformed(outbox, &result.malformed);
    let kept = enforce_scope(
        outbox,
        config.enforce_hat_scope,
        registry,
        &state.last_active_hat_ids,
        &result.events,
    );
    let batch = validate_events(config, &kept);
    proof {
        reveal(Seq::filter);
        assert(event_views(batch.events@).len() == batch.events@.len());
        let reports = malformed_events(result.malformed@);
        let violations = violation_events(config.enforce_hat_scope, *registry, active, all);
        assert(start + reports + violations == start + (reports + violations));
    }
    if result.events.len() == 0 && result.malformed.len() == 0 {
        proof {
            assert(batch.events@.len() == 0);
            assert(event_views(batch.events@) == Seq::<EventView>::empty());
            assert(blocked_tasks(Seq::<EventView>::empty()) == Seq::<Seq<char>>::empty());
            let abandoned = texts(state.abandoned_tasks@);
            assert(abandoned.skip(abandoned.len() as int) == Seq::<Seq<char>>::empty());
            assert(abandonments(*state, Seq::<EventView>::empty()) == Seq::<EventView>::empty());
            assert(event_views(outbox@) == start + batch_reports(
                *config,
                *registry,
                *state,
                result@,
            ));
        }
        return batch.events;
    }
    if result.events.len() > 0 {
        state.consecutive_malformed_events = 0;
    } else {
        state.consecutive_malformed_events = state.consecutive_malformed_events
            + result.malformed.len() as u32;
    }
    if batch.cancelled {
        state.cancellation_requested = true;
    }
    if batch.completed {
        state.completion_requested = true;
    }
    let ghost noted = *state;
    track_blocked(state, outbox, &batch.events);
    proof {
        let reports = malformed_events(result.malformed@);
        let violations = violation_events(config.enforce_hat_scope, *registry, active, all);
        let given_up = abandonments(noted, event_views(batch.events@));
        assert(given_up == abandonments(*old(state), event_views(batch.events@)));
        assert(start + (reports + violations) + given_up == start + (reports + violations
            + given_up));
    }
    batch.events
}

// ---- questions to a human, and publication ----

/// What became of a question to a human.
#[derive(Debug)]
pub enum HumanReply {
    /// No service is there to ask a human.
    NoRobotService,
    /// The question could not be sent.
    SendFailure { error: String },
    /// A human answered.
    Response { response: String },
    /// No human answered in time.
    Timeout { seconds: u64 },
    /// Waiting for an answer failed.
    WaitError { error: String },
}

/// The first question to a human among events.
pub open spec fn question_in(events: Seq<EventView>) -> Option<Seq<char>> {
    first_of(
        Seq::new(
            events.len(),
            |i: int|
                if events[i].topic == "human.interact"@ {
                    Some(events[i].payload)
                } else {
                    None
                },
        ),
    )
}

/// Finds the first question to a human among events.
pub fn first_question(events: &Vec<Event>) -> (r: Option<String>)
    ensures
        opt_text(r) == question_in(event_views(events@)),
{
    let ghost all = event_views(events@);
    let ghost hits = Seq::new(
        all.len(),
        |i: int|
            if all[i].topic == "human.interact"@ {
                Some(all[i].payload)
            } else {
                None
            },
    );
    let mut i: usize = 0;
    assert(hits.skip(0) == hits);
    while i < events.len()
        invariant
            i <= events.len(),
            all == event_views(events@),
            hits == Seq::new(
                all.len(),
                |i: int|
                    if all[i].topic == "human.interact"@ {
                        Some(all[i].payload)
                    } else {
                        None
                    },
            ),
            first_of(hits) == first_of(hits.skip(i as int)),
        decreases events.len() - i,
    {
        proof {
            lemma_first_of(hits, i as int);
        }
        if str_eq(events[i].topic.as_str(), "human.interact") {
            return Some(events[i].payload.clone());
        }
        i = i + 1;
    }
    None
}

/// The event that a reply to a question becomes.
pub open spec fn reply_event(question: Seq<char>, reply: HumanReply) -> Option<EventView> {
    match reply {
        HumanReply::NoRobotService => None,
        HumanReply::SendFailure { error } => None,
        HumanReply::Response { response } => Some(plain_event("human.response"@, response@)),
        HumanReply::Timeout { seconds } => Some(
            plain_event(
                "human.timeout"@,
                "No response after "@ + decimal(seconds as nat) + "s. Original question: "@
                    + question,
            ),
        ),
        HumanReply::WaitError { error } => Some(
            plain_event(
                "human.timeout"@,
                "Error waiting for response: "@ + error@ + ". Original question: "@ + question,
            ),
        ),
    }
}

/// The context of a question with what became of it.
pub open spec fn answered_context(context: Map<Seq<char>, Value>, reply: HumanReply) -> Map<
    Seq<char>,
    Value,
> {
    match reply {
        HumanReply::NoRobotService => context.insert(
            "outcome"@,
            json_of_text("no_robot_service"@),
        ),
        HumanReply::SendFailure { error } => context.insert(
            "outcome"@,
            json_of_text("send_failure"@),
        ).insert("error"@, json_of_text(error@)),
        HumanReply::Response { response } => context.insert(
            "outcome"@,
            json_of_text("response"@),
        ).insert("response"@, json_of_text(response@)),
        HumanReply::Timeout { seconds } => context.insert(
            "outcome"@,
            json_of_text("timeout"@),
        ).insert("timeout_seconds"@, json_of_u64(seconds)),
        HumanReply::WaitError { error } => context.insert(
            "outcome"@,
            json_of_text("wait_error"@),
        ).insert("error"@, json_of_text(error@)),
    }
}

/// Notes in the context of a question what became of it.
pub fn note_reply(context: &mut serde_json::Map<String, Value>, reply: &HumanReply)
    ensures
        crate::json::json_entries(*final(context)) == answered_context(
            crate::json::json_entries(*old(context)),
            *reply,
        ),
{
    match reply {
        HumanReply::NoRobotService => {
            context.insert("outcome".to_owned(), json_from_text("no_robot_service".to_owned()));
        },
        HumanReply::SendFailure { error } => {
            context.insert("outcome".to_owned(), json_from_text("send_failure".to_owned()));
            context.insert("error".to_owned(), json_from_text(error.clone()));
        },
        HumanReply::Response { response } => {
            context.insert("outcome".to_owned(), json_from_text("response".to_owned()));
            context.insert("response".to_owned(), json_from_text(response.clone()));
        },
        HumanReply::Timeout { seconds } => {
            context.insert("outcome".to_owned(), json_from_text("timeout".to_owned()));
            context.insert("timeout_seconds".to_owned(), json_from_u64(*seconds));
        },
        HumanReply::WaitError { error } => {
            context.insert("outcome".to_owned(), json_from_text("wait_error".to_owned()));
            context.insert("error".to_owned(), json_from_text(error.clone()));
        },
    }
}

/// Makes the event that a reply to a question becomes.
pub fn make_reply_event(question: &str, reply: &HumanReply) -> (r: Option<Event>)
    ensures
        match r {
            Some(event) => reply_event(question@, *reply) == Some(event@),
            None => reply_event(question@, *reply) is None,
        },
{
    match reply {
        HumanReply::NoRobotService => None,
        HumanReply::SendFailure { error } => None,
        HumanReply::Response { response } => Some(Event::new("human.response", response.as_str())),
        HumanReply::Timeout { seconds } => {
            let mut payload = "No response after ".to_owned();
            payload.append(decimal_text(*seconds).as_str());
            payload.append("s. Original question: ");
            payload.append(question);
            Some(Event::new("human.timeout", payload.as_str()))
        },
        HumanReply::WaitError { error } => {
            let mut payload = "Error waiting for response: ".to_owned();
            payload.append(error.as_str());
            payload.append(". Original question: ");
            payload.append(question);
            Some(Event::new("human.timeout", payload.as_str()))
        },
    }
}

/// Result of processing events.
#[derive(Debug)]
pub struct ProcessedEvents {
    /// Whether any valid events were found and published.
    pub had_events: bool,
    /// Whether any published events matched the `plan.*` topic family.
    pub had_plan_events: bool,
    /// Context of the first question to a human, with what became of it.
    pub human_interact_context: Option<Value>,
    /// Whether any events lacked specific hat subscribers.
    pub has_orphans: bool,
}

/// Result of processing events with wave events partitioned out.
#[derive(Debug)]
pub struct ProcessedEventsWithWaves {
    /// Normal event processing results.
    pub processed: ProcessedEvents,
    /// Wave events extracted before normal processing.
    pub wave_events: Vec<IncomingEvent>,
}

/// Whether an event among some belongs to the `plan.*` topic family.
pub open spec fn any_plan(events: Seq<EventView>) -> bool {
    exists|i: int| 0 <= i < events.len() && has_prefix((#[trigger] events[i]).topic, "plan."@)
}

/// Whether no hat subscribes to an event among some.
pub open spec fn any_orphan(registry: HatRegistry, events: Seq<EventView>) -> bool {
    exists|i: int| 0 <= i < events.len() && !registry.subscribed((#[trigger] events[i]).topic)
}

/// The events that are published and recorded at the end of a batch: the validated ones, and what
/// became of a question among them.
pub open spec fn batch_published(events: Seq<EventView>, reply: HumanReply) -> Seq<EventView> {
    match question_in(events) {
        Some(question) => match reply_event(question, reply) {
            Some(event) => events.push(event),
            None => events,
        },
        None => events,
    }
}

/// Lists the events of a batch that may ask for a restart: the validated ones, and what became of a
/// question among them.
pub fn answered_batch(events: &Vec<Event>, reply: &HumanReply) -> (r: Vec<Event>)
    ensures
        event_views(r@) == batch_published(event_views(events@), *reply),
{
    let mut all: Vec<Event> = Vec::new();
    append_events(&mut all, events);
    assert(event_views(all@) == event_views(events@));
    if let Some(question) = first_question(events) {
        if let Some(event) = make_reply_event(question.as_str(), reply) {
            push_event(&mut all, event);
        }
    }
    all
}

/// Tells whether the loop is to be marked for a restart before a batch is published. `asks` tells of
/// each event of the answered batch whether it asks for one; a single one suffices.
pub fn restart_requested(asks: &Vec<bool>) -> (r: bool)
    ensures
        r == asks@.contains(true),
{
    let mut i: usize = 0;
    while i < asks.len()
        invariant
            i <= asks.len(),
            !asks@.take(i as int).contains(true),
        decreases asks.len() - i,
    {
        if asks[i] {
            assert(asks@[i as int]);
            return true;
        }
        assert(asks@.take(i + 1) == asks@.take(i as int).push(false));
        i = i + 1;
    }
    assert(asks@.take(i as int) == asks@);
    false
}

/// What is told of a batch.
pub open spec fn batch_told(
    registry: HatRegistry,
    events: Seq<EventView>,
    reply: HumanReply,
    told: ProcessedEvents,
) -> bool {
    &&& told.had_events == (events.len() > 0)
    &&& told.had_plan_events == any_plan(events)
    &&& told.has_orphans == any_orphan(registry, events)
    &&& told.human_interact_context == (match question_in(events) {
        Some(question) => Some(
            json_of_entries(answered_context(context_of(question, json_read(question)), reply)),
        ),
        None => None,
    })
}

fn scan_topics(registry: &HatRegistry, events: &Vec<Event>) -> (r: (bool, bool))
    ensures
        r.0 == any_plan(event_views(events@)),
        r.1 == any_orphan(*registry, event_views(events@)),
{
    let ghost all = event_views(events@);
    let mut plan = false;
    let mut orphan = false;
    let mut i: usize = 0;
    while i < events.len()
        invariant
            i <= events.len(),
            all == event_views(events@),
            plan == (exists|j: int|
                0 <= j < i && has_prefix((#[trigger] all[j]).topic, "plan."@)),
            orphan == (exists|j: int| 0 <= j < i && !registry.subscribed((#[trigger] all[j]).topic)),
        decreases events.len() - i,
    {
        assert(all[i as int] == events@[i as int]@);
        if starts_with(events[i].topic.as_str(), "plan.") {
            plan = true;
        }
        if !registry.has_subscriber(events[i].topic.as_str()) {
            orphan = true;
        }
        i = i + 1;
    }
    (plan, orphan)
}

/// Publishes and records the validated events of a batch and what became of a question among them.
pub fn finish_batch(
    registry: &HatRegistry,
    outbox: &mut Vec<Event>,
    recorded: &mut Vec<Event>,
    events: &Vec<Event>,
    reply: &HumanReply,
) -> (r: ProcessedEvents)
    ensures
        event_views(final(outbox)@) == event_views(old(outbox)@) + batch_published(
            event_views(events@),
            *reply,
        ),
        event_views(final(recorded)@) == event_views(old(recorded)@) + batch_published(
            event_views(events@),
            *reply,
        ),
        batch_told(*registry, event_views(events@), *reply, r),
{
    let ghost all = event_views(events@);
    let question = first_question(events);
    let (had_plan_events, has_orphans) = scan_topics(registry, events);
    append_events(outbox, events);
    append_events(recorded, events);
    let ghost out = event_views(outbox@);
    let ghost rec = event_views(recorded@);
    let mut human_interact_context: Option<Value> = None;
    if let Some(payload) = &question {
        let mut context = question_context(payload.as_str());
        note_reply(&mut context, reply);
        human_interact_context = Some(json_from_object(context));
        if let Some(event) = make_reply_event(payload.as_str(), reply) {
            push_event(recorded, event.clone());
            push_event(outbox, event);
            proof {
                assert(event_views(old(outbox)@) + all.push(event@) == (event_views(old(outbox)@)
                    + all).push(event@));
                assert(event_views(old(recorded)@) + all.push(event@) == (event_views(
                    old(recorded)@,
                ) + all).push(event@));
            }
        }
    }
    assert(all.len() == events@.len());
    ProcessedEvents {
        had_events: events.len() > 0,
        had_plan_events,
        human_interact_context,
        has_orphans,
    }
}

} // verus!
