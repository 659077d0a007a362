//! What holds of the event loop as a whole.
use crate::config::event_loop::EventLoopConfig;
use crate::event_loop::event::{EventView, Evidence, IncomingView, ReadView};
use crate::event_loop::building::{bus_ids, BusHat};
use crate::event_loop::orchestrator::without_waves;
use crate::event_loop::processing::{
    abandoned_after, abandoned_event, abandonments, batch_begun, batch_events, blocked_tasks,
    in_scope, kept_events, lemma_abandoned_grows, occurrences, validated_event, validated_events,
    violation_events,
};
use crate::event_loop::prompt::{is_reported, newly_exhausted, plan_noted, QueueView};
use crate::event_loop::queues::{by_hat, lemma_by_hat};
use crate::event_loop::registry::{
    lemma_hat_with, route_for, route_hits, route_known, HatRegistry,
};
use crate::event_loop::routing::{
    activated_hats, active_hats, dispatches_wave, hats_of, is_kickoff, next_hat_of, shown_events,
    PendingHats,
};
use crate::event_loop::scratchpad::{left_off, shown_scratchpad, SCRATCHPAD_BUDGET};
use crate::event_loop::state::{is_fresh, Counters, LoopState};
use crate::event_loop::tasks::{in_loop, loop_tasks, TaskView};
use crate::text::{
    byte_len, char_at, first_of, lemma_byte_len, lemma_char_at, lemma_first_among, prefix_within,
    texts,
};
use vstd::prelude::*;

verus! {

/// With custom hats, whatever is pending is executed by the coordinator, which is always on the bus:
/// custom hats say how events are routed, and execute nothing themselves. In solo mode, where no
/// custom hat is registered, the coordinator alone is on the bus and executes whatever is pending, so
/// that both modes execute by the coordinator and by nothing else.
pub proof fn law_the_coordinator_executes(
    registry: HatRegistry,
    bus: Seq<BusHat>,
    pending: PendingHats,
)
    requires
        bus_ids(bus) == Seq::new(registry.hats@.len(), |i: int| registry.hats@[i].id@).push(
            "ralph"@,
        ),
        texts(pending.hat_ids@) == bus_ids(bus),
        pending.next is Some ==> texts(pending.hat_ids@).contains(pending.next->0@),
    ensures
        next_hat_of(registry, pending) == (if pending.next is Some || pending.human {
            Some("ralph"@)
        } else {
            None
        }),
{
    assert(bus_ids(bus).last() == "ralph"@);
    assert(bus_ids(bus).contains("ralph"@));
}

/// In a well-formed registry every hat that events activate is registered, so that no active hat is
/// lost where the hats themselves are determined: there is one for each identifier, in order.
pub proof fn law_active_hats_are_registered(
    config: EventLoopConfig,
    registry: HatRegistry,
    events: Seq<EventView>,
)
    requires
        registry.wf(),
    ensures
        ({
            let active = active_hats(config, registry, events);
            &&& forall|i: int| 0 <= i < active.len() ==> registry.hat(#[trigger] active[i]) is Some
            &&& Seq::new(
                hats_of(registry, active).len(),
                |i: int| hats_of(registry, active)[i].id@,
            ) == active
        }),
{
    lemma_activated_registered(config, registry, events, true);
    lemma_activated_registered(config, registry, events, false);
    lemma_hats_of(registry, active_hats(config, registry, events));
}

proof fn lemma_activated_registered(
    config: EventLoopConfig,
    registry: HatRegistry,
    events: Seq<EventView>,
    entrypoints: bool,
)
    requires
        registry.wf(),
    ensures
        ({
            let activated = activated_hats(config, registry, events, entrypoints);
            forall|i: int|
                0 <= i < activated.len() ==> registry.hat(#[trigger] activated[i]) is Some
        }),
    decreases events.len(),
{
    if events.len() > 0 {
        lemma_activated_registered(config, registry, events.drop_last(), entrypoints);
        lemma_handler_registered(registry, events.last().topic);
    }
}

/// The hats that a well-formed registry routes a topic to, and those that may publish it, are
/// registered.
pub proof fn lemma_handler_registered(registry: HatRegistry, topic: Seq<char>)
    requires
        registry.wf(),
    ensures
        registry.handler(topic) is Some ==> registry.hat(registry.handler(topic)->0) is Some,
        registry.triggered(topic) is Some ==> registry.hat(registry.triggered(topic)->0) is Some,
        forall|hat: Seq<char>|
            #[trigger] registry.may_publish(hat, topic) ==> registry.hat(hat) is Some,
{
    let routes = registry.routes@;
    let hits = route_hits(routes, topic);
    lemma_first_among(hits);
    if let Some(route) = route_for(routes, topic) {
        let i = choose|i: int| 0 <= i < hits.len() && #[trigger] hits[i] == first_of(hits);
        assert(route == routes[i]);
        assert(route_known(registry.hats@, routes[i]));
        assert forall|hat: Seq<char>| #[trigger] registry.may_publish(hat, topic) implies
            registry.hat(hat) is Some by {
            let k = texts(route.publishers@).index_of(hat);
            assert(route.publishers@[k]@ == hat);
        }
    }
}

proof fn lemma_hats_of(registry: HatRegistry, ids: Seq<Seq<char>>)
    requires
        forall|i: int| 0 <= i < ids.len() ==> registry.hat(#[trigger] ids[i]) is Some,
    ensures
        Seq::new(hats_of(registry, ids).len(), |i: int| hats_of(registry, ids)[i].id@) == ids,
    decreases ids.len(),
{
    if ids.len() > 0 {
        let before = ids.drop_last();
        assert forall|i: int| 0 <= i < before.len() implies registry.hat(
            #[trigger] before[i],
        ) is Some by {
            assert(before[i] == ids[i]);
        }
        lemma_hats_of(registry, before);
        lemma_hat_with(registry.hats@, ids.last());
        let hat = registry.hat(ids.last())->0;
        assert(hats_of(registry, ids) == hats_of(registry, before).push(hat));
        let shorter = Seq::new(
            hats_of(registry, before).len(),
            |i: int| hats_of(registry, before)[i].id@,
        );
        assert(Seq::new(hats_of(registry, ids).len(), |i: int| hats_of(registry, ids)[i].id@)
            == shorter.push(hat.id@));
        assert(ids == before.push(ids.last()));
    }
}

/// Parting the events that dispatch waves loses none and doubles none, and none of them is left among
/// the others.
pub proof fn law_events_are_waves_or_regular(registry: HatRegistry, read: ReadView)
    ensures
        read.events.filter(|e: IncomingView| dispatches_wave(registry, e)).len() + without_waves(
            registry,
            read,
        ).events.len() == read.events.len(),
        forall|i: int|
            0 <= i < without_waves(registry, read).events.len() ==> !dispatches_wave(
                registry,
                #[trigger] without_waves(registry, read).events[i],
            ),
        without_waves(registry, read).malformed == read.malformed,
    decreases read.events.len(),
{
    reveal(Seq::filter);
    let other = |e: IncomingView| !dispatches_wave(registry, e);
    broadcast use vstd::seq_lib::group_filter_ensures;

    assert forall|i: int| 0 <= i < without_waves(registry, read).events.len() implies
        !dispatches_wave(registry, #[trigger] without_waves(registry, read).events[i]) by {
        assert(other(read.events.filter(other)[i]));
    }
    if read.events.len() > 0 {
        law_events_are_waves_or_regular(
            registry,
            ReadView { events: read.events.drop_last(), ..read },
        );
    }
}

/// Where the scope is enforced, only events that an active hat may publish are kept, and every event
/// is either kept or reported.
pub proof fn law_scope_is_enforced(
    registry: HatRegistry,
    active: Seq<Seq<char>>,
    events: Seq<IncomingView>,
)
    ensures
        forall|i: int|
            0 <= i < kept_events(true, registry, active, events).len() ==> in_scope(
                registry,
                active,
                (#[trigger] kept_events(true, registry, active, events)[i]).topic,
            ),
        kept_events(true, registry, active, events).len() + violation_events(
            true,
            registry,
            active,
            events,
        ).len() == events.len(),
    decreases events.len(),
{
    reveal(Seq::filter);
    let inside = |e: IncomingView| in_scope(registry, active, e.topic);
    broadcast use vstd::seq_lib::group_filter_ensures;

    assert forall|i: int| 0 <= i < kept_events(true, registry, active, events).len() implies in_scope(
        registry,
        active,
        (#[trigger] kept_events(true, registry, active, events)[i]).topic,
    ) by {
        assert(inside(events.filter(inside)[i]));
    }
    if events.len() > 0 {
        law_scope_is_enforced(registry, active, events.drop_last());
    }
}

/// What becomes of one event does not report finished work without evidence that all checks passed.
pub proof fn lemma_checked_work(event: IncomingView)
    ensures
        validated_event(event).topic == "build.done"@ ==> event.topic == "build.done"@
            && event.evidence == Evidence::Passed,
        validated_event(event).topic == "verify.passed"@ ==> event.topic == "verify.passed"@
            && event.evidence == Evidence::Passed,
        validated_event(event).topic == "review.done"@ ==> event.topic == "review.done"@ && (
        event.wave_id is Some || event.evidence == Evidence::Passed),
{
    reveal_strlit("build.done");
    reveal_strlit("build.blocked");
    reveal_strlit("review.done");
    reveal_strlit("review.blocked");
    reveal_strlit("verify.passed");
    reveal_strlit("verify.failed");
    assert("build.done"@.len() != "build.blocked"@.len());
    assert("build.done"@.len() != "review.blocked"@.len());
    assert("build.done"@.len() != "verify.failed"@.len());
    assert("build.done"@.len() != "review.done"@.len());
    assert("build.done"@.len() != "verify.passed"@.len());
    assert("verify.passed"@[0] != "build.blocked"@[0]);
    assert("verify.passed"@.len() != "review.blocked"@.len());
    assert("verify.passed"@[7] != "verify.failed"@[7]);
    assert("verify.passed"@.len() != "review.done"@.len());
    assert("review.done"@.len() != "build.blocked"@.len());
    assert("review.done"@.len() != "review.blocked"@.len());
    assert("review.done"@.len() != "verify.failed"@.len());
}

/// Finished work is published only with evidence that its checks passed: a finished build or a
/// passed verification among the validated events was reported so, and a finished review too unless
/// it belongs to a wave.
pub proof fn law_unchecked_work_is_held_back(
    config: EventLoopConfig,
    events: Seq<IncomingView>,
    k: int,
)
    requires
        0 <= k < validated_events(config, events).len(),
    ensures
        validated_events(config, events)[k].topic == "build.done"@ ==> exists|i: int|
            0 <= i < events.len() && (#[trigger] events[i]).topic == "build.done"@
                && events[i].evidence == Evidence::Passed,
        validated_events(config, events)[k].topic == "verify.passed"@ ==> exists|i: int|
            0 <= i < events.len() && (#[trigger] events[i]).topic == "verify.passed"@
                && events[i].evidence == Evidence::Passed,
        validated_events(config, events)[k].topic == "review.done"@ ==> exists|i: int|
            0 <= i < events.len() && (#[trigger] events[i]).topic == "review.done"@ && (
            events[i].wave_id is Some || events[i].evidence == Evidence::Passed),
    decreases events.len(),
{
    if events.len() > 0 {
        let before = validated_events(config, events.drop_last());
        let event = events.last();
        if k < before.len() {
            law_unchecked_work_is_held_back(config, events.drop_last(), k);
            assert forall|i: int| 0 <= i < events.drop_last().len() implies events.drop_last()[i]
                == #[trigger] events[i] by {}
        } else {
            lemma_checked_work(event);
            assert(events[events.len() - 1] == event);
        }
    }
}

/// A task is given up at most once, and given up as soon as it has been blocked three times.
pub proof fn law_tasks_are_given_up_once(
    counts: Counters,
    abandoned: Seq<Seq<char>>,
    tasks: Seq<Seq<char>>,
)
    requires
        abandoned.no_duplicates(),
    ensures
        abandoned_after(counts, abandoned, tasks).no_duplicates(),
        forall|task: Seq<char>|
            #![trigger abandoned_after(counts, abandoned, tasks).contains(task)]
            tasks.contains(task) && counts.count(task) + occurrences(tasks, task) >= 3
                ==> abandoned_after(counts, abandoned, tasks).contains(task),
        forall|task: Seq<char>|
            #![trigger abandoned_after(counts, abandoned, tasks).contains(task)]
            abandoned_after(counts, abandoned, tasks).contains(task) && !abandoned.contains(task)
                ==> counts.count(task) + occurrences(tasks, task) >= 3,
    decreases tasks.len(),
{
    if tasks.len() > 0 {
        let last = tasks.last();
        let before = abandoned_after(counts, abandoned, tasks.drop_last());
        let after = abandoned_after(counts, abandoned, tasks);
        law_tasks_are_given_up_once(counts, abandoned, tasks.drop_last());
        assert forall|task: Seq<char>| #[trigger] after.contains(task) == (before.contains(task) || (
        task == last && counts.count(last) + occurrences(tasks, last) >= 3)) by {
            if before.contains(task) && after != before {
                let j = choose|j: int| 0 <= j < before.len() && before[j] == task;
                assert(after[j] == task);
            }
            if task == last && after != before {
                assert(after[before.len() as int] == task);
            }
        }
        assert forall|task: Seq<char>|
            tasks.contains(task) && counts.count(task) + occurrences(tasks, task) >= 3 implies
            #[trigger] after.contains(task) by {
            if task != last {
                let j = choose|j: int| 0 <= j < tasks.len() && tasks[j] == task;
                assert(tasks.drop_last()[j] == task);
                assert(before.contains(task));
            }
        }
        assert forall|task: Seq<char>|
            #[trigger] after.contains(task) && !abandoned.contains(task) implies counts.count(task)
            + occurrences(tasks, task) >= 3 by {
            if before.contains(task) {
                assert(occurrences(tasks, task) >= occurrences(tasks.drop_last(), task));
            }
        }
    }
}

/// Whether the tasks given up are those that were blocked three times or more, each of them once.
pub open spec fn tasks_settled(state: LoopState) -> bool {
    let abandoned = texts(state.abandoned_tasks@);
    &&& abandoned.no_duplicates()
    &&& forall|task: Seq<char>| #[trigger]
        abandoned.contains(task) <==> state.task_block_counts.count(task) >= 3
}

/// In a fresh state no task is given up, and none was blocked.
pub proof fn law_fresh_states_are_settled(state: LoopState)
    requires
        is_fresh(state),
    ensures
        tasks_settled(state),
{
    let abandoned = texts(state.abandoned_tasks@);
    assert(abandoned.len() == 0);
    assert forall|task: Seq<char>| #[trigger]
        abandoned.contains(task) <==> state.task_block_counts.count(task) >= 3 by {
        assert(state.task_block_counts.count(task) == 0);
    }
}

/// Taking in a batch keeps that the tasks given up are those that were blocked three times or more.
/// The count of a task rises by the number of its blocked builds in the batch, and never falls. Tasks
/// stay given up, and exactly one report is published for every task that is newly given up: the
/// reports are those of the new tasks, one by one, and no task is among them twice or was given up
/// before.
pub proof fn law_batches_settle_their_tasks(
    config: EventLoopConfig,
    registry: HatRegistry,
    before: LoopState,
    after: LoopState,
    read: ReadView,
)
    requires
        tasks_settled(before),
        batch_begun(config, registry, before, after, read),
    ensures
        tasks_settled(after),
        ({
            let events = batch_events(config, registry, before, read);
            let earlier = texts(before.abandoned_tasks@);
            let later = texts(after.abandoned_tasks@);
            let newly = later.skip(earlier.len() as int);
            &&& forall|task: Seq<char>| #[trigger]
                after.task_block_counts.count(task) == before.task_block_counts.count(task)
                    + occurrences(blocked_tasks(events), task)
            &&& later == earlier + newly
            &&& newly.no_duplicates()
            &&& forall|i: int| 0 <= i < newly.len() ==> !earlier.contains(#[trigger] newly[i])
            &&& abandonments(before, events) == newly.map_values(
                |task: Seq<char>| abandoned_event(task),
            )
        }),
{
    let kept = kept_events(
        config.enforce_hat_scope,
        registry,
        texts(before.last_active_hat_ids@),
        read.events,
    );
    let events = batch_events(config, registry, before, read);
    let tasks = blocked_tasks(events);
    let counts = before.task_block_counts;
    let earlier = texts(before.abandoned_tasks@);
    let later = texts(after.abandoned_tasks@);
    if read.events.len() == 0 && read.malformed.len() == 0 {
        reveal(Seq::filter);
        assert(kept.len() == 0);
        assert(events.len() == 0);
        assert(tasks.len() == 0);
    }
    assert(later == abandoned_after(counts, earlier, tasks));
    law_tasks_are_given_up_once(counts, earlier, tasks);
    lemma_abandoned_grows(counts, earlier, tasks);
    let newly = later.skip(earlier.len() as int);
    assert(later == later.take(earlier.len() as int) + newly);
    assert forall|task: Seq<char>| #[trigger]
        later.contains(task) <==> after.task_block_counts.count(task) >= 3 by {
        assert(after.task_block_counts.count(task) == counts.count(task) + occurrences(tasks, task));
        lemma_occurring(tasks, task);
        if earlier.contains(task) {
            let j = earlier.index_of(task);
            assert(later[j] == earlier[j]);
            assert(counts.count(task) >= 3);
        }
        if counts.count(task) >= 3 {
            assert(earlier.contains(task));
        }
    }
    assert forall|i: int, j: int| 0 <= i < newly.len() && 0 <= j < newly.len() && i != j implies
        newly[i] != newly[j] by {
        assert(later[earlier.len() + i] != later[earlier.len() + j]);
    }
    assert forall|i: int| 0 <= i < newly.len() implies !earlier.contains(#[trigger] newly[i]) by {
        if earlier.contains(newly[i]) {
            let j = earlier.index_of(newly[i]);
            assert(later[j] == later[earlier.len() + i]);
        }
    }
}

proof fn lemma_occurring(items: Seq<Seq<char>>, item: Seq<char>)
    ensures
        occurrences(items, item) > 0 <==> items.contains(item),
    decreases items.len(),
{
    if items.len() > 0 {
        let front = items.drop_last();
        lemma_occurring(front, item);
        if front.contains(item) {
            assert(items[front.index_of(item)] == item);
        } else if items.contains(item) {
            let j = items.index_of(item);
            if j < front.len() {
                assert(front[j] == item);
            }
        }
    }
}

/// A hat that was found to have used up its activations is not reported again.
pub proof fn law_exhaustion_is_reported_once(
    config: EventLoopConfig,
    registry: HatRegistry,
    before: LoopState,
    after: LoopState,
    queues: Seq<QueueView>,
    human: Seq<EventView>,
    i: int,
    later: QueueView,
)
    requires
        plan_noted(config, registry, before, after, queues, human),
        0 <= i < queues.len(),
        is_reported(registry, before, queues[i]),
        later.hat_id == queues[i].hat_id,
    ensures
        !is_reported(registry, after, later),
{
    let sorted = by_hat(queues);
    lemma_by_hat(queues);
    assert(sorted.contains(queues[i]));
    let at = sorted.index_of(queues[i]);
    lemma_reported_is_noted(registry, before, sorted, at);
    let noted = texts(before.exhausted_hats@);
    let newly = newly_exhausted(registry, before, sorted);
    let j = choose|j: int| 0 <= j < newly.len() && newly[j] == later.hat_id;
    assert((noted + newly)[noted.len() + j] == later.hat_id);
}

proof fn lemma_reported_is_noted(
    registry: HatRegistry,
    state: LoopState,
    queues: Seq<QueueView>,
    i: int,
)
    requires
        0 <= i < queues.len(),
        is_reported(registry, state, queues[i]),
    ensures
        newly_exhausted(registry, state, queues).contains(queues[i].hat_id),
    decreases queues.len(),
{
    let before = newly_exhausted(registry, state, queues.drop_last());
    let all = newly_exhausted(registry, state, queues);
    if i < queues.len() - 1 {
        lemma_reported_is_noted(registry, state, queues.drop_last(), i);
        let j = choose|j: int| 0 <= j < before.len() && before[j] == queues[i].hat_id;
        assert(all[j] == queues[i].hat_id);
    } else {
        assert(all[before.len() as int] == queues[i].hat_id);
    }
}

proof fn lemma_activated_once(
    config: EventLoopConfig,
    registry: HatRegistry,
    events: Seq<EventView>,
    entrypoints: bool,
)
    ensures
        activated_hats(config, registry, events, entrypoints).no_duplicates(),
    decreases events.len(),
{
    if events.len() > 0 {
        lemma_activated_once(config, registry, events.drop_last(), entrypoints);
    }
}

proof fn lemma_no_occurrence(items: Seq<Seq<char>>, item: Seq<char>)
    ensures
        items.contains(item) == (occurrences(items, item) > 0),
        items.no_duplicates() ==> occurrences(items, item) <= 1,
    decreases items.len(),
{
    if items.len() > 0 {
        let init = items.drop_last();
        lemma_no_occurrence(init, item);
        if items.contains(item) && items.last() != item {
            let j = choose|j: int| 0 <= j < items.len() && items[j] == item;
            assert(init[j] == item);
        }
        if init.contains(item) {
            let j = choose|j: int| 0 <= j < init.len() && init[j] == item;
            assert(items[j] == item);
        }
        if items.last() == item {
            assert(items[items.len() - 1] == item);
        }
        if items.no_duplicates() {
            assert(init.no_duplicates());
            if items.last() == item && init.contains(item) {
                let j = choose|j: int| 0 <= j < init.len() && init[j] == item;
                assert(items[j] == items[items.len() - 1]);
            }
        }
    }
}

/// A prompt counts at most one activation of every hat, and exactly one of every active hat.
pub proof fn law_hats_are_activated_once(
    config: EventLoopConfig,
    registry: HatRegistry,
    events: Seq<EventView>,
    id: Seq<char>,
)
    ensures
        active_hats(config, registry, events).no_duplicates(),
        occurrences(active_hats(config, registry, events), id) == (if active_hats(
            config,
            registry,
            events,
        ).contains(id) {
            1nat
        } else {
            0nat
        }),
{
    lemma_activated_once(config, registry, events, true);
    lemma_activated_once(config, registry, events, false);
    lemma_no_occurrence(active_hats(config, registry, events), id);
}

/// A prompt shows every event that is no kickoff or recovery, and something wherever there is
/// something to show.
pub proof fn law_prompts_show_the_work(events: Seq<EventView>, i: int)
    requires
        0 <= i < events.len(),
    ensures
        !is_kickoff(events[i].topic) ==> shown_events(events).contains(events[i]),
        shown_events(events).len() > 0,
{
    let work = |e: EventView| !is_kickoff(e.topic);
    if exists|k: int| 0 <= k < events.len() && !is_kickoff((#[trigger] events[k]).topic) {
        let k = choose|k: int| 0 <= k < events.len() && !is_kickoff((#[trigger] events[k]).topic);
        broadcast use vstd::seq_lib::group_filter_ensures;

        assert(work(events[k]));
        assert(events.contains(events[k]));
        assert(events.filter(work).contains(events[k]));
        if !is_kickoff(events[i].topic) {
            assert(work(events[i]));
            assert(events.filter(work).contains(events[i]));
        }
    }
}

/// A scratchpad within the budget is shown whole. Of a longer one the end is shown: it is never empty,
/// and it exceeds the budget by less than one character.
pub proof fn law_long_scratchpads_keep_their_end(content: Seq<char>)
    ensures
        byte_len(content) <= SCRATCHPAD_BUDGET ==> shown_scratchpad(content) == content,
        byte_len(content) > SCRATCHPAD_BUDGET ==> {
            &&& 0 <= left_off(content) < content.len()
            &&& byte_len(content) - byte_len(content.take(left_off(content))) < SCRATCHPAD_BUDGET
                + 4
        },
{
    if byte_len(content) > SCRATCHPAD_BUDGET {
        let limit = (byte_len(content) - SCRATCHPAD_BUDGET) as nat;
        let start = prefix_within(content, limit) as int;
        lemma_longest_prefix(content, limit);
        lemma_byte_len(content, start, content.len() as int);
        assert(content.take(content.len() as int) == content);
        if start < content.len() {
            lemma_byte_len(content, start, start + 1);
        }
        match char_at(content.skip(start), '\n') {
            Some(n) => {
                lemma_char_at(content.skip(start), '\n');
                lemma_byte_len(content, start, start + n + 1);
            },
            None => {},
        }
    }
}

proof fn lemma_longest_prefix(s: Seq<char>, bytes: nat)
    ensures
        prefix_within(s, bytes) <= s.len(),
        byte_len(s.take(prefix_within(s, bytes) as int)) <= bytes,
        prefix_within(s, bytes) < s.len() ==> byte_len(s.take(prefix_within(s, bytes) as int + 1))
            > bytes,
    decreases s.len(),
{
    assert(s.take(s.len() as int) == s);
    if s.len() > 0 && byte_len(s) > bytes {
        let init = s.drop_last();
        lemma_longest_prefix(init, bytes);
        let k = prefix_within(init, bytes) as int;
        assert(init.take(k) == s.take(k));
        if k < init.len() {
            assert(init.take(k + 1) == s.take(k + 1));
        }
    }
}

/// A loop sees its own tasks only; without an identifier it sees all of them.
pub proof fn law_loops_see_their_own_tasks(tasks: Seq<TaskView>, loop_id: Option<Seq<char>>)
    ensures
        forall|i: int|
            0 <= i < loop_tasks(tasks, loop_id).len() ==> in_loop(
                #[trigger] loop_tasks(tasks, loop_id)[i],
                loop_id,
            ),
        loop_id is None ==> loop_tasks(tasks, loop_id) == tasks,
    decreases tasks.len(),
{
    reveal(Seq::filter);
    let own = |task: TaskView| in_loop(task, loop_id);
    broadcast use vstd::seq_lib::group_filter_ensures;

    assert forall|i: int| 0 <= i < loop_tasks(tasks, loop_id).len() implies in_loop(
        #[trigger] loop_tasks(tasks, loop_id)[i],
        loop_id,
    ) by {
        assert(own(tasks.filter(own)[i]));
    }
    if tasks.len() > 0 {
        law_loops_see_their_own_tasks(tasks.drop_last(), loop_id);
        if loop_id is None {
            assert(tasks.drop_last().push(tasks.last()) == tasks);
        }
    } else {
        assert(loop_tasks(tasks, loop_id) == tasks);
    }
}

} // verus!
