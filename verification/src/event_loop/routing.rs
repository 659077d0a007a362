//! Hat routing, activation, and dispatch.
use crate::config::event_loop::EventLoopConfig;
use crate::event_loop::event::{
    event_views, incoming_views, plain_event, push_event, Event, EventView, IncomingEvent,
    IncomingView,
};
use crate::event_loop::processing::occurrences;
use crate::event_loop::registry::{Hat, HatRegistry};
use crate::event_loop::state::LoopState;
use crate::text::{
    decimal, decimal_text, ends_with, has_suffix, holds_text, join, joined, opt_text, ordered,
    sort, str_eq, texts,
};
use vstd::prelude::*;

verus! {

/// What the bus tells of pending events.
#[derive(Debug)]
pub struct PendingHats {
    /// The next hat that has pending events.
    pub next: Option<String>,
    /// Whether events of a human are pending.
    pub human: bool,
    /// The registered hats.
    pub hat_ids: Vec<String>,
}

/// The coordinator, where it is registered.
pub open spec fn coordinator(hat_ids: Seq<Seq<char>>) -> Option<Seq<char>> {
    if hat_ids.contains("ralph"@) {
        Some("ralph"@)
    } else {
        None
    }
}

/// The hat to execute next: with custom hats the coordinator executes whatever is pending, and so
/// it does for pending events of a human.
pub open spec fn next_hat_of(registry: HatRegistry, pending: PendingHats) -> Option<Seq<char>> {
    if pending.next is None {
        if pending.human {
            coordinator(texts(pending.hat_ids@))
        } else {
            None
        }
    } else if registry.hats@.len() == 0 {
        opt_text(pending.next)
    } else {
        coordinator(texts(pending.hat_ids@))
    }
}

fn find_coordinator(hat_ids: &Vec<String>) -> (r: Option<String>)
    ensures
        opt_text(r) == coordinator(texts(hat_ids@)),
{
    if holds_text(hat_ids, "ralph") {
        Some("ralph".to_owned())
    } else {
        None
    }
}

/// Finds the hat to execute next.
pub fn next_hat(registry: &HatRegistry, pending: &PendingHats) -> (r: Option<String>)
    ensures
        opt_text(r) == next_hat_of(*registry, *pending),
{
    match &pending.next {
        None => {
            if pending.human {
                find_coordinator(&pending.hat_ids)
            } else {
                None
            }
        },
        Some(next) => {
            if registry.hats.len() == 0 {
                Some(next.clone())
            } else {
                find_coordinator(&pending.hat_ids)
            }
        },
    }
}

/// Tests whether any events are pending.
pub fn has_pending_events(pending: &PendingHats) -> (r: bool)
    ensures
        r == (pending.next is Some || pending.human),
{
    pending.next.is_some() || pending.human
}

/// The topics that a hat may publish.
pub open spec fn publishes_of(registry: HatRegistry, id: Seq<char>) -> Seq<Seq<char>> {
    match registry.hat(id) {
        Some(hat) => texts(hat.publishes@),
        None => Seq::empty(),
    }
}

/// Copies strings.
pub fn clone_texts(v: &Vec<String>) -> (r: Vec<String>)
    ensures
        r@ == v@,
{
    let mut r: Vec<String> = Vec::new();
    let mut i: usize = 0;
    while i < v.len()
        invariant
            i <= v.len(),
            r@ == v@.take(i as int),
        decreases v.len() - i,
    {
        r.push(v[i].clone());
        i = i + 1;
    }
    r
}

/// Lists the topics that a hat may publish.
pub fn get_hat_publishes(registry: &HatRegistry, hat_id: &str) -> (r: Vec<String>)
    ensures
        texts(r@) == publishes_of(*registry, hat_id@),
{
    match registry.get(hat_id) {
        Some(hat) => clone_texts(&hat.publishes),
        None => {
            let r: Vec<String> = Vec::new();
            assert(texts(r@) == Seq::<Seq<char>>::empty());
            r
        },
    }
}

/// The event that recovers a stalled loop: it is directed at the hat that was executed last, unless
/// that was the coordinator.
pub open spec fn fallback_event(registry: HatRegistry, last_hat: Option<Seq<char>>) -> EventView {
    if last_hat is Some && last_hat->0 != "ralph"@ {
        let hat = last_hat->0;
        let topics = publishes_of(registry, hat);
        let payload = if topics.len() == 0 {
            "RECOVERY: Previous iteration by hat `"@ + hat
                + "` did not publish an event. Emit exactly one valid next event via `ralph emit`, or stop only after publishing the configured completion event."@
        } else {
            "RECOVERY: Previous iteration by hat `"@ + hat
                + "` did not publish an event. This failed because no event was emitted. Emit exactly ONE valid next event via `ralph emit`. Allowed topics: `"@
                + joined(topics, "`, `"@)
                + "`. Do not only write prose or update files. Stop immediately after emitting."@
        };
        EventView { target: Some(hat), ..plain_event("task.resume"@, payload) }
    } else {
        plain_event(
            "task.resume"@,
            "RECOVERY: Previous iteration did not publish an event. Review the scratchpad and either dispatch the next task or complete the loop."@,
        )
    }
}

/// Publishes an event that recovers a stalled loop. Recovery is always possible.
pub fn inject_fallback_event(
    registry: &HatRegistry,
    last_hat: &Option<String>,
    outbox: &mut Vec<Event>,
) -> (r: bool)
    ensures
        r,
        event_views(final(outbox)@) == event_views(old(outbox)@).push(
            fallback_event(*registry, opt_text(*last_hat)),
        ),
{
    if let Some(hat) = last_hat {
        if !str_eq(hat.as_str(), "ralph") {
            let topics = get_hat_publishes(registry, hat.as_str());
            let mut payload = "RECOVERY: Previous iteration by hat `".to_owned();
            payload.append(hat.as_str());
            assert(texts(topics@).len() == topics@.len());
            if topics.len() == 0 {
                payload.append(
                    "` did not publish an event. Emit exactly one valid next event via `ralph emit`, or stop only after publishing the configured completion event.",
                );
            } else {
                payload.append(
                    "` did not publish an event. This failed because no event was emitted. Emit exactly ONE valid next event via `ralph emit`. Allowed topics: `",
                );
                payload.append(join(&topics, "`, `").as_str());
                payload.append(
                    "`. Do not only write prose or update files. Stop immediately after emitting.",
                );
            }
            push_event(
                outbox,
                Event::new("task.resume", payload.as_str()).with_target(hat.as_str()),
            );
            return true;
        }
    }
    push_event(
        outbox,
        Event::new(
            "task.resume",
            "RECOVERY: Previous iteration did not publish an event. Review the scratchpad and either dispatch the next task or complete the loop.",
        ),
    );
    true
}

/// Whether a topic starts or resumes work.
pub open spec fn is_kickoff(topic: Seq<char>) -> bool {
    topic == "task.start"@ || topic == "task.resume"@ || has_suffix(topic, ".start"@)
}

/// Whether a topic starts or resumes work, or is the configured starting event.
pub open spec fn is_entrypoint(config: EventLoopConfig, topic: Seq<char>) -> bool {
    is_kickoff(topic) || opt_text(config.starting_event) == Some(topic)
}

/// Tests whether a topic starts or resumes work.
pub fn is_kickoff_or_recovery_event(topic: &str) -> (r: bool)
    ensures
        r == is_kickoff(topic@),
{
    str_eq(topic, "task.start") || str_eq(topic, "task.resume") || ends_with(topic, ".start")
}

/// Tests whether a topic is an entrypoint.
pub fn is_entrypoint_topic(config: &EventLoopConfig, topic: &str) -> (r: bool)
    ensures
        r == is_entrypoint(*config, topic@),
{
    if is_kickoff_or_recovery_event(topic) {
        return true;
    }
    match &config.starting_event {
        Some(start) => str_eq(start.as_str(), topic),
        None => false,
    }
}

/// The hat that an event activates: the registered hat that it is directed at, else the hat that
/// handles its topic.
pub open spec fn activated_hat(registry: HatRegistry, event: EventView) -> Option<Seq<char>> {
    if event.target is Some && registry.hat(event.target->0) is Some {
        event.target
    } else {
        registry.handler(event.topic)
    }
}

/// The hats that are activated by the entrypoint events, or by the other events, each once.
pub open spec fn activated_hats(
    config: EventLoopConfig,
    registry: HatRegistry,
    events: Seq<EventView>,
    entrypoints: bool,
) -> Seq<Seq<char>>
    decreases events.len(),
{
    if events.len() == 0 {
        Seq::empty()
    } else {
        let before = activated_hats(config, registry, events.drop_last(), entrypoints);
        let event = events.last();
        match activated_hat(registry, event) {
            Some(hat) => if is_entrypoint(config, event.topic) == entrypoints && !before.contains(
                hat,
            ) {
                before.push(hat)
            } else {
                before
            },
            None => before,
        }
    }
}

/// The active hats: those that events beyond the entrypoints activate, else those that the
/// entrypoint events activate.
pub open spec fn active_hats(
    config: EventLoopConfig,
    registry: HatRegistry,
    events: Seq<EventView>,
) -> Seq<Seq<char>> {
    let progressed = activated_hats(config, registry, events, false);
    if progressed.len() == 0 {
        activated_hats(config, registry, events, true)
    } else {
        progressed
    }
}

fn event_hat(registry: &HatRegistry, event: &Event) -> (r: Option<String>)
    ensures
        opt_text(r) == activated_hat(*registry, event@),
{
    if let Some(target) = &event.target {
        if registry.get(target.as_str()).is_some() {
            return Some(target.clone());
        }
    }
    match registry.get_for_topic(event.topic.as_str()) {
        Some(id) => Some(id.to_owned()),
        None => None,
    }
}

fn push_once(list: &mut Vec<String>, item: String)
    ensures
        texts(final(list)@) == (if texts(old(list)@).contains(item@) {
            texts(old(list)@)
        } else {
            texts(old(list)@).push(item@)
        }),
{
    if !holds_text(list, item.as_str()) {
        list.push(item);
        assert(texts(list@) == texts(old(list)@).push(item@));
    }
}

/// Determines the active hats.
pub fn determine_active_hat_ids(
    config: &EventLoopConfig,
    registry: &HatRegistry,
    events: &Vec<Event>,
) -> (r: Vec<String>)
    ensures
        texts(r@) == active_hats(*config, *registry, event_views(events@)),
{
    let ghost all = event_views(events@);
    let mut entrypoint: Vec<String> = Vec::new();
    let mut progressed: Vec<String> = Vec::new();
    let mut i: usize = 0;
    assert(texts(entrypoint@) == activated_hats(*config, *registry, all.take(0), true));
    assert(texts(progressed@) == activated_hats(*config, *registry, all.take(0), false));
    while i < events.len()
        invariant
            i <= events.len(),
            all == event_views(events@),
            texts(entrypoint@) == activated_hats(*config, *registry, all.take(i as int), true),
            texts(progressed@) == activated_hats(*config, *registry, all.take(i as int), false),
        decreases events.len() - i,
    {
        proof {
            assert(all.take(i + 1).drop_last() == all.take(i as int));
            assert(all.take(i + 1).last() == events@[i as int]@);
        }
        if let Some(hat) = event_hat(registry, &events[i]) {
            if is_entrypoint_topic(config, events[i].topic.as_str()) {
                push_once(&mut entrypoint, hat);
            } else {
                push_once(&mut progressed, hat);
            }
        }
        i = i + 1;
    }
    assert(all.take(i as int) == all);
    assert(texts(progressed@).len() == progressed@.len());
    if progressed.len() == 0 {
        entrypoint
    } else {
        progressed
    }
}

/// The registered hats among some identifiers, in their order.
pub open spec fn hats_of(registry: HatRegistry, ids: Seq<Seq<char>>) -> Seq<Hat>
    decreases ids.len(),
{
    if ids.len() == 0 {
        Seq::empty()
    } else {
        let before = hats_of(registry, ids.drop_last());
        match registry.hat(ids.last()) {
            Some(hat) => before.push(hat),
            None => before,
        }
    }
}

/// Determines the active hats themselves.
pub fn determine_active_hats<'a>(
    config: &EventLoopConfig,
    registry: &'a HatRegistry,
    events: &Vec<Event>,
) -> (r: Vec<&'a Hat>)
    ensures
        Seq::new(r@.len(), |i: int| *r@[i]) == hats_of(
            *registry,
            active_hats(*config, *registry, event_views(events@)),
        ),
{
    let ids = determine_active_hat_ids(config, registry, events);
    let ghost all = texts(ids@);
    let mut r: Vec<&'a Hat> = Vec::new();
    let mut i: usize = 0;
    while i < ids.len()
        invariant
            i <= ids.len(),
            all == texts(ids@),
            Seq::new(r@.len(), |i: int| *r@[i]) == hats_of(*registry, all.take(i as int)),
        decreases ids.len() - i,
    {
        let ghost before = r@;
        proof {
            assert(all.take(i + 1).drop_last() == all.take(i as int));
            assert(all.take(i + 1).last() == ids@[i as int]@);
        }
        if let Some(hat) = registry.get(ids[i].as_str()) {
            r.push(hat);
            assert(Seq::new(r@.len(), |i: int| *r@[i]) == Seq::new(
                before.len(),
                |i: int| *before[i],
            ).push(*hat));
        }
        i = i + 1;
    }
    assert(all.take(i as int) == all);
    r
}

/// The hat that is shown for pending events.
pub open spec fn first_active(
    config: EventLoopConfig,
    registry: HatRegistry,
    events: Seq<EventView>,
) -> Seq<char> {
    let active = active_hats(config, registry, events);
    if active.len() > 0 {
        active[0]
    } else {
        "ralph"@
    }
}

/// The first active hat, or the coordinator where no hat is active.
pub fn get_active_hat_id(
    config: &EventLoopConfig,
    registry: &HatRegistry,
    pending: &Vec<Event>,
) -> (r: String)
    ensures
        r@ == ({
            let active = active_hats(*config, *registry, event_views(pending@));
            if active.len() > 0 {
                active[0]
            } else {
                "ralph"@
            }
        }),
        r@ == first_active(*config, *registry, event_views(pending@)),
{
    let active = determine_active_hat_ids(config, registry, pending);
    assert(texts(active@).len() == active@.len());
    if active.len() > 0 {
        assert(texts(active@)[0] == active@[0]@);
        active[0].clone()
    } else {
        "ralph".to_owned()
    }
}

/// The events that a prompt shows: kickoff and recovery events only where there are no others.
pub open spec fn shown_events(events: Seq<EventView>) -> Seq<EventView> {
    if exists|i: int| 0 <= i < events.len() && !is_kickoff((#[trigger] events[i]).topic) {
        events.filter(|e: EventView| !is_kickoff(e.topic))
    } else {
        events
    }
}

/// Selects the events that a prompt shows.
pub fn effective_regular_events(events: &Vec<Event>) -> (r: Vec<Event>)
    ensures
        event_views(r@) == shown_events(event_views(events@)),
{
    let ghost all = event_views(events@);
    let ghost pred = |e: EventView| !is_kickoff(e.topic);
    let mut downstream: Vec<Event> = Vec::new();
    let mut i: usize = 0;
    proof {
        reveal(Seq::filter);
        assert(event_views(downstream@) == all.take(0).filter(pred));
    }
    while i < events.len()
        invariant
            i <= events.len(),
            all == event_views(events@),
            pred == (|e: EventView| !is_kickoff(e.topic)),
            event_views(downstream@) == all.take(i as int).filter(pred),
            downstream@.len() > 0 <==> exists|j: int|
                0 <= j < i && !is_kickoff((#[trigger] all[j]).topic),
        decreases events.len() - i,
    {
        let ghost before = downstream@;
        proof {
            reveal(Seq::filter);
            assert(all.take(i + 1).drop_last() == all.take(i as int));
            assert(all.take(i + 1).last() == events@[i as int]@);
            assert(all[i as int] == events@[i as int]@);
        }
        if !is_kickoff_or_recovery_event(events[i].topic.as_str()) {
            push_event(&mut downstream, events[i].clone());
        }
        i = i + 1;
    }
    assert(all.take(i as int) == all);
    if downstream.len() > 0 {
        downstream
    } else {
        let mut r: Vec<Event> = Vec::new();
        crate::event_loop::event::append_events(&mut r, events);
        assert(event_views(r@) == all);
        r
    }
}

/// The line of an event in a prompt: the user's own request is delimited.
pub open spec fn event_line(event: EventView) -> Seq<char> {
    if event.topic == "task.start"@ || event.topic == "task.resume"@ {
        "Event: "@ + event.topic + " - <top-level-prompt>\n"@ + event.payload
            + "\n</top-level-prompt>"@
    } else {
        "Event: "@ + event.topic + " - "@ + event.payload
    }
}

/// The lines of events in a prompt.
pub open spec fn event_lines(events: Seq<EventView>) -> Seq<char> {
    joined(Seq::new(events.len(), |i: int| event_line(events[i])), "\n"@)
}

/// Writes the line of an event in a prompt.
pub fn format_event(event: &Event) -> (r: String)
    ensures
        r@ == event_line(event@),
{
    let topic = event.topic.as_str();
    let mut r = "Event: ".to_owned();
    r.append(topic);
    if str_eq(topic, "task.start") || str_eq(topic, "task.resume") {
        r.append(" - <top-level-prompt>\n");
        r.append(event.payload.as_str());
        r.append("\n</top-level-prompt>");
    } else {
        r.append(" - ");
        r.append(event.payload.as_str());
    }
    r
}

/// Writes the lines of events in a prompt.
pub fn format_events(events: &Vec<Event>) -> (r: String)
    ensures
        r@ == event_lines(event_views(events@)),
{
    let ghost all = event_views(events@);
    let mut formatted: Vec<String> = Vec::new();
    let mut i: usize = 0;
    while i < events.len()
        invariant
            i <= events.len(),
            all == event_views(events@),
            texts(formatted@) == Seq::new(i as nat, |k: int| event_line(all[k])),
        decreases events.len() - i,
    {
        let ghost before = formatted@;
        formatted.push(format_event(&events[i]));
        assert(texts(formatted@) == texts(before).push(event_line(all[i as int])));
        assert(texts(formatted@) == Seq::new((i + 1) as nat, |k: int| event_line(all[k])));
        i = i + 1;
    }
    join(&formatted, "\n")
}

// ---- exhaustion and activation ----

/// The limit of activations of a hat.
pub open spec fn activation_limit(registry: HatRegistry, id: Seq<char>) -> Option<u32> {
    match registry.definition(id) {
        Some(config) => config.max_activations,
        None => None,
    }
}

/// Whether the activations of a hat are used up.
pub open spec fn exhausted(registry: HatRegistry, state: LoopState, id: Seq<char>) -> bool {
    match activation_limit(registry, id) {
        Some(limit) => state.hat_activation_counts.count(id) >= limit,
        None => false,
    }
}

/// The report of a hat whose activations are used up, with the topics of the dropped events in
/// order.
pub open spec fn exhaustion_event(
    id: Seq<char>,
    limit: u32,
    count: nat,
    topics: Seq<Seq<char>>,
) -> EventView {
    plain_event(
        id + ".exhausted"@,
        "Hat '"@ + id + "' exhausted.\n- max_activations: "@ + decimal(limit as nat)
            + "\n- activations: "@ + decimal(count) + "\n- dropped_topics:\n  - "@ + joined(
            topics,
            "\n  - "@,
        ),
    )
}

/// The topics of events.
pub open spec fn topics_of(events: Seq<EventView>) -> Seq<Seq<char>> {
    Seq::new(events.len(), |i: int| events[i].topic)
}

/// The report of a hat whose activations are used up.
pub open spec fn exhaustion_report(
    registry: HatRegistry,
    state: LoopState,
    id: Seq<char>,
    dropped: Seq<EventView>,
) -> EventView {
    exhaustion_event(
        id,
        activation_limit(registry, id)->0,
        state.hat_activation_counts.count(id),
        ordered(topics_of(dropped)),
    )
}

fn collect_topics(events: &Vec<Event>) -> (r: Vec<String>)
    ensures
        texts(r@) == topics_of(event_views(events@)),
{
    let mut r: Vec<String> = Vec::new();
    let mut i: usize = 0;
    while i < events.len()
        invariant
            i <= events.len(),
            texts(r@) == Seq::new(i as nat, |k: int| events@[k].topic@),
        decreases events.len() - i,
    {
        let ghost before = r@;
        r.push(events[i].topic.clone());
        assert(texts(r@) == texts(before).push(events@[i as int].topic@));
        i = i + 1;
    }
    assert(texts(r@) == topics_of(event_views(events@)));
    r
}

/// Tells whether the pending events of a hat are dropped because its activations are used up. The
/// first time this is reported, and noted in the state.
pub fn check_hat_exhaustion(
    registry: &HatRegistry,
    state: &mut LoopState,
    hat_id: &str,
    dropped: &Vec<Event>,
) -> (r: (bool, Option<Event>))
    ensures
        r.0 == exhausted(*registry, *old(state), hat_id@),
        r.1 is Some <==> r.0 && !texts(old(state).exhausted_hats@).contains(hat_id@),
        r.1 is Some ==> r.1->0@ == exhaustion_report(
            *registry,
            *old(state),
            hat_id@,
            event_views(dropped@),
        ),
        *final(state) == (LoopState { exhausted_hats: final(state).exhausted_hats, ..*old(state) }),
        texts(final(state).exhausted_hats@) == (if r.1 is Some {
            texts(old(state).exhausted_hats@).push(hat_id@)
        } else {
            texts(old(state).exhausted_hats@)
        }),
{
    let limit: u32 = match registry.get_config(hat_id) {
        Some(config) => match config.max_activations {
            Some(limit) => limit,
            None => {
                return (false, None);
            },
        },
        None => {
            return (false, None);
        },
    };
    let count: u32 = state.hat_activation_counts.get(hat_id);
    if count < limit {
        return (false, None);
    }
    if holds_text(&state.exhausted_hats, hat_id) {
        return (true, None);
    }
    state.exhausted_hats.push(hat_id.to_owned());
    assert(texts(state.exhausted_hats@) == texts(old(state).exhausted_hats@).push(hat_id@));
    let topics = sort(&collect_topics(dropped));
    let mut topic = hat_id.to_owned();
    topic.append(".exhausted");
    let mut payload = "Hat '".to_owned();
    payload.append(hat_id);
    payload.append("' exhausted.\n- max_activations: ");
    payload.append(decimal_text(limit as u64).as_str());
    payload.append("\n- activations: ");
    payload.append(decimal_text(count as u64).as_str());
    payload.append("\n- dropped_topics:\n  - ");
    payload.append(join(&topics, "\n  - ").as_str());
    (true, Some(Event::new(topic.as_str(), payload.as_str())))
}

/// Whether counting the activations of hats stays within the limits of the counters.
pub open spec fn activations_fit(state: LoopState, active: Seq<Seq<char>>) -> bool {
    forall|id: Seq<char>| #[trigger]
        state.hat_activation_counts.count(id) + occurrences(active, id) <= u32::MAX
}

/// Counts an activation of every active hat.
pub fn record_hat_activations(state: &mut LoopState, active_hat_ids: &Vec<String>)
    requires
        activations_fit(*old(state), texts(active_hat_ids@)),
    ensures
        *final(state) == (LoopState {
            hat_activation_counts: final(state).hat_activation_counts,
            ..*old(state)
        }),
        forall|id: Seq<char>|
            #[trigger] final(state).hat_activation_counts.count(id) == old(
                state,
            ).hat_activation_counts.count(id) + occurrences(texts(active_hat_ids@), id),
{
    let ghost all = texts(active_hat_ids@);
    let ghost counts = state.hat_activation_counts;
    let mut i: usize = 0;
    while i < active_hat_ids.len()
        invariant
            i <= active_hat_ids.len(),
            all == texts(active_hat_ids@),
            counts == old(state).hat_activation_counts,
            activations_fit(*old(state), all),
            *state == (LoopState {
                hat_activation_counts: state.hat_activation_counts,
                ..*old(state)
            }),
            forall|id: Seq<char>|
                #[trigger] state.hat_activation_counts.count(id) == counts.count(id) + occurrences(
                    all.take(i as int),
                    id,
                ),
        decreases active_hat_ids.len() - i,
    {
        proof {
            let id = active_hat_ids@[i as int]@;
            assert(all.take(i + 1).drop_last() == all.take(i as int));
            assert(all.take(i + 1).last() == id);
            lemma_occurrences_prefix(all, i + 1, id);
            assert(state.hat_activation_counts.count(id) == counts.count(id) + occurrences(
                all.take(i as int),
                id,
            ));
            assert(old(state).hat_activation_counts.count(id) + occurrences(all, id) <= u32::MAX);
        }
        state.hat_activation_counts.bump(active_hat_ids[i].as_str());
        i = i + 1;
    }
    assert(all.take(i as int) == all);
}

proof fn lemma_occurrences_prefix(items: Seq<Seq<char>>, n: int, item: Seq<char>)
    requires
        0 <= n <= items.len(),
    ensures
        occurrences(items.take(n), item) <= occurrences(items, item),
    decreases items.len(),
{
    if n == items.len() {
        assert(items.take(n) == items);
    } else {
        assert(items.drop_last().take(n) == items.take(n));
        lemma_occurrences_prefix(items.drop_last(), n, item);
    }
}

// ---- default events ----

/// The topic that is published where a hat published nothing.
pub open spec fn default_topic(registry: HatRegistry, id: Seq<char>) -> Option<Seq<char>> {
    match registry.definition(id) {
        Some(config) => opt_text(config.default_publishes),
        None => None,
    }
}

/// The event that is published where a hat published nothing.
pub open spec fn default_event(registry: HatRegistry, id: Seq<char>) -> Option<EventView> {
    match default_topic(registry, id) {
        Some(topic) => Some(EventView { source: Some(id), ..plain_event(topic, Seq::empty()) }),
        None => None,
    }
}

/// Publishes and records the default event of a hat, where it has one. A default event of the
/// completion topic requests completion.
pub fn check_default_publishes(
    config: &EventLoopConfig,
    registry: &HatRegistry,
    state: &mut LoopState,
    outbox: &mut Vec<Event>,
    recorded: &mut Vec<Event>,
    hat_id: &str,
)
    ensures
        match default_topic(*registry, hat_id@) {
            Some(topic) => {
                let event = EventView {
                    source: Some(hat_id@),
                    ..plain_event(topic, Seq::empty())
                };
                &&& event_views(final(outbox)@) == event_views(old(outbox)@).push(event)
                &&& event_views(final(recorded)@) == event_views(old(recorded)@).push(event)
                &&& *final(state) == (LoopState {
                    completion_requested: old(state).completion_requested || topic
                        == config.completion_promise@,
                    ..*old(state)
                })
            },
            None => *final(outbox) == *old(outbox) && *final(recorded) == *old(recorded)
                && *final(state) == *old(state),
        },
        default_event(*registry, hat_id@) is Some ==> event_views(final(outbox)@) == event_views(
            old(outbox)@,
        ).push(default_event(*registry, hat_id@)->0) && event_views(final(recorded)@)
            == event_views(old(recorded)@).push(default_event(*registry, hat_id@)->0)
            && final(state).completion_requested == (old(state).completion_requested
            || default_event(*registry, hat_id@)->0.topic == config.completion_promise@),
{
    if let Some(hat_config) = registry.get_config(hat_id) {
        if let Some(topic) = &hat_config.default_publishes {
            proof {
                reveal_strlit("");
                assert(""@ == Seq::<char>::empty());
            }
            let event = Event::new(topic.as_str(), "").with_source(hat_id);
            push_event(recorded, event.clone());
            if str_eq(topic.as_str(), config.completion_promise.as_str()) {
                state.completion_requested = true;
            }
            push_event(outbox, event);
        }
    }
}

// ---- waves ----

/// Whether an event dispatches a wave: it belongs to a wave and triggers a hat that may run more
/// than once at a time.
pub open spec fn dispatches_wave(registry: HatRegistry, event: IncomingView) -> bool {
    event.wave_id is Some && match registry.triggered(event.topic) {
        Some(id) => match registry.definition(id) {
            Some(config) => config.concurrency > 1,
            None => false,
        },
        None => false,
    }
}

fn is_wave_dispatch(registry: &HatRegistry, event: &IncomingEvent) -> (r: bool)
    ensures
        r == dispatches_wave(*registry, event@),
{
    if event.wave_id.is_none() {
        return false;
    }
    match registry.find_by_trigger(event.topic.as_str()) {
        Some(id) => match registry.get_config(id) {
            Some(config) => config.concurrency > 1,
            None => false,
        },
        None => false,
    }
}

/// Parts the events that dispatch waves from the others.
pub fn partition_wave_events(registry: &HatRegistry, events: &Vec<IncomingEvent>) -> (r: (
    Vec<IncomingEvent>,
    Vec<IncomingEvent>,
))
    ensures
        incoming_views(r.0@) == incoming_views(events@).filter(
            |e: IncomingView| dispatches_wave(*registry, e),
        ),
        incoming_views(r.1@) == incoming_views(events@).filter(
            |e: IncomingView| !dispatches_wave(*registry, e),
        ),
{
    let ghost all = incoming_views(events@);
    let ghost wave = |e: IncomingView| dispatches_wave(*registry, e);
    let ghost other = |e: IncomingView| !dispatches_wave(*registry, e);
    let mut waves: Vec<IncomingEvent> = Vec::new();
    let mut regular: Vec<IncomingEvent> = Vec::new();
    let mut i: usize = 0;
    proof {
        reveal(Seq::filter);
        assert(incoming_views(waves@) == all.take(0).filter(wave));
        assert(incoming_views(regular@) == all.take(0).filter(other));
    }
    while i < events.len()
        invariant
            i <= events.len(),
            all == incoming_views(events@),
            wave == (|e: IncomingView| dispatches_wave(*registry, e)),
            other == (|e: IncomingView| !dispatches_wave(*registry, e)),
            incoming_views(waves@) == all.take(i as int).filter(wave),
            incoming_views(regular@) == all.take(i as int).filter(other),
        decreases events.len() - i,
    {
        let ghost waves_before = waves@;
        let ghost regular_before = regular@;
        proof {
            reveal(Seq::filter);
            assert(all.take(i + 1).drop_last() == all.take(i as int));
            assert(all.take(i + 1).last() == events@[i as int]@);
        }
        if is_wave_dispatch(registry, &events[i]) {
            waves.push(events[i].clone());
            assert(incoming_views(waves@) == incoming_views(waves_before).push(
                events@[i as int]@,
            ));
        } else {
            regular.push(events[i].clone());
            assert(incoming_views(regular@) == incoming_views(regular_before).push(
                events@[i as int]@,
            ));
        }
        i = i + 1;
    }
    assert(all.take(i as int) == all);
    (waves, regular)
}

} // verus!
