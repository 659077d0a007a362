//! The event loop: configuration, registry and state, with the events that it publishes.
use crate::config::hats::HatBackend;
use crate::config::ralph_config::RalphConfig;
use crate::config::scratchpad::ScratchpadConfig;
use crate::event_loop::event::{
    event_views, incoming_views, plain_event, push_event, Event, EventView, IncomingEvent,
    IncomingView, ParseResult, ReadView,
};
use crate::event_loop::guidance::{context_of, parse_human_interact_context};
use crate::event_loop::laws::{law_batches_settle_their_tasks, tasks_settled};
use crate::event_loop::processing::{
    batch_begun, batch_events, batch_fits, batch_published, batch_reports, batch_told, begin_batch,
    finish_batch, payload_of, HumanReply, ProcessedEvents, ProcessedEventsWithWaves,
};
use crate::event_loop::prompt::{
    check_for_user_prompt, plan_hats_prompt, plan_noted, plan_solo_prompt, planned, prompt_events,
    prompt_id, queue_views, queues_distinct, regular_in, guidance_in, user_prompt_in, HatQueue,
    PromptPlan, UserPrompt,
};
use crate::event_loop::registry::HatRegistry;
use crate::event_loop::routing::{
    activations_fit, active_hats, check_default_publishes, default_topic, dispatches_wave, event_lines,
    fallback_event, get_active_hat_id, get_hat_publishes, has_pending_events,
    inject_fallback_event, next_hat, next_hat_of, partition_wave_events, publishes_of, PendingHats,
};
use crate::event_loop::state::{is_fresh, LoopState};
use crate::json::{json_of_entries, json_read};
use crate::text::{
    first_of, has_prefix, lemma_first_of, opt_text, starts_with, str_eq, texts, trim, trimmed,
};
use serde_json::Value;
use vstd::prelude::*;

verus! {

/// The event loop.
///
/// Published events are put into `outbox`, from which they are handed to the bus in their order;
/// events that count for the chain of events are put into `recorded` too.
#[derive(Debug)]
pub struct EventLoop {
    pub config: RalphConfig,
    pub registry: HatRegistry,
    pub state: LoopState,
    pub outbox: Vec<Event>,
    pub recorded: Vec<Event>,
    /// Guidance of a human that stays in all further prompts.
    pub robot_guidance: Vec<String>,
    /// The objective of the run.
    pub objective: Option<String>,
    /// The scratchpad in use.
    pub active_scratchpad: ScratchpadConfig,
}

/// The first payload among unread events that is a question to a human.
pub open spec fn unread_question(events: Seq<IncomingView>) -> Option<Seq<char>> {
    first_of(
        Seq::new(
            events.len(),
            |i: int|
                if events[i].topic == "human.interact"@ {
                    Some(payload_of(events[i]))
                } else {
                    None
                },
        ),
    )
}

/// Whether a hat must not write files.
pub open spec fn write_restricted(registry: HatRegistry, id: Seq<char>) -> bool {
    match registry.definition(id) {
        Some(config) => texts(config.disallowed_tools@).contains("Edit"@) || texts(
            config.disallowed_tools@,
        ).contains("Write"@),
        None => false,
    }
}

/// The report of a hat that wrote files although it must not.
pub open spec fn audit_event(id: Seq<char>, diff: Seq<char>) -> EventView {
    plain_event(
        id + ".scope_violation"@,
        "Hat '"@ + id + "' modified files with Edit/Write disallowed:\n"@ + trimmed(diff),
    )
}

/// The topic of the event that starts a loop: a continued loop is always started by `task.resume`, a
/// fresh one by the configured event, or by `task.start`.
pub open spec fn starting_topic(starting_event: Option<Seq<char>>, resume: bool) -> Seq<char> {
    if resume {
        "task.resume"@
    } else {
        match starting_event {
            Some(topic) => topic,
            None => "task.start"@,
        }
    }
}

/// The events that report what a hat changed though it may not write.
pub open spec fn audit_events(registry: HatRegistry, id: Seq<char>, diff: Option<Seq<char>>) -> Seq<
    EventView,
> {
    if write_restricted(registry, id) && diff is Some && diff->0.len() > 0 {
        seq![audit_event(id, diff->0)]
    } else {
        Seq::empty()
    }
}

/// What the state becomes by an output.
pub open spec fn output_noted(before: LoopState, after: LoopState, id: Seq<char>, success: bool) -> bool {
    &&& after.iteration == before.iteration + 1
    &&& opt_text(after.last_hat) == Some(id)
    &&& after.consecutive_failures == (if success {
        0
    } else {
        before.consecutive_failures + 1
    })
    &&& after == (LoopState {
        iteration: after.iteration,
        last_hat: after.last_hat,
        consecutive_failures: after.consecutive_failures,
        ..before
    })
}

/// Whether a human is to be told that the loop still runs; times are in nanoseconds.
pub open spec fn checkin_due(
    interval_seconds: Option<u64>,
    robot_active: bool,
    elapsed: u128,
    since_last_checkin: Option<u128>,
) -> bool {
    &&& robot_active
    &&& interval_seconds is Some
    &&& (match since_last_checkin {
        Some(nanos) => nanos,
        None => elapsed,
    }) >= interval_seconds->0 * 1_000_000_000
}

/// What was read, without the events that dispatch waves.
pub open spec fn without_waves(registry: HatRegistry, read: ReadView) -> ReadView {
    ReadView {
        events: read.events.filter(|e: IncomingView| !dispatches_wave(registry, e)),
        ..read
    }
}

impl EventLoop {
    /// Makes an event loop. Without custom hats the scratchpad is the only continuity, so it is
    /// enabled then.
    pub fn new(config: RalphConfig, registry: HatRegistry) -> (r: EventLoop)
        ensures
            r.config.core.scratchpad.enabled == (config.core.scratchpad.enabled
                || config.hats@.len() == 0),
            r.config.core.scratchpad.path == config.core.scratchpad.path,
            r.config == (RalphConfig {
                core: crate::config::core_config::CoreConfig {
                    scratchpad: r.config.core.scratchpad,
                    ..config.core
                },
                ..config
            }),
            r.registry == registry,
            r.outbox@.len() == 0,
            r.recorded@.len() == 0,
            r.robot_guidance@.len() == 0,
            r.objective is None,
            r.active_scratchpad == r.config.core.scratchpad,
            is_fresh(r.state),
    {
        let mut config = config;
        if config.hats.len() == 0 && !config.core.scratchpad.enabled {
            config.core.scratchpad.enabled = true;
        }
        let active_scratchpad = config.core.scratchpad.clone();
        EventLoop {
            config,
            registry,
            state: LoopState::new(),
            outbox: Vec::new(),
            recorded: Vec::new(),
            robot_guidance: Vec::new(),
            objective: None,
            active_scratchpad,
        }
    }

    /// The state of the loop.
    pub fn state(&self) -> (r: &LoopState)
        ensures
            *r == self.state,
    {
        &self.state
    }

    /// The configuration.
    pub fn config(&self) -> (r: &RalphConfig)
        ensures
            *r == self.config,
    {
        &self.config
    }

    /// The hats.
    pub fn registry(&self) -> (r: &HatRegistry)
        ensures
            *r == self.registry,
    {
        &self.registry
    }

    /// Hands out the events that were published, for the bus.
    pub fn take_outbox(&mut self) -> (r: Vec<Event>)
        ensures
            r == old(self).outbox,
            final(self).outbox@.len() == 0,
            *final(self) == (EventLoop { outbox: final(self).outbox, ..*old(self) }),
    {
        let mut empty: Vec<Event> = Vec::new();
        std::mem::swap(&mut empty, &mut self.outbox);
        empty
    }

    /// Forgets the signature that was emitted last, so that equal events of a wave do not count as
    /// a stale loop.
    pub fn reset_stale_topic_counter(&mut self)
        ensures
            *final(self) == (EventLoop {
                state: LoopState {
                    consecutive_same_signature: 0,
                    last_emitted_signature: None,
                    ..old(self).state
                },
                ..*old(self)
            }),
    {
        self.state.consecutive_same_signature = 0;
        self.state.last_emitted_signature = None;
    }

    fn initialize_with_topic(&mut self, topic: &str, prompt_content: &str)
        ensures
            *final(self) == (EventLoop {
                objective: final(self).objective,
                outbox: final(self).outbox,
                ..*old(self)
            }),
            opt_text(final(self).objective) == Some(prompt_content@),
            event_views(final(self).outbox@) == event_views(old(self).outbox@).push(
                plain_event(topic@, prompt_content@),
            ),
    {
        self.objective = Some(prompt_content.to_owned());
        push_event(&mut self.outbox, Event::new(topic, prompt_content));
    }

    /// Publishes the start event: the configured one, or `task.start`.
    pub fn initialize(&mut self, prompt_content: &str)
        ensures
            *final(self) == (EventLoop {
                objective: final(self).objective,
                outbox: final(self).outbox,
                ..*old(self)
            }),
            opt_text(final(self).objective) == Some(prompt_content@),
            event_views(final(self).outbox@) == event_views(old(self).outbox@).push(
                plain_event(
                    match old(self).config.event_loop.starting_event {
                        Some(topic) => topic@,
                        None => "task.start"@,
                    },
                    prompt_content@,
                ),
            ),
    {
        let topic = match &self.config.event_loop.starting_event {
            Some(topic) => topic.clone(),
            None => "task.start".to_owned(),
        };
        self.initialize_with_topic(topic.as_str(), prompt_content);
    }

    /// Publishes `task.resume`, whatever starting event is configured.
    pub fn initialize_resume(&mut self, prompt_content: &str)
        ensures
            *final(self) == (EventLoop {
                objective: final(self).objective,
                outbox: final(self).outbox,
                ..*old(self)
            }),
            opt_text(final(self).objective) == Some(prompt_content@),
            event_views(final(self).outbox@) == event_views(old(self).outbox@).push(
                plain_event("task.resume"@, prompt_content@),
            ),
    {
        self.initialize_with_topic("task.resume", prompt_content);
    }

    /// Starts the loop on its prompt: a continued loop by `task.resume`, a fresh one by its start event.
    pub fn start(&mut self, prompt_content: &str, resume: bool)
        ensures
            *final(self) == (EventLoop {
                objective: final(self).objective,
                outbox: final(self).outbox,
                ..*old(self)
            }),
            opt_text(final(self).objective) == Some(prompt_content@),
            event_views(final(self).outbox@) == event_views(old(self).outbox@).push(
                plain_event(
                    starting_topic(
                        opt_text(old(self).config.event_loop.starting_event),
                        resume,
                    ),
                    prompt_content@,
                ),
            ),
    {
        if resume {
            self.initialize_resume(prompt_content);
        } else {
            self.initialize(prompt_content);
        }
    }

    /// Tells whether any events are pending.
    pub fn has_pending_events(&self, pending: &PendingHats) -> (r: bool)
        ensures
            r == (pending.next is Some || pending.human),
    {
        has_pending_events(pending)
    }

    /// Tells whether events of a human are pending.
    pub fn has_pending_human_events(&self, pending: &PendingHats) -> (r: bool)
        ensures
            r == pending.human,
    {
        pending.human
    }

    /// Tells whether unread events include one of the `plan.*` topic family.
    pub fn has_pending_plan_events_in_jsonl(&self, unread: &Vec<IncomingEvent>) -> (r: bool)
        ensures
            r == exists|i: int|
                0 <= i < unread@.len() && has_prefix((#[trigger] unread@[i]).topic@, "plan."@),
    {
        let mut i: usize = 0;
        while i < unread.len()
            invariant
                i <= unread.len(),
                forall|j: int|
                    0 <= j < i ==> !has_prefix((#[trigger] unread@[j]).topic@, "plan."@),
            decreases unread.len() - i,
        {
            if starts_with(unread[i].topic.as_str(), "plan.") {
                return true;
            }
            i = i + 1;
        }
        false
    }

    /// Makes the context of the first question to a human among unread events.
    pub fn pending_human_interact_context_in_jsonl(&self, unread: &Vec<IncomingEvent>) -> (r: Option<
        Value,
    >)
        ensures
            r == (match unread_question(incoming_views(unread@)) {
                Some(payload) => Some(json_of_entries(context_of(payload, json_read(payload)))),
                None => None,
            }),
    {
        let ghost all = incoming_views(unread@);
        let ghost hits = Seq::new(
            all.len(),
            |i: int|
                if all[i].topic == "human.interact"@ {
                    Some(payload_of(all[i]))
                } else {
                    None
                },
        );
        let mut i: usize = 0;
        assert(hits.skip(0) == hits);
        while i < unread.len()
            invariant
                i <= unread.len(),
                all == incoming_views(unread@),
                hits == Seq::new(
                    all.len(),
                    |i: int|
                        if all[i].topic == "human.interact"@ {
                            Some(payload_of(all[i]))
                        } else {
                            None
                        },
                ),
                first_of(hits) == first_of(hits.skip(i as int)),
            decreases unread.len() - i,
        {
            proof {
                lemma_first_of(hits, i as int);
            }
            if str_eq(unread[i].topic.as_str(), "human.interact") {
                let payload = match &unread[i].payload {
                    Some(payload) => payload.clone(),
                    None => String::new(),
                };
                return Some(parse_human_interact_context(payload.as_str()));
            }
            i = i + 1;
        }
        None
    }

    /// Takes in what was read from the events file, and hands out the validated events. Where a
    /// question to a human is among them, it is to be asked; then [`EventLoop::publish_batch`]
    /// publishes the events.
    pub fn process_parse_result(&mut self, result: &ParseResult) -> (r: Vec<Event>)
        requires
            batch_fits(
                old(self).config.event_loop,
                old(self).registry,
                old(self).state,
                result@,
            ),
        ensures
            *final(self) == (EventLoop {
                state: final(self).state,
                outbox: final(self).outbox,
                ..*old(self)
            }),
            event_views(r@) == batch_events(
                old(self).config.event_loop,
                old(self).registry,
                old(self).state,
                result@,
            ),
            event_views(final(self).outbox@) == event_views(old(self).outbox@) + batch_reports(
                old(self).config.event_loop,
                old(self).registry,
                old(self).state,
                result@,
            ),
            batch_begun(
                old(self).config.event_loop,
                old(self).registry,
                old(self).state,
                final(self).state,
                result@,
            ),
            tasks_settled(old(self).state) ==> tasks_settled(final(self).state),
    {
        let r = begin_batch(
            &self.config.event_loop,
            &self.registry,
            &mut self.state,
            &mut self.outbox,
            result,
        );
        proof {
            if tasks_settled(old(self).state) {
                law_batches_settle_their_tasks(
                    self.config.event_loop,
                    self.registry,
                    old(self).state,
                    self.state,
                    result@,
                );
            }
        }
        r
    }

    /// Publishes and records the validated events of a batch and what became of a question among
    /// them.
    pub fn publish_batch(&mut self, events: &Vec<Event>, reply: &HumanReply) -> (r: ProcessedEvents)
        ensures
            *final(self) == (EventLoop {
                outbox: final(self).outbox,
                recorded: final(self).recorded,
                ..*old(self)
            }),
            event_views(final(self).outbox@) == event_views(old(self).outbox@) + batch_published(
                event_views(events@),
                *reply,
            ),
            event_views(final(self).recorded@) == event_views(old(self).recorded@)
                + batch_published(event_views(events@), *reply),
            batch_told(old(self).registry, event_views(events@), *reply, r),
    {
        finish_batch(&self.registry, &mut self.outbox, &mut self.recorded, events, reply)
    }

    /// Parts the events that dispatch waves from what was read; the rest goes through
    /// [`EventLoop::process_parse_result`].
    pub fn part_waves(&self, result: ParseResult) -> (r: (Vec<IncomingEvent>, ParseResult))
        ensures
            incoming_views(r.0@) == incoming_views(result.events@).filter(
                |e: IncomingView| dispatches_wave(self.registry, e),
            ),
            r.1@ == without_waves(self.registry, result@),
    {
        let (waves, regular) = partition_wave_events(&self.registry, &result.events);
        (waves, ParseResult { events: regular, malformed: result.malformed })
    }

    /// Takes in what was read from the events file, with the events that dispatch waves parted from
    /// it before. Hands out the validated events, as [`EventLoop::process_parse_result`] does, and
    /// the parted ones.
    pub fn process_events_from_jsonl_with_waves(&mut self, result: ParseResult) -> (r: (
        Vec<Event>,
        Vec<IncomingEvent>,
    ))
        requires
            batch_fits(
                old(self).config.event_loop,
                old(self).registry,
                old(self).state,
                without_waves(old(self).registry, result@),
            ),
        ensures
            *final(self) == (EventLoop {
                state: final(self).state,
                outbox: final(self).outbox,
                ..*old(self)
            }),
            incoming_views(r.1@) == incoming_views(result.events@).filter(
                |e: IncomingView| dispatches_wave(old(self).registry, e),
            ),
            event_views(r.0@) == batch_events(
                old(self).config.event_loop,
                old(self).registry,
                old(self).state,
                without_waves(old(self).registry, result@),
            ),
            event_views(final(self).outbox@) == event_views(old(self).outbox@) + batch_reports(
                old(self).config.event_loop,
                old(self).registry,
                old(self).state,
                without_waves(old(self).registry, result@),
            ),
            batch_begun(
                old(self).config.event_loop,
                old(self).registry,
                old(self).state,
                final(self).state,
                without_waves(old(self).registry, result@),
            ),
            tasks_settled(old(self).state) ==> tasks_settled(final(self).state),
    {
        let (waves, regular) = self.part_waves(result);
        let events = self.process_parse_result(&regular);
        (events, waves)
    }

    /// Publishes and records a batch as [`EventLoop::publish_batch`] does, and hands out the events
    /// that dispatch waves with what the batch held.
    pub fn publish_batch_with_waves(
        &mut self,
        events: &Vec<Event>,
        reply: &HumanReply,
        wave_events: Vec<IncomingEvent>,
    ) -> (r: ProcessedEventsWithWaves)
        ensures
            *final(self) == (EventLoop {
                outbox: final(self).outbox,
                recorded: final(self).recorded,
                ..*old(self)
            }),
            event_views(final(self).outbox@) == event_views(old(self).outbox@) + batch_published(
                event_views(events@),
                *reply,
            ),
            event_views(final(self).recorded@) == event_views(old(self).recorded@)
                + batch_published(event_views(events@), *reply),
            batch_told(old(self).registry, event_views(events@), *reply, r.processed),
            r.wave_events == wave_events,
    {
        let processed = self.publish_batch(events, reply);
        ProcessedEventsWithWaves { processed, wave_events }
    }

    /// Takes in the output of a hat: counts the iteration and its failure, and reports a hat that
    /// wrote files although it must not. `diff` is what changed in the workspace, where that was
    /// looked at and could be told.
    pub fn process_output(&mut self, hat_id: &str, success: bool, diff: Option<&str>)
        requires
            old(self).state.iteration < u32::MAX,
            old(self).state.consecutive_failures < u32::MAX,
        ensures
            *final(self) == (EventLoop {
                state: final(self).state,
                outbox: final(self).outbox,
                ..*old(self)
            }),
            final(self).state == (LoopState {
                iteration: (old(self).state.iteration + 1) as u32,
                last_hat: final(self).state.last_hat,
                consecutive_failures: if success {
                    0
                } else {
                    (old(self).state.consecutive_failures + 1) as u32
                },
                ..old(self).state
            }),
            opt_text(final(self).state.last_hat) == Some(hat_id@),
            event_views(final(self).outbox@) == (if write_restricted(old(self).registry, hat_id@)
                && diff is Some && diff->0@.len() > 0 {
                event_views(old(self).outbox@).push(audit_event(hat_id@, diff->0@))
            } else {
                event_views(old(self).outbox@)
            }),
            output_noted(old(self).state, final(self).state, hat_id@, success),
            event_views(final(self).outbox@) == event_views(old(self).outbox@) + audit_events(
                old(self).registry,
                hat_id@,
                match diff {
                    Some(diff) => Some(diff@),
                    None => None,
                },
            ),
    {
        self.state.iteration = self.state.iteration + 1;
        self.state.last_hat = Some(hat_id.to_owned());
        if success {
            self.state.consecutive_failures = 0;
        } else {
            self.state.consecutive_failures = self.state.consecutive_failures + 1;
        }
        if self.is_write_restricted(hat_id) {
            if let Some(text) = diff {
                if text.unicode_len() > 0 {
                    let mut topic = hat_id.to_owned();
                    topic.append(".scope_violation");
                    let mut payload = "Hat '".to_owned();
                    payload.append(hat_id);
                    payload.append("' modified files with Edit/Write disallowed:\n");
                    payload.append(trim(text));
                    push_event(&mut self.outbox, Event::new(topic.as_str(), payload.as_str()));
                }
            }
        }
    }

    /// Tells whether a hat must not write files, so that changes in the workspace are looked at.
    pub fn is_write_restricted(&self, hat_id: &str) -> (r: bool)
        ensures
            r == write_restricted(self.registry, hat_id@),
    {
        match self.registry.get_config(hat_id) {
            Some(config) => crate::text::holds_text(
                &config.disallowed_tools,
                "Edit",
            ) || crate::text::holds_text(&config.disallowed_tools, "Write"),
            None => false,
        }
    }

    /// Tells whether a check-in is due: a bot is there, an interval is configured, and it has
    /// passed since the last check-in, or since the start where there was none. Times are in
    /// nanoseconds.
    pub fn is_checkin_due(
        &self,
        robot_active: bool,
        elapsed: u128,
        since_last_checkin: Option<u128>,
    ) -> (r: bool)
        ensures
            r == (robot_active && self.config.robot.checkin_interval_seconds is Some && (
            match since_last_checkin {
                Some(nanos) => nanos,
                None => elapsed,
            }) >= self.config.robot.checkin_interval_seconds->0 * 1_000_000_000),
            r == checkin_due(
                self.config.robot.checkin_interval_seconds,
                robot_active,
                elapsed,
                since_last_checkin,
            ),
    {
        match self.config.robot.checkin_interval_seconds {
            Some(seconds) => {
                let last: u128 = match since_last_checkin {
                    Some(nanos) => nanos,
                    None => elapsed,
                };
                robot_active && last >= seconds as u128 * 1_000_000_000
            },
            None => false,
        }
    }

    /// Finds the hat to execute next.
    pub fn next_hat(&self, pending: &PendingHats) -> (r: Option<String>)
        ensures
            opt_text(r) == next_hat_of(self.registry, *pending),
    {
        next_hat(&self.registry, pending)
    }

    /// Finds the backend override of a hat.
    pub fn get_hat_backend(&self, hat_id: &str) -> (r: Option<&HatBackend>)
        ensures
            match r {
                Some(backend) => self.registry.definition(hat_id@) is Some
                    && self.registry.definition(hat_id@)->0.backend == Some(*backend),
                None => self.registry.definition(hat_id@) is Some ==> self.registry.definition(
                    hat_id@,
                )->0.backend is None,
            },
    {
        match self.registry.get_config(hat_id) {
            Some(config) => match &config.backend {
                Some(backend) => Some(backend),
                None => None,
            },
            None => None,
        }
    }

    /// Lists the topics that a hat may publish.
    pub fn get_hat_publishes(&self, hat_id: &str) -> (r: Vec<String>)
        ensures
            texts(r@) == publishes_of(self.registry, hat_id@),
    {
        get_hat_publishes(&self.registry, hat_id)
    }

    /// Publishes an event that recovers a stalled loop. Recovery is always possible.
    pub fn inject_fallback_event(&mut self) -> (r: bool)
        ensures
            r,
            *final(self) == (EventLoop { outbox: final(self).outbox, ..*old(self) }),
            event_views(final(self).outbox@) == event_views(old(self).outbox@).push(
                fallback_event(old(self).registry, opt_text(old(self).state.last_hat)),
            ),
    {
        inject_fallback_event(&self.registry, &self.state.last_hat, &mut self.outbox)
    }

    /// The first active hat, or the coordinator where no hat is active.
    pub fn get_active_hat_id(&self, pending: &Vec<Event>) -> (r: String)
        ensures
            r@ == ({
                let active = active_hats(
                    self.config.event_loop,
                    self.registry,
                    event_views(pending@),
                );
                if active.len() > 0 {
                    active[0]
                } else {
                    "ralph"@
                }
            }),
    {
        get_active_hat_id(&self.config.event_loop, &self.registry, pending)
    }

    /// Publishes and records the default event of a hat, where it has one. A default event of the
    /// completion topic requests completion.
    pub fn check_default_publishes(&mut self, hat_id: &str)
        ensures
            *final(self) == (EventLoop {
                state: final(self).state,
                outbox: final(self).outbox,
                recorded: final(self).recorded,
                ..*old(self)
            }),
            match default_topic(old(self).registry, hat_id@) {
                Some(topic) => {
                    let event = EventView {
                        source: Some(hat_id@),
                        ..plain_event(topic, Seq::empty())
                    };
                    &&& event_views(final(self).outbox@) == event_views(old(self).outbox@).push(
                        event,
                    )
                    &&& event_views(final(self).recorded@) == event_views(
                        old(self).recorded@,
                    ).push(event)
                    &&& final(self).state == (LoopState {
                        completion_requested: old(self).state.completion_requested || topic
                            == old(self).config.event_loop.completion_promise@,
                        ..old(self).state
                    })
                },
                None => *final(self) == *old(self),
            },
    {
        check_default_publishes(
            &self.config.event_loop,
            &self.registry,
            &mut self.state,
            &mut self.outbox,
            &mut self.recorded,
            hat_id,
        );
    }

    /// Publishes and records guidance of a human, one event for every message.
    pub fn inject_human_guidance(&mut self, messages: &Vec<String>)
        ensures
            *final(self) == (EventLoop {
                outbox: final(self).outbox,
                recorded: final(self).recorded,
                ..*old(self)
            }),
            event_views(final(self).outbox@) == event_views(old(self).outbox@) + texts(
                messages@,
            ).map_values(|m: Seq<char>| plain_event("human.guidance"@, m)),
            event_views(final(self).recorded@) == event_views(old(self).recorded@) + texts(
                messages@,
            ).map_values(|m: Seq<char>| plain_event("human.guidance"@, m)),
    {
        let ghost all = texts(messages@).map_values(
            |m: Seq<char>| plain_event("human.guidance"@, m),
        );
        let ghost out = event_views(self.outbox@);
        let ghost rec = event_views(self.recorded@);
        let mut i: usize = 0;
        assert(out + all.take(0) == out);
        assert(rec + all.take(0) == rec);
        while i < messages.len()
            invariant
                i <= messages.len(),
                all == texts(messages@).map_values(
                    |m: Seq<char>| plain_event("human.guidance"@, m),
                ),
                *self == (EventLoop { outbox: self.outbox, recorded: self.recorded, ..*old(self) }),
                event_views(self.outbox@) == out + all.take(i as int),
                event_views(self.recorded@) == rec + all.take(i as int),
            decreases messages.len() - i,
        {
            let event = Event::new("human.guidance", messages[i].as_str());
            push_event(&mut self.recorded, event.clone());
            push_event(&mut self.outbox, event);
            proof {
                assert(all.take(i + 1) == all.take(i as int).push(all[i as int]));
                assert(out + all.take(i + 1) == (out + all.take(i as int)).push(all[i as int]));
                assert(rec + all.take(i + 1) == (rec + all.take(i as int)).push(all[i as int]));
            }
            i = i + 1;
        }
        assert(all.take(i as int) == all);
    }

    /// Keeps new guidance of a human for all further prompts.
    pub fn update_robot_guidance(&mut self, guidance: &Vec<String>)
        ensures
            *final(self) == (EventLoop { robot_guidance: final(self).robot_guidance, ..*old(self) }),
            final(self).robot_guidance@ == old(self).robot_guidance@ + guidance@,
    {
        let ghost start = self.robot_guidance@;
        let mut i: usize = 0;
        assert(start + guidance@.take(0) == start);
        while i < guidance.len()
            invariant
                i <= guidance.len(),
                *self == (EventLoop { robot_guidance: self.robot_guidance, ..*old(self) }),
                self.robot_guidance@ == start + guidance@.take(i as int),
            decreases guidance.len() - i,
        {
            self.robot_guidance.push(guidance[i].clone());
            assert(start + guidance@.take(i + 1) == (start + guidance@.take(i as int)).push(
                guidance@[i as int],
            ));
            i = i + 1;
        }
        assert(guidance@.take(i as int) == guidance@);
    }

    /// Plans the prompt of the coordinator without custom hats, from its pending events and those
    /// of a human behind them.
    pub fn build_solo_prompt(&mut self, events: &Vec<Event>) -> (r: PromptPlan)
        ensures
            *final(self) == (EventLoop {
                active_scratchpad: final(self).active_scratchpad,
                ..*old(self)
            }),
            final(self).active_scratchpad == old(self).config.core.scratchpad,
            r.events_context@ == event_lines(regular_in(event_views(events@))),
            r.active_hat_ids@.len() == 0,
            texts(r.guidance@) == guidance_in(event_views(events@)),
            r.scratchpad == old(self).config.core.scratchpad,
            r.reports@.len() == 0,
    {
        let plan = plan_solo_prompt(events, &self.config.core.scratchpad);
        self.active_scratchpad = plan.scratchpad.clone();
        plan
    }

    /// Plans the prompt of the coordinator with custom hats, and publishes the reports on hats that
    /// have used up their activations.
    pub fn build_hats_prompt(&mut self, queues: &Vec<HatQueue>, human: &Vec<Event>) -> (r:
        PromptPlan)
        requires
            queues_distinct(queue_views(queues@)),
            activations_fit(
                old(self).state,
                active_hats(
                    old(self).config.event_loop,
                    old(self).registry,
                    regular_in(
                        prompt_events(
                            old(self).registry,
                            old(self).state,
                            queue_views(queues@),
                            event_views(human@),
                        ),
                    ),
                ),
            ),
        ensures
            *final(self) == (EventLoop {
                state: final(self).state,
                outbox: final(self).outbox,
                active_scratchpad: final(self).active_scratchpad,
                ..*old(self)
            }),
            planned(
                old(self).config.event_loop,
                old(self).registry,
                old(self).config.core.scratchpad,
                old(self).state,
                queue_views(queues@),
                event_views(human@),
                r,
            ),
            plan_noted(
                old(self).config.event_loop,
                old(self).registry,
                old(self).state,
                final(self).state,
                queue_views(queues@),
                event_views(human@),
            ),
            event_views(final(self).outbox@) == event_views(old(self).outbox@) + event_views(
                r.reports@,
            ),
            final(self).active_scratchpad == r.scratchpad,
    {
        let plan = plan_hats_prompt(
            &self.config.event_loop,
            &self.registry,
            &self.config.core.scratchpad,
            &mut self.state,
            queues,
            human,
        );
        crate::event_loop::event::append_events(&mut self.outbox, &plan.reports);
        self.active_scratchpad = plan.scratchpad.clone();
        plan
    }

    /// Finds the first `user.prompt` event. `generated` is used where the event names no
    /// identifier.
    pub fn check_for_user_prompt(&self, events: &Vec<Event>, generated: &str) -> (r: Option<
        UserPrompt,
    >)
        ensures
            match r {
                Some(prompt) => user_prompt_in(event_views(events@)) == Some(prompt.text@)
                    && prompt.id@ == prompt_id(prompt.text@, generated@),
                None => user_prompt_in(event_views(events@)) is None,
            },
    {
        check_for_user_prompt(events, generated)
    }
}

} // verus!
