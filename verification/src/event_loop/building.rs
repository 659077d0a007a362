//! How prompts are put together, and what an event loop is made with.
use crate::config::ralph_config::RalphConfig;
use crate::event_loop::event::{append_events, event_views, Event, EventView};
use crate::event_loop::orchestrator::EventLoop;
use crate::event_loop::prompt::{
    guidance_in, plan_noted, planned, prepend_auto_inject_skills, prompt_events, queue_views,
    queues_distinct, regular_in, with_skills, HatQueue, PromptPlan, QueueView, SkillContext,
};
use crate::event_loop::registry::Hat;
use crate::event_loop::routing::{active_hats, activations_fit, event_lines, format_events};
use crate::event_loop::scratchpad::{prepend_scratchpad, with_scratchpad};
use crate::event_loop::tasks::{
    loop_tasks, prepend_ready_tasks, task_views, with_tasks, TaskLists,
};
use crate::path::{join_path, path_below};
use crate::text::{first_of, lemma_first_of, opt_text, str_eq, str_text, texts, trim, trimmed};
use vstd::prelude::*;

verus! {

// ---- prompts ----

/// What the prompt of an iteration is made from.
#[derive(Debug)]
pub enum PromptRequest {
    /// The coordinator is asked.
    Coordinator(PromptPlan),
    /// A custom hat is asked: the events that its prompt tells of.
    CustomHat(String),
}

/// The pending events of the hats of an identifier, each at its place.
pub open spec fn queue_hits(queues: Seq<QueueView>, id: Seq<char>) -> Seq<Option<Seq<EventView>>> {
    Seq::new(
        queues.len(),
        |i: int|
            if queues[i].hat_id == id {
                Some(queues[i].events)
            } else {
                None
            },
    )
}

/// The pending events of a hat: those of its first queue.
pub open spec fn pending_of(queues: Seq<QueueView>, id: Seq<char>) -> Seq<EventView> {
    match first_of(queue_hits(queues, id)) {
        Some(events) => events,
        None => Seq::empty(),
    }
}

/// Copies the pending events of a hat.
pub fn take_pending(queues: &Vec<HatQueue>, id: &str) -> (r: Vec<Event>)
    ensures
        event_views(r@) == pending_of(queue_views(queues@), id@),
{
    let ghost all = queue_views(queues@);
    let ghost hits = queue_hits(all, id@);
    let mut r: Vec<Event> = Vec::new();
    let mut i: usize = 0;
    proof {
        assert(hits.skip(0) == hits);
        assert(event_views(r@) == Seq::<EventView>::empty());
    }
    while i < queues.len()
        invariant
            i <= queues.len(),
            all == queue_views(queues@),
            hits == queue_hits(all, id@),
            event_views(r@) == Seq::<EventView>::empty(),
            first_of(hits) == first_of(hits.skip(i as int)),
        decreases queues.len() - i,
    {
        proof {
            lemma_first_of(hits, i as int);
        }
        if str_eq(queues[i].hat_id.as_str(), id) {
            append_events(&mut r, &queues[i].events);
            assert(Seq::<EventView>::empty() + all[i as int].events == all[i as int].events);
            return r;
        }
        i = i + 1;
    }
    r
}

/// What is asked of the coordinator without custom hats.
pub open spec fn solo_planned(
    before: EventLoop,
    after: EventLoop,
    events: Seq<EventView>,
    plan: PromptPlan,
) -> bool {
    &&& plan.events_context@ == event_lines(regular_in(events))
    &&& plan.active_hat_ids@.len() == 0
    &&& texts(plan.guidance@) == guidance_in(events)
    &&& plan.scratchpad == before.config.core.scratchpad
    &&& plan.reports@.len() == 0
    &&& after.state == before.state
    &&& after.outbox == before.outbox
}

/// What is asked of the coordinator with custom hats.
pub open spec fn hats_planned(
    before: EventLoop,
    after: EventLoop,
    queues: Seq<QueueView>,
    human: Seq<EventView>,
    plan: PromptPlan,
) -> bool {
    &&& planned(
        before.config.event_loop,
        before.registry,
        before.config.core.scratchpad,
        before.state,
        queues,
        human,
        plan,
    )
    &&& plan_noted(
        before.config.event_loop,
        before.registry,
        before.state,
        after.state,
        queues,
        human,
    )
    &&& event_views(after.outbox@) == event_views(before.outbox@) + event_views(plan.reports@)
}

/// The hats that a prompt with custom hats activates.
pub open spec fn prompt_hats(
    before: EventLoop,
    queues: Seq<QueueView>,
    human: Seq<EventView>,
) -> Seq<Seq<char>> {
    active_hats(
        before.config.event_loop,
        before.registry,
        regular_in(prompt_events(before.registry, before.state, queues, human)),
    )
}

/// A prompt of the coordinator, made from the prompt that its instructions give: behind the tasks of
/// the loop, the scratchpad, and memories and skills.
pub open spec fn finished_prompt(
    event_loop: EventLoop,
    base: Seq<char>,
    context: SkillContext,
    scratchpad: Option<Seq<char>>,
    lists: Option<TaskLists>,
    loop_id: Option<Seq<char>>,
) -> Seq<char> {
    let config = event_loop.config;
    let skilled = with_skills(
        base,
        config.memories,
        config.tasks.enabled,
        config.robot.enabled,
        context,
    );
    let noted = with_scratchpad(skilled, event_loop.active_scratchpad, scratchpad);
    if config.tasks.enabled && lists is Some {
        with_tasks(noted, lists->0, loop_id)
    } else {
        noted
    }
}

impl EventLoop {
    /// Plans the prompt of an iteration from the pending events of the hats and of a human; nothing
    /// where the hat is not known.
    ///
    /// The coordinator handles everything: without custom hats its own events, with custom hats
    /// those of all hats. New guidance of a human is kept for all further prompts.
    pub fn build_prompt(&mut self, hat_id: &str, queues: &Vec<HatQueue>, human: &Vec<Event>) -> (r:
        Option<PromptRequest>)
        requires
            hat_id@ == "ralph"@ && old(self).registry.hats@.len() > 0 ==> queues_distinct(
                queue_views(queues@),
            ) && activations_fit(
                old(self).state,
                prompt_hats(*old(self), queue_views(queues@), event_views(human@)),
            ),
        ensures
            match r {
                Some(PromptRequest::Coordinator(plan)) => {
                    &&& hat_id@ == "ralph"@
                    &&& *final(self) == (EventLoop {
                        state: final(self).state,
                        outbox: final(self).outbox,
                        active_scratchpad: plan.scratchpad,
                        robot_guidance: final(self).robot_guidance,
                        ..*old(self)
                    })
                    &&& final(self).robot_guidance@ == old(self).robot_guidance@ + plan.guidance@
                    &&& if old(self).registry.hats@.len() == 0 {
                        solo_planned(
                            *old(self),
                            *final(self),
                            pending_of(queue_views(queues@), "ralph"@) + event_views(human@),
                            plan,
                        )
                    } else {
                        hats_planned(
                            *old(self),
                            *final(self),
                            queue_views(queues@),
                            event_views(human@),
                            plan,
                        )
                    }
                },
                Some(PromptRequest::CustomHat(context)) => {
                    &&& hat_id@ != "ralph"@
                    &&& *final(self) == *old(self)
                    &&& old(self).registry.hat(hat_id@) is Some
                    &&& context@ == event_lines(pending_of(queue_views(queues@), hat_id@))
                },
                None => {
                    &&& hat_id@ != "ralph"@
                    &&& *final(self) == *old(self)
                    &&& old(self).registry.hat(hat_id@) is None
                },
            },
    {
        if !str_eq(hat_id, "ralph") {
            return match self.registry.get(hat_id) {
                Some(_) => {
                    let events = take_pending(queues, hat_id);
                    Some(PromptRequest::CustomHat(format_events(&events)))
                },
                None => None,
            };
        }
        if self.registry.hats.len() == 0 {
            let mut events = take_pending(queues, hat_id);
            append_events(&mut events, human);
            let plan = self.build_solo_prompt(&events);
            self.update_robot_guidance(&plan.guidance);
            Some(PromptRequest::Coordinator(plan))
        } else {
            let plan = self.build_hats_prompt(queues, human);
            self.update_robot_guidance(&plan.guidance);
            Some(PromptRequest::Coordinator(plan))
        }
    }

    /// Finishes a prompt of the coordinator. `base` is the prompt that its instructions give,
    /// `scratchpad` what was read of the scratchpad file, and `lists` what the task store tells,
    /// each where it exists and could be read.
    pub fn finish_prompt(
        &self,
        base: &str,
        context: &SkillContext,
        scratchpad: Option<&str>,
        lists: Option<&TaskLists>,
        loop_id: &Option<String>,
    ) -> (r: String)
        requires
            lists is Some ==> loop_tasks(task_views(lists->0.open@), opt_text(*loop_id)).len()
                <= loop_tasks(task_views(lists->0.all@), opt_text(*loop_id)).len(),
        ensures
            r@ == finished_prompt(
                *self,
                base@,
                *context,
                str_text(scratchpad),
                match lists {
                    Some(lists) => Some(*lists),
                    None => None,
                },
                opt_text(*loop_id),
            ),
    {
        let skilled = prepend_auto_inject_skills(
            base,
            &self.config.memories,
            self.config.tasks.enabled,
            self.config.robot.enabled,
            context,
        );
        let noted = prepend_scratchpad(skilled.as_str(), &self.active_scratchpad, scratchpad);
        prepend_ready_tasks(noted.as_str(), self.config.tasks.enabled, lists, loop_id)
    }
}

// ---- construction ----

/// What the bus is told of a hat.
#[derive(Debug)]
pub struct BusHat {
    pub id: String,
    pub subscriptions: Vec<String>,
}

/// The identifiers of the hats on the bus.
pub open spec fn bus_ids(hats: Seq<BusHat>) -> Seq<Seq<char>> {
    Seq::new(hats.len(), |i: int| hats[i].id@)
}

/// The topics that the hats on the bus subscribe to.
pub open spec fn bus_topics(hats: Seq<BusHat>) -> Seq<Seq<Seq<char>>> {
    Seq::new(hats.len(), |i: int| texts(hats[i].subscriptions@))
}

/// Lists the hats of the bus in the order of registration: the custom hats come first, and the
/// coordinator is always there and catches everything else.
pub fn bus_hats(hats: &Vec<Hat>) -> (r: Vec<BusHat>)
    ensures
        bus_ids(r@) == Seq::new(hats@.len(), |i: int| hats@[i].id@).push("ralph"@),
        bus_topics(r@) == Seq::new(
            hats@.len(),
            |i: int| texts(hats@[i].subscriptions@),
        ).push(seq!["*"@]),
{
    let mut r: Vec<BusHat> = Vec::new();
    let mut i: usize = 0;
    while i < hats.len()
        invariant
            i <= hats.len(),
            r.len() == i,
            forall|j: int| 0 <= j < i ==> (#[trigger] r@[j]).id@ == hats@[j].id@,
            forall|j: int|
                0 <= j < i ==> texts((#[trigger] r@[j]).subscriptions@) == texts(
                    hats@[j].subscriptions@,
                ),
        decreases hats.len() - i,
    {
        r.push(
            BusHat {
                id: hats[i].id.clone(),
                subscriptions: crate::event_loop::routing::clone_texts(&hats[i].subscriptions),
            },
        );
        i = i + 1;
    }
    let mut all: Vec<String> = Vec::new();
    all.push("*".to_owned());
    assert(texts(all@) == seq!["*"@]);
    r.push(BusHat { id: "ralph".to_owned(), subscriptions: all });
    r
}

/// Whether a skill stays in the index: the one on tasks needs tasks, and the one on memories needs
/// memories.
pub open spec fn keeps_skill(config: RalphConfig, name: Seq<char>) -> bool {
    &&& name == "ralph-tools-tasks"@ ==> config.tasks.enabled
    &&& name == "ralph-tools-memories"@ ==> config.memories.enabled
}

/// The skills of the index: none where skills are disabled.
pub open spec fn indexed(config: RalphConfig, names: Seq<Seq<char>>) -> Seq<Seq<char>> {
    if config.skills.enabled {
        names.filter(|name: Seq<char>| keeps_skill(config, name))
    } else {
        Seq::empty()
    }
}

/// Lists the skills of the index.
pub fn indexed_skills(config: &RalphConfig, names: &Vec<String>) -> (r: Vec<String>)
    ensures
        texts(r@) == indexed(*config, texts(names@)),
{
    let mut r: Vec<String> = Vec::new();
    if !config.skills.enabled {
        assert(texts(r@) == indexed(*config, texts(names@)));
        return r;
    }
    let ghost all = texts(names@);
    let ghost keep = |name: Seq<char>| keeps_skill(*config, name);
    let mut i: usize = 0;
    proof {
        reveal(Seq::filter);
        assert(texts(r@) == all.take(0).filter(keep));
    }
    while i < names.len()
        invariant
            i <= names.len(),
            all == texts(names@),
            keep == (|name: Seq<char>| keeps_skill(*config, name)),
            texts(r@) == all.take(i as int).filter(keep),
        decreases names.len() - i,
    {
        let name = names[i].as_str();
        let ghost before = texts(r@);
        proof {
            reveal(Seq::filter);
            assert(all.take(i + 1).drop_last() == all.take(i as int));
            assert(all.take(i + 1).last() == name@);
        }
        if (config.tasks.enabled || !str_eq(name, "ralph-tools-tasks")) && (config.memories.enabled
            || !str_eq(name, "ralph-tools-memories")) {
            assert(keep(name@));
            r.push(names[i].clone());
            assert(texts(r@) == before.push(name@));
        }
        i = i + 1;
    }
    assert(all.take(i as int) == all);
    r
}

/// The file that events are read from: the one that the marker names, in the workspace where the
/// loop has one of its own, else the default.
pub open spec fn reader_path(
    marker: Option<Seq<char>>,
    workspace: Option<Seq<char>>,
    default: Seq<char>,
) -> Seq<char> {
    match (marker, workspace) {
        (Some(content), Some(dir)) => path_below(dir, trimmed(content)),
        (Some(content), None) => trimmed(content),
        (None, _) => default,
    }
}

/// Finds the file that events are read from. `marker` is the content of the marker file, where it
/// could be read.
pub fn events_reader_path(marker: Option<&str>, workspace: Option<&str>, default: &str) -> (r:
    String)
    ensures
        r@ == reader_path(str_text(marker), str_text(workspace), default@),
{
    match marker {
        Some(content) => match workspace {
            Some(dir) => join_path(dir, trim(content)),
            None => trim(content).to_owned(),
        },
        None => default.to_owned(),
    }
}

/// Finds the file in which the answer of a human is waited for: the one that the marker of the loop
/// names, else the one that the marker in the current directory names, else the one of the loop, else
/// the default.
pub fn response_events_path(
    marker: Option<&str>,
    workspace: &str,
    current_marker: Option<&str>,
    loop_path: Option<&str>,
) -> (r: String)
    ensures
        r@ == (match marker {
            Some(content) => path_below(workspace@, trimmed(content@)),
            None => match current_marker {
                Some(content) => trimmed(content@),
                None => match loop_path {
                    Some(path) => path@,
                    None => ".ralph/events.jsonl"@,
                },
            },
        }),
{
    match marker {
        Some(content) => join_path(workspace, trim(content)),
        None => match current_marker {
            Some(content) => trim(content).to_owned(),
            None => match loop_path {
                Some(path) => path.to_owned(),
                None => ".ralph/events.jsonl".to_owned(),
            },
        },
    }
}

/// Finds the task store of a loop: the one of its context, else the default.
pub fn tasks_path(context_path: Option<&str>) -> (r: String)
    ensures
        r@ == (match context_path {
            Some(path) => path@,
            None => ".ralph/agent/tasks.jsonl"@,
        }),
{
    match context_path {
        Some(path) => path.to_owned(),
        None => ".ralph/agent/tasks.jsonl".to_owned(),
    }
}

} // verus!
