//! Prompt building: which events a prompt shows, which hats it activates, and the skills, the
//! scratchpad and the tasks that are put before it.
use crate::config::event_loop::EventLoopConfig;
use crate::config::scratchpad::ScratchpadConfig;
use crate::config::settings::{InjectMode, MemoriesConfig};
use crate::event_loop::event::{append_events, event_views, push_event, Event, EventView};
use crate::event_loop::processing::occurrences;
use crate::event_loop::queues::{by_hat, lemma_by_hat, sort_queues};
use crate::event_loop::registry::HatRegistry;
use crate::event_loop::routing::{
    activations_fit, active_hats, check_hat_exhaustion, clone_texts, determine_active_hat_ids,
    effective_regular_events, event_lines, exhausted, exhaustion_report, format_events,
    record_hat_activations, shown_events,
};
use crate::event_loop::state::LoopState;
use crate::json::{json_from_str, json_get, json_object, json_read, json_text, read_view};
use crate::text::{
    char_at, find, find_char, first_of, hexadecimal, hexadecimal_text, lemma_first_of, opt_text,
    position_of, str_eq, texts, to_chars, trim, trimmed,
};
use serde_json::Value;
use vstd::prelude::*;

verus! {

// ---- skills ----

/// A skill that can be put into prompts.
#[derive(Debug)]
pub struct Skill {
    pub name: String,
    pub content: String,
}

/// The contents of the skills of a name, each at its place.
pub open spec fn skill_hits(skills: Seq<Skill>, name: Seq<char>) -> Seq<Option<Seq<char>>> {
    Seq::new(
        skills.len(),
        |i: int|
            if skills[i].name@ == name {
                Some(skills[i].content@)
            } else {
                None
            },
    )
}

/// The content of the first skill that has a name.
pub open spec fn skill_content(skills: Seq<Skill>, name: Seq<char>) -> Option<Seq<char>> {
    first_of(skill_hits(skills, name))
}

/// A prefix with a tagged section behind it, parted by an empty line.
pub open spec fn with_section(prefix: Seq<char>, tag: Seq<char>, content: Seq<char>) -> Seq<char> {
    let gap = if prefix.len() == 0 {
        Seq::empty()
    } else {
        "\n\n"@
    };
    prefix + gap + ("<"@ + tag + "-skill>\n"@ + trimmed(content) + "\n</"@ + tag + "-skill>"@)
}

/// A prefix with the section of a skill behind it, where the skill is wanted and there.
pub open spec fn with_skill(
    prefix: Seq<char>,
    wanted: bool,
    skills: Seq<Skill>,
    name: Seq<char>,
    tag: Seq<char>,
) -> Seq<char> {
    if wanted && skill_content(skills, name) is Some {
        with_section(prefix, tag, skill_content(skills, name)->0)
    } else {
        prefix
    }
}

/// The memories of a workspace as markdown.
#[derive(Debug)]
pub struct MemoryText {
    /// All memories.
    pub full: String,
    /// The memories within the configured budget.
    pub within_budget: String,
}

/// The memories that are put into a prompt: only where they are injected automatically, and within
/// the budget where there is one.
pub open spec fn injected_memories(config: MemoriesConfig, memories: Option<MemoryText>) -> Seq<char> {
    if config.enabled && config.inject == InjectMode::Auto && memories is Some {
        if config.budget > 0 {
            memories->0.within_budget@
        } else {
            memories->0.full@
        }
    } else {
        Seq::empty()
    }
}

/// The memories, and the skills on the tools for memories and tasks.
pub open spec fn memories_and_tools(
    config: MemoriesConfig,
    tasks_enabled: bool,
    memories: Option<MemoryText>,
    skills: Seq<Skill>,
) -> Seq<char> {
    let p0 = injected_memories(config, memories);
    let p1 = with_skill(
        p0,
        config.enabled || tasks_enabled,
        skills,
        "ralph-tools"@,
        "ralph-tools"@,
    );
    let p2 = with_skill(p1, tasks_enabled, skills, "ralph-tools-tasks"@, "ralph-tools-tasks"@);
    with_skill(p2, config.enabled, skills, "ralph-tools-memories"@, "ralph-tools-memories"@)
}

/// Whether a skill has its own place in the prefix.
pub open spec fn has_own_place(name: Seq<char>) -> bool {
    name == "ralph-tools"@ || name == "ralph-tools-tasks"@ || name == "ralph-tools-memories"@ || name
        == "robot-interaction"@
}

/// A prefix with the sections of skills behind it that have no place of their own.
pub open spec fn with_custom_skills(prefix: Seq<char>, auto_skills: Seq<Skill>) -> Seq<char>
    decreases auto_skills.len(),
{
    if auto_skills.len() == 0 {
        prefix
    } else {
        let before = with_custom_skills(prefix, auto_skills.drop_last());
        let skill = auto_skills.last();
        if has_own_place(skill.name@) {
            before
        } else {
            with_section(before, skill.name@, skill.content@)
        }
    }
}

/// What is known of skills and memories when a prompt is built.
#[derive(Debug)]
pub struct SkillContext {
    /// All skills that can be loaded.
    pub skills: Vec<Skill>,
    /// The skills that are put into every prompt.
    pub auto_skills: Vec<Skill>,
    /// The memories of the workspace, where it has any.
    pub memories: Option<MemoryText>,
}

/// What is put before a prompt of memories and skills.
pub open spec fn skills_prefix(
    config: MemoriesConfig,
    tasks_enabled: bool,
    robot_enabled: bool,
    context: SkillContext,
) -> Seq<char> {
    let p1 = memories_and_tools(config, tasks_enabled, context.memories, context.skills@);
    let p2 = with_skill(p1, robot_enabled, context.skills@, "robot-interaction"@, "robot"@);
    with_custom_skills(p2, context.auto_skills@)
}

/// A prompt behind memories and skills, parted by an empty line where there are any.
pub open spec fn with_skills(
    prompt: Seq<char>,
    config: MemoriesConfig,
    tasks_enabled: bool,
    robot_enabled: bool,
    context: SkillContext,
) -> Seq<char> {
    let prefix = skills_prefix(config, tasks_enabled, robot_enabled, context);
    if prefix.len() == 0 {
        prompt
    } else {
        prefix + "\n\n"@ + prompt
    }
}

fn append_section(prefix: &mut String, tag: &str, content: &str)
    ensures
        final(prefix)@ == with_section(old(prefix)@, tag@, content@),
{
    if prefix.as_str().unicode_len() > 0 {
        prefix.append("\n\n");
    } else {
        assert(prefix@ + Seq::<char>::empty() == prefix@);
    }
    let mut section = "<".to_owned();
    section.append(tag);
    section.append("-skill>\n");
    section.append(trim(content));
    section.append("\n</");
    section.append(tag);
    section.append("-skill>");
    prefix.append(section.as_str());
}

fn find_skill<'a>(skills: &'a Vec<Skill>, name: &str) -> (r: Option<&'a Skill>)
    ensures
        match r {
            Some(skill) => skill_content(skills@, name@) == Some(skill.content@),
            None => skill_content(skills@, name@) is None,
        },
{
    let ghost hits = skill_hits(skills@, name@);
    let mut i: usize = 0;
    assert(hits.skip(0) == hits);
    while i < skills.len()
        invariant
            i <= skills.len(),
            hits == skill_hits(skills@, name@),
            first_of(hits) == first_of(hits.skip(i as int)),
        decreases skills.len() - i,
    {
        proof {
            lemma_first_of(hits, i as int);
        }
        if str_eq(skills[i].name.as_str(), name) {
            return Some(&skills[i]);
        }
        i = i + 1;
    }
    None
}

fn inject_skill(prefix: &mut String, wanted: bool, skills: &Vec<Skill>, name: &str, tag: &str)
    ensures
        final(prefix)@ == with_skill(old(prefix)@, wanted, skills@, name@, tag@),
{
    if wanted {
        if let Some(skill) = find_skill(skills, name) {
            append_section(prefix, tag, skill.content.as_str());
        }
    }
}

/// Puts the memories, and the skills on the tools for memories and tasks, into the prefix of a
/// prompt.
pub fn inject_memories_and_tools_skill(
    config: &MemoriesConfig,
    tasks_enabled: bool,
    memories: &Option<MemoryText>,
    skills: &Vec<Skill>,
) -> (r: String)
    ensures
        r@ == memories_and_tools(*config, tasks_enabled, *memories, skills@),
{
    let auto = match config.inject {
        InjectMode::Auto => true,
        _ => false,
    };
    let mut prefix = String::new();
    if config.enabled && auto {
        if let Some(text) = memories {
            if config.budget > 0 {
                prefix = text.within_budget.clone();
            } else {
                prefix = text.full.clone();
            }
        }
    }
    inject_skill(
        &mut prefix,
        config.enabled || tasks_enabled,
        skills,
        "ralph-tools",
        "ralph-tools",
    );
    inject_skill(&mut prefix, tasks_enabled, skills, "ralph-tools-tasks", "ralph-tools-tasks");
    inject_skill(
        &mut prefix,
        config.enabled,
        skills,
        "ralph-tools-memories",
        "ralph-tools-memories",
    );
    prefix
}

/// Puts the skill on questions to a human into the prefix of a prompt, where the bot is enabled.
pub fn inject_robot_skill(prefix: &mut String, robot_enabled: bool, skills: &Vec<Skill>)
    ensures
        final(prefix)@ == with_skill(
            old(prefix)@,
            robot_enabled,
            skills@,
            "robot-interaction"@,
            "robot"@,
        ),
{
    inject_skill(prefix, robot_enabled, skills, "robot-interaction", "robot");
}

/// Puts the skills into the prefix of a prompt that have no place of their own.
pub fn inject_custom_auto_skills(prefix: &mut String, auto_skills: &Vec<Skill>)
    ensures
        final(prefix)@ == with_custom_skills(old(prefix)@, auto_skills@),
{
    let ghost start = prefix@;
    let mut i: usize = 0;
    while i < auto_skills.len()
        invariant
            i <= auto_skills.len(),
            prefix@ == with_custom_skills(start, auto_skills@.take(i as int)),
        decreases auto_skills.len() - i,
    {
        proof {
            assert(auto_skills@.take(i + 1).drop_last() == auto_skills@.take(i as int));
            assert(auto_skills@.take(i + 1).last() == auto_skills@[i as int]);
        }
        let name = auto_skills[i].name.as_str();
        if !(str_eq(name, "ralph-tools") || str_eq(name, "ralph-tools-tasks") || str_eq(
            name,
            "ralph-tools-memories",
        ) || str_eq(name, "robot-interaction")) {
            append_section(prefix, name, auto_skills[i].content.as_str());
        }
        i = i + 1;
    }
    assert(auto_skills@.take(i as int) == auto_skills@);
}

/// Puts memories and skills before a prompt.
pub fn prepend_auto_inject_skills(
    prompt: &str,
    config: &MemoriesConfig,
    tasks_enabled: bool,
    robot_enabled: bool,
    context: &SkillContext,
) -> (r: String)
    ensures
        r@ == with_skills(prompt@, *config, tasks_enabled, robot_enabled, *context),
{
    let mut prefix = inject_memories_and_tools_skill(
        config,
        tasks_enabled,
        &context.memories,
        &context.skills,
    );
    inject_robot_skill(&mut prefix, robot_enabled, &context.skills);
    inject_custom_auto_skills(&mut prefix, &context.auto_skills);
    if prefix.as_str().unicode_len() == 0 {
        return prompt.to_owned();
    }
    prefix.append("\n\n");
    prefix.append(prompt);
    prefix
}

// ---- events of a prompt ----

/// The pending events of one hat.
#[derive(Debug)]
pub struct HatQueue {
    pub hat_id: String,
    pub events: Vec<Event>,
}

/// The plain values of a [`HatQueue`].
pub struct QueueView {
    pub hat_id: Seq<char>,
    pub events: Seq<EventView>,
}

/// The plain values of queues.
pub open spec fn queue_views(queues: Seq<HatQueue>) -> Seq<QueueView> {
    Seq::new(
        queues.len(),
        |i: int| QueueView { hat_id: queues[i].hat_id@, events: event_views(queues[i].events@) },
    )
}

/// Whether the events of a queue are dropped: its hat has used up its activations.
pub open spec fn is_dropped(registry: HatRegistry, state: LoopState, queue: QueueView) -> bool {
    queue.events.len() > 0 && exhausted(registry, state, queue.hat_id)
}

/// Whether dropping a queue is reported: only the first time.
pub open spec fn is_reported(registry: HatRegistry, state: LoopState, queue: QueueView) -> bool {
    is_dropped(registry, state, queue) && !texts(state.exhausted_hats@).contains(queue.hat_id)
}

/// The reports on dropped queues.
pub open spec fn drop_reports(registry: HatRegistry, state: LoopState, queues: Seq<QueueView>) -> Seq<
    EventView,
>
    decreases queues.len(),
{
    if queues.len() == 0 {
        Seq::empty()
    } else {
        let before = drop_reports(registry, state, queues.drop_last());
        let queue = queues.last();
        if is_reported(registry, state, queue) {
            before.push(exhaustion_report(registry, state, queue.hat_id, queue.events))
        } else {
            before
        }
    }
}

/// The events of all queues in their order; in place of a dropped queue stands the report on it.
pub open spec fn collected_events(registry: HatRegistry, state: LoopState, queues: Seq<QueueView>) -> Seq<
    EventView,
>
    decreases queues.len(),
{
    if queues.len() == 0 {
        Seq::empty()
    } else {
        let before = collected_events(registry, state, queues.drop_last());
        let queue = queues.last();
        if is_reported(registry, state, queue) {
            before.push(exhaustion_report(registry, state, queue.hat_id, queue.events))
        } else if is_dropped(registry, state, queue) {
            before
        } else {
            before + queue.events
        }
    }
}

/// The hats that are newly found to have used up their activations.
pub open spec fn newly_exhausted(registry: HatRegistry, state: LoopState, queues: Seq<QueueView>) -> Seq<
    Seq<char>,
>
    decreases queues.len(),
{
    if queues.len() == 0 {
        Seq::empty()
    } else {
        let before = newly_exhausted(registry, state, queues.drop_last());
        if is_reported(registry, state, queues.last()) {
            before.push(queues.last().hat_id)
        } else {
            before
        }
    }
}

/// Whether every hat has at most one queue.
pub open spec fn queues_distinct(queues: Seq<QueueView>) -> bool {
    forall|i: int, j: int|
        0 <= i < j < queues.len() ==> (#[trigger] queues[i]).hat_id != (#[trigger] queues[j]).hat_id
}

/// A hat is newly found to have used up its activations only where it has a queue.
proof fn lemma_newly_exhausted_has_queue(
    registry: HatRegistry,
    state: LoopState,
    queues: Seq<QueueView>,
    id: Seq<char>,
)
    requires
        newly_exhausted(registry, state, queues).contains(id),
    ensures
        exists|i: int| 0 <= i < queues.len() && (#[trigger] queues[i]).hat_id == id,
    decreases queues.len(),
{
    if queues.len() > 0 {
        let before = newly_exhausted(registry, state, queues.drop_last());
        if before.contains(id) {
            lemma_newly_exhausted_has_queue(registry, state, queues.drop_last(), id);
            let i = choose|i: int|
                0 <= i < queues.drop_last().len() && (#[trigger] queues.drop_last()[i]).hat_id
                    == id;
            assert(queues[i].hat_id == id);
        } else {
            assert(queues[queues.len() - 1].hat_id == id);
        }
    }
}

/// What a look through the queues gives.
pub struct CollectedQueues {
    pub events: Vec<Event>,
    pub reports: Vec<Event>,
}

/// Goes through the queues in their order: the events of hats that have used up their activations
/// are dropped, which is reported once for every hat.
pub fn collect_queues(registry: &HatRegistry, state: &mut LoopState, queues: &Vec<HatQueue>) -> (r:
    CollectedQueues)
    requires
        queues_distinct(queue_views(queues@)),
    ensures
        event_views(r.events@) == collected_events(*registry, *old(state), queue_views(queues@)),
        event_views(r.reports@) == drop_reports(*registry, *old(state), queue_views(queues@)),
        *final(state) == (LoopState { exhausted_hats: final(state).exhausted_hats, ..*old(state) }),
        texts(final(state).exhausted_hats@) == texts(old(state).exhausted_hats@) + newly_exhausted(
            *registry,
            *old(state),
            queue_views(queues@),
        ),
{
    let ghost all = queue_views(queues@);
    let ghost noted = texts(state.exhausted_hats@);
    let mut events: Vec<Event> = Vec::new();
    let mut reports: Vec<Event> = Vec::new();
    let mut i: usize = 0;
    proof {
        assert(event_views(events@) == collected_events(*registry, *state, all.take(0)));
        assert(event_views(reports@) == drop_reports(*registry, *state, all.take(0)));
        assert(noted + newly_exhausted(*registry, *state, all.take(0)) == noted);
    }
    while i < queues.len()
        invariant
            i <= queues.len(),
            all == queue_views(queues@),
            queues_distinct(all),
            noted == texts(old(state).exhausted_hats@),
            *state == (LoopState { exhausted_hats: state.exhausted_hats, ..*old(state) }),
            event_views(events@) == collected_events(*registry, *old(state), all.take(i as int)),
            event_views(reports@) == drop_reports(*registry, *old(state), all.take(i as int)),
            texts(state.exhausted_hats@) == noted + newly_exhausted(
                *registry,
                *old(state),
                all.take(i as int),
            ),
        decreases queues.len() - i,
    {
        let queue = &queues[i];
        let ghost view = all[i as int];
        let ghost newly = newly_exhausted(*registry, *old(state), all.take(i as int));
        proof {
            assert(all.take(i + 1).drop_last() == all.take(i as int));
            assert(all.take(i + 1).last() == view);
            assert(!newly.contains(view.hat_id)) by {
                if newly.contains(view.hat_id) {
                    lemma_newly_exhausted_has_queue(
                        *registry,
                        *old(state),
                        all.take(i as int),
                        view.hat_id,
                    );
                    let j = choose|j: int|
                        0 <= j < all.take(i as int).len() && (#[trigger] all.take(
                            i as int,
                        )[j]).hat_id == view.hat_id;
                    assert(all[j].hat_id == all[i as int].hat_id);
                }
            }
            assert((noted + newly).contains(view.hat_id) == noted.contains(view.hat_id)) by {
                if (noted + newly).contains(view.hat_id) {
                    let j = choose|j: int|
                        0 <= j < (noted + newly).len() && (noted + newly)[j] == view.hat_id;
                    if j < noted.len() {
                        assert(noted[j] == view.hat_id);
                    } else {
                        assert(newly[j - noted.len()] == view.hat_id);
                    }
                }
                if noted.contains(view.hat_id) {
                    let j = choose|j: int| 0 <= j < noted.len() && noted[j] == view.hat_id;
                    assert((noted + newly)[j] == view.hat_id);
                }
            }
            assert(view.events.len() == queue.events@.len());
            assert(exhausted(*registry, *state, view.hat_id) == exhausted(
                *registry,
                *old(state),
                view.hat_id,
            ));
            let so_far = collected_events(*registry, *old(state), all.take(i as int));
            assert(view.events.len() == 0 ==> so_far + view.events == so_far);
        }
        if queue.events.len() > 0 {
            let (drop_pending, report) = check_hat_exhaustion(
                registry,
                state,
                queue.hat_id.as_str(),
                &queue.events,
            );
            if drop_pending {
                if let Some(event) = report {
                    push_event(&mut events, event.clone());
                    push_event(&mut reports, event);
                    assert((noted + newly).push(view.hat_id) == noted + newly.push(view.hat_id));
                }
            } else {
                append_events(&mut events, &queue.events);
            }
        }
        i = i + 1;
    }
    assert(all.take(i as int) == all);
    CollectedQueues { events, reports }
}

/// Whether an event is guidance of a human.
pub open spec fn is_guidance(event: EventView) -> bool {
    event.topic == "human.guidance"@
}

/// The messages of the guidance among events.
pub open spec fn guidance_in(events: Seq<EventView>) -> Seq<Seq<char>> {
    events.filter(|e: EventView| is_guidance(e)).map_values(|e: EventView| e.payload)
}

/// The events that are no guidance.
pub open spec fn regular_in(events: Seq<EventView>) -> Seq<EventView> {
    events.filter(|e: EventView| !is_guidance(e))
}

/// Parts the messages of guidance from the other events.
pub fn part_guidance(events: &Vec<Event>) -> (r: (Vec<String>, Vec<Event>))
    ensures
        texts(r.0@) == guidance_in(event_views(events@)),
        event_views(r.1@) == regular_in(event_views(events@)),
{
    let ghost all = event_views(events@);
    let ghost guides = |e: EventView| is_guidance(e);
    let ghost others = |e: EventView| !is_guidance(e);
    let ghost message = |e: EventView| e.payload;
    let mut guidance: Vec<String> = Vec::new();
    let mut regular: Vec<Event> = Vec::new();
    let mut i: usize = 0;
    proof {
        reveal(Seq::filter);
        assert(texts(guidance@) == all.take(0).filter(guides).map_values(message));
        assert(event_views(regular@) == all.take(0).filter(others));
    }
    while i < events.len()
        invariant
            i <= events.len(),
            all == event_views(events@),
            guides == (|e: EventView| is_guidance(e)),
            others == (|e: EventView| !is_guidance(e)),
            message == (|e: EventView| e.payload),
            texts(guidance@) == all.take(i as int).filter(guides).map_values(message),
            event_views(regular@) == all.take(i as int).filter(others),
        decreases events.len() - i,
    {
        let ghost before = guidance@;
        let ghost found = all.take(i as int).filter(guides);
        proof {
            reveal(Seq::filter);
            assert(all.take(i + 1).drop_last() == all.take(i as int));
            assert(all.take(i + 1).last() == events@[i as int]@);
        }
        if str_eq(events[i].topic.as_str(), "human.guidance") {
            guidance.push(events[i].payload.clone());
            proof {
                assert(texts(guidance@) == texts(before).push(events@[i as int].payload@));
                assert(found.push(events@[i as int]@).map_values(message) == found.map_values(
                    message,
                ).push(events@[i as int].payload@));
            }
        } else {
            push_event(&mut regular, events[i].clone());
        }
        i = i + 1;
    }
    assert(all.take(i as int) == all);
    (guidance, regular)
}

/// What a prompt is built from.
#[derive(Debug)]
pub struct PromptPlan {
    /// The lines of the events.
    pub events_context: String,
    /// The active hats.
    pub active_hat_ids: Vec<String>,
    /// New guidance of a human.
    pub guidance: Vec<String>,
    /// The scratchpad in use.
    pub scratchpad: ScratchpadConfig,
    /// Reports to publish.
    pub reports: Vec<Event>,
}

/// Plans the prompt of the coordinator without custom hats, from its pending events and those of a
/// human behind them.
pub fn plan_solo_prompt(events: &Vec<Event>, scratchpad: &ScratchpadConfig) -> (r: PromptPlan)
    ensures
        r.events_context@ == event_lines(regular_in(event_views(events@))),
        r.active_hat_ids@.len() == 0,
        texts(r.guidance@) == guidance_in(event_views(events@)),
        r.scratchpad == *scratchpad,
        r.reports@.len() == 0,
{
    let (guidance, regular) = part_guidance(events);
    PromptPlan {
        events_context: format_events(&regular),
        active_hat_ids: Vec::new(),
        guidance,
        scratchpad: scratchpad.clone(),
        reports: Vec::new(),
    }
}

/// The scratchpad in use: that of the first active hat where it has one of its own, else the global
/// one.
pub open spec fn scratchpad_in_use(
    registry: HatRegistry,
    active: Seq<Seq<char>>,
    global: ScratchpadConfig,
) -> ScratchpadConfig {
    if active.len() > 0 {
        match registry.definition(active[0]) {
            Some(config) => match config.scratchpad {
                Some(own) => own,
                None => global,
            },
            None => global,
        }
    } else {
        global
    }
}

fn resolve_scratchpad(
    registry: &HatRegistry,
    active: &Vec<String>,
    global: &ScratchpadConfig,
) -> (r: ScratchpadConfig)
    ensures
        r == scratchpad_in_use(*registry, texts(active@), *global),
{
    assert(texts(active@).len() == active@.len());
    if active.len() > 0 {
        assert(texts(active@)[0] == active@[0]@);
        match registry.get_config(active[0].as_str()) {
            Some(config) => match &config.scratchpad {
                Some(own) => ScratchpadConfig::resolve(Some(own), global),
                None => ScratchpadConfig::resolve(None, global),
            },
            None => ScratchpadConfig::resolve(None, global),
        }
    } else {
        global.clone()
    }
}

/// The events of a prompt with custom hats: those of the queues in the order of the hats, and those of
/// a human behind them.
pub open spec fn prompt_events(
    registry: HatRegistry,
    state: LoopState,
    queues: Seq<QueueView>,
    human: Seq<EventView>,
) -> Seq<EventView> {
    collected_events(registry, state, by_hat(queues)) + human
}

/// What a plan with custom hats holds.
pub open spec fn planned(
    config: EventLoopConfig,
    registry: HatRegistry,
    global: ScratchpadConfig,
    state: LoopState,
    queues: Seq<QueueView>,
    human: Seq<EventView>,
    plan: PromptPlan,
) -> bool {
    let events = prompt_events(registry, state, queues, human);
    let regular = regular_in(events);
    &&& plan.events_context@ == event_lines(shown_events(regular))
    &&& texts(plan.active_hat_ids@) == active_hats(config, registry, regular)
    &&& texts(plan.guidance@) == guidance_in(events)
    &&& plan.scratchpad == scratchpad_in_use(
        registry,
        active_hats(config, registry, regular),
        global,
    )
    &&& event_views(plan.reports@) == drop_reports(registry, state, by_hat(queues))
}

/// What the state becomes by a plan with custom hats.
pub open spec fn plan_noted(
    config: EventLoopConfig,
    registry: HatRegistry,
    before: LoopState,
    after: LoopState,
    queues: Seq<QueueView>,
    human: Seq<EventView>,
) -> bool {
    let active = active_hats(
        config,
        registry,
        regular_in(prompt_events(registry, before, queues, human)),
    );
    &&& after == (LoopState {
        exhausted_hats: after.exhausted_hats,
        hat_activation_counts: after.hat_activation_counts,
        last_active_hat_ids: after.last_active_hat_ids,
        ..before
    })
    &&& texts(after.exhausted_hats@) == texts(before.exhausted_hats@) + newly_exhausted(
        registry,
        before,
        by_hat(queues),
    )
    &&& texts(after.last_active_hat_ids@) == active
    &&& forall|id: Seq<char>| #[trigger]
        after.hat_activation_counts.count(id) == before.hat_activation_counts.count(id)
            + occurrences(active, id)
}

/// Plans the prompt of the coordinator with custom hats. `queues` holds the pending events of every
/// registered hat, in any order, and `human` those of a human.
pub fn plan_hats_prompt(
    config: &EventLoopConfig,
    registry: &HatRegistry,
    global: &ScratchpadConfig,
    state: &mut LoopState,
    queues: &Vec<HatQueue>,
    human: &Vec<Event>,
) -> (r: PromptPlan)
    requires
        queues_distinct(queue_views(queues@)),
        activations_fit(
            *old(state),
            active_hats(
                *config,
                *registry,
                regular_in(
                    prompt_events(
                        *registry,
                        *old(state),
                        queue_views(queues@),
                        event_views(human@),
                    ),
                ),
            ),
        ),
    ensures
        planned(
            *config,
            *registry,
            *global,
            *old(state),
            queue_views(queues@),
            event_views(human@),
            r,
        ),
        plan_noted(
            *config,
            *registry,
            *old(state),
            *final(state),
            queue_views(queues@),
            event_views(human@),
        ),
{
    let sorted = sort_queues(queues);
    proof {
        lemma_by_hat(queue_views(queues@));
    }
    let collected = collect_queues(registry, state, &sorted);
    let mut events = collected.events;
    append_events(&mut events, human);
    let (guidance, regular) = part_guidance(&events);
    let shown = effective_regular_events(&regular);
    let active = determine_active_hat_ids(config, registry, &regular);
    assert(texts(active@).len() == active@.len());
    record_hat_activations(state, &active);
    state.last_active_hat_ids = clone_texts(&active);
    let scratchpad = resolve_scratchpad(registry, &active, global);
    PromptPlan {
        events_context: format_events(&shown),
        active_hat_ids: active,
        guidance,
        scratchpad,
        reports: collected.reports,
    }
}

// ---- prompts of the user ----

/// A user prompt that requires human input.
#[derive(Debug)]
pub struct UserPrompt {
    /// Identifier of the prompt.
    pub id: String,
    /// The question.
    pub text: String,
}

/// The value of the first `id="..."` of a payload, where it is closed.
pub open spec fn id_attribute(payload: Seq<char>) -> Option<Seq<char>> {
    match position_of(payload, "id=\""@) {
        Some(i) => match char_at(payload.skip(i + 4), '"') {
            Some(n) => Some(payload.subrange(i + 4, i + 4 + n)),
            None => None,
        },
        None => None,
    }
}

/// The text under `id` of a JSON object, where a payload was read as one that has it.
pub open spec fn id_member(read: Result<Value, Seq<char>>) -> Option<Seq<char>> {
    match read {
        Ok(value) => match json_object(value) {
            Some(members) => match members.get("id"@) {
                Some(id) => json_text(id),
                None => None,
            },
            None => None,
        },
        Err(_) => None,
    }
}

/// The identifier of a prompt, by what its payload was read as: the attribute `id`, else the member
/// `id` of a JSON object, else the letter `q` and a generated part.
pub open spec fn chosen_prompt_id(
    payload: Seq<char>,
    read: Result<Value, Seq<char>>,
    generated: Seq<char>,
) -> Seq<char> {
    if id_attribute(payload) is Some {
        id_attribute(payload)->0
    } else if id_member(read) is Some {
        id_member(read)->0
    } else {
        "q"@ + generated
    }
}

/// The identifier of a prompt.
pub open spec fn prompt_id(payload: Seq<char>, generated: Seq<char>) -> Seq<char> {
    chosen_prompt_id(payload, json_read(payload), generated)
}

fn find_id_attribute(payload: &str) -> (r: Option<String>)
    ensures
        opt_text(r) == id_attribute(payload@),
{
    match find(payload, "id=\"") {
        Some(start) => {
            proof {
                reveal_strlit("id=\"");
            }
            let cs = to_chars(payload);
            assert(cs.len() == payload@.len());
            let from: usize = start + 4;
            match find_char(&cs, from, '"') {
                Some(end) => Some(payload.substring_char(from, end).to_owned()),
                None => None,
            }
        },
        None => None,
    }
}

fn find_id_member(read: &Result<Value, String>) -> (r: Option<String>)
    ensures
        opt_text(r) == id_member(read_view(*read)),
{
    match read {
        Ok(value) => match value.as_object() {
            Some(members) => match json_get(members, "id") {
                Some(id) => match id.as_str() {
                    Some(text) => Some(text.to_owned()),
                    None => None,
                },
                None => None,
            },
            None => None,
        },
        Err(_) => None,
    }
}

/// Chooses the identifier of a prompt from its payload and what the payload was read as.
pub fn choose_prompt_id(payload: &str, read: &Result<Value, String>, generated: &str) -> (r: String)
    ensures
        r@ == chosen_prompt_id(payload@, read_view(*read), generated@),
{
    if let Some(id) = find_id_attribute(payload) {
        return id;
    }
    if let Some(id) = find_id_member(read) {
        return id;
    }
    let mut r = "q".to_owned();
    r.append(generated);
    r
}

/// Reads the identifier of a prompt, from an attribute `id="..."` or from a JSON object.
pub fn extract_prompt_id(payload: &str, generated: &str) -> (r: String)
    ensures
        r@ == prompt_id(payload@, generated@),
{
    choose_prompt_id(payload, &json_from_str(payload), generated)
}

/// Generates an identifier from the time in nanoseconds since the epoch.
pub fn generate_prompt_id(nanos: u128) -> (r: String)
    ensures
        r@ == hexadecimal((nanos % 0xFFFF_FFFF) as nat),
{
    hexadecimal_text((nanos % 0xFFFF_FFFF) as u64)
}

/// The payload of the first `user.prompt` event.
pub open spec fn user_prompt_in(events: Seq<EventView>) -> Option<Seq<char>> {
    first_of(
        Seq::new(
            events.len(),
            |i: int|
                if events[i].topic == "user.prompt"@ {
                    Some(events[i].payload)
                } else {
                    None
                },
        ),
    )
}

/// Finds the first `user.prompt` event. `generated` is used where the event names no identifier.
pub fn check_for_user_prompt(events: &Vec<Event>, generated: &str) -> (r: Option<UserPrompt>)
    ensures
        match r {
            Some(prompt) => user_prompt_in(event_views(events@)) == Some(prompt.text@) && prompt.id@
                == prompt_id(prompt.text@, generated@),
            None => user_prompt_in(event_views(events@)) is None,
        },
{
    let ghost all = event_views(events@);
    let ghost hits = Seq::new(
        all.len(),
        |i: int|
            if all[i].topic == "user.prompt"@ {
                Some(all[i].payload)
            } else {
                None
            },
    );
    let mut i: usize = 0;
    assert(hits.skip(0) == hits);
    while i < events.len()
        invariant
            i <= events.len(),
            all == event_views(events@),
            hits == Seq::new(
                all.len(),
                |i: int|
                    if all[i].topic == "user.prompt"@ {
                        Some(all[i].payload)
                    } else {
                        None
                    },
            ),
            first_of(hits) == first_of(hits.skip(i as int)),
        decreases events.len() - i,
    {
        proof {
            lemma_first_of(hits, i as int);
        }
        if str_eq(events[i].topic.as_str(), "user.prompt") {
            let payload = events[i].payload.as_str();
            return Some(
                UserPrompt { id: extract_prompt_id(payload, generated), text: payload.to_owned() },
            );
        }
        i = i + 1;
    }
    None
}

} // verus!
