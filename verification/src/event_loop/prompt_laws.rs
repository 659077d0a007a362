//! What holds of every prompt.
use crate::config::event_loop::EventLoopConfig;
use crate::config::scratchpad::ScratchpadConfig;
use crate::config::settings::{InjectMode, MemoriesConfig};
use crate::event_loop::event::EventView;
use crate::event_loop::processing_laws::lemma_first_at;
use crate::event_loop::prompt::{
    chosen_prompt_id, collected_events, drop_reports, guidance_in, has_own_place, id_attribute,
    id_member, injected_memories, is_guidance, memories_and_tools, newly_exhausted, plan_noted,
    planned, prompt_events, regular_in, scratchpad_in_use, skill_content, skill_hits,
    skills_prefix,
    user_prompt_in, with_custom_skills, with_section, with_skill, with_skills, MemoryText,
    PromptPlan, QueueView, Skill, SkillContext,
};
use crate::event_loop::queues::by_hat;
use crate::event_loop::registry::HatRegistry;
use crate::event_loop::routing::{
    active_hats, event_lines, exhausted, exhaustion_report, shown_events,
};
use crate::event_loop::processing::occurrences;
use crate::event_loop::state::LoopState;
use crate::text::{first_of, lemma_first_among, occurs, stands_at, texts, trimmed};
use serde_json::Value;
use vstd::prelude::*;

verus! {

// ---- skills ----

/// A skill is found by its name, the first where several share it, and none is found by a name that no
/// skill has.
pub proof fn law_skills_are_found_by_name(skills: Seq<Skill>, name: Seq<char>, i: int)
    ensures
        0 <= i < skills.len() && skills[i].name@ == name && (forall|j: int|
            0 <= j < i ==> (#[trigger] skills[j]).name@ != name) ==> skill_content(skills, name)
            == Some(skills[i].content@),
        (forall|j: int| 0 <= j < skills.len() ==> (#[trigger] skills[j]).name@ != name)
            ==> skill_content(skills, name) is None,
{
    let hits = skill_hits(skills, name);
    if 0 <= i < skills.len() && skills[i].name@ == name && (forall|j: int|
        0 <= j < i ==> (#[trigger] skills[j]).name@ != name) {
        assert forall|j: int| 0 <= j < i implies (#[trigger] hits[j]) is None by {
            assert(skills[j].name@ != name);
        }
        lemma_first_at(hits, i);
    }
    if forall|j: int| 0 <= j < skills.len() ==> (#[trigger] skills[j]).name@ != name {
        lemma_first_among(hits);
        if first_of(hits) is Some {
            let k = choose|k: int| 0 <= k < hits.len() && #[trigger] hits[k] == first_of(hits);
            assert(skills[k].name@ != name);
        }
    }
}

/// A section follows what is there, with a blank line between, and stands between its tags without the
/// blanks around its content.
pub proof fn law_sections_stand_between_their_tags(
    prefix: Seq<char>,
    tag: Seq<char>,
    content: Seq<char>,
)
    ensures
        ({
            let section = "<"@ + tag + "-skill>\n"@ + trimmed(content) + "\n</"@ + tag + "-skill>"@;
            &&& prefix.len() > 0 ==> with_section(prefix, tag, content) == prefix + "\n\n"@ + section
            &&& with_section(Seq::empty(), tag, content) == section
            &&& occurs(with_section(prefix, tag, content), section)
        }),
{
    let section = "<"@ + tag + "-skill>\n"@ + trimmed(content) + "\n</"@ + tag + "-skill>"@;
    assert(Seq::<char>::empty() + Seq::<char>::empty() + section == section);
    let whole = with_section(prefix, tag, content);
    let at = whole.len() - section.len();
    assert(whole.subrange(at, at + section.len()) == section);
    assert(stands_at(whole, section, at));
}

proof fn lemma_occurs_before(a: Seq<char>, b: Seq<char>, part: Seq<char>)
    requires
        occurs(a, part),
    ensures
        occurs(a + b, part),
{
    let i = choose|i: int| stands_at(a, part, i);
    assert((a + b).subrange(i, i + part.len()) == a.subrange(i, i + part.len()));
    assert(stands_at(a + b, part, i));
}

proof fn lemma_occurs_behind(a: Seq<char>, b: Seq<char>, part: Seq<char>)
    requires
        occurs(b, part),
    ensures
        occurs(a + b, part),
{
    let i = choose|i: int| stands_at(b, part, i);
    let j = a.len() + i;
    assert((a + b).subrange(j, j + part.len()) == b.subrange(i, i + part.len()));
    assert(stands_at(a + b, part, j));
}

proof fn lemma_kept_by_section(prefix: Seq<char>, tag: Seq<char>, content: Seq<char>, part: Seq<char>)
    requires
        occurs(prefix, part),
    ensures
        occurs(with_section(prefix, tag, content), part),
{
    let gap = if prefix.len() == 0 {
        Seq::empty()
    } else {
        "\n\n"@
    };
    let section = "<"@ + tag + "-skill>\n"@ + trimmed(content) + "\n</"@ + tag + "-skill>"@;
    assert(with_section(prefix, tag, content) == prefix + (gap + section));
    lemma_occurs_before(prefix, gap + section, part);
}

proof fn lemma_kept_by_skill(
    prefix: Seq<char>,
    wanted: bool,
    skills: Seq<Skill>,
    name: Seq<char>,
    tag: Seq<char>,
    part: Seq<char>,
)
    requires
        occurs(prefix, part),
    ensures
        occurs(with_skill(prefix, wanted, skills, name, tag), part),
{
    if wanted && skill_content(skills, name) is Some {
        lemma_kept_by_section(prefix, tag, skill_content(skills, name)->0, part);
    }
}

proof fn lemma_kept_by_custom(prefix: Seq<char>, auto_skills: Seq<Skill>, part: Seq<char>)
    requires
        occurs(prefix, part),
    ensures
        occurs(with_custom_skills(prefix, auto_skills), part),
    decreases auto_skills.len(),
{
    if auto_skills.len() > 0 {
        lemma_kept_by_custom(prefix, auto_skills.drop_last(), part);
        let skill = auto_skills.last();
        if !has_own_place(skill.name@) {
            lemma_kept_by_section(
                with_custom_skills(prefix, auto_skills.drop_last()),
                skill.name@,
                skill.content@,
                part,
            );
        }
    }
}

/// The section of a skill.
pub open spec fn section_of(tag: Seq<char>, content: Seq<char>) -> Seq<char> {
    "<"@ + tag + "-skill>\n"@ + trimmed(content) + "\n</"@ + tag + "-skill>"@
}

/// Every prompt shows the tools where memories or tasks are enabled, the tools of tasks where tasks are,
/// those of memories where memories are, and how to talk to a human where the robot is enabled: wherever
/// there is such a skill.
pub proof fn law_prompts_show_enabled_tools(
    config: MemoriesConfig,
    tasks_enabled: bool,
    robot_enabled: bool,
    context: SkillContext,
    content: Seq<char>,
)
    ensures
        (config.enabled || tasks_enabled) && skill_content(context.skills@, "ralph-tools"@) == Some(
            content,
        ) ==> occurs(
            skills_prefix(config, tasks_enabled, robot_enabled, context),
            section_of("ralph-tools"@, content),
        ),
        tasks_enabled && skill_content(context.skills@, "ralph-tools-tasks"@) == Some(content)
            ==> occurs(
            skills_prefix(config, tasks_enabled, robot_enabled, context),
            section_of("ralph-tools-tasks"@, content),
        ),
        config.enabled && skill_content(context.skills@, "ralph-tools-memories"@) == Some(content)
            ==> occurs(
            skills_prefix(config, tasks_enabled, robot_enabled, context),
            section_of("ralph-tools-memories"@, content),
        ),
        robot_enabled && skill_content(context.skills@, "robot-interaction"@) == Some(content)
            ==> occurs(
            skills_prefix(config, tasks_enabled, robot_enabled, context),
            section_of("robot"@, content),
        ),
{
    let skills = context.skills@;
    let p0 = injected_memories(config, context.memories);
    let p1 = with_skill(
        p0,
        config.enabled || tasks_enabled,
        skills,
        "ralph-tools"@,
        "ralph-tools"@,
    );
    let p2 = with_skill(p1, tasks_enabled, skills, "ralph-tools-tasks"@, "ralph-tools-tasks"@);
    let p3 = with_skill(
        p2,
        config.enabled,
        skills,
        "ralph-tools-memories"@,
        "ralph-tools-memories"@,
    );
    let p4 = with_skill(p3, robot_enabled, skills, "robot-interaction"@, "robot"@);
    law_sections_stand_between_their_tags(p0, "ralph-tools"@, content);
    law_sections_stand_between_their_tags(p1, "ralph-tools-tasks"@, content);
    law_sections_stand_between_their_tags(p2, "ralph-tools-memories"@, content);
    law_sections_stand_between_their_tags(p3, "robot"@, content);
    let tools = section_of("ralph-tools"@, content);
    let tasks = section_of("ralph-tools-tasks"@, content);
    let memories = section_of("ralph-tools-memories"@, content);
    let robot = section_of("robot"@, content);
    if occurs(p1, tools) {
        lemma_kept_by_skill(
            p1,
            tasks_enabled,
            skills,
            "ralph-tools-tasks"@,
            "ralph-tools-tasks"@,
            tools,
        );
        lemma_kept_by_skill(
            p2,
            config.enabled,
            skills,
            "ralph-tools-memories"@,
            "ralph-tools-memories"@,
            tools,
        );
        lemma_kept_by_skill(p3, robot_enabled, skills, "robot-interaction"@, "robot"@, tools);
        lemma_kept_by_custom(p4, context.auto_skills@, tools);
    }
    if occurs(p2, tasks) {
        lemma_kept_by_skill(
            p2,
            config.enabled,
            skills,
            "ralph-tools-memories"@,
            "ralph-tools-memories"@,
            tasks,
        );
        lemma_kept_by_skill(p3, robot_enabled, skills, "robot-interaction"@, "robot"@, tasks);
        lemma_kept_by_custom(p4, context.auto_skills@, tasks);
    }
    if occurs(p3, memories) {
        lemma_kept_by_skill(p3, robot_enabled, skills, "robot-interaction"@, "robot"@, memories);
        lemma_kept_by_custom(p4, context.auto_skills@, memories);
    }
    if occurs(p4, robot) {
        lemma_kept_by_custom(p4, context.auto_skills@, robot);
    }
}

/// No prompt shows the tools of what is not enabled: with everything off, only memories that are injected
/// and skills of the user are left, and the prompt itself where there are none.
pub proof fn law_prompts_show_nothing_that_is_off(
    prompt: Seq<char>,
    config: MemoriesConfig,
    context: SkillContext,
)
    requires
        !config.enabled,
        context.auto_skills@.len() == 0,
    ensures
        with_skills(prompt, config, false, false, context) == prompt,
{
}

/// What a prompt shows of one feature does not depend on the skills of another that is off.
pub proof fn law_tools_that_are_off_do_not_matter(
    config: MemoriesConfig,
    tasks_enabled: bool,
    memories: Option<MemoryText>,
    a: Seq<Skill>,
    b: Seq<Skill>,
)
    requires
        skill_content(a, "ralph-tools"@) == skill_content(b, "ralph-tools"@),
        tasks_enabled ==> skill_content(a, "ralph-tools-tasks"@) == skill_content(
            b,
            "ralph-tools-tasks"@,
        ),
        config.enabled ==> skill_content(a, "ralph-tools-memories"@) == skill_content(
            b,
            "ralph-tools-memories"@,
        ),
    ensures
        memories_and_tools(config, tasks_enabled, memories, a) == memories_and_tools(
            config,
            tasks_enabled,
            memories,
            b,
        ),
{
}

/// Memories are injected where they are enabled and injected by themselves: cut to the budget where there
/// is one, and whole where there is none.
pub proof fn law_memories_keep_to_their_budget(config: MemoriesConfig, memories: MemoryText)
    ensures
        config.enabled && config.inject == InjectMode::Auto && config.budget > 0
            ==> injected_memories(config, Some(memories)) == memories.within_budget@,
        config.enabled && config.inject == InjectMode::Auto && config.budget == 0
            ==> injected_memories(config, Some(memories)) == memories.full@,
        !config.enabled ==> injected_memories(config, Some(memories)).len() == 0,
        config.inject != InjectMode::Auto ==> injected_memories(config, Some(memories)).len() == 0,
        injected_memories(config, None).len() == 0,
{
}

/// A prompt stands behind its skills, unchanged.
pub proof fn law_prompts_stand_behind_their_skills(
    prompt: Seq<char>,
    config: MemoriesConfig,
    tasks_enabled: bool,
    robot_enabled: bool,
    context: SkillContext,
)
    ensures
        ({
            let whole = with_skills(prompt, config, tasks_enabled, robot_enabled, context);
            let prefix = skills_prefix(config, tasks_enabled, robot_enabled, context);
            &&& prefix.len() == 0 ==> whole == prompt
            &&& prefix.len() > 0 ==> whole == prefix + "\n\n"@ + prompt
        }),
{
}

/// The skills of the user are added one by one, in order. Those that have a place of their own are not
/// added twice.
pub proof fn law_skills_of_the_user_are_added_once(
    prefix: Seq<char>,
    a: Seq<Skill>,
    b: Seq<Skill>,
    skill: Skill,
)
    ensures
        with_custom_skills(prefix, a + b) == with_custom_skills(with_custom_skills(prefix, a), b),
        with_custom_skills(prefix, Seq::empty()) == prefix,
        skill.name@ == "ralph-tools"@ || skill.name@ == "ralph-tools-tasks"@ || skill.name@
            == "ralph-tools-memories"@ || skill.name@ == "robot-interaction"@ ==> with_custom_skills(
            prefix,
            seq![skill],
        ) == prefix,
        skill.name@ != "ralph-tools"@ && skill.name@ != "ralph-tools-tasks"@ && skill.name@
            != "ralph-tools-memories"@ && skill.name@ != "robot-interaction"@ ==> with_custom_skills(
            prefix,
            seq![skill],
        ) == with_section(prefix, skill.name@, skill.content@),
    decreases b.len(),
{
    reveal_with_fuel(with_custom_skills, 2);
    assert(seq![skill].drop_last() == Seq::<Skill>::empty());
    assert(seq![skill].last() == skill);
    if b.len() == 0 {
        assert(a + b == a);
    } else {
        law_skills_of_the_user_are_added_once(prefix, a, b.drop_last(), skill);
        assert((a + b).drop_last() == a + b.drop_last());
        assert((a + b).last() == b.last());
    }
}

// ---- queues ----

/// The events of a prompt are collected queue by queue.
pub proof fn law_queues_are_collected_one_by_one(
    registry: HatRegistry,
    state: LoopState,
    a: Seq<QueueView>,
    b: Seq<QueueView>,
)
    ensures
        collected_events(registry, state, a + b) == collected_events(registry, state, a)
            + collected_events(registry, state, b),
        drop_reports(registry, state, a + b) == drop_reports(registry, state, a) + drop_reports(
            registry,
            state,
            b,
        ),
        newly_exhausted(registry, state, a + b) == newly_exhausted(registry, state, a)
            + newly_exhausted(registry, state, b),
        collected_events(registry, state, Seq::empty()).len() == 0,
        drop_reports(registry, state, Seq::empty()).len() == 0,
        newly_exhausted(registry, state, Seq::empty()).len() == 0,
    decreases b.len(),
{
    if b.len() == 0 {
        assert(a + b == a);
    } else {
        law_queues_are_collected_one_by_one(registry, state, a, b.drop_last());
        assert((a + b).drop_last() == a + b.drop_last());
        assert((a + b).last() == b.last());
    }
}

/// The events of a hat are handed out as they are, unless its activations are used up: then they are
/// dropped, and that is reported in their place the first time.
pub proof fn law_exhausted_hats_get_no_events(
    registry: HatRegistry,
    state: LoopState,
    queue: QueueView,
)
    ensures
        ({
            let out = queue.events.len() > 0 && exhausted(registry, state, queue.hat_id);
            let known = texts(state.exhausted_hats@).contains(queue.hat_id);
            let report = exhaustion_report(registry, state, queue.hat_id, queue.events);
            let one = seq![queue];
            &&& !out ==> collected_events(registry, state, one) == queue.events && drop_reports(
                registry,
                state,
                one,
            ).len() == 0 && newly_exhausted(registry, state, one).len() == 0
            &&& out && known ==> collected_events(registry, state, one).len() == 0 && drop_reports(
                registry,
                state,
                one,
            ).len() == 0 && newly_exhausted(registry, state, one).len() == 0
            &&& out && !known ==> collected_events(registry, state, one) == seq![report]
                && drop_reports(registry, state, one) == seq![report] && newly_exhausted(
                registry,
                state,
                one,
            ) == seq![queue.hat_id]
        }),
{
    reveal_with_fuel(collected_events, 2);
    reveal_with_fuel(drop_reports, 2);
    reveal_with_fuel(newly_exhausted, 2);
    assert(seq![queue].drop_last() == Seq::<QueueView>::empty());
    assert(seq![queue].last() == queue);
    assert(Seq::<EventView>::empty() + queue.events == queue.events);
}

/// The events of a prompt are those of the hats, in the order of the hats, and then those of a human.
pub proof fn law_events_of_a_human_come_last(
    registry: HatRegistry,
    state: LoopState,
    queues: Seq<QueueView>,
    human: Seq<EventView>,
    i: int,
)
    requires
        0 <= i < human.len(),
    ensures
        ({
            let all = prompt_events(registry, state, queues, human);
            let own = collected_events(registry, state, by_hat(queues));
            &&& all.len() == own.len() + human.len()
            &&& all[own.len() + i] == human[i]
            &&& all.take(own.len() as int) == own
        }),
{
    let own = collected_events(registry, state, by_hat(queues));
    assert(prompt_events(registry, state, queues, human).take(own.len() as int) == own);
}

/// Guidance is told from other events by its topic, event by event: its payload is guidance, and it is not
/// among the events that are shown.
pub proof fn law_guidance_is_parted_from_events(
    a: Seq<EventView>,
    b: Seq<EventView>,
    event: EventView,
)
    ensures
        guidance_in(a + b) == guidance_in(a) + guidance_in(b),
        regular_in(a + b) == regular_in(a) + regular_in(b),
        event.topic == "human.guidance"@ ==> guidance_in(seq![event]) == seq![event.payload]
            && regular_in(seq![event]).len() == 0,
        event.topic != "human.guidance"@ ==> guidance_in(seq![event]).len() == 0 && regular_in(
            seq![event],
        ) == seq![event],
        guidance_in(Seq::empty()).len() == 0,
        regular_in(Seq::empty()).len() == 0,
{
    let guiding = |e: EventView| is_guidance(e);
    let regular = |e: EventView| !is_guidance(e);
    let payload = |e: EventView| e.payload;
    Seq::filter_distributes_over_add(a, b, guiding);
    Seq::filter_distributes_over_add(a, b, regular);
    assert((a.filter(guiding) + b.filter(guiding)).map_values(payload) == a.filter(
        guiding,
    ).map_values(payload) + b.filter(guiding).map_values(payload));
    reveal(Seq::filter);
    reveal_with_fuel(Seq::filter, 2);
    assert(seq![event].drop_last() == Seq::<EventView>::empty());
    assert(seq![event].last() == event);
    assert(Seq::<EventView>::empty().push(event) == seq![event]);
    assert(seq![event].map_values(payload) == seq![event.payload]);
}

// ---- plans ----

/// A plan shows what events there are besides guidance, hands guidance out, names the hats that the events
/// activate and reports whatever was dropped.
pub proof fn law_plans_follow_their_events(
    config: EventLoopConfig,
    registry: HatRegistry,
    global: ScratchpadConfig,
    state: LoopState,
    queues: Seq<QueueView>,
    human: Seq<EventView>,
    plan: PromptPlan,
)
    requires
        planned(config, registry, global, state, queues, human, plan),
    ensures
        ({
            let events = collected_events(registry, state, by_hat(queues)) + human;
            &&& plan.events_context@ == event_lines(shown_events(regular_in(events)))
            &&& texts(plan.active_hat_ids@) == active_hats(config, registry, regular_in(events))
            &&& texts(plan.guidance@) == guidance_in(events)
            &&& plan.reports@.len() == drop_reports(registry, state, by_hat(queues)).len()
        }),
{
    assert(crate::event_loop::event::event_views(plan.reports@).len() == plan.reports@.len());
}

/// A hat that is the first active one uses its own scratchpad where it has one, and all others the common
/// one.
pub proof fn law_hats_use_their_own_scratchpad(
    registry: HatRegistry,
    active: Seq<Seq<char>>,
    global: ScratchpadConfig,
)
    ensures
        active.len() == 0 ==> scratchpad_in_use(registry, active, global) == global,
        active.len() > 0 && registry.definition(active[0]) is None ==> scratchpad_in_use(
            registry,
            active,
            global,
        ) == global,
        active.len() > 0 && registry.definition(active[0]) is Some ==> scratchpad_in_use(
            registry,
            active,
            global,
        ) == (match registry.definition(active[0])->0.scratchpad {
            Some(own) => own,
            None => global,
        }),
{
}

/// A plan is noted: the active hats are the last active ones, each is activated once more, hats that ran
/// out are added to those known to have, and nothing else changes.
pub proof fn law_plans_are_noted(
    config: EventLoopConfig,
    registry: HatRegistry,
    before: LoopState,
    after: LoopState,
    queues: Seq<QueueView>,
    human: Seq<EventView>,
    id: Seq<char>,
)
    requires
        plan_noted(config, registry, before, after, queues, human),
    ensures
        ({
            let events = collected_events(registry, before, by_hat(queues)) + human;
            let active = active_hats(config, registry, regular_in(events));
            &&& texts(after.last_active_hat_ids@) == active
            &&& after.hat_activation_counts.count(id) == before.hat_activation_counts.count(id)
                + occurrences(active, id)
            &&& texts(after.exhausted_hats@) == texts(before.exhausted_hats@) + newly_exhausted(
                registry,
                before,
                by_hat(queues),
            )
        }),
        after.iteration == before.iteration,
        after.consecutive_failures == before.consecutive_failures,
        after.consecutive_malformed_events == before.consecutive_malformed_events,
        after.consecutive_blocked == before.consecutive_blocked,
        after.task_block_counts == before.task_block_counts,
        after.abandoned_tasks == before.abandoned_tasks,
        after.cancellation_requested == before.cancellation_requested,
        after.completion_requested == before.completion_requested,
        after.last_hat == before.last_hat,
{
}

// ---- prompts of the user ----

/// The prompt of a user is the payload of the first event that brings one, and there is none where no
/// event does.
pub proof fn law_the_first_user_prompt_counts(events: Seq<EventView>, i: int)
    ensures
        0 <= i < events.len() && events[i].topic == "user.prompt"@ && (forall|j: int|
            0 <= j < i ==> (#[trigger] events[j]).topic != "user.prompt"@) ==> user_prompt_in(events)
            == Some(events[i].payload),
        (forall|j: int| 0 <= j < events.len() ==> (#[trigger] events[j]).topic != "user.prompt"@)
            ==> user_prompt_in(events) is None,
{
    let hits = Seq::new(
        events.len(),
        |i: int|
            if events[i].topic == "user.prompt"@ {
                Some(events[i].payload)
            } else {
                None
            },
    );
    assert(user_prompt_in(events) == first_of(hits));
    if 0 <= i < events.len() && events[i].topic == "user.prompt"@ && (forall|j: int|
        0 <= j < i ==> (#[trigger] events[j]).topic != "user.prompt"@) {
        assert forall|j: int| 0 <= j < i implies (#[trigger] hits[j]) is None by {
            assert(events[j].topic != "user.prompt"@);
        }
        lemma_first_at(hits, i);
    }
    if forall|j: int| 0 <= j < events.len() ==> (#[trigger] events[j]).topic != "user.prompt"@ {
        lemma_first_among(hits);
        if first_of(hits) is Some {
            let k = choose|k: int| 0 <= k < hits.len() && #[trigger] hits[k] == first_of(hits);
            assert(events[k].topic != "user.prompt"@);
        }
    }
}

/// A prompt is known by the identifier that its payload names: as an attribute before a member, and by one
/// of its own where it names none.
pub proof fn law_prompts_keep_their_identifier(
    payload: Seq<char>,
    read: Result<Value, Seq<char>>,
    generated: Seq<char>,
)
    ensures
        id_attribute(payload) is Some ==> chosen_prompt_id(payload, read, generated)
            == id_attribute(payload)->0,
        id_attribute(payload) is None && id_member(read) is Some ==> chosen_prompt_id(
            payload,
            read,
            generated,
        ) == id_member(read)->0,
        id_attribute(payload) is None && id_member(read) is None ==> chosen_prompt_id(
            payload,
            read,
            generated,
        ) == "q"@ + generated,
        read is Err ==> id_member(read) is None,
        !occurs(payload, "id=\""@) ==> id_attribute(payload) is None,
{
}

} // verus!
