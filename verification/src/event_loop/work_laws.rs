//! What holds of tasks, scratchpads, questions and the state of a loop, whatever the work is.
use crate::config::ralph_config::RalphConfig;
use crate::config::scratchpad::ScratchpadConfig;
use crate::event_loop::building::{indexed, keeps_skill, pending_of, queue_hits, reader_path};
use crate::event_loop::event::{EventView, IncomingView, ReadView};
use crate::event_loop::guidance::{context_of, guidance_entry_text};
use crate::event_loop::mutation::{
    mutation_reason, mutation_warning, MutationEvidence, MutationScore, MutationStatus,
};
use crate::event_loop::orchestrator::{
    audit_events, checkin_due, output_noted, starting_topic, unread_question, without_waves,
    write_restricted,
};
use crate::event_loop::processing::payload_of;
use crate::event_loop::processing_laws::lemma_first_at;
use crate::event_loop::prompt::QueueView;
use crate::event_loop::registry::HatRegistry;
use crate::event_loop::routing::{default_event, default_topic, dispatches_wave};
use crate::event_loop::scratchpad::{
    active_path, guidance_file, has_open_box, headings_of, is_heading, left_off, omission_note,
    scratchpad_status, shown_scratchpad, with_scratchpad, ScratchpadStatus,
};
use crate::event_loop::state::{count_in, Counter, LoopState};
use crate::event_loop::tasks::{
    blocked_line, blocked_of, blocked_part, closed_tasks, concatenated, listed, loop_tasks,
    marked_loop, ready_line, ready_lines, task_label, task_views, with_tasks,
    TaskLists, TaskStatus, TaskView,
};
use crate::json::{json_object, json_of_text, no_entries};
use crate::path::path_below;
use crate::text::{
    blank, byte_len, decimal, first_of, joined, lemma_first_among, lines_of, texts, trimmed,
    trimmed_start,
};
use serde_json::Value;
use vstd::prelude::*;

verus! {

// ---- tasks ----

/// A loop sees its tasks one by one: those that carry its identifier, and all where it has none.
pub proof fn law_tasks_are_seen_by_their_loop(
    a: Seq<TaskView>,
    b: Seq<TaskView>,
    task: TaskView,
    loop_id: Option<Seq<char>>,
)
    ensures
        loop_tasks(a + b, loop_id) == loop_tasks(a, loop_id) + loop_tasks(b, loop_id),
        loop_id is None || task.loop_id == loop_id ==> loop_tasks(seq![task], loop_id) == seq![task],
        loop_id is Some && task.loop_id != loop_id ==> loop_tasks(seq![task], loop_id).len() == 0,
        loop_tasks(Seq::empty(), loop_id).len() == 0,
{
    let own = |t: TaskView| crate::event_loop::tasks::in_loop(t, loop_id);
    Seq::filter_distributes_over_add(a, b, own);
    reveal(Seq::filter);
    reveal_with_fuel(Seq::filter, 2);
    assert(seq![task].drop_last() == Seq::<TaskView>::empty());
    assert(seq![task].last() == task);
    assert(Seq::<TaskView>::empty().push(task) == seq![task]);
}

/// Closed tasks are counted one by one.
pub proof fn law_closed_tasks_are_counted(a: Seq<TaskView>, b: Seq<TaskView>, task: TaskView)
    ensures
        closed_tasks(a + b) == closed_tasks(a) + closed_tasks(b),
        closed_tasks(seq![task]).len() == (if task.status == TaskStatus::Closed {
            1nat
        } else {
            0nat
        }),
        closed_tasks(Seq::empty()).len() == 0,
{
    Seq::filter_distributes_over_add(a, b, |t: TaskView| t.status == TaskStatus::Closed);
    reveal(Seq::filter);
    reveal_with_fuel(Seq::filter, 2);
    assert(seq![task].drop_last() == Seq::<TaskView>::empty());
    assert(seq![task].last() == task);
}

/// The marker of a loop names it without the blanks around it, and a blank marker names none.
pub proof fn law_markers_name_their_loop(text: Seq<char>)
    ensures
        trimmed(text).len() > 0 ==> marked_loop(Some(text)) == Some(trimmed(text)),
        trimmed(text).len() == 0 ==> marked_loop(Some(text)) is None,
        marked_loop(None) is None,
{
}

/// A task is shown by its title and its identifier.
pub proof fn law_tasks_are_shown_by_title(task: TaskView)
    ensures
        task_label(task) == task.id + ": "@ + task.title,
        ({
            let mark = match task.status {
                TaskStatus::Open => "[ ]"@,
                TaskStatus::InProgress => "[~]"@,
                _ => "[?]"@,
            };
            let line = "- "@ + mark + " [P"@ + decimal(task.priority as nat) + "] "@ + task.title
                + " ("@ + task.id + ")"@;
            let blocked = "- [blocked] [P"@ + decimal(task.priority as nat) + "] "@ + task.title
                + " ("@ + task.id + ")"@;
            let by = " — blocked by: "@ + joined(task.blocked_by, ", "@) + "\n"@;
            match task.key {
                Some(key) => ready_line(task) == line + (" — key: "@ + key) + "\n"@ && blocked_line(
                    task,
                ) == blocked + (" — key: "@ + key) + by,
                None => ready_line(task) == line + "\n"@ && blocked_line(task) == blocked + by,
            }
        }),
{
    let mark = match task.status {
        TaskStatus::Open => "[ ]"@,
        TaskStatus::InProgress => "[~]"@,
        _ => "[?]"@,
    };
    let line = "- "@ + mark + " [P"@ + decimal(task.priority as nat) + "] "@ + task.title + " ("@
        + task.id + ")"@;
    let blocked = "- [blocked] [P"@ + decimal(task.priority as nat) + "] "@ + task.title + " ("@
        + task.id + ")"@;
    assert(line + Seq::<char>::empty() == line);
    assert(blocked + Seq::<char>::empty() == blocked);
    assert(ready_line(task) == line + crate::event_loop::tasks::key_suffix(task) + "\n"@);
    let by = " — blocked by: "@ + joined(task.blocked_by, ", "@) + "\n"@;
    assert(blocked_line(task) == blocked + crate::event_loop::tasks::key_suffix(task) + by);
}

/// Lines follow each other as they are.
pub proof fn law_lines_follow_each_other(a: Seq<Seq<char>>, b: Seq<Seq<char>>, line: Seq<char>)
    ensures
        concatenated(a + b) == concatenated(a) + concatenated(b),
        concatenated(seq![line]) == line,
        concatenated(Seq::empty()).len() == 0,
    decreases b.len(),
{
    reveal_with_fuel(concatenated, 2);
    assert(seq![line].drop_last() == Seq::<Seq<char>>::empty());
    assert(Seq::<char>::empty() + line == line);
    if b.len() == 0 {
        assert(a + b == a);
        assert(concatenated(a) + concatenated(b) == concatenated(a));
    } else {
        law_lines_follow_each_other(a, b.drop_last(), line);
        assert((a + b).drop_last() == a + b.drop_last());
        assert((a + b).last() == b.last());
        assert(concatenated(a) + (concatenated(b.drop_last()) + b.last()) == (concatenated(a)
            + concatenated(b.drop_last())) + b.last());
    }
}

/// Ready tasks are shown line by line, in order.
pub proof fn law_ready_tasks_are_shown_in_order(a: Seq<TaskView>, b: Seq<TaskView>, task: TaskView)
    ensures
        ready_lines(a + b) == ready_lines(a) + ready_lines(b),
        ready_lines(seq![task]) == ready_line(task),
{
    let line = |t: TaskView| ready_line(t);
    assert((a + b).map_values(line) == a.map_values(line) + b.map_values(line));
    assert(seq![task].map_values(line) == seq![ready_line(task)]);
    law_lines_follow_each_other(a.map_values(line), b.map_values(line), ready_line(task));
}

/// An open task is blocked where no ready task has its identifier, and blocked tasks are told one by one.
pub proof fn law_open_tasks_are_ready_or_blocked(
    ready: Seq<TaskView>,
    a: Seq<TaskView>,
    b: Seq<TaskView>,
    task: TaskView,
)
    ensures
        blocked_of(ready, a + b) == blocked_of(ready, a) + blocked_of(ready, b),
        (exists|i: int| 0 <= i < ready.len() && (#[trigger] ready[i]).id == task.id) ==> blocked_of(
            ready,
            seq![task],
        ).len() == 0,
        !(exists|i: int| 0 <= i < ready.len() && (#[trigger] ready[i]).id == task.id) ==> blocked_of(
            ready,
            seq![task],
        ) == seq![task],
        blocked_part(Seq::empty()).len() == 0,
        blocked_part(seq![task]) == "\nBlocked:\n"@ + blocked_line(task),
{
    let blocked = |t: TaskView| !listed(ready, t);
    Seq::filter_distributes_over_add(a, b, blocked);
    reveal(Seq::filter);
    reveal_with_fuel(Seq::filter, 2);
    assert(seq![task].drop_last() == Seq::<TaskView>::empty());
    assert(seq![task].last() == task);
    assert(Seq::<TaskView>::empty().push(task) == seq![task]);
    let line = |t: TaskView| blocked_line(t);
    assert(seq![task].map_values(line) == seq![blocked_line(task)]);
    law_lines_follow_each_other(Seq::empty(), Seq::empty(), blocked_line(task));
}

/// The part of a prompt that shows tasks counts those that are ready, open and closed, and says so where
/// none is open. A loop without tasks shows nothing of them.
pub proof fn law_prompts_count_their_tasks(
    prompt: Seq<char>,
    lists: TaskLists,
    loop_id: Option<Seq<char>>,
)
    ensures
        ({
            let ready = loop_tasks(task_views(lists.ready@), loop_id);
            let open = loop_tasks(task_views(lists.open@), loop_id);
            let all = loop_tasks(task_views(lists.all@), loop_id);
            &&& open.len() == 0 && all.len() == 0 ==> with_tasks(prompt, lists, loop_id) == prompt
            &&& (open.len() > 0 || all.len() > 0) && ready.len() == 0 && open.len() == 0
                ==> with_tasks(prompt, lists, loop_id)
                == "<ready-tasks>\n"@ + "No open tasks. Create tasks with `ralph tools task add`.\n"@
                + "</ready-tasks>\n\n"@ + prompt
            &&& open.len() > 0 && open.len() <= all.len() ==> with_tasks(prompt, lists, loop_id)
                == "<ready-tasks>\n"@ + ("## Tasks: "@ + decimal(ready.len()) + " ready, "@
                + decimal(open.len()) + " open, "@ + decimal((all.len() - open.len()) as nat)
                + " closed\n\n"@ + ready_lines(ready) + blocked_part(blocked_of(ready, open)))
                + "</ready-tasks>\n\n"@ + prompt
        }),
{
}

// ---- scratchpads ----

/// A scratchpad is shown before the prompt, under its path, where it is enabled and not blank, and the
/// prompt stands unchanged behind it.
pub proof fn law_scratchpads_are_shown_where_enabled(
    prompt: Seq<char>,
    scratchpad: ScratchpadConfig,
    content: Seq<char>,
)
    ensures
        !scratchpad.enabled ==> with_scratchpad(prompt, scratchpad, Some(content)) == prompt,
        blank(content) ==> with_scratchpad(prompt, scratchpad, Some(content)) == prompt,
        with_scratchpad(prompt, scratchpad, None) == prompt,
        scratchpad.enabled && !blank(content) ==> with_scratchpad(
            prompt,
            scratchpad,
            Some(content),
        ) == "<scratchpad path=\""@ + scratchpad.path@ + "\">\n"@ + shown_scratchpad(content)
            + "\n</scratchpad>\n\n"@ + prompt,
{
}

/// Of a long scratchpad the end is shown, behind a note that counts what was left off and lists its
/// headings; a short one is shown as it is.
pub proof fn law_long_scratchpads_say_what_they_left_off(content: Seq<char>)
    ensures
        byte_len(content) <= 16000 ==> shown_scratchpad(content) == content,
        byte_len(content) > 16000 ==> shown_scratchpad(content) == omission_note(
            content.take(left_off(content)),
        ) + "\n\n"@ + content.skip(left_off(content)),
{
}

/// The note of what was left off counts its bytes, and names its headings where there are any.
pub proof fn law_omissions_are_noted(discarded: Seq<char>)
    ensures
        headings_of(discarded).len() == 0 ==> omission_note(discarded)
            == "<!-- earlier content truncated ("@ + decimal(byte_len(discarded))
            + " chars omitted) -->"@,
        headings_of(discarded).len() > 0 ==> omission_note(discarded)
            == "<!-- earlier content truncated ("@ + decimal(byte_len(discarded))
            + " chars omitted) -->"@ + "\n<!-- discarded sections: "@ + joined(
            headings_of(discarded),
            " | "@,
        ) + " -->"@,
{
}

proof fn lemma_filtered_is_there(s: Seq<Seq<char>>, keep: spec_fn(Seq<char>) -> bool, i: int)
    requires
        0 <= i < s.filter(keep).len(),
    ensures
        s.contains(s.filter(keep)[i]),
    decreases s.len(),
{
    reveal(Seq::filter);
    if s.len() > 0 {
        let init = s.drop_last();
        if i < init.filter(keep).len() {
            lemma_filtered_is_there(init, keep, i);
            let k = init.index_of(init.filter(keep)[i]);
            assert(s[k] == init[k]);
        } else {
            assert(s[s.len() - 1] == s.last());
        }
    }
}

/// Headings are the lines that start with a hash, all of them and no others.
pub proof fn law_headings_start_with_a_hash(text: Seq<char>, i: int)
    ensures
        0 <= i < lines_of(text).len() && lines_of(text)[i].len() > 0 && lines_of(text)[i][0] == '#'
            ==> headings_of(text).contains(lines_of(text)[i]),
        0 <= i < headings_of(text).len() ==> headings_of(text)[i].len() > 0 && headings_of(
            text,
        )[i][0] == '#' && lines_of(text).contains(headings_of(text)[i]),
{
    let heading = |line: Seq<char>| is_heading(line);
    broadcast use vstd::seq_lib::group_filter_ensures;

    if 0 <= i < lines_of(text).len() && lines_of(text)[i].len() > 0 && lines_of(text)[i][0] == '#' {
        assert(heading(lines_of(text)[i]));
        assert(lines_of(text).contains(lines_of(text)[i]));
        assert(lines_of(text).filter(heading).contains(lines_of(text)[i]));
    }
    if 0 <= i < headings_of(text).len() {
        assert(heading(lines_of(text).filter(heading)[i]));
        lemma_filtered_is_there(lines_of(text), heading, i);
    }
}

/// Work is pending as long as any line of the scratchpad holds an open box. Without a scratchpad in use
/// nothing is, and one that is in use and not there is told apart.
pub proof fn law_open_boxes_are_pending_work(content: Seq<char>, i: int)
    ensures
        0 <= i < lines_of(content).len() && trimmed_start(lines_of(content)[i]).len() >= 5
            && trimmed_start(lines_of(content)[i]).take(5) == "- [ ]"@ ==> has_open_box(content)
            && scratchpad_status(true, Some(content)) == ScratchpadStatus::Pending,
        (forall|j: int|
            0 <= j < lines_of(content).len() ==> !crate::text::has_prefix(
                trimmed_start(#[trigger] lines_of(content)[j]),
                "- [ ]"@,
            )) ==> scratchpad_status(true, Some(content)) == ScratchpadStatus::Complete,
        scratchpad_status(false, Some(content)) == ScratchpadStatus::Complete,
        scratchpad_status(false, None) == ScratchpadStatus::Complete,
        scratchpad_status(true, None) == ScratchpadStatus::Missing,
{
    reveal_strlit("- [ ]");
    assert("- [ ]"@.len() == 5);
    if 0 <= i < lines_of(content).len() && trimmed_start(lines_of(content)[i]).len() >= 5
        && trimmed_start(lines_of(content)[i]).take(5) == "- [ ]"@ {
        let line = trimmed_start(lines_of(content)[i]);
        assert(line.subrange(0, 5) == line.take(5));
        assert(crate::event_loop::scratchpad::is_open_box(lines_of(content)[i]));
    }
    if has_open_box(content) {
        let j = choose|j: int|
            0 <= j < lines_of(content).len() && crate::event_loop::scratchpad::is_open_box(
                #[trigger] lines_of(content)[j],
            );
        assert(crate::text::has_prefix(trimmed_start(lines_of(content)[j]), "- [ ]"@));
    }
}

/// A scratchpad lies below the workspace, where there is one.
pub proof fn law_scratchpads_lie_below_the_workspace(scratchpad: ScratchpadConfig, dir: Seq<char>)
    ensures
        active_path(scratchpad, Some(dir)) == path_below(dir, scratchpad.path@),
        active_path(scratchpad, None) == scratchpad.path@,
{
}

/// Guidance is written to the scratchpad in use, else to the common one, which a loop may have in a place
/// of its own, and nowhere where both are off.
pub proof fn law_guidance_goes_to_the_scratchpad_in_use(
    active: ScratchpadConfig,
    global: ScratchpadConfig,
    workspace: Option<Seq<char>>,
    own: Seq<char>,
    loop_global: Option<Seq<char>>,
    root: Seq<char>,
)
    ensures
        active.enabled ==> guidance_file(active, global, workspace, loop_global, root) == Some(
            path_below(root, active_path(active, workspace)),
        ),
        !active.enabled && global.enabled ==> guidance_file(
            active,
            global,
            workspace,
            Some(own),
            root,
        ) == Some(path_below(root, own)),
        !active.enabled && global.enabled ==> guidance_file(active, global, workspace, None, root)
            == Some(path_below(root, global.path@)),
        !active.enabled && !global.enabled ==> guidance_file(
            active,
            global,
            workspace,
            loop_global,
            root,
        ) is None,
{
}

// ---- questions and guidance ----

/// The context of a question always holds the question, and keeps whatever else was told with it.
pub proof fn law_contexts_hold_their_question(
    payload: Seq<char>,
    value: Value,
    message: Seq<char>,
    key: Seq<char>,
)
    ensures
        context_of(payload, Ok(value)).contains_key("question"@),
        context_of(payload, Err(message)) == no_entries().insert(
            "question"@,
            json_of_text(payload),
        ),
        json_object(value) is None ==> context_of(payload, Ok(value)) == no_entries().insert(
            "question"@,
            value,
        ),
        json_object(value) is Some && json_object(value)->0.contains_key(key) ==> context_of(
            payload,
            Ok(value),
        ).contains_key(key) && context_of(payload, Ok(value))[key] == json_object(value)->0[key],
        json_object(value) is Some && !json_object(value)->0.contains_key("question"@)
            ==> context_of(payload, Ok(value))["question"@] == json_of_text(payload),
{
}

/// The question that is asked before events are taken in is the first one among them.
pub proof fn law_the_first_unread_question_counts(events: Seq<IncomingView>, i: int)
    ensures
        0 <= i < events.len() && events[i].topic == "human.interact"@ && (forall|j: int|
            0 <= j < i ==> (#[trigger] events[j]).topic != "human.interact"@) ==> unread_question(
            events,
        ) == Some(
            match events[i].payload {
                Some(payload) => payload,
                None => Seq::empty(),
            },
        ),
        (forall|j: int| 0 <= j < events.len() ==> (#[trigger] events[j]).topic != "human.interact"@)
            ==> unread_question(events) is None,
{
    let hits = Seq::new(
        events.len(),
        |i: int|
            if events[i].topic == "human.interact"@ {
                Some(payload_of(events[i]))
            } else {
                None
            },
    );
    assert(unread_question(events) == first_of(hits));
    if 0 <= i < events.len() && events[i].topic == "human.interact"@ && (forall|j: int|
        0 <= j < i ==> (#[trigger] events[j]).topic != "human.interact"@) {
        assert forall|j: int| 0 <= j < i implies (#[trigger] hits[j]) is None by {
            assert(events[j].topic != "human.interact"@);
        }
        lemma_first_at(hits, i);
    }
    if forall|j: int| 0 <= j < events.len() ==> (#[trigger] events[j]).topic != "human.interact"@ {
        lemma_first_among(hits);
        if first_of(hits) is Some {
            let k = choose|k: int| 0 <= k < hits.len() && #[trigger] hits[k] == first_of(hits);
            assert(events[k].topic != "human.interact"@);
        }
    }
}

/// Guidance is written down under its time.
pub proof fn law_guidance_is_written_under_its_time(timestamp: Seq<char>, message: Seq<char>)
    ensures
        guidance_entry_text(timestamp, message) == "\n### HUMAN GUIDANCE ("@ + timestamp + ")\n\n"@
            + message + "\n"@,
{
}

// ---- outputs ----

/// A hat that may not edit or may not write is held to it: changes that it made are reported under its
/// name. Nothing is reported of a hat that may do both, nor without changes.
pub proof fn law_restricted_hats_are_held_to_it(
    registry: HatRegistry,
    id: Seq<char>,
    diff: Seq<char>,
)
    ensures
        registry.definition(id) is None ==> !write_restricted(registry, id),
        registry.definition(id) is Some ==> {
            let tools = registry.definition(id)->0.disallowed_tools@;
            write_restricted(registry, id) <==> exists|i: int|
                0 <= i < tools.len() && ((#[trigger] tools[i])@ == "Edit"@ || tools[i]@
                    == "Write"@)
        },
        write_restricted(registry, id) && diff.len() > 0 ==> audit_events(registry, id, Some(diff))
            == seq![
            EventView {
                topic: id + ".scope_violation"@,
                payload: "Hat '"@ + id + "' modified files with Edit/Write disallowed:\n"@
                    + trimmed(diff),
                source: None,
                target: None,
            },
        ],
        !write_restricted(registry, id) || diff.len() == 0 ==> audit_events(
            registry,
            id,
            Some(diff),
        ).len() == 0,
        audit_events(registry, id, None).len() == 0,
{
    if registry.definition(id) is Some {
        let tools = registry.definition(id)->0.disallowed_tools@;
        let names = texts(tools);
        if names.contains("Edit"@) {
            let i = names.index_of("Edit"@);
            assert(tools[i]@ == "Edit"@);
        }
        if names.contains("Write"@) {
            let i = names.index_of("Write"@);
            assert(tools[i]@ == "Write"@);
        }
        if exists|i: int|
            0 <= i < tools.len() && ((#[trigger] tools[i])@ == "Edit"@ || tools[i]@ == "Write"@) {
            let i = choose|i: int|
                0 <= i < tools.len() && ((#[trigger] tools[i])@ == "Edit"@ || tools[i]@
                    == "Write"@);
            assert(names[i] == tools[i]@);
        }
    }
}

/// Every output counts as an iteration of its hat. Failures in a row are counted, and a success ends the
/// row. Nothing else of the state changes.
pub proof fn law_outputs_are_counted(
    before: LoopState,
    after: LoopState,
    id: Seq<char>,
    success: bool,
)
    requires
        output_noted(before, after, id, success),
    ensures
        after.iteration == before.iteration + 1,
        after.last_hat is Some && after.last_hat->0@ == id,
        success ==> after.consecutive_failures == 0,
        !success ==> after.consecutive_failures == before.consecutive_failures + 1,
        after.consecutive_malformed_events == before.consecutive_malformed_events,
        after.consecutive_blocked == before.consecutive_blocked,
        after.task_block_counts == before.task_block_counts,
        after.abandoned_tasks == before.abandoned_tasks,
        after.cancellation_requested == before.cancellation_requested,
        after.completion_requested == before.completion_requested,
        after.last_active_hat_ids == before.last_active_hat_ids,
        after.hat_activation_counts == before.hat_activation_counts,
        after.exhausted_hats == before.exhausted_hats,
{
}

/// A human is told that the loop still runs once the interval has passed since the last time, or since the
/// start of the loop where there was none. Without a robot or an interval that never comes.
pub proof fn law_checkins_keep_their_interval(
    seconds: u64,
    elapsed: u128,
    since: u128,
    last: Option<u128>,
)
    ensures
        checkin_due(Some(seconds), true, elapsed, Some(since)) <==> since >= seconds * 1_000_000_000,
        checkin_due(Some(seconds), true, elapsed, None) <==> elapsed >= seconds * 1_000_000_000,
        !checkin_due(Some(seconds), false, elapsed, last),
        !checkin_due(None, true, elapsed, last),
{
}

/// A loop that is resumed starts with `task.resume`; a fresh one starts with the configured event, or with
/// `task.start` where none is configured.
pub proof fn law_loops_start_with_their_topic(topic: Seq<char>, starting: Option<Seq<char>>)
    ensures
        starting_topic(starting, true) == "task.resume"@,
        starting_topic(Some(topic), false) == topic,
        starting_topic(None, false) == "task.start"@,
{
}

/// The default event of a hat has its topic, no payload, and the hat as its source.
pub proof fn law_default_events_come_from_their_hat(registry: HatRegistry, id: Seq<char>)
    ensures
        default_topic(registry, id) is None ==> default_event(registry, id) is None,
        default_topic(registry, id) is Some ==> default_event(registry, id) == Some(
            EventView {
                topic: default_topic(registry, id)->0,
                payload: Seq::empty(),
                source: Some(id),
                target: None,
            },
        ),
{
}

/// What is left of a batch once its waves are parted from it goes event by event, and no malformed line is
/// lost.
pub proof fn law_waves_are_parted_event_by_event(
    registry: HatRegistry,
    read: ReadView,
    more: Seq<IncomingView>,
    event: IncomingView,
)
    ensures
        without_waves(registry, ReadView { events: read.events + more, ..read }).events
            == without_waves(registry, read).events + without_waves(
            registry,
            ReadView { events: more, ..read },
        ).events,
        without_waves(registry, ReadView { events: seq![event], ..read }).events == (
        if dispatches_wave(registry, event) {
            Seq::empty()
        } else {
            seq![event]
        }),
        without_waves(registry, read).malformed == read.malformed,
{
    let other = |e: IncomingView| !dispatches_wave(registry, e);
    Seq::filter_distributes_over_add(read.events, more, other);
    reveal(Seq::filter);
    reveal_with_fuel(Seq::filter, 2);
    assert(seq![event].drop_last() == Seq::<IncomingView>::empty());
    assert(seq![event].last() == event);
    assert(Seq::<IncomingView>::empty().push(event) == seq![event]);
}

/// What is counted of a key is what its first entry holds, and nothing where it has none.
pub proof fn law_counts_are_those_of_the_first_entry(entries: Seq<Counter>, key: Seq<char>, i: int)
    ensures
        0 <= i < entries.len() && entries[i].key@ == key && (forall|j: int|
            0 <= j < i ==> (#[trigger] entries[j]).key@ != key) ==> count_in(entries, key)
            == entries[i].count,
        (forall|j: int| 0 <= j < entries.len() ==> (#[trigger] entries[j]).key@ != key) ==> count_in(
            entries,
            key,
        ) == 0,
    decreases entries.len(),
{
    if entries.len() > 0 && entries[0].key@ != key {
        let rest = entries.drop_first();
        law_counts_are_those_of_the_first_entry(rest, key, i - 1);
        assert forall|j: int| 0 <= j < rest.len() implies #[trigger] rest[j] == entries[j + 1] by {}
    }
}

// ---- mutation testing ----

/// Mutation testing that did not pass is warned of, with its score where there is one.
pub proof fn law_weak_mutation_testing_is_warned_of(
    mutants: MutationEvidence,
    limit: Seq<char>,
    threshold: Option<Seq<char>>,
    score: MutationScore,
)
    ensures
        mutants.status == MutationStatus::Fail ==> mutation_reason(mutants, threshold) == Some(
            "mutation testing failed"@,
        ),
        mutants.status == MutationStatus::Unknown ==> mutation_reason(mutants, threshold) == Some(
            "mutation testing status unknown"@,
        ),
        mutants.status == MutationStatus::Warn && mutants.score is None ==> mutation_reason(
            mutants,
            threshold,
        ) == Some("mutation score below threshold"@),
        mutants.status == MutationStatus::Warn && mutants.score == Some(score) ==> mutation_reason(
            mutants,
            threshold,
        ) == Some("mutation score below threshold"@ + " ("@ + score.text@ + "%)"@),
        mutants.status == MutationStatus::Pass ==> mutation_reason(mutants, None) is None,
        mutants.status == MutationStatus::Pass && mutants.score is None ==> mutation_reason(
            mutants,
            Some(limit),
        ) == Some("mutation score missing (threshold "@ + limit + "%)"@),
        mutants.status == MutationStatus::Pass && mutants.score == Some(score)
            && score.below_threshold ==> mutation_reason(mutants, Some(limit)) == Some(
            "mutation score "@ + score.text@ + "% below threshold "@ + limit + "%"@,
        ),
        mutants.status == MutationStatus::Pass && mutants.score == Some(score)
            && !score.below_threshold ==> mutation_reason(mutants, Some(limit)) is None,
        mutation_warning(Some(mutants), threshold) == mutation_reason(mutants, threshold),
        mutation_warning(None, Some(limit)) == Some(
            "missing mutation evidence in build.done payload"@,
        ),
        mutation_warning(None, None) is None,
{
}

// ---- construction ----

/// The pending events of a hat are those of the first queue that has its identifier, and none where no
/// queue has it.
pub proof fn law_hats_have_their_own_queue(queues: Seq<QueueView>, id: Seq<char>, i: int)
    ensures
        0 <= i < queues.len() && queues[i].hat_id == id && (forall|j: int|
            0 <= j < i ==> (#[trigger] queues[j]).hat_id != id) ==> pending_of(queues, id)
            == queues[i].events,
        (forall|j: int| 0 <= j < queues.len() ==> (#[trigger] queues[j]).hat_id != id) ==> pending_of(
            queues,
            id,
        ).len() == 0,
{
    let hits = queue_hits(queues, id);
    if 0 <= i < queues.len() && queues[i].hat_id == id && (forall|j: int|
        0 <= j < i ==> (#[trigger] queues[j]).hat_id != id) {
        assert forall|j: int| 0 <= j < i implies (#[trigger] hits[j]) is None by {
            assert(queues[j].hat_id != id);
        }
        lemma_first_at(hits, i);
    }
    if forall|j: int| 0 <= j < queues.len() ==> (#[trigger] queues[j]).hat_id != id {
        lemma_first_among(hits);
        if first_of(hits) is Some {
            let k = choose|k: int| 0 <= k < hits.len() && #[trigger] hits[k] == first_of(hits);
            assert(queues[k].hat_id != id);
        }
    }
}

/// Skills are listed one by one: the tools of tasks and of memories where those are enabled, every other
/// skill, and none at all where skills are off.
pub proof fn law_skills_are_listed_where_enabled(
    config: RalphConfig,
    a: Seq<Seq<char>>,
    b: Seq<Seq<char>>,
    name: Seq<char>,
)
    ensures
        indexed(config, a + b) == indexed(config, a) + indexed(config, b),
        !config.skills.enabled ==> indexed(config, a).len() == 0,
        config.skills.enabled && name != "ralph-tools-tasks"@ && name != "ralph-tools-memories"@
            ==> indexed(config, seq![name]) == seq![name],
        config.skills.enabled && name == "ralph-tools-tasks"@ ==> indexed(config, seq![name])
            == (if config.tasks.enabled {
            seq![name]
        } else {
            Seq::empty()
        }),
        config.skills.enabled && name == "ralph-tools-memories"@ ==> indexed(config, seq![name])
            == (if config.memories.enabled {
            seq![name]
        } else {
            Seq::empty()
        }),
{
    let kept = |n: Seq<char>| keeps_skill(config, n);
    Seq::filter_distributes_over_add(a, b, kept);
    reveal(Seq::filter);
    reveal_with_fuel(Seq::filter, 2);
    assert(seq![name].drop_last() == Seq::<Seq<char>>::empty());
    assert(seq![name].last() == name);
    assert(Seq::<Seq<char>>::empty().push(name) == seq![name]);
    reveal_strlit("ralph-tools-tasks");
    reveal_strlit("ralph-tools-memories");
    assert("ralph-tools-tasks"@.len() != "ralph-tools-memories"@.len());
}

/// Events are read from the file that the marker names, below the workspace where there is one, and from
/// the usual one without a marker.
pub proof fn law_markers_name_the_events_file(
    marker: Seq<char>,
    dir: Seq<char>,
    workspace: Option<Seq<char>>,
    usual: Seq<char>,
)
    ensures
        reader_path(Some(marker), Some(dir), usual) == path_below(dir, trimmed(marker)),
        reader_path(Some(marker), None, usual) == trimmed(marker),
        reader_path(None, workspace, usual) == usual,
{
}

} // verus!
