//! Tasks, and their part of the prompt.
use crate::text::{
    decimal, decimal_text, join, joined, opt_text, str_eq, texts, trim, trimmed,
};
use vstd::prelude::*;

verus! {

/// Status of a task.
#[derive(Debug, Clone, Copy, PartialEq, Eq, Structural)]
pub enum TaskStatus {
    Open,
    InProgress,
    Closed,
    Failed,
}

/// A task of the task store.
#[derive(Debug)]
pub struct Task {
    pub id: String,
    pub title: String,
    pub priority: u64,
    pub status: TaskStatus,
    pub key: Option<String>,
    /// Identifiers of the tasks that this one waits for.
    pub blocked_by: Vec<String>,
    /// The loop that the task belongs to.
    pub loop_id: Option<String>,
}

/// The plain values of a [`Task`].
pub struct TaskView {
    pub id: Seq<char>,
    pub title: Seq<char>,
    pub priority: u64,
    pub status: TaskStatus,
    pub key: Option<Seq<char>>,
    pub blocked_by: Seq<Seq<char>>,
    pub loop_id: Option<Seq<char>>,
}

impl View for Task {
    type V = TaskView;

    open spec fn view(&self) -> TaskView {
        TaskView {
            id: self.id@,
            title: self.title@,
            priority: self.priority,
            status: self.status,
            key: opt_text(self.key),
            blocked_by: texts(self.blocked_by@),
            loop_id: opt_text(self.loop_id),
        }
    }
}

/// What the task store tells.
#[derive(Debug)]
pub struct TaskLists {
    /// Open tasks that wait for nothing.
    pub ready: Vec<Task>,
    /// Tasks that are not at their end.
    pub open: Vec<Task>,
    /// All tasks.
    pub all: Vec<Task>,
}

/// The plain values of tasks.
pub open spec fn task_views(tasks: Seq<Task>) -> Seq<TaskView> {
    Seq::new(tasks.len(), |i: int| tasks[i]@)
}

/// Whether a task belongs to a loop; without a loop all tasks do.
pub open spec fn in_loop(task: TaskView, loop_id: Option<Seq<char>>) -> bool {
    loop_id is None || task.loop_id == loop_id
}

/// The tasks of a loop.
pub open spec fn loop_tasks(tasks: Seq<TaskView>, loop_id: Option<Seq<char>>) -> Seq<TaskView> {
    tasks.filter(|t: TaskView| in_loop(t, loop_id))
}

/// The loop that a marker names: none where the marker is missing or blank.
pub open spec fn marked_loop(marker: Option<Seq<char>>) -> Option<Seq<char>> {
    match marker {
        Some(text) => if trimmed(text).len() > 0 {
            Some(trimmed(text))
        } else {
            None
        },
        None => None,
    }
}

/// Reads the loop that a marker names.
pub fn current_loop_id(marker: Option<&str>) -> (r: Option<String>)
    ensures
        opt_text(r) == marked_loop(
            match marker {
                Some(text) => Some(text@),
                None => None,
            },
        ),
{
    match marker {
        Some(text) => {
            let id = trim(text);
            if id.unicode_len() > 0 {
                Some(id.to_owned())
            } else {
                None
            }
        },
        None => None,
    }
}

fn belongs(task: &Task, loop_id: &Option<String>) -> (r: bool)
    ensures
        r == in_loop(task@, opt_text(*loop_id)),
{
    match loop_id {
        Some(id) => match &task.loop_id {
            Some(own) => str_eq(own.as_str(), id.as_str()),
            None => false,
        },
        None => true,
    }
}

/// Selects the tasks of a loop.
pub fn filter_tasks_by_loop<'a>(tasks: &'a Vec<Task>, loop_id: &Option<String>) -> (r: Vec<&'a Task>)
    ensures
        Seq::new(r@.len(), |i: int| r@[i]@) == loop_tasks(task_views(tasks@), opt_text(*loop_id)),
{
    let ghost all = task_views(tasks@);
    let ghost pred = |t: TaskView| in_loop(t, opt_text(*loop_id));
    let mut r: Vec<&'a Task> = Vec::new();
    let mut i: usize = 0;
    proof {
        reveal(Seq::filter);
        assert(Seq::new(r@.len(), |i: int| r@[i]@) == all.take(0).filter(pred));
    }
    while i < tasks.len()
        invariant
            i <= tasks.len(),
            all == task_views(tasks@),
            pred == (|t: TaskView| in_loop(t, opt_text(*loop_id))),
            Seq::new(r@.len(), |i: int| r@[i]@) == all.take(i as int).filter(pred),
        decreases tasks.len() - i,
    {
        let ghost before = r@;
        proof {
            reveal(Seq::filter);
            assert(all.take(i + 1).drop_last() == all.take(i as int));
            assert(all.take(i + 1).last() == tasks@[i as int]@);
        }
        if belongs(&tasks[i], loop_id) {
            r.push(&tasks[i]);
            assert(Seq::new(r@.len(), |i: int| r@[i]@) == Seq::new(
                before.len(),
                |i: int| before[i]@,
            ).push(tasks@[i as int]@));
        }
        i = i + 1;
    }
    assert(all.take(i as int) == all);
    r
}

/// Tells whether no task of a loop is open.
pub fn verify_tasks_complete(open: &Vec<Task>, loop_id: &Option<String>) -> (r: bool)
    ensures
        r == (loop_tasks(task_views(open@), opt_text(*loop_id)).len() == 0),
{
    let left = filter_tasks_by_loop(open, loop_id);
    assert(Seq::new(left@.len(), |i: int| left@[i]@).len() == left@.len());
    left.len() == 0
}

/// The tasks that were closed: those that failed are not among them.
pub open spec fn closed_tasks(tasks: Seq<TaskView>) -> Seq<TaskView> {
    tasks.filter(|t: TaskView| t.status == TaskStatus::Closed)
}

/// Counts the open and the closed tasks of a loop. A failed task is neither.
pub fn count_tasks(lists: &TaskLists, loop_id: &Option<String>) -> (r: (usize, usize))
    ensures
        r.0 == loop_tasks(task_views(lists.open@), opt_text(*loop_id)).len(),
        r.1 == closed_tasks(loop_tasks(task_views(lists.all@), opt_text(*loop_id))).len(),
{
    let open = filter_tasks_by_loop(&lists.open, loop_id);
    let all = filter_tasks_by_loop(&lists.all, loop_id);
    let ghost views = Seq::new(all@.len(), |i: int| all@[i]@);
    assert(Seq::new(open@.len(), |i: int| open@[i]@).len() == open@.len());
    let mut closed: usize = 0;
    let mut i: usize = 0;
    proof {
        reveal(Seq::filter);
        assert(closed_tasks(views.take(0)).len() == 0);
    }
    while i < all.len()
        invariant
            i <= all.len(),
            views == Seq::new(all@.len(), |i: int| all@[i]@),
            closed == closed_tasks(views.take(i as int)).len(),
            closed <= i,
        decreases all.len() - i,
    {
        proof {
            reveal(Seq::filter);
            assert(views.take(i + 1).drop_last() == views.take(i as int));
            assert(views.take(i + 1).last() == all@[i as int]@);
        }
        if all[i].status == TaskStatus::Closed {
            closed = closed + 1;
        }
        i = i + 1;
    }
    assert(views.take(i as int) == views);
    (open.len(), closed)
}

/// The description of a task in a list.
pub open spec fn task_label(task: TaskView) -> Seq<char> {
    task.id + ": "@ + task.title
}

/// Describes the open tasks of a loop.
pub fn get_open_task_list(open: &Vec<Task>, loop_id: &Option<String>) -> (r: Vec<String>)
    ensures
        texts(r@) == loop_tasks(task_views(open@), opt_text(*loop_id)).map_values(
            |t: TaskView| task_label(t),
        ),
{
    let left = filter_tasks_by_loop(open, loop_id);
    let ghost views = Seq::new(left@.len(), |i: int| left@[i]@);
    let mut r: Vec<String> = Vec::new();
    let mut i: usize = 0;
    while i < left.len()
        invariant
            i <= left.len(),
            views == Seq::new(left@.len(), |i: int| left@[i]@),
            texts(r@) == Seq::new(i as nat, |k: int| task_label(views[k])),
        decreases left.len() - i,
    {
        let ghost before = r@;
        let mut label = left[i].id.clone();
        label.append(": ");
        label.append(left[i].title.as_str());
        r.push(label);
        assert(texts(r@) == texts(before).push(task_label(views[i as int])));
        i = i + 1;
    }
    assert(texts(r@) == views.map_values(|t: TaskView| task_label(t)));
    r
}

// ---- the prompt ----

/// The box that shows the status of a ready task.
pub open spec fn status_box(status: TaskStatus) -> Seq<char> {
    match status {
        TaskStatus::Open => "[ ]"@,
        TaskStatus::InProgress => "[~]"@,
        _ => "[?]"@,
    }
}

/// The key of a task behind its title.
pub open spec fn key_suffix(task: TaskView) -> Seq<char> {
    match task.key {
        Some(key) => " — key: "@ + key,
        None => Seq::empty(),
    }
}

/// The line of a ready task.
pub open spec fn ready_line(task: TaskView) -> Seq<char> {
    "- "@ + status_box(task.status) + " [P"@ + decimal(task.priority as nat) + "] "@ + task.title
        + " ("@ + task.id + ")"@ + key_suffix(task) + "\n"@
}

/// The line of a blocked task.
pub open spec fn blocked_line(task: TaskView) -> Seq<char> {
    "- [blocked] [P"@ + decimal(task.priority as nat) + "] "@ + task.title + " ("@ + task.id
        + ")"@ + key_suffix(task) + " — blocked by: "@ + joined(task.blocked_by, ", "@) + "\n"@
}

/// Lines one behind the other.
pub open spec fn concatenated(lines: Seq<Seq<char>>) -> Seq<char>
    decreases lines.len(),
{
    if lines.len() == 0 {
        Seq::empty()
    } else {
        concatenated(lines.drop_last()) + lines.last()
    }
}

/// The lines of the ready tasks.
pub open spec fn ready_lines(ready: Seq<TaskView>) -> Seq<char> {
    concatenated(ready.map_values(|t: TaskView| ready_line(t)))
}

/// Whether a task is among others, by its identifier.
pub open spec fn listed(tasks: Seq<TaskView>, task: TaskView) -> bool {
    exists|i: int| 0 <= i < tasks.len() && (#[trigger] tasks[i]).id == task.id
}

/// The open tasks that are not ready.
pub open spec fn blocked_of(ready: Seq<TaskView>, open: Seq<TaskView>) -> Seq<TaskView> {
    open.filter(|t: TaskView| !listed(ready, t))
}

/// The part of the prompt on blocked tasks.
pub open spec fn blocked_part(blocked: Seq<TaskView>) -> Seq<char> {
    if blocked.len() == 0 {
        Seq::empty()
    } else {
        "\nBlocked:\n"@ + concatenated(blocked.map_values(|t: TaskView| blocked_line(t)))
    }
}

/// The part of the prompt on tasks.
pub open spec fn tasks_part(ready: Seq<TaskView>, open: Seq<TaskView>, closed: nat) -> Seq<char> {
    let body = if ready.len() == 0 && open.len() == 0 {
        "No open tasks. Create tasks with `ralph tools task add`.\n"@
    } else {
        "## Tasks: "@ + decimal(ready.len()) + " ready, "@ + decimal(open.len()) + " open, "@
            + decimal(closed) + " closed\n\n"@ + ready_lines(ready) + blocked_part(
            blocked_of(ready, open),
        )
    };
    "<ready-tasks>\n"@ + body + "</ready-tasks>\n\n"@
}

/// A prompt behind the tasks of a loop, where there are any. Here every task that is not open counts
/// as closed.
pub open spec fn with_tasks(prompt: Seq<char>, lists: TaskLists, loop_id: Option<Seq<char>>) -> Seq<
    char,
> {
    let ready = loop_tasks(task_views(lists.ready@), loop_id);
    let open = loop_tasks(task_views(lists.open@), loop_id);
    let all = loop_tasks(task_views(lists.all@), loop_id);
    if open.len() == 0 && all.len() == 0 {
        prompt
    } else {
        tasks_part(ready, open, (all.len() - open.len()) as nat) + prompt
    }
}

fn append_key(line: &mut String, task: &Task)
    ensures
        final(line)@ == old(line)@ + key_suffix(task@),
{
    match &task.key {
        Some(key) => {
            let mut suffix = " — key: ".to_owned();
            suffix.append(key.as_str());
            line.append(suffix.as_str());
        },
        None => {
            assert(line@ + Seq::<char>::empty() == line@);
        },
    }
}

fn ready_text(task: &Task) -> (r: String)
    ensures
        r@ == ready_line(task@),
{
    let mut r = "- ".to_owned();
    match task.status {
        TaskStatus::Open => r.append("[ ]"),
        TaskStatus::InProgress => r.append("[~]"),
        _ => r.append("[?]"),
    }
    r.append(" [P");
    r.append(decimal_text(task.priority).as_str());
    r.append("] ");
    r.append(task.title.as_str());
    r.append(" (");
    r.append(task.id.as_str());
    r.append(")");
    append_key(&mut r, task);
    r.append("\n");
    r
}

fn blocked_text(task: &Task) -> (r: String)
    ensures
        r@ == blocked_line(task@),
{
    let mut r = "- [blocked] [P".to_owned();
    r.append(decimal_text(task.priority).as_str());
    r.append("] ");
    r.append(task.title.as_str());
    r.append(" (");
    r.append(task.id.as_str());
    r.append(")");
    append_key(&mut r, task);
    r.append(" — blocked by: ");
    r.append(join(&task.blocked_by, ", ").as_str());
    r.append("\n");
    r
}

fn is_listed(tasks: &Vec<&Task>, task: &Task) -> (r: bool)
    ensures
        r == listed(Seq::new(tasks@.len(), |i: int| tasks@[i]@), task@),
{
    let ghost views = Seq::new(tasks@.len(), |i: int| tasks@[i]@);
    let mut i: usize = 0;
    while i < tasks.len()
        invariant
            i <= tasks.len(),
            views == Seq::new(tasks@.len(), |i: int| tasks@[i]@),
            forall|j: int| 0 <= j < i ==> (#[trigger] views[j]).id != task@.id,
        decreases tasks.len() - i,
    {
        assert(views[i as int].id == tasks@[i as int].id@);
        if str_eq(tasks[i].id.as_str(), task.id.as_str()) {
            return true;
        }
        i = i + 1;
    }
    false
}

fn ready_section(ready: &Vec<&Task>) -> (r: String)
    ensures
        r@ == ready_lines(Seq::new(ready@.len(), |i: int| ready@[i]@)),
{
    let ghost views = Seq::new(ready@.len(), |i: int| ready@[i]@);
    let ghost all = views.map_values(|t: TaskView| ready_line(t));
    let mut r = String::new();
    let mut i: usize = 0;
    while i < ready.len()
        invariant
            i <= ready.len(),
            views == Seq::new(ready@.len(), |i: int| ready@[i]@),
            all == views.map_values(|t: TaskView| ready_line(t)),
            r@ == concatenated(all.take(i as int)),
        decreases ready.len() - i,
    {
        proof {
            assert(all.take(i + 1).drop_last() == all.take(i as int));
            assert(all.take(i + 1).last() == ready_line(ready@[i as int]@));
        }
        r.append(ready_text(ready[i]).as_str());
        i = i + 1;
    }
    assert(all.take(i as int) == all);
    r
}

fn blocked_section(ready: &Vec<&Task>, open: &Vec<&Task>) -> (r: String)
    ensures
        r@ == blocked_part(
            blocked_of(
                Seq::new(ready@.len(), |i: int| ready@[i]@),
                Seq::new(open@.len(), |i: int| open@[i]@),
            ),
        ),
{
    let ghost ready_views = Seq::new(ready@.len(), |i: int| ready@[i]@);
    let ghost open_views = Seq::new(open@.len(), |i: int| open@[i]@);
    let ghost pred = |t: TaskView| !listed(ready_views, t);
    let ghost line = |t: TaskView| blocked_line(t);
    let mut body = String::new();
    let mut any = false;
    let mut i: usize = 0;
    proof {
        reveal(Seq::filter);
        assert(open_views.take(0).filter(pred).map_values(line) == Seq::<Seq<char>>::empty());
    }
    while i < open.len()
        invariant
            i <= open.len(),
            ready_views == Seq::new(ready@.len(), |i: int| ready@[i]@),
            open_views == Seq::new(open@.len(), |i: int| open@[i]@),
            pred == (|t: TaskView| !listed(ready_views, t)),
            line == (|t: TaskView| blocked_line(t)),
            body@ == concatenated(open_views.take(i as int).filter(pred).map_values(line)),
            any == (open_views.take(i as int).filter(pred).len() > 0),
        decreases open.len() - i,
    {
        proof {
            reveal(Seq::filter);
            assert(open_views.take(i + 1).drop_last() == open_views.take(i as int));
            assert(open_views.take(i + 1).last() == open@[i as int]@);
        }
        if !is_listed(ready, open[i]) {
            let ghost before = open_views.take(i as int).filter(pred);
            body.append(blocked_text(open[i]).as_str());
            any = true;
            proof {
                let lines = before.map_values(line);
                assert(before.push(open@[i as int]@).map_values(line) == lines.push(
                    blocked_line(open@[i as int]@),
                ));
                assert(lines.push(blocked_line(open@[i as int]@)).drop_last() == lines);
            }
        }
        i = i + 1;
    }
    assert(open_views.take(i as int) == open_views);
    if any {
        let mut r = "\nBlocked:\n".to_owned();
        r.append(body.as_str());
        r
    } else {
        String::new()
    }
}

/// Puts the tasks of a loop before a prompt, where tasks are enabled. `lists` is what the task store
/// tells, where it exists and could be read.
pub fn prepend_ready_tasks(
    prompt: &str,
    enabled: bool,
    lists: Option<&TaskLists>,
    loop_id: &Option<String>,
) -> (r: String)
    requires
        lists is Some ==> loop_tasks(task_views(lists->0.open@), opt_text(*loop_id)).len()
            <= loop_tasks(task_views(lists->0.all@), opt_text(*loop_id)).len(),
    ensures
        r@ == (if enabled && lists is Some {
            with_tasks(prompt@, *lists->0, opt_text(*loop_id))
        } else {
            prompt@
        }),
{
    if !enabled {
        return prompt.to_owned();
    }
    let lists = match lists {
        Some(lists) => lists,
        None => {
            return prompt.to_owned();
        },
    };
    let ready = filter_tasks_by_loop(&lists.ready, loop_id);
    let open = filter_tasks_by_loop(&lists.open, loop_id);
    let all = filter_tasks_by_loop(&lists.all, loop_id);
    proof {
        assert(Seq::new(all@.len(), |i: int| all@[i]@).len() == all@.len());
        assert(Seq::new(ready@.len(), |i: int| ready@[i]@).len() == ready@.len());
        assert(Seq::new(open@.len(), |i: int| open@[i]@).len() == open@.len());
    }
    let closed_count: usize = all.len() - open.len();
    if open.len() == 0 && closed_count == 0 {
        return prompt.to_owned();
    }
    let mut r = "<ready-tasks>\n".to_owned();
    if ready.len() == 0 && open.len() == 0 {
        r.append("No open tasks. Create tasks with `ralph tools task add`.\n");
    } else {
        let mut body = "## Tasks: ".to_owned();
        body.append(decimal_text(ready.len() as u64).as_str());
        body.append(" ready, ");
        body.append(decimal_text(open.len() as u64).as_str());
        body.append(" open, ");
        body.append(decimal_text(closed_count as u64).as_str());
        body.append(" closed\n\n");
        body.append(ready_section(&ready).as_str());
        body.append(blocked_section(&ready, &open).as_str());
        r.append(body.as_str());
    }
    r.append("</ready-tasks>\n\n");
    r.append(prompt);
    r
}

} // verus!
