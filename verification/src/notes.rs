//! Tasks from a Markdown checklist: `- [ ] open` and `- [x] done` lines.

use vstd::prelude::*;

use crate::domain::{first_n, Task, TaskView};
use crate::text::{
    all_whitespace, chars_of, first_newline, is_whitespace, line_ranges, lines_of, skip_whitespace,
    skip_whitespace_back, strip_carriage_return, trim, trim_start,
};

verus! {

broadcast use vstd::string::group_string_axioms;

/// What a checklist line starts with, once its indentation is gone:
/// `- [ ] ` gives `Some(false)`, `- [x] ` or `- [X] ` gives `Some(true)`,
/// anything else `None`.
pub open spec fn checkbox_marker(t: Seq<char>) -> Option<bool> {
    if t.len() >= 6 && t[0] == '-' && t[1] == ' ' && t[2] == '[' && t[4] == ']' && t[5] == ' ' {
        if t[3] == ' ' {
            Some(false)
        } else if t[3] == 'x' || t[3] == 'X' {
            Some(true)
        } else {
            None
        }
    } else {
        None
    }
}

/// The task a line holds, if it is a checklist line: its title is what
/// follows the marker, trimmed.
pub open spec fn checkbox_task(line: Seq<char>) -> Option<TaskView> {
    let t = trim_start(line);
    match checkbox_marker(t) {
        Some(completed) => Some(TaskView { title: trim(t.skip(6)), completed }),
        None => None,
    }
}

/// The tasks that the checklist lines among `lines` hold, in order.
pub open spec fn tasks_in_lines(lines: Seq<Seq<char>>) -> Seq<TaskView>
    decreases lines.len(),
{
    if lines.len() == 0 {
        seq![]
    } else {
        let rest = tasks_in_lines(lines.drop_last());
        match checkbox_task(lines.last()) {
            Some(t) => rest.push(t),
            None => rest,
        }
    }
}

/// The tasks of a Markdown text, line by line.
pub open spec fn markdown_tasks(text: Seq<char>) -> Seq<TaskView> {
    tasks_in_lines(lines_of(text))
}

/// What a sequence of tasks says.
pub open spec fn task_views(tasks: Seq<Task>) -> Seq<TaskView> {
    tasks.map_values(|t: Task| t@)
}

/// The tasks of `tasks` that are not completed, in order.
pub open spec fn pending_tasks(tasks: Seq<Task>) -> Seq<Task>
    decreases tasks.len(),
{
    if tasks.len() == 0 {
        seq![]
    } else if tasks.last().completed {
        pending_tasks(tasks.drop_last())
    } else {
        pending_tasks(tasks.drop_last()).push(tasks.last())
    }
}

/// The open tasks among `tasks`, in order.
pub open spec fn pending_views(tasks: Seq<TaskView>) -> Seq<TaskView>
    decreases tasks.len(),
{
    if tasks.len() == 0 {
        seq![]
    } else if tasks.last().completed {
        pending_views(tasks.drop_last())
    } else {
        pending_views(tasks.drop_last()).push(tasks.last())
    }
}

/// Selecting the open tasks commutes with viewing them.
pub proof fn lemma_pending_views(tasks: Seq<Task>, limit: nat)
    ensures
        task_views(pending_tasks(tasks)) == pending_views(task_views(tasks)),
        task_views(first_n(pending_tasks(tasks), limit)) == first_n(
            pending_views(task_views(tasks)),
            limit,
        ),
    decreases tasks.len(),
{
    if tasks.len() > 0 {
        lemma_pending_views(tasks.drop_last(), limit);
        assert(task_views(tasks).drop_last() =~= task_views(tasks.drop_last()));
        assert(task_views(pending_tasks(tasks.drop_last()).push(tasks.last())) =~= task_views(
            pending_tasks(tasks.drop_last()),
        ).push(tasks.last()@));
    }
    let p = pending_tasks(tasks);
    if p.len() > limit {
        assert(task_views(p.take(limit as int)) =~= task_views(p).take(limit as int));
    }
}

/// The task that `chars[from..to]` holds, if that line is a checklist line.
fn parse_checkbox_line(input: &str, chars: &Vec<char>, from: usize, to: usize) -> (r: Option<
    Task,
>)
    requires
        chars@ == input@,
        from <= to <= chars@.len(),
    ensures
        match checkbox_task(chars@.subrange(from as int, to as int)) {
            Some(t) => r matches Some(task) && task@ == t,
            None => r is None,
        },
{
    let ghost line = chars@.subrange(from as int, to as int);
    let start = skip_whitespace(chars, from, to);
    let ghost t = trim_start(line);
    assert(t =~= chars@.subrange(start as int, to as int));
    if to - start < 6 || chars[start] != '-' || chars[start + 1] != ' ' || chars[start + 2] != '['
        || chars[start + 4] != ']' || chars[start + 5] != ' ' {
        return None;
    }
    let mark = chars[start + 3];
    let completed = if mark == ' ' {
        false
    } else if mark == 'x' || mark == 'X' {
        true
    } else {
        return None;
    };
    let title_start = skip_whitespace(chars, start + 6, to);
    let title_end = skip_whitespace_back(chars, title_start, to);
    proof {
        assert(t.skip(6) =~= chars@.subrange(start + 6, to as int));
    }
    let title = String::from_str(input.substring_char(title_start, title_end));
    Some(Task { title, completed })
}

/// The tasks of a Markdown text: every line that, after its indentation,
/// starts with `- [ ] ` (an open task) or with `- [x] ` or `- [X] ` (a
/// completed one) gives a task whose title is the rest of the line,
/// trimmed; other lines are skipped.
pub fn parse_markdown_tasks(input: &str) -> (tasks: Vec<Task>)
    ensures
        task_views(tasks@) == markdown_tasks(input@),
{
    let chars = chars_of(input);
    let ranges = line_ranges(&chars);
    let ghost lines = lines_of(chars@);
    let mut tasks: Vec<Task> = Vec::new();
    let mut i: usize = 0;
    while i < ranges.len()
        invariant
            chars@ == input@,
            lines == lines_of(chars@),
            ranges@.len() == lines.len(),
            forall|k: int|
                0 <= k < ranges@.len() ==> {
                    let (a, b) = #[trigger] ranges@[k];
                    &&& a <= b <= chars@.len()
                    &&& chars@.subrange(a as int, b as int) == lines[k]
                },
            0 <= i <= ranges@.len(),
            task_views(tasks@) == tasks_in_lines(lines.take(i as int)),
        decreases ranges@.len() - i,
    {
        let (from, to) = ranges[i];
        assert(lines.take(i + 1).drop_last() =~= lines.take(i as int));
        match parse_checkbox_line(input, &chars, from, to) {
            Some(task) => {
                tasks.push(task);
                assert(task_views(tasks@) =~= tasks_in_lines(lines.take(i + 1)));
            },
            None => {},
        }
        i = i + 1;
    }
    assert(lines.take(lines.len() as int) =~= lines);
    tasks
}

/// The first `limit` tasks of `tasks` that are not completed, in order.
pub fn top_pending_tasks(tasks: &[Task], limit: usize) -> (top: Vec<Task>)
    ensures
        top@ == first_n(pending_tasks(tasks@), limit as nat),
{
    let mut top: Vec<Task> = Vec::new();
    let mut i: usize = 0;
    while i < tasks.len()
        invariant
            0 <= i <= tasks@.len(),
            top@ == first_n(pending_tasks(tasks@.take(i as int)), limit as nat),
        decreases tasks@.len() - i,
    {
        let ghost before = pending_tasks(tasks@.take(i as int));
        assert(tasks@.take(i + 1).drop_last() =~= tasks@.take(i as int));
        if !tasks[i].completed && top.len() < limit {
            top.push(tasks[i].duplicate());
        }
        proof {
            let after = pending_tasks(tasks@.take(i + 1));
            if !tasks@[i as int].completed {
                assert(after == before.push(tasks@[i as int]));
                if before.len() >= limit {
                    assert(after.take(limit as int) =~= before.take(limit as int));
                }
            }
        }
        i = i + 1;
    }
    assert(tasks@.take(tasks@.len() as int) =~= tasks@);
    top
}


/// The tasks of two runs of lines are those of the first, then those of the
/// second.
pub proof fn lemma_tasks_in_lines_concat(a: Seq<Seq<char>>, b: Seq<Seq<char>>)
    ensures
        tasks_in_lines(a + b) == tasks_in_lines(a) + tasks_in_lines(b),
    decreases b.len(),
{
    if b.len() == 0 {
        assert(a + b =~= a);
        assert(tasks_in_lines(a) + tasks_in_lines(b) =~= tasks_in_lines(a));
    } else {
        lemma_tasks_in_lines_concat(a, b.drop_last());
        assert((a + b).drop_last() =~= a + b.drop_last());
        assert((a + b).last() == b.last());
        match checkbox_task(b.last()) {
            Some(t) => {
                assert(tasks_in_lines(a) + tasks_in_lines(b.drop_last()).push(t) =~= (
                tasks_in_lines(a) + tasks_in_lines(b.drop_last())).push(t));
            },
            None => {},
        }
    }
}

/// Tasks are read line by line: cutting a checklist after a line feed cuts
/// its tasks in the same place.
pub proof fn lemma_markdown_tasks_concat(x: Seq<char>, y: Seq<char>)
    requires
        x.len() > 0,
        x.last() == '\n',
    ensures
        markdown_tasks(x + y) == markdown_tasks(x) + markdown_tasks(y),
{
    crate::text::lemma_lines_concat(x, y);
    lemma_tasks_in_lines_concat(lines_of(x), lines_of(y));
}

/// A carriage return at the end of a line changes nothing of its task.
proof fn lemma_checkbox_task_carriage_return(line: Seq<char>)
    ensures
        checkbox_task(line.push('\r')) == checkbox_task(line),
{
    let w = '\r';
    assert(is_whitespace(w));
    crate::text::lemma_trim_start_push_whitespace(line, w);
    if !all_whitespace(line) {
        let t = trim_start(line);
        let u = t.push(w);
        if t.len() >= 6 {
            assert(u.skip(6) =~= t.skip(6).push(w));
            crate::text::lemma_trim_push_whitespace(t.skip(6), w);
        }
    }
}

/// A final line feed adds no task: it ends the last line, or adds an empty one.
proof fn lemma_markdown_final_newline(a: Seq<char>)
    ensures
        markdown_tasks(a.push('\n')) == markdown_tasks(a),
    decreases a.len(),
{
    let x = a.push('\n');
    crate::text::lemma_first_newline_in_bounds(a);
    match first_newline(a) {
        Some(k) => {
            let k = k as int;
            assert forall|i: int| 0 <= i < k implies #[trigger] x[i] != '\n' by {
                assert(x[i] == a[i]);
            }
            crate::text::lemma_first_newline(x, k);
            assert(x.take(k) =~= a.take(k));
            let rest = a.skip(k + 1);
            assert(x.skip(k + 1) =~= rest.push('\n'));
            lemma_markdown_final_newline(rest);
            let line = strip_carriage_return(a.take(k));
            assert(lines_of(x) == seq![line] + lines_of(rest.push('\n')));
            assert(lines_of(a) == seq![line] + lines_of(rest));
            lemma_tasks_in_lines_concat(seq![line], lines_of(rest.push('\n')));
            lemma_tasks_in_lines_concat(seq![line], lines_of(rest));
        },
        None => {
            assert forall|i: int| 0 <= i < a.len() implies #[trigger] x[i] != '\n' by {
                assert(x[i] == a[i]);
            }
            crate::text::lemma_first_newline(x, a.len() as int);
            assert(x.take(a.len() as int) =~= a);
            assert(x.skip((a.len() + 1) as int) =~= Seq::<char>::empty());
            assert(lines_of(x.skip((a.len() + 1) as int)) =~= Seq::<Seq<char>>::empty());
            assert(lines_of(x) =~= seq![strip_carriage_return(a)]);
            let l = seq![strip_carriage_return(a)];
            assert(l.drop_last() =~= Seq::<Seq<char>>::empty());
            assert(tasks_in_lines(Seq::<Seq<char>>::empty()) =~= Seq::<TaskView>::empty());
            if a.len() == 0 {
                assert(checkbox_task(a) is None);
            } else {
                let single = seq![a];
                assert(single.drop_last() =~= Seq::<Seq<char>>::empty());
                if a.last() == '\r' {
                    assert(a.drop_last().push('\r') =~= a);
                    lemma_checkbox_task_carriage_return(a.drop_last());
                }
            }
        },
    }
}

/// Two checklists joined by a line feed hold the tasks of the first, then
/// those of the second.
pub proof fn lemma_markdown_tasks_join(a: Seq<char>, b: Seq<char>)
    ensures
        markdown_tasks(a + seq!['\n'] + b) == markdown_tasks(a) + markdown_tasks(b),
{
    let x = a.push('\n');
    assert(a + seq!['\n'] =~= x);
    lemma_markdown_tasks_concat(x, b);
    lemma_markdown_final_newline(a);
}

/// The tasks that `top_pending_tasks` keeps are open tasks of the list, at
/// most `limit` of them.
pub proof fn lemma_top_pending_are_open(tasks: Seq<Task>, limit: nat)
    ensures
        first_n(pending_tasks(tasks), limit).len() <= limit,
        forall|i: int|
            0 <= i < first_n(pending_tasks(tasks), limit).len() ==> {
                let t = #[trigger] first_n(pending_tasks(tasks), limit)[i];
                !t.completed && tasks.contains(t)
            },
{
    lemma_pending_tasks_open(tasks);
}

/// A list of open tasks is kept whole.
proof fn lemma_pending_of_open(tasks: Seq<Task>)
    requires
        forall|i: int| 0 <= i < tasks.len() ==> !(#[trigger] tasks[i]).completed,
    ensures
        pending_tasks(tasks) == tasks,
    decreases tasks.len(),
{
    if tasks.len() > 0 {
        let q = tasks.drop_last();
        assert forall|i: int| 0 <= i < q.len() implies !(#[trigger] q[i]).completed by {
            assert(q[i] == tasks[i]);
        }
        lemma_pending_of_open(q);
        assert(!tasks[tasks.len() - 1].completed);
        assert(q.push(tasks.last()) =~= tasks);
    }
}

/// Taking the first open tasks twice gives what taking them once gave, and
/// a larger limit only adds tasks at the end: `top_pending_tasks` with
/// `limit` is a prefix of `top_pending_tasks` with `limit + 1`.
pub proof fn lemma_top_pending_stable(tasks: Seq<Task>, limit: nat)
    ensures
        first_n(pending_tasks(first_n(pending_tasks(tasks), limit)), limit) == first_n(
            pending_tasks(tasks),
            limit,
        ),
        first_n(pending_tasks(tasks), limit).is_prefix_of(
            first_n(pending_tasks(tasks), limit + 1),
        ),
{
    let top = first_n(pending_tasks(tasks), limit);
    lemma_top_pending_are_open(tasks, limit);
    assert forall|i: int| 0 <= i < top.len() implies !(#[trigger] top[i]).completed by {}
    lemma_pending_of_open(top);
    let p = pending_tasks(tasks);
    let bigger = first_n(p, limit + 1);
    assert(bigger.len() >= top.len());
    assert(bigger.take(top.len() as int) =~= top);
}

/// The tasks that `pending_tasks` keeps are open tasks of the list.
proof fn lemma_pending_tasks_open(tasks: Seq<Task>)
    ensures
        forall|i: int|
            0 <= i < pending_tasks(tasks).len() ==> !(#[trigger] pending_tasks(tasks)[i]).completed
                && tasks.contains(pending_tasks(tasks)[i]),
    decreases tasks.len(),
{
    if tasks.len() > 0 {
        let q = tasks.drop_last();
        lemma_pending_tasks_open(q);
        assert forall|i: int| 0 <= i < pending_tasks(tasks).len() implies !(
        #[trigger] pending_tasks(tasks)[i]).completed && tasks.contains(pending_tasks(tasks)[i]) by {
            if i < pending_tasks(q).len() {
                let t = pending_tasks(q)[i];
                assert(pending_tasks(tasks)[i] == t);
                let j = choose|j: int| 0 <= j < q.len() && q[j] == t;
                assert(tasks[j] == t);
            } else {
                assert(pending_tasks(tasks)[i] == tasks.last());
                assert(tasks[tasks.len() - 1] == tasks.last());
            }
        }
    }
}

/// Reads the daily checklist as the dashboard uses it.
pub struct MarkdownTasksProvider;

impl MarkdownTasksProvider {
    /// The first three open tasks of the checklist text `content`.
    pub fn pending_top3(content: &str) -> (top: Vec<Task>)
        ensures
            task_views(top@) == first_n(
                pending_views(markdown_tasks(content@)),
                3,
            ),
    {
        let tasks = parse_markdown_tasks(content);
        let top = top_pending_tasks(tasks.as_slice(), 3);
        proof {
            lemma_pending_views(tasks@, 3);
        }
        top
    }
}

/// The ways reading the checklist can fail.
#[derive(Debug)]
pub enum NotesError {
    /// The file could not be read.
    Read { path: std::path::PathBuf, source: std::io::Error },
}

impl MarkdownTasksProvider {
    /// The first three open tasks of the checklist at `path`, given what
    /// reading that file gave: its text, or the error that is then returned.
    pub fn load_pending_top3(path: std::path::PathBuf, read: Result<String, std::io::Error>) -> (r:
        Result<Vec<Task>, NotesError>)
        ensures
            match read {
                Ok(content) => r matches Ok(top) && task_views(top@) == first_n(
                    pending_views(markdown_tasks(content@)),
                    3,
                ),
                Err(e) => r == Err::<Vec<Task>, NotesError>(NotesError::Read { path, source: e }),
            },
    {
        match read {
            Ok(content) => Ok(Self::pending_top3(content.as_str())),
            Err(source) => Err(NotesError::Read { path, source }),
        }
    }
}

} // verus!
