use vstd::prelude::*;
use chrono::Datelike;
use icalendar::{CalendarDateTime, Component, DatePerhapsTime, EventLike, TodoStatus};
use crate::date::{valid_opt, Date};
use crate::encoding::{base64_encode, base64_of_text};
use crate::ical::{ical_priority_to_todotxt, ical_to_todotxt, task_views, IcalError};
use crate::task::{Task, TaskView, LOWEST_PRIORITY};
use crate::lines::skip_str;
use crate::text::{chars_of, copy_string, to_string, views};
use crate::todo::ToDo;

verus! {

#[verifier::external_type_specification]
#[verifier::external_body]
pub struct ExTodo(icalendar::Todo);

/// The `UID` property of a VTODO.
/// Trusted: calls `Component::get_uid` of the icalendar crate and copies the text; nothing is
/// stated of it.
#[verifier::external_body]
fn todo_uid(t: &icalendar::Todo) -> Option<String> {
    t.get_uid().map(String::from)
}

/// The `SUMMARY` property of a VTODO.
/// Trusted: calls `Component::get_summary` and copies the text; nothing is stated of it.
#[verifier::external_body]
fn todo_summary(t: &icalendar::Todo) -> Option<String> {
    t.get_summary().map(String::from)
}

/// The `PRIORITY` property of a VTODO, when it is a number up to 10.
/// Trusted: calls `Component::get_priority`, which reads the number and keeps it only up to 10.
#[verifier::external_body]
fn todo_priority(t: &icalendar::Todo) -> (r: Option<u32>)
    ensures
        r matches Some(p) ==> p <= 10,
{
    t.get_priority()
}

/// The date of the `DTSTART` property of a VTODO.
/// Trusted: calls `EventLike::get_start` and keeps the date of the date or date-time (the
/// local date of a floating or zoned time, the UTC date of a UTC time); a chrono date is valid.
#[verifier::external_body]
fn todo_start(t: &icalendar::Todo) -> (r: Option<Date>)
    ensures
        valid_opt(r),
{
    t.get_start().map(|p| match p {
        DatePerhapsTime::Date(d) => d,
        DatePerhapsTime::DateTime(CalendarDateTime::Floating(n)) => n.date(),
        DatePerhapsTime::DateTime(CalendarDateTime::Utc(u)) => u.date_naive(),
        DatePerhapsTime::DateTime(CalendarDateTime::WithTimezone { date_time, .. }) => date_time.date(),
    }).map(|n| Date { year: n.year(), month: n.month(), day: n.day() })
}

/// The date of the `DUE` property of a VTODO.
/// Trusted: calls `Todo::get_due` and keeps the date as `todo_start` does; a chrono date is
/// valid.
#[verifier::external_body]
fn todo_due(t: &icalendar::Todo) -> (r: Option<Date>)
    ensures
        valid_opt(r),
{
    t.get_due().map(|p| match p {
        DatePerhapsTime::Date(d) => d,
        DatePerhapsTime::DateTime(CalendarDateTime::Floating(n)) => n.date(),
        DatePerhapsTime::DateTime(CalendarDateTime::Utc(u)) => u.date_naive(),
        DatePerhapsTime::DateTime(CalendarDateTime::WithTimezone { date_time, .. }) => date_time.date(),
    }).map(|n| Date { year: n.year(), month: n.month(), day: n.day() })
}

/// The UTC date of the `COMPLETED` property of a VTODO.
/// Trusted: calls `Todo::get_completed` and keeps its UTC date; a chrono date is valid.
#[verifier::external_body]
fn todo_completed(t: &icalendar::Todo) -> (r: Option<Date>)
    ensures
        valid_opt(r),
{
    t.get_completed().map(|d| d.date_naive()).map(|n| Date { year: n.year(), month: n.month(), day: n.day() })
}

/// Whether the `STATUS` of a VTODO is `COMPLETED`.
/// Trusted: calls `Todo::get_status` and tells `TodoStatus::Completed` from the rest.
#[verifier::external_body]
fn todo_is_completed(t: &icalendar::Todo) -> bool {
    matches!(t.get_status(), Some(TodoStatus::Completed))
}

/// The values of the `CATEGORIES` properties of a VTODO, in order.
/// Trusted: calls `Component::multi_properties` and copies the value of each `CATEGORIES`
/// entry; nothing is stated of them.
#[verifier::external_body]
fn todo_categories(t: &icalendar::Todo) -> Vec<String> {
    match t.multi_properties().get("CATEGORIES") {
        Some(ps) => ps.iter().map(|p| p.value().to_string()).collect(),
        None => Vec::new(),
    }
}

/// The text of a VTODO as the icalendar crate writes it.
/// Trusted: calls `Display` of the component; nothing is stated of the text, which holds a
/// `DTSTAMP` of the clock and a random `UID` when the component has none.
#[verifier::external_body]
fn todo_text(t: &icalendar::Todo) -> String {
    t.to_string()
}

/// What a task is made of: the fields of a VTODO as the icalendar crate reads them, and the
/// VTODO's text.
#[derive(Debug)]
pub struct VTodoData {
    pub uid: Option<String>,
    pub summary: Option<String>,
    pub priority: Option<u32>,
    pub start: Option<Date>,
    pub completed: Option<Date>,
    pub is_completed: bool,
    pub due: Option<Date>,
    pub categories: Vec<String>,
    pub text: String,
}

/// The fields of a VTODO as plain values.
pub struct TodoFields {
    pub uid: Option<Seq<char>>,
    pub summary: Option<Seq<char>>,
    pub priority: Option<u32>,
    pub start: Option<Date>,
    pub completed: Option<Date>,
    pub is_completed: bool,
    pub due: Option<Date>,
    pub categories: Seq<Seq<char>>,
}

/// The fields of the data of a VTODO (all but its text).
pub open spec fn todo_fields(d: VTodoData) -> TodoFields {
    TodoFields {
        uid: match d.uid {
            Some(u) => Some(u@),
            None => None,
        },
        summary: match d.summary {
            Some(s) => Some(s@),
            None => None,
        },
        priority: d.priority,
        start: d.start,
        completed: d.completed,
        is_completed: d.is_completed,
        due: d.due,
        categories: views(d.categories@),
    }
}

/// The dates of the fields are valid and the priority is at most 10.
pub open spec fn fields_valid(f: TodoFields) -> bool {
    &&& valid_opt(f.start)
    &&& valid_opt(f.completed)
    &&& valid_opt(f.due)
    &&& (f.priority matches Some(p) ==> p <= 10)
}

/// What the icalendar crate reads from a calendar text: the fields of each VTODO, in order,
/// or nothing when the text is not a calendar.
pub uninterp spec fn parsed_todos(text: Seq<char>) -> Option<Seq<TodoFields>>;

/// Reads the data of a VTODO with the icalendar crate.
fn todo_data(t: &icalendar::Todo) -> (d: VTodoData)
    ensures
        fields_valid(todo_fields(d)),
{
    VTodoData {
        uid: todo_uid(t),
        summary: todo_summary(t),
        priority: todo_priority(t),
        start: todo_start(t),
        completed: todo_completed(t),
        is_completed: todo_is_completed(t),
        due: todo_due(t),
        categories: todo_categories(t),
        text: todo_text(t),
    }
}

/// Reads the VTODOs of a calendar text.
/// Trusted: parses the text with `icalendar::Calendar::from_str` (which unfolds folded lines)
/// and reads each of its VTODOs (`Calendar::todos`) with `todo_data`; the fields are a
/// function of the text, named `parsed_todos`. Of the texts of the VTODOs nothing is stated.
#[verifier::external_body]
fn parse_calendar_todos(text: &str) -> (r: Option<Vec<VTodoData>>)
    ensures
        match r {
            Some(v) => parsed_todos(text@) == Some(v@.map_values(|d: VTodoData| todo_fields(d))),
            None => parsed_todos(text@) is None,
        },
        r matches Some(v) ==> forall|i: int| 0 <= i < v@.len() ==> fields_valid(#[trigger] todo_fields(v@[i])),
{
    let calendar: icalendar::Calendar = text.parse().ok()?;
    Some(calendar.todos().map(todo_data).collect())
}

/// The projects, contexts and hashtags of `CATEGORIES` values: '+' marks a project, '@' a
/// context, '#' a hashtag, and any other value (an empty one too) is a context.
pub open spec fn split_categories(values: Seq<Seq<char>>) -> (Seq<Seq<char>>, Seq<Seq<char>>, Seq<Seq<char>>)
    decreases values.len(),
{
    if values.len() == 0 {
        (seq![], seq![], seq![])
    } else {
        let (p, c, h) = split_categories(values.drop_last());
        let x = values.last();
        if x.len() > 0 && x[0] == '+' {
            (p.push(x.skip(1)), c, h)
        } else if x.len() > 0 && x[0] == '@' {
            (p, c.push(x.skip(1)), h)
        } else if x.len() > 0 && x[0] == '#' {
            (p, c, h.push(x.skip(1)))
        } else {
            (p, c.push(x), h)
        }
    }
}

/// The task made from a VTODO with fields `f` and text `text`: its summary, priority, start,
/// completion and due dates and categories, finished when its status is `COMPLETED`; its tags
/// keep its identifier (`_ical_uid`) when it has one and its text in base64 (`_ical_vtodo`).
pub open spec fn task_of_todo(f: TodoFields, text: Seq<char>) -> TaskView {
    let (p, c, h) = split_categories(f.categories);
    let stored = ("_ical_vtodo"@, base64_of_text(text));
    TaskView {
        subject: match f.summary {
            Some(s) => s,
            None => seq![],
        },
        priority: match f.priority {
            Some(x) => ical_to_todotxt(x),
            None => LOWEST_PRIORITY,
        },
        create_date: f.start,
        finish_date: f.completed,
        finished: f.is_completed,
        threshold_date: None,
        due_date: f.due,
        contexts: c,
        projects: p,
        hashtags: h,
        tags: match f.uid {
            Some(u) => seq![("_ical_uid"@, u), stored],
            None => seq![stored],
        },
    }
}

/// Splits `CATEGORIES` values into projects, contexts and hashtags (see
/// `split_categories`).
pub fn split_category_values(values: &Vec<String>) -> (r: (Vec<String>, Vec<String>, Vec<String>))
    ensures
        (views(r.0@), views(r.1@), views(r.2@)) == split_categories(views(values@)),
{
    let ghost vs = views(values@);
    let mut projects: Vec<String> = Vec::new();
    let mut contexts: Vec<String> = Vec::new();
    let mut hashtags: Vec<String> = Vec::new();
    let mut i: usize = 0;
    while i < values.len()
        invariant
            i <= values@.len(),
            vs == views(values@),
            (views(projects@), views(contexts@), views(hashtags@)) == split_categories(vs.take(i as int)),
        decreases values@.len() - i,
    {
        let x = values[i].as_str();
        let v = chars_of(x);
        proof {
            assert(vs.take(i + 1).drop_last() =~= vs.take(i as int));
            assert(vs.take(i + 1).last() == x@);
        }
        let ghost (p0, c0, h0) = split_categories(vs.take(i as int));
        if v.len() > 0 && v[0] == '+' {
            projects.push(skip_str(x, 1));
            assert(views(projects@) =~= p0.push(x@.skip(1)));
        } else if v.len() > 0 && v[0] == '@' {
            contexts.push(skip_str(x, 1));
            assert(views(contexts@) =~= c0.push(x@.skip(1)));
        } else if v.len() > 0 && v[0] == '#' {
            hashtags.push(skip_str(x, 1));
            assert(views(hashtags@) =~= h0.push(x@.skip(1)));
        } else {
            contexts.push(copy_string(&values[i]));
            assert(views(contexts@) =~= c0.push(x@));
        }
        i = i + 1;
    }
    assert(vs.take(values@.len() as int) =~= vs);
    (projects, contexts, hashtags)
}

/// Makes a task from the data of a VTODO (see `task_of_todo`).
pub fn extract_task_from_todo(d: &VTodoData) -> (t: Task)
    requires
        fields_valid(todo_fields(*d)),
    ensures
        t@ == task_of_todo(todo_fields(*d), d.text@),
{
    let (projects, contexts, hashtags) = split_category_values(&d.categories);
    let stored = (to_string("_ical_vtodo"), base64_encode(d.text.as_str()));
    let mut tags: Vec<(String, String)> = Vec::new();
    match &d.uid {
        Some(u) => tags.push((to_string("_ical_uid"), copy_string(u))),
        None => {},
    }
    tags.push(stored);
    let t = Task {
        subject: match &d.summary {
            Some(s) => copy_string(s),
            None => String::new(),
        },
        priority: match d.priority {
            Some(x) => ical_priority_to_todotxt(x),
            None => LOWEST_PRIORITY,
        },
        create_date: d.start,
        finish_date: d.completed,
        finished: d.is_completed,
        threshold_date: None,
        due_date: d.due,
        contexts,
        projects,
        hashtags,
        tags,
    };
    proof {
        reveal_strlit("_ical_vtodo");
        reveal_strlit("_ical_uid");
        assert(t@.tags =~= task_of_todo(todo_fields(*d), d.text@).tags);
        assert(t@.subject =~= task_of_todo(todo_fields(*d), d.text@).subject);
    }
    t
}

/// The tasks made from VTODOs with fields `fs` and texts `texts`.
pub open spec fn todo_tasks(fs: Seq<TodoFields>, texts: Seq<Seq<char>>) -> Seq<TaskView> {
    Seq::new(fs.len(), |i: int| task_of_todo(fs[i], texts[i]))
}

/// Adds the tasks of the VTODOs of a calendar text, read with the icalendar crate, to the
/// lists: finished ones to the done list, the others to the pending list, in order (see
/// `task_of_todo`). A text that is not a calendar is an error and adds nothing.
pub fn load_calendar_text(text: &str, todo: &mut ToDo) -> (r: Result<(), IcalError>)
    ensures
        final(todo).state == old(todo).state,
        final(todo).config == old(todo).config,
        match parsed_todos(text@) {
            None => r == Err::<(), IcalError>(IcalError::BadCalendar) && final(todo).pending@ == old(todo).pending@
                && final(todo).done@ == old(todo).done@,
            Some(fs) => r == Ok::<(), IcalError>(()) && exists|texts: Seq<Seq<char>>| #![trigger todo_tasks(fs, texts)]
                texts.len() == fs.len()
                && task_views(final(todo).pending@) == task_views(old(todo).pending@) + todo_tasks(fs, texts).filter(
                    |t: TaskView| !t.finished,
                ) && task_views(final(todo).done@) == task_views(old(todo).done@) + todo_tasks(fs, texts).filter(
                    |t: TaskView| t.finished,
                ),
        },
{
    let parsed = parse_calendar_todos(text);
    let ds = match parsed {
        Some(ds) => ds,
        None => return Err(IcalError::BadCalendar),
    };
    let ghost fs = ds@.map_values(|d: VTodoData| todo_fields(d));
    let ghost texts: Seq<Seq<char>> = seq![];
    let ghost pend = |t: TaskView| !t.finished;
    let ghost fin = |t: TaskView| t.finished;
    proof {
        reveal(Seq::filter);
        assert(todo_tasks(fs.take(0), texts) =~= Seq::<TaskView>::empty());
        assert(task_views(todo.pending@) =~= task_views(old(todo).pending@) + Seq::<TaskView>::empty());
        assert(task_views(todo.done@) =~= task_views(old(todo).done@) + Seq::<TaskView>::empty());
    }
    let mut i: usize = 0;
    while i < ds.len()
        invariant
            i <= ds@.len(),
            fs == ds@.map_values(|d: VTodoData| todo_fields(d)),
            forall|k: int| 0 <= k < ds@.len() ==> fields_valid(#[trigger] todo_fields(ds@[k])),
            texts.len() == i,
            pend == (|t: TaskView| !t.finished),
            fin == (|t: TaskView| t.finished),
            task_views(todo.pending@) == task_views(old(todo).pending@) + todo_tasks(fs.take(i as int), texts).filter(pend),
            task_views(todo.done@) == task_views(old(todo).done@) + todo_tasks(fs.take(i as int), texts).filter(fin),
            todo.state == old(todo).state,
            todo.config == old(todo).config,
        decreases ds@.len() - i,
    {
        let d = &ds[i];
        assert(fields_valid(todo_fields(ds@[i as int])));
        let task = extract_task_from_todo(d);
        let ghost tv = task@;
        let ghost (p0, d0) = (todo.pending@, todo.done@);
        let ghost before = todo_tasks(fs.take(i as int), texts);
        todo.add_task(task);
        proof {
            reveal(Seq::filter);
            let nt = texts.push(d.text@);
            let after = todo_tasks(fs.take(i + 1), nt);
            assert(fs[i as int] == todo_fields(ds@[i as int]));
            assert(after =~= before.push(tv));
            assert(after.drop_last() =~= before);
            if tv.finished {
                assert(task_views(todo.done@) =~= task_views(d0).push(tv));
                assert(task_views(todo.pending@) =~= task_views(p0));
            } else {
                assert(task_views(todo.pending@) =~= task_views(p0).push(tv));
                assert(task_views(todo.done@) =~= task_views(d0));
            }
            texts = nt;
        }
        i = i + 1;
    }
    proof {
        assert(fs.take(ds@.len() as int) =~= fs);
        assert(todo_tasks(fs.take(ds@.len() as int), texts) == todo_tasks(fs, texts));
        assert(parsed_todos(text@) == Some(fs));
        assert(parsed_todos(text@)->0 == fs);
        assert(todo_tasks(parsed_todos(text@)->0, texts) == todo_tasks(fs, texts));
        assert(texts.len() == fs.len());
        assert(task_views(todo.pending@) == task_views(old(todo).pending@) + todo_tasks(fs, texts).filter(|t: TaskView| !t.finished));
        assert(task_views(todo.done@) == task_views(old(todo).done@) + todo_tasks(fs, texts).filter(|t: TaskView| t.finished));
    }
    Ok(())
}

} // verus!
