use vstd::prelude::*;
use chrono::Datelike;
pub use crate::date::{Date, valid_opt};
use crate::date::local_today;
use crate::error::ToDoError;
use crate::text::{chars_of, seq_lt, string_of, strictly_sorted, views};
use crate::date::valid_date;
use crate::due::{blot, blotted, lemma_blotted_blotted, tag_date, tag_date_exec};

verus! {

/// The priority that stands for "no priority" (after A = 0 ... Z = 25).
pub const LOWEST_PRIORITY: u8 = 26;

/// A todo.txt task.
#[derive(Debug)]
pub struct Task {
    pub subject: String,
    /// 0 stands for A, 25 for Z, 26 for no priority.
    pub priority: u8,
    pub create_date: Option<Date>,
    pub finish_date: Option<Date>,
    pub finished: bool,
    pub threshold_date: Option<Date>,
    pub due_date: Option<Date>,
    pub contexts: Vec<String>,
    pub projects: Vec<String>,
    pub hashtags: Vec<String>,
    pub tags: Vec<(String, String)>,
}

/// The keys and values of a list of tags.
pub open spec fn tag_views(v: Seq<(String, String)>) -> Seq<(Seq<char>, Seq<char>)> {
    v.map_values(|p: (String, String)| (p.0@, p.1@))
}

/// The value of a task as plain values.
pub struct TaskView {
    pub subject: Seq<char>,
    pub priority: u8,
    pub create_date: Option<Date>,
    pub finish_date: Option<Date>,
    pub finished: bool,
    pub threshold_date: Option<Date>,
    pub due_date: Option<Date>,
    pub contexts: Seq<Seq<char>>,
    pub projects: Seq<Seq<char>>,
    pub hashtags: Seq<Seq<char>>,
    pub tags: Seq<(Seq<char>, Seq<char>)>,
}

impl View for Task {
    type V = TaskView;

    open spec fn view(&self) -> TaskView {
        TaskView {
            subject: self.subject@,
            priority: self.priority,
            create_date: self.create_date,
            finish_date: self.finish_date,
            finished: self.finished,
            threshold_date: self.threshold_date,
            due_date: self.due_date,
            contexts: views(self.contexts@),
            projects: views(self.projects@),
            hashtags: views(self.hashtags@),
            tags: tag_views(self.tags@),
        }
    }
}

/// The dates of the task are valid.
pub open spec fn dates_valid(t: TaskView) -> bool {
    &&& valid_opt(t.create_date)
    &&& valid_opt(t.finish_date)
    &&& valid_opt(t.threshold_date)
    &&& valid_opt(t.due_date)
}

/// A task that the todo_txt crate can write: valid dates, and a priority from A to Z or none.
pub open spec fn writable(t: TaskView) -> bool {
    dates_valid(t) && t.priority <= LOWEST_PRIORITY
}

/// The keys of a task's tags, in order.
pub open spec fn tag_keys(t: TaskView) -> Seq<Seq<char>> {
    t.tags.map_values(|p: (Seq<char>, Seq<char>)| p.0)
}

proof fn lemma_seq_lt_irreflexive(a: Seq<char>)
    ensures
        !seq_lt(a, a),
    decreases a.len(),
{
    if a.len() > 0 {
        lemma_seq_lt_irreflexive(a.drop_first());
    }
}

/// Tag keys in strictly increasing order are all different: a task read from a line (see
/// `parse_task`) holds each tag key once.
pub proof fn lemma_tag_keys_unique(t: TaskView)
    requires
        strictly_sorted(tag_keys(t)),
    ensures
        forall|i: int, j: int| 0 <= i < j < t.tags.len() ==> #[trigger] t.tags[i].0 != #[trigger] t.tags[j].0,
{
    assert forall|i: int, j: int| 0 <= i < j < t.tags.len() implies #[trigger] t.tags[i].0 != #[trigger] t.tags[j].0 by {
        lemma_seq_lt_irreflexive(t.tags[i].0);
        assert(tag_keys(t)[i] == t.tags[i].0);
        assert(tag_keys(t)[j] == t.tags[j].0);
    }
}

/// The task that the todo_txt crate reads from a line (`todo_txt::task::Simple::from_str`)
/// whose `due` and `t` values hold no digit.
pub uninterp spec fn parsed_task(line: Seq<char>) -> TaskView;

/// The task that a todo.txt line gives on the day `today`: what the todo_txt crate reads from
/// the line once the digits of its `due` and `t` values are blotted out, with the due and
/// threshold dates that those values give (an absolute date, or one counted from `today`).
pub open spec fn task_on(line: Seq<char>, today: Date) -> TaskView {
    TaskView {
        due_date: tag_date(line, true, today),
        threshold_date: tag_date(line, false, today),
        ..parsed_task(blotted(line))
    }
}

/// The line that the todo_txt crate writes for a task (`Display` of `todo_txt::task::Simple`).
pub uninterp spec fn task_line(t: TaskView) -> Seq<char>;

/// Reads a task from a todo.txt line whose `due` and `t` values hold no digit.
/// Trusted: calls `todo_txt::task::Simple::from_str`, which never fails in this version of
/// the crate, and converts the fields one for one; the task is named `parsed_task`. Its dates
/// are chrono dates, so valid. Its tags come from a `BTreeMap<String, String>`, whose
/// iteration gives each key once in increasing order; `String`s order by their UTF-8 bytes,
/// which is the order of their characters. The crate reads a `due` or `t` value as a date or as a count of
/// days from the local clock's today; a value without a digit is neither, so the result does
/// not depend on the clock.
#[verifier::external_body]
fn read_plain_task(line: &str) -> (t: Task)
    requires
        blotted(line@) == line@,
    ensures
        t@ == parsed_task(line@),
        dates_valid(t@),
        strictly_sorted(tag_keys(t@)),
{
    let s: todo_txt::task::Simple = match line.parse() {
        Ok(s) => s,
        Err(e) => match e {},
    };
    let d = |x: Option<chrono::NaiveDate>| x.map(|n| Date { year: n.year(), month: n.month(), day: n.day() });
    Task {
        subject: s.subject, priority: s.priority.into(), create_date: d(s.create_date),
        finish_date: d(s.finish_date), finished: s.finished, threshold_date: d(s.threshold_date),
        due_date: d(s.due_date), contexts: s.contexts, projects: s.projects, hashtags: s.hashtags,
        tags: s.tags.into_iter().collect(),
    }
}

/// Reads a task from a todo.txt line on the day `today` (see `task_on`).
pub fn parse_task(line: &str, today: Date) -> (t: Task)
    requires
        valid_date(today),
    ensures
        t@ == task_on(line@, today),
        dates_valid(t@),
        strictly_sorted(tag_keys(t@)),
{
    let v = chars_of(line);
    let w = blot(&v);
    let plain = string_of(&w);
    proof {
        lemma_blotted_blotted(v@);
    }
    let mut t = read_plain_task(plain.as_str());
    t.due_date = tag_date_exec(&v, true, today);
    t.threshold_date = tag_date_exec(&v, false, today);
    t
}

/// Writes a task as a todo.txt line.
/// Trusted: the priority is at most 26 (none), so the crate's `(priority + b'A') as char`
/// cannot overflow. Converts the fields one for one into a `todo_txt::task::Simple` (valid dates
/// convert with chrono's `NaiveDate::from_ymd_opt`) and calls its `to_string`; the line is
/// named `task_line`.
#[verifier::external_body]
pub(crate) fn task_to_line(t: &Task) -> (s: String)
    requires
        writable(t@),
    ensures
        s@ == task_line(t@),
{
    let d = |x: Option<Date>| x.and_then(|n| chrono::NaiveDate::from_ymd_opt(n.year, n.month, n.day));
    todo_txt::task::Simple {
        subject: t.subject.clone(), priority: t.priority.into(), create_date: d(t.create_date),
        finish_date: d(t.finish_date), finished: t.finished, threshold_date: d(t.threshold_date),
        due_date: d(t.due_date), contexts: t.contexts.clone(), projects: t.projects.clone(),
        hashtags: t.hashtags.clone(), tags: t.tags.iter().cloned().collect(),
    }.to_string()
}

impl Task {
    /// A task without subject, priority, dates or categories.
    pub fn empty() -> (t: Task)
        ensures
            t@.subject.len() == 0,
            t.priority == LOWEST_PRIORITY,
            t.create_date is None,
            t.finish_date is None,
            !t.finished,
            t.threshold_date is None,
            t.due_date is None,
            t.contexts@.len() == 0,
            t.projects@.len() == 0,
            t.hashtags@.len() == 0,
            t.tags@.len() == 0,
    {
        Task {
            subject: String::new(),
            priority: LOWEST_PRIORITY,
            create_date: None,
            finish_date: None,
            finished: false,
            threshold_date: None,
            due_date: None,
            contexts: Vec::new(),
            projects: Vec::new(),
            hashtags: Vec::new(),
            tags: Vec::new(),
        }
    }

    /// Whether the task has no priority.
    pub fn is_lowest(&self) -> (b: bool)
        ensures
            b == (self.priority == LOWEST_PRIORITY),
    {
        self.priority == LOWEST_PRIORITY
    }
}

/// Reads a task from a todo.txt line on today's local date (see `parse_task`); reading never
/// fails.
impl core::str::FromStr for Task {
    type Err = ToDoError;

    fn from_str(s: &str) -> (r: Result<Task, ToDoError>)
        ensures
            r matches Ok(t) && dates_valid(t@) && exists|d: Date| #![trigger task_on(s@, d)] valid_date(d) && t@ == task_on(s@, d),
    {
        let d = local_today();
        Ok(parse_task(s, d))
    }
}

} // verus!
