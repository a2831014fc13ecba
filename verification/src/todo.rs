use vstd::prelude::*;
use crate::config::ToDoConfig;
use crate::options::{SetFinalDateType, TaskSort};
use crate::date::{format_iso_date, iso_date_text, local_today, today, valid_date};
use crate::task::{parse_task, task_on, Date, Task, TaskView};
use crate::task_list::{before, lemma_before_strict, ordered, same_elements, sort_indices, sorted_by};
use crate::text::{concat_str, contains_str, replace_all, replaced, str_eq, to_string, views};
use crate::widget_type::{ToDoCategory, ToDoData};

verus! {

/// Whether a category filter keeps only the tasks with that name or removes them.
#[derive(PartialEq, Eq, Structural, Debug, Copy, Clone)]
pub enum FilterState {
    Select,
    Remove,
}

/// The names and states of a list of filters.
pub open spec fn filter_views(v: Seq<(String, FilterState)>) -> Seq<(Seq<char>, FilterState)> {
    v.map_values(|p: (String, FilterState)| (p.0@, p.1))
}

/// No name occurs twice among the filters.
pub open spec fn keys_distinct(f: Seq<(Seq<char>, FilterState)>) -> bool {
    forall|i: int, j: int| 0 <= i < j < f.len() ==> f[i].0 != f[j].0
}

/// A task with these names passes the filters: it has every selected name and no removed one.
pub open spec fn passes(names: Seq<Seq<char>>, f: Seq<(Seq<char>, FilterState)>) -> bool {
    forall|i: int|
        0 <= i < f.len() ==> (if (#[trigger] f[i]).1 == FilterState::Select {
            names.contains(f[i].0)
        } else {
            !names.contains(f[i].0)
        })
}

/// The names of a task in one category.
pub open spec fn category_names(t: TaskView, c: ToDoCategory) -> Seq<Seq<char>> {
    match c {
        ToDoCategory::Projects => t.projects,
        ToDoCategory::Contexts => t.contexts,
        ToDoCategory::Hashtags => t.hashtags,
    }
}

/// The filters after toggling `name` to `state`: a filter with that name and state goes
/// away, one with that name and the other state takes the new state, and a new name is
/// added at the end.
pub open spec fn toggled(f: Seq<(Seq<char>, FilterState)>, name: Seq<char>, state: FilterState) -> Seq<(Seq<char>, FilterState)> {
    if exists|i: int| 0 <= i < f.len() && f[i].0 == name {
        let i = choose|i: int| 0 <= i < f.len() && f[i].0 == name;
        if f[i].1 == state {
            f.remove(i)
        } else {
            f.update(i, (name, state))
        }
    } else {
        f.push((name, state))
    }
}

/// Toggling a filter that is not set, and then toggling it again to the same state, gives
/// back the filters as they were.
pub proof fn lemma_toggle_twice(f: Seq<(Seq<char>, FilterState)>, name: Seq<char>, state: FilterState)
    requires
        forall|i: int| 0 <= i < f.len() ==> (#[trigger] f[i]).0 != name,
    ensures
        toggled(toggled(f, name, state), name, state) == f,
{
    let g = toggled(f, name, state);
    assert(g == f.push((name, state)));
    assert(g[f.len() as int].0 == name);
    let i = choose|i: int| 0 <= i < g.len() && g[i].0 == name;
    if i < f.len() {
        assert(g[i] == f[i]);
    }
    assert(i == f.len());
    assert(g.remove(i) =~= f);
}

/// Toggling a filter to the state it has removes it; toggling it then to that state again
/// puts it back at the end of the filters.
pub proof fn lemma_toggle_set_filter(f: Seq<(Seq<char>, FilterState)>, k: int, state: FilterState)
    requires
        keys_distinct(f),
        0 <= k < f.len(),
        f[k].1 == state,
    ensures
        toggled(f, f[k].0, state) == f.remove(k),
        toggled(toggled(f, f[k].0, state), f[k].0, state) == f.remove(k).push(f[k]),
{
    let name = f[k].0;
    let i = choose|i: int| 0 <= i < f.len() && f[i].0 == name;
    assert(i == k);
    let g = f.remove(k);
    assert forall|j: int| 0 <= j < g.len() implies (#[trigger] g[j]).0 != name by {
        if j < k {
            assert(g[j] == f[j]);
        } else {
            assert(g[j] == f[j + 1]);
        }
    }
    assert(!(exists|j: int| 0 <= j < g.len() && g[j].0 == name));
}

/// The selection and filters of the todo lists.
#[derive(Debug)]
pub struct ToDoState {
    /// The active task, chosen for editing: its list and its position there.
    pub active: Option<(ToDoData, usize)>,
    /// The shown position of the task under the cursor of the pending list.
    pub actual_pending: usize,
    /// The shown position of the task under the cursor of the done list.
    pub actual_done: usize,
    pub project_filters: Vec<(String, FilterState)>,
    pub context_filters: Vec<(String, FilterState)>,
    pub hashtag_filters: Vec<(String, FilterState)>,
}

impl ToDoState {
    pub open spec fn filters(&self, c: ToDoCategory) -> Seq<(Seq<char>, FilterState)> {
        match c {
            ToDoCategory::Projects => filter_views(self.project_filters@),
            ToDoCategory::Contexts => filter_views(self.context_filters@),
            ToDoCategory::Hashtags => filter_views(self.hashtag_filters@),
        }
    }

    /// No filter list names a category twice.
    pub open spec fn wf(&self) -> bool {
        &&& keys_distinct(self.filters(ToDoCategory::Projects))
        &&& keys_distinct(self.filters(ToDoCategory::Contexts))
        &&& keys_distinct(self.filters(ToDoCategory::Hashtags))
    }

    /// The filters let the task through.
    pub open spec fn keeps(&self, t: TaskView) -> bool {
        &&& passes(t.projects, self.filters(ToDoCategory::Projects))
        &&& passes(t.contexts, self.filters(ToDoCategory::Contexts))
        &&& passes(t.hashtags, self.filters(ToDoCategory::Hashtags))
    }

    /// No active task and no filters.
    pub fn new() -> (s: ToDoState)
        ensures
            s.active is None,
            s.actual_pending == 0,
            s.actual_done == 0,
            s.filters(ToDoCategory::Projects).len() == 0,
            s.filters(ToDoCategory::Contexts).len() == 0,
            s.filters(ToDoCategory::Hashtags).len() == 0,
            s.wf(),
    {
        ToDoState {
            active: None,
            actual_pending: 0,
            actual_done: 0,
            project_filters: Vec::new(),
            context_filters: Vec::new(),
            hashtag_filters: Vec::new(),
        }
    }

    /// The filters of one category.
    pub fn get_category(&self, category: ToDoCategory) -> (f: &Vec<(String, FilterState)>)
        ensures
            filter_views(f@) == self.filters(category),
    {
        match category {
            ToDoCategory::Projects => &self.project_filters,
            ToDoCategory::Contexts => &self.context_filters,
            ToDoCategory::Hashtags => &self.hashtag_filters,
        }
    }

    /// Toggles the filter `filter` of a category to `state` (see `toggled`).
    pub fn set_filter(&mut self, category: ToDoCategory, filter: &str, state: FilterState)
        requires
            old(self).wf(),
        ensures
            final(self).wf(),
            final(self).active == old(self).active,
            final(self).filters(category) == toggled(old(self).filters(category), filter@, state),
            forall|c: ToDoCategory| c != category ==> final(self).filters(c) == old(self).filters(c),
    {
        match category {
            ToDoCategory::Projects => toggle_in(&mut self.project_filters, filter, state),
            ToDoCategory::Contexts => toggle_in(&mut self.context_filters, filter, state),
            ToDoCategory::Hashtags => toggle_in(&mut self.hashtag_filters, filter, state),
        }
    }

    /// Whether the filters let the task through.
    pub fn filter_out(&self, task: &Task) -> (keep: bool)
        ensures
            keep == self.keeps(task@),
    {
        passes_all(&task.projects, &self.project_filters) && passes_all(&task.contexts, &self.context_filters)
            && passes_all(&task.hashtags, &self.hashtag_filters)
    }
}

fn toggle_in(list: &mut Vec<(String, FilterState)>, name: &str, state: FilterState)
    requires
        keys_distinct(filter_views(old(list)@)),
    ensures
        filter_views(final(list)@) == toggled(filter_views(old(list)@), name@, state),
        keys_distinct(filter_views(final(list)@)),
{
    let ghost f = filter_views(list@);
    let mut i: usize = 0;
    while i < list.len()
        invariant
            i <= list@.len(),
            list@ == old(list)@,
            f == filter_views(list@),
            keys_distinct(f),
            forall|j: int| 0 <= j < i ==> f[j].0 != name@,
        decreases list@.len() - i,
    {
        if str_eq(list[i].0.as_str(), name) {
            proof {
                assert(f[i as int].0 == name@);
                let c = choose|c: int| 0 <= c < f.len() && f[c].0 == name@;
                assert(c == i);
            }
            if list[i].1 == state {
                list.remove(i);
                proof {
                    assert(filter_views(list@) =~= f.remove(i as int));
                    let g = f.remove(i as int);
                    assert forall|a: int, b: int| 0 <= a < b < g.len() implies g[a].0 != g[b].0 by {
                        let a2 = if a < i { a } else { a + 1 };
                        let b2 = if b < i { b } else { b + 1 };
                        assert(g[a] == f[a2] && g[b] == f[b2]);
                    }
                }
            } else {
                list.set(i, (to_string(name), state));
                proof {
                    assert(filter_views(list@) =~= f.update(i as int, (name@, state)));
                    let g = f.update(i as int, (name@, state));
                    assert forall|a: int, b: int| 0 <= a < b < g.len() implies g[a].0 != g[b].0 by {
                        assert(g[a].0 == f[a].0 && g[b].0 == f[b].0);
                    }
                }
            }
            return;
        }
        i = i + 1;
    }
    list.push((to_string(name), state));
    proof {
        assert(filter_views(list@) =~= f.push((name@, state)));
        assert(!(exists|i: int| 0 <= i < f.len() && f[i].0 == name@));
    }
}

fn passes_all(names: &Vec<String>, filters: &Vec<(String, FilterState)>) -> (r: bool)
    ensures
        r == passes(views(names@), filter_views(filters@)),
{
    let ghost f = filter_views(filters@);
    let mut i: usize = 0;
    while i < filters.len()
        invariant
            i <= filters@.len(),
            f == filter_views(filters@),
            forall|j: int|
                0 <= j < i ==> (if (#[trigger] f[j]).1 == FilterState::Select {
                    views(names@).contains(f[j].0)
                } else {
                    !views(names@).contains(f[j].0)
                }),
        decreases filters@.len() - i,
    {
        let present = contains_str(names, filters[i].0.as_str());
        let ok = match filters[i].1 {
            FilterState::Select => present,
            FilterState::Remove => !present,
        };
        if !ok {
            proof {
                assert(f[i as int].0 == filters@[i as int].0@);
            }
            return false;
        }
        proof {
            assert(f[i as int].0 == filters@[i as int].0@);
        }
        i = i + 1;
    }
    true
}

/// Counters of changes to the pending and to the done list.
#[derive(Debug, PartialEq, Eq, Structural, Copy, Clone)]
pub struct Version {
    pub pending: usize,
    pub done: usize,
}

/// One more change, wrapping around at the maximum.
pub open spec fn bumped(v: usize) -> usize {
    if v == usize::MAX {
        0
    } else {
        (v + 1) as usize
    }
}

impl Version {
    pub fn new() -> (v: Version)
        ensures
            v.pending == 0,
            v.done == 0,
    {
        Version { pending: 0, done: 0 }
    }

    /// Records a change to one list.
    pub fn update(&mut self, data: ToDoData)
        ensures
            data == ToDoData::Pending ==> final(self).pending == bumped(old(self).pending)
                && final(self).done == old(self).done,
            data == ToDoData::Done ==> final(self).done == bumped(old(self).done)
                && final(self).pending == old(self).pending,
    {
        match data {
            ToDoData::Pending => self.pending = self.pending.wrapping_add(1),
            ToDoData::Done => self.done = self.done.wrapping_add(1),
        }
    }

    /// Records a change to both lists.
    pub fn update_all(&mut self)
        ensures
            final(self).pending == bumped(old(self).pending),
            final(self).done == bumped(old(self).done),
    {
        self.pending = self.pending.wrapping_add(1);
        self.done = self.done.wrapping_add(1);
    }

    /// Whether the list's counter is `version`.
    pub fn is_actual(&self, version: usize, data: ToDoData) -> (b: bool)
        ensures
            b == (match data {
                ToDoData::Pending => self.pending == version,
                ToDoData::Done => self.done == version,
            }),
    {
        match data {
            ToDoData::Pending => self.pending == version,
            ToDoData::Done => self.done == version,
        }
    }

    /// Both counters.
    pub fn get_version_all(&self) -> (v: (usize, usize))
        ensures
            v == (self.pending, self.done),
    {
        (self.pending, self.done)
    }

    /// Whether both counters are as given.
    pub fn is_actual_all(&self, versions: (usize, usize)) -> (b: bool)
        ensures
            b == (self.pending == versions.0 && self.done == versions.1),
    {
        self.pending == versions.0 && self.done == versions.1
    }
}

/// The positions of the tasks among the first `n` that the filters let through, in order.
pub open spec fn kept_upto(ts: Seq<Task>, st: ToDoState, n: int) -> Seq<usize>
    decreases n,
{
    if n <= 0 {
        seq![]
    } else {
        kept_upto(ts, st, n - 1) + if st.keeps(ts[n - 1]@) {
            seq![(n - 1) as usize]
        } else {
            seq![]
        }
    }
}

proof fn lemma_kept_bounds(ts: Seq<Task>, st: ToDoState, n: int)
    requires
        0 <= n <= ts.len(),
        ts.len() <= usize::MAX,
    ensures
        forall|i: int| 0 <= i < kept_upto(ts, st, n).len() ==> kept_upto(ts, st, n)[i] < n,
        forall|i: int, j: int|
            0 <= i < j < kept_upto(ts, st, n).len() ==> kept_upto(ts, st, n)[i] < kept_upto(ts, st, n)[j],
    decreases n,
{
    if n > 0 {
        lemma_kept_bounds(ts, st, n - 1);
        let k = kept_upto(ts, st, n - 1);
        let e: Seq<usize> = if st.keeps(ts[n - 1]@) { seq![(n - 1) as usize] } else { seq![] };
        let r = kept_upto(ts, st, n);
        assert(r == k + e);
        assert forall|i: int| 0 <= i < r.len() implies r[i] < n by {
            if i < k.len() {
                assert(r[i] == k[i]);
            } else {
                assert(r[i] == e[i - k.len()]);
            }
        }
        assert forall|i: int, j: int| 0 <= i < j < r.len() implies r[i] < r[j] by {
            if j < k.len() {
                assert(r[i] == k[i] && r[j] == k[j]);
            } else {
                assert(r[j] == e[j - k.len()]);
                assert(r[i] == k[i]);
            }
        }
    }
}

/// The task position that the `index`-th entry of an ordered view stands for.
pub open spec fn actual_index(order: Seq<usize>, index: usize) -> Option<usize> {
    if index < order.len() {
        Some(order[index as int])
    } else {
        None
    }
}

/// Where the active task is after task `i` of list `data` was removed: it moves up when it
/// came after `i` in that list, is gone when it was task `i`, and stays otherwise, also when
/// it is in the other list.
pub open spec fn fixed_active(a: Option<(ToDoData, usize)>, data: ToDoData, i: usize) -> Option<(ToDoData, usize)> {
    match a {
        Some((d, act)) => if d != data {
            a
        } else if i < act {
            Some((d, (act - 1) as usize))
        } else if i == act {
            None
        } else {
            a
        },
        None => None,
    }
}

/// Removing task `i` of list `data`, whose tasks are `l`, keeps the active entry on the same
/// task (see `fixed_active`): it is cleared when task `i` was the active one, it follows its
/// task when that task is in the same list, and it stays when the active task is in the other
/// list.
pub proof fn lemma_fixed_active_keeps_task(l: Seq<Task>, active: Option<(ToDoData, usize)>, data: ToDoData, i: usize)
    requires
        i < l.len(),
    ensures
        match active {
            Some((d, a)) => if d != data {
                fixed_active(active, data, i) == active
            } else if a == i {
                fixed_active(active, data, i) is None
            } else if a < l.len() {
                fixed_active(active, data, i) matches Some((d2, a2)) && d2 == d && a2 < l.remove(i as int).len()
                    && l.remove(i as int)[a2 as int] == l[a as int]
            } else {
                true
            },
            None => fixed_active(active, data, i) is None,
        },
{
}

/// When the active task was in list `data`, it is still active and still the same task.
pub open spec fn keeps_active_task(
    before: Seq<Task>,
    after: Seq<Task>,
    old_active: Option<(ToDoData, usize)>,
    new_active: Option<(ToDoData, usize)>,
    data: ToDoData,
) -> bool {
    match old_active {
        Some((d, a)) => (d == data && a < before.len()) ==> match new_active {
            Some((d2, a2)) => d2 == data && a2 < after.len() && after[a2 as int] == before[a as int],
            None => false,
        },
        None => true,
    }
}

/// The moved task: completed or reopened, with the finish date set or cleared as configured.
pub open spec fn moved_task(t: TaskView, config: ToDoConfig, today: Date) -> TaskView {
    let finish = if t.finished {
        if config.delete_final_date {
            None
        } else {
            t.finish_date
        }
    } else {
        match config.set_final_date {
            SetFinalDateType::Override => Some(today),
            SetFinalDateType::OnlyMissing => if t.finish_date is None {
                Some(today)
            } else {
                t.finish_date
            },
            SetFinalDateType::Never => t.finish_date,
        }
    };
    TaskView { finished: !t.finished, finish_date: finish, ..t }
}

/// The text of a new task after today's date replaces "due:today " and "due: ".
pub open spec fn with_due_today(task: Seq<char>, today: Date) -> Seq<char> {
    let due = "due:"@ + iso_date_text(today);
    replaced(replaced(task, "due:today "@, due), "due: "@, due)
}

/// The task made from a line typed by the user: parsed after `with_due_today`, created
/// today when it names no creation date.
pub open spec fn new_task_view(task: Seq<char>, today: Date) -> TaskView {
    let p = task_on(with_due_today(task, today), today);
    if p.create_date is None {
        TaskView { create_date: Some(today), ..p }
    } else {
        p
    }
}

/// `after` is `before` with one more task at the end, whose value is `t`.
pub open spec fn pushed(before: Seq<Task>, after: Seq<Task>, t: TaskView) -> bool {
    &&& after.len() == before.len() + 1
    &&& after.drop_last() == before
    &&& after.last()@ == t
}

/// The other list.
pub open spec fn other(data: ToDoData) -> ToDoData {
    match data {
        ToDoData::Pending => ToDoData::Done,
        ToDoData::Done => ToDoData::Pending,
    }
}

/// The todo lists, their selection and filters, and a counter of changes to each list.
#[derive(Debug)]
pub struct ToDo {
    pub pending: Vec<Task>,
    pub done: Vec<Task>,
    pub version: Version,
    pub state: ToDoState,
    pub config: ToDoConfig,
}

impl ToDo {
    pub open spec fn list(&self, data: ToDoData) -> Seq<Task> {
        match data {
            ToDoData::Pending => self.pending@,
            ToDoData::Done => self.done@,
        }
    }

    pub open spec fn wf(&self) -> bool {
        self.state.wf()
    }

    /// The order of a list as configured.
    pub open spec fn sort_of(&self, data: ToDoData) -> TaskSort {
        match data {
            ToDoData::Pending => self.config.pending_sort,
            ToDoData::Done => self.config.done_sort,
        }
    }

    /// The positions of a list's tasks that the filters let through, in list order.
    pub open spec fn kept(&self, data: ToDoData) -> Seq<usize> {
        kept_upto(self.list(data), self.state, self.list(data).len() as int)
    }

    /// The positions of a list's tasks that the filters let through, in the configured order:
    /// what the list widgets show.
    pub open spec fn view_order(&self, data: ToDoData) -> Seq<usize> {
        choose|r: Seq<usize>| ordered(self.list(data), self.sort_of(data), self.kept(data), r)
    }

    /// Empty lists, no active task and no filters.
    pub fn new(config: ToDoConfig) -> (t: ToDo)
        ensures
            t.pending@.len() == 0,
            t.done@.len() == 0,
            t.version.pending == 0 && t.version.done == 0,
            t.state.active is None,
            t.state.filters(ToDoCategory::Projects).len() == 0,
            t.state.filters(ToDoCategory::Contexts).len() == 0,
            t.state.filters(ToDoCategory::Hashtags).len() == 0,
            t.config == config,
            t.wf(),
    {
        ToDo {
            pending: Vec::new(),
            done: Vec::new(),
            version: Version::new(),
            state: ToDoState::new(),
            config,
        }
    }

    /// Takes the lists of `other` and records a change to both.
    pub fn move_data(&mut self, other: ToDo)
        ensures
            final(self).pending@ == other.pending@,
            final(self).done@ == other.done@,
            final(self).version.pending == bumped(old(self).version.pending),
            final(self).version.done == bumped(old(self).version.done),
            final(self).state == old(self).state,
            final(self).config == old(self).config,
    {
        self.pending = other.pending;
        self.done = other.done;
        self.version.update_all();
    }

    pub fn get_version(&self) -> (v: &Version)
        ensures
            *v == self.version,
    {
        &self.version
    }

    /// Adds a task to the done list when it is finished, else to the pending list.
    pub fn add_task(&mut self, task: Task)
        ensures
            task.finished ==> final(self).done@ == old(self).done@.push(task) && final(self).pending@
                == old(self).pending@ && final(self).version.done == bumped(old(self).version.done)
                && final(self).version.pending == old(self).version.pending,
            !task.finished ==> final(self).pending@ == old(self).pending@.push(task)
                && final(self).done@ == old(self).done@ && final(self).version.pending == bumped(
                old(self).version.pending,
            ) && final(self).version.done == old(self).version.done,
            final(self).state == old(self).state,
            final(self).config == old(self).config,
    {
        if task.finished {
            self.done.push(task);
            self.version.update(ToDoData::Done);
        } else {
            self.pending.push(task);
            self.version.update(ToDoData::Pending);
        }
    }

    /// Toggles a category filter (see `ToDoState::set_filter`).
    pub fn toggle_filter(&mut self, category: ToDoCategory, filter: &str, filter_state: FilterState)
        requires
            old(self).wf(),
        ensures
            final(self).wf(),
            final(self).state.active == old(self).state.active,
            final(self).state.filters(category) == toggled(old(self).state.filters(category), filter@, filter_state),
            forall|c: ToDoCategory| c != category ==> final(self).state.filters(c) == old(self).state.filters(c),
            final(self).pending@ == old(self).pending@,
            final(self).done@ == old(self).done@,
            final(self).version == old(self).version,
            final(self).config == old(self).config,
    {
        self.state.set_filter(category, filter, filter_state)
    }

    /// The positions of the tasks of a list that the filters let through, in list order.
    pub fn get_filtered_tasks(&self, data: ToDoData) -> (r: Vec<usize>)
        ensures
            r@ == self.kept(data),
    {
        let list = match data {
            ToDoData::Pending => &self.pending,
            ToDoData::Done => &self.done,
        };
        let mut r: Vec<usize> = Vec::new();
        let mut i: usize = 0;
        while i < list.len()
            invariant
                i <= list@.len(),
                list@ == self.list(data),
                r@ == kept_upto(list@, self.state, i as int),
            decreases list@.len() - i,
        {
            if self.state.filter_out(&list[i]) {
                r.push(i);
            }
            proof {
                assert(kept_upto(list@, self.state, i + 1) =~= r@);
            }
            i = i + 1;
        }
        r
    }

    /// The positions of the tasks of a list that the filters let through, in the configured
    /// order.
    pub fn get_filtered_and_sorted(&self, data: ToDoData) -> (r: Vec<usize>)
        ensures
            r@ == self.view_order(data),
            forall|i: int| 0 <= i < r@.len() ==> r@[i] < self.list(data).len(),
    {
        let kept = self.get_filtered_tasks(data);
        let (list, sort) = match data {
            ToDoData::Pending => (&self.pending, self.config.pending_sort),
            ToDoData::Done => (&self.done, self.config.done_sort),
        };
        let n = list.len();
        proof {
            lemma_kept_bounds(self.list(data), self.state, self.list(data).len() as int);
        }
        let r = sort_indices(list, kept, sort);
        proof {
            lemma_kept_bounds(self.list(data), self.state, self.list(data).len() as int);
            lemma_ordered_unique(self.list(data), sort, self.kept(data), r@);
        }
        r
    }

    /// The position in its list of the `index`-th task that the widgets show.
    pub fn get_actual_index(&self, data: ToDoData, index: usize) -> (r: Option<usize>)
        ensures
            r == actual_index(self.view_order(data), index),
            r matches Some(i) ==> i < self.list(data).len(),
    {
        let order = self.get_filtered_and_sorted(data);
        if index < order.len() {
            Some(order[index])
        } else {
            None
        }
    }

    /// How many tasks of a list the filters let through.
    pub fn len(&self, data: ToDoData) -> (n: usize)
        ensures
            n == self.view_order(data).len(),
    {
        self.get_filtered_and_sorted(data).len()
    }

    /// Keeps the active task pointing at the same task after task `index` of a list was
    /// removed (see `fixed_active`).
    fn fix_active(&mut self, data: ToDoData, index: usize)
        ensures
            final(self).state.active == fixed_active(old(self).state.active, data, index),
            final(self).state.project_filters == old(self).state.project_filters,
            final(self).state.context_filters == old(self).state.context_filters,
            final(self).state.hashtag_filters == old(self).state.hashtag_filters,
            final(self).pending == old(self).pending,
            final(self).done == old(self).done,
            final(self).version == old(self).version,
            final(self).config == old(self).config,
    {
        match self.state.active {
            Some((d, act)) => {
                if d != data {
                } else if index < act {
                    self.state.active = Some((d, act - 1));
                } else if index == act {
                    self.state.active = None;
                }
            },
            None => {},
        }
    }

    /// Removes the `index`-th shown task of a list.
    pub fn remove_task(&mut self, data: ToDoData, index: usize)
        requires
            old(self).wf(),
        ensures
            final(self).wf(),
            final(self).config == old(self).config,
            final(self).version == old(self).version,
            match actual_index(old(self).view_order(data), index) {
                Some(i) => {
                    &&& final(self).list(data) == old(self).list(data).remove(i as int)
                    &&& final(self).list(other(data)) == old(self).list(other(data))
                    &&& final(self).state.active == fixed_active(old(self).state.active, data, i)
                },
                None => {
                    &&& final(self).list(data) == old(self).list(data)
                    &&& final(self).list(other(data)) == old(self).list(other(data))
                    &&& final(self).state.active == old(self).state.active
                },
            },
            forall|c: ToDoCategory| final(self).state.filters(c) == old(self).state.filters(c),
            // The active task stays the same task when another task of its list goes away.
            match actual_index(old(self).view_order(data), index) {
                Some(i) => old(self).state.active != Some((data, i)) ==> keeps_active_task(
                    old(self).list(data),
                    final(self).list(data),
                    old(self).state.active,
                    final(self).state.active,
                    data,
                ),
                None => true,
            },
    {
        let index = self.get_actual_index(data, index);
        if let Some(i) = index {
            match data {
                ToDoData::Pending => {
                    self.pending.remove(i);
                },
                ToDoData::Done => {
                    self.done.remove(i);
                },
            }
            self.fix_active(data, i);
        }
    }

    /// Swaps the `from`-th and the `to`-th shown task of a list; the active task follows.
    pub fn swap_tasks(&mut self, data: ToDoData, from: usize, to: usize)
        requires
            old(self).wf(),
        ensures
            final(self).wf(),
            final(self).config == old(self).config,
            final(self).version == old(self).version,
            final(self).list(other(data)) == old(self).list(other(data)),
            forall|c: ToDoCategory| final(self).state.filters(c) == old(self).state.filters(c),
            // The active task stays the same task when tasks of its list are swapped.
            keeps_active_task(old(self).list(data), final(self).list(data), old(self).state.active, final(self).state.active, data),
            match (actual_index(old(self).view_order(data), from), actual_index(old(self).view_order(data), to)) {
                (Some(f), Some(t)) => {
                    &&& final(self).list(data) == old(self).list(data).update(f as int, old(self).list(data)[t as int]).update(
                        t as int,
                        old(self).list(data)[f as int],
                    )
                    &&& final(self).state.active == match old(self).state.active {
                        Some((d, a)) => if d != data {
                            Some((d, a))
                        } else if a == f {
                            Some((d, t))
                        } else if a == t {
                            Some((d, f))
                        } else {
                            Some((d, a))
                        },
                        None => None,
                    }
                },
                _ => {
                    &&& final(self).list(data) == old(self).list(data)
                    &&& final(self).state.active == old(self).state.active
                },
            },
    {
        let f = self.get_actual_index(data, from);
        let t = self.get_actual_index(data, to);
        match (f, t) {
            (Some(f), Some(t)) => {
                match data {
                    ToDoData::Pending => swap_items(&mut self.pending, f, t),
                    ToDoData::Done => swap_items(&mut self.done, f, t),
                }
                match self.state.active {
                    Some((d, a)) => {
                        if d != data {
                        } else if a == f {
                            self.state.active = Some((d, t));
                        } else if a == t {
                            self.state.active = Some((d, f));
                        }
                    },
                    None => {},
                }
            },
            _ => {},
        }
    }

    /// Makes the `index`-th shown task of a list the active one, when there is such a task.
    pub fn set_active(&mut self, data: ToDoData, index: usize)
        ensures
            final(self).pending == old(self).pending,
            final(self).done == old(self).done,
            final(self).config == old(self).config,
            final(self).version == old(self).version,
            final(self).state.project_filters == old(self).state.project_filters,
            final(self).state.context_filters == old(self).state.context_filters,
            final(self).state.hashtag_filters == old(self).state.hashtag_filters,
            final(self).state.active == match actual_index(old(self).view_order(data), index) {
                Some(i) => Some((data, i)),
                None => old(self).state.active,
            },
    {
        let index = self.get_actual_index(data, index);
        if let Some(i) = index {
            self.state.active = Some((data, i));
        }
    }

    /// The shown position of the task under the cursor of a list.
    pub open spec fn actual_of(&self, data: ToDoData) -> usize {
        match data {
            ToDoData::Pending => self.state.actual_pending,
            ToDoData::Done => self.state.actual_done,
        }
    }

    /// Records the shown position of the task under the cursor of a list.
    pub fn set_actual(&mut self, data: ToDoData, index: usize)
        ensures
            final(self).actual_of(data) == index,
            final(self).actual_of(other(data)) == old(self).actual_of(other(data)),
            final(self).pending == old(self).pending,
            final(self).done == old(self).done,
            final(self).config == old(self).config,
            final(self).version == old(self).version,
            final(self).state.active == old(self).state.active,
            final(self).state.project_filters == old(self).state.project_filters,
            final(self).state.context_filters == old(self).state.context_filters,
            final(self).state.hashtag_filters == old(self).state.hashtag_filters,
    {
        match data {
            ToDoData::Pending => self.state.actual_pending = index,
            ToDoData::Done => self.state.actual_done = index,
        }
    }

    /// The task under the cursor of a list, when the recorded position shows one.
    pub fn get_actual(&self, data: ToDoData) -> (r: Option<&Task>)
        ensures
            match actual_index(self.view_order(data), self.actual_of(data)) {
                Some(i) => r == Some(&self.list(data)[i as int]),
                None => r is None,
            },
    {
        let index = match data {
            ToDoData::Pending => self.state.actual_pending,
            ToDoData::Done => self.state.actual_done,
        };
        match self.get_actual_index(data, index) {
            Some(i) => match data {
                ToDoData::Pending => Some(&self.pending[i]),
                ToDoData::Done => Some(&self.done[i]),
            },
            None => None,
        }
    }

    /// The active task; when its position lies past the end of its list, the list's last task.
    pub fn get_active(&self) -> (r: Option<&Task>)
        ensures
            match self.state.active {
                Some((d, i)) => {
                    let l = self.list(d);
                    if i < l.len() {
                        r == Some(&l[i as int])
                    } else if l.len() > 0 {
                        r == Some(&l[l.len() - 1])
                    } else {
                        r is None
                    }
                },
                None => r is None,
            },
    {
        match self.state.active {
            Some((d, i)) => {
                let list = match d {
                    ToDoData::Pending => &self.pending,
                    ToDoData::Done => &self.done,
                };
                if i >= list.len() {
                    if list.len() > 0 {
                        Some(&list[list.len() - 1])
                    } else {
                        None
                    }
                } else {
                    Some(&list[i])
                }
            },
            None => None,
        }
    }

    /// Moves the `index`-th shown task of a list to the other list, with `today` as the date
    /// of completion (see `moved_task`). Both lists count as changed.
    pub fn move_task_on(&mut self, data: ToDoData, index: usize, today: Date)
        requires
            old(self).wf(),
        ensures
            final(self).wf(),
            final(self).config == old(self).config,
            final(self).version.pending == bumped(old(self).version.pending),
            final(self).version.done == bumped(old(self).version.done),
            forall|c: ToDoCategory| final(self).state.filters(c) == old(self).state.filters(c),
            // The active task stays the same task when another task of its list goes away.
            match actual_index(old(self).view_order(data), index) {
                Some(i) => old(self).state.active != Some((data, i)) ==> keeps_active_task(
                    old(self).list(data),
                    final(self).list(data),
                    old(self).state.active,
                    final(self).state.active,
                    data,
                ),
                None => true,
            },
            match actual_index(old(self).view_order(data), index) {
                Some(i) => {
                    &&& final(self).list(data) == old(self).list(data).remove(i as int)
                    &&& final(self).list(other(data)).len() == old(self).list(other(data)).len() + 1
                    &&& final(self).list(other(data)).drop_last() == old(self).list(other(data))
                    &&& final(self).list(other(data)).last()@ == moved_task(
                        old(self).list(data)[i as int]@,
                        old(self).config,
                        today,
                    )
                    &&& final(self).state.active == fixed_active(old(self).state.active, data, i)
                },
                None => {
                    &&& final(self).list(data) == old(self).list(data)
                    &&& final(self).list(other(data)) == old(self).list(other(data))
                    &&& final(self).state.active == old(self).state.active
                },
            },
    {
        let index = self.get_actual_index(data, index);
        self.version.update_all();
        let i = match index {
            Some(i) => i,
            None => {
                return;
            },
        };
        let mut task = match data {
            ToDoData::Pending => self.pending.remove(i),
            ToDoData::Done => self.done.remove(i),
        };
        let ghost before = task@;
        if task.finished && self.config.delete_final_date {
            task.finish_date = None;
        }
        if !task.finished {
            match self.config.set_final_date {
                SetFinalDateType::Override => task.finish_date = Some(today),
                SetFinalDateType::OnlyMissing => {
                    if task.finish_date.is_none() {
                        task.finish_date = Some(today);
                    }
                },
                SetFinalDateType::Never => {},
            }
        }
        task.finished = !task.finished;
        proof {
            assert(task@ == moved_task(before, self.config, today));
        }
        let ghost other_before = self.list(other(data));
        match data {
            ToDoData::Pending => self.done.push(task),
            ToDoData::Done => self.pending.push(task),
        }
        proof {
            assert(self.list(other(data)).drop_last() =~= other_before);
        }
        self.fix_active(data, i);
    }

    /// The state of selection and filters.
    pub fn get_state(&self) -> (s: &ToDoState)
        ensures
            *s == self.state,
    {
        &self.state
    }

    /// Replaces the state of selection and filters.
    pub fn update_state(&mut self, state: ToDoState)
        ensures
            final(self).state == state,
            final(self).pending == old(self).pending,
            final(self).done == old(self).done,
            final(self).version == old(self).version,
            final(self).config == old(self).config,
    {
        self.state = state
    }

    /// Adds a task typed by the user, on date `today` (see `new_task_view`), to the done list
    /// when it is finished, else to the pending list.
    pub fn new_task_on(&mut self, task: &str, today: Date)
        requires
            valid_date(today),
        ensures
            final(self).state == old(self).state,
            final(self).config == old(self).config,
            new_task_view(task@, today).finished ==> pushed(old(self).done@, final(self).done@, new_task_view(task@, today))
                && final(self).pending@ == old(self).pending@ && final(self).version.done == bumped(old(self).version.done)
                && final(self).version.pending == old(self).version.pending,
            !new_task_view(task@, today).finished ==> pushed(old(self).pending@, final(self).pending@, new_task_view(task@, today))
                && final(self).done@ == old(self).done@ && final(self).version.pending == bumped(old(self).version.pending)
                && final(self).version.done == old(self).version.done,
    {
        let date = format_iso_date(today);
        let due = concat_str("due:", date.as_str());
        proof {
            reveal_strlit("due:today ");
            reveal_strlit("due: ");
        }
        let text = replace_all(task, "due:today ", due.as_str());
        let text = replace_all(text.as_str(), "due: ", due.as_str());
        let mut t = parse_task(text.as_str(), today);
        if t.create_date.is_none() {
            t.create_date = Some(today);
        }
        let ghost tv = t@;
        let ghost (p0, d0) = (self.pending@, self.done@);
        self.add_task(t);
        proof {
            assert(tv == new_task_view(task@, today));
            assert(self.pending@.drop_last() =~= p0 || self.done@.drop_last() =~= d0);
        }
    }

    /// Today's date, which new tasks and completed tasks are dated with.
    pub fn get_actual_date() -> (d: Date)
        ensures
            valid_date(d),
    {
        today()
    }

    /// Adds a task typed by the user, dated today (see `new_task_on`).
    pub fn new_task(&mut self, task: &str)
        ensures
            final(self).state == old(self).state,
            final(self).config == old(self).config,
            exists|d: Date| #![trigger new_task_view(task@, d)]
                valid_date(d) && (if new_task_view(task@, d).finished {
                    pushed(old(self).done@, final(self).done@, new_task_view(task@, d)) && final(self).pending@ == old(self).pending@
                } else {
                    pushed(old(self).pending@, final(self).pending@, new_task_view(task@, d)) && final(self).done@ == old(self).done@
                }),
    {
        let d = today();
        self.new_task_on(task, d);
    }

    /// Replaces the active task by the task read from `task` on today's local date (see
    /// `update_active_on`).
    pub fn update_active(&mut self, task: &str)
        requires
            old(self).state.active matches Some((d, i)) ==> i < old(self).list(d).len(),
        ensures
            final(self).state == old(self).state,
            final(self).config == old(self).config,
            final(self).version == old(self).version,
            match old(self).state.active {
                Some((d, i)) => {
                    &&& final(self).list(d).len() == old(self).list(d).len()
                    &&& exists|day: Date| #![trigger task_on(task@, day)] valid_date(day) && final(self).list(d)[i as int]@ == task_on(task@, day)
                    &&& forall|j: int| 0 <= j < final(self).list(d).len() && j != i ==> final(self).list(d)[j] == old(self).list(d)[j]
                    &&& final(self).list(other(d)) == old(self).list(other(d))
                },
                None => final(self).pending@ == old(self).pending@ && final(self).done@ == old(self).done@,
            },
    {
        let day = local_today();
        self.update_active_on(task, day);
    }

    /// Replaces the active task by the task read from `task` on the day `today`.
    pub fn update_active_on(&mut self, task: &str, today: Date)
        requires
            old(self).state.active matches Some((d, i)) ==> i < old(self).list(d).len(),
            valid_date(today),
        ensures
            final(self).state == old(self).state,
            final(self).config == old(self).config,
            final(self).version == old(self).version,
            match old(self).state.active {
                Some((d, i)) => {
                    &&& final(self).list(d).len() == old(self).list(d).len()
                    &&& final(self).list(d)[i as int]@ == task_on(task@, today)
                    &&& forall|j: int| 0 <= j < final(self).list(d).len() && j != i ==> final(self).list(d)[j] == old(self).list(d)[j]
                    &&& final(self).list(other(d)) == old(self).list(other(d))
                },
                None => final(self).pending@ == old(self).pending@ && final(self).done@ == old(self).done@,
            },
    {
        if let Some((d, i)) = self.state.active {
            let t = parse_task(task, today);
            match d {
                ToDoData::Pending => self.pending.set(i, t),
                ToDoData::Done => self.done.set(i, t),
            }
        }
    }

    /// Moves the `index`-th shown task of a list to the other list, completed or reopened
    /// today (see `move_task_on`).
    pub fn move_task(&mut self, data: ToDoData, index: usize)
        requires
            old(self).wf(),
        ensures
            final(self).wf(),
            final(self).config == old(self).config,
            final(self).version.pending == bumped(old(self).version.pending),
            final(self).version.done == bumped(old(self).version.done),
            forall|c: ToDoCategory| final(self).state.filters(c) == old(self).state.filters(c),
            match actual_index(old(self).view_order(data), index) {
                Some(i) => {
                    &&& final(self).list(data) == old(self).list(data).remove(i as int)
                    &&& final(self).list(other(data)).drop_last() == old(self).list(other(data))
                    &&& final(self).list(other(data)).len() == old(self).list(other(data)).len() + 1
                    &&& exists|d: Date| valid_date(d) && final(self).list(other(data)).last()@ == #[trigger] moved_task(
                        old(self).list(data)[i as int]@,
                        old(self).config,
                        d,
                    )
                    &&& final(self).state.active == fixed_active(old(self).state.active, data, i)
                },
                None => {
                    &&& final(self).list(data) == old(self).list(data)
                    &&& final(self).list(other(data)) == old(self).list(other(data))
                    &&& final(self).state.active == old(self).state.active
                },
            },
    {
        let d = today();
        self.move_task_on(data, index, d);
    }

}

/// Exchanges the elements at positions `i` and `j`.
fn swap_items<T>(v: &mut Vec<T>, i: usize, j: usize)
    requires
        i < old(v)@.len(),
        j < old(v)@.len(),
    ensures
        final(v)@ == old(v)@.update(i as int, old(v)@[j as int]).update(j as int, old(v)@[i as int]),
{
    if i == j {
        proof {
            assert(v@ =~= v@.update(i as int, v@[j as int]).update(j as int, v@[i as int]));
        }
        return;
    }
    let (lo, hi) = if i < j { (i, j) } else { (j, i) };
    let ghost s = v@;
    let b = v.remove(hi);
    let a = v.remove(lo);
    v.insert(lo, b);
    v.insert(hi, a);
    proof {
        assert(v@ =~= s.update(i as int, s[j as int]).update(j as int, s[i as int]));
    }
}

/// Two orderings of the same positions by the same order are the same sequence.
pub proof fn lemma_ordered_unique(ts: Seq<Task>, sort: TaskSort, s: Seq<usize>, r: Seq<usize>)
    requires
        ordered(ts, sort, s, r),
        forall|i: int| 0 <= i < s.len() ==> s[i] < ts.len(),
        forall|i: int, j: int| 0 <= i < j < s.len() ==> s[i] < s[j],
    ensures
        r == choose|q: Seq<usize>| ordered(ts, sort, s, q),
{
    let q = choose|q: Seq<usize>| ordered(ts, sort, s, q);
    assert(ordered(ts, sort, s, q));
    if sort != TaskSort::NoSort && sort != TaskSort::Reverse {
        lemma_sorted_same(ts, sort, s, r, q);
    }
}

proof fn lemma_sorted_same(ts: Seq<Task>, sort: TaskSort, s: Seq<usize>, a: Seq<usize>, b: Seq<usize>)
    requires
        sort != TaskSort::NoSort && sort != TaskSort::Reverse,
        forall|i: int| 0 <= i < s.len() ==> s[i] < ts.len(),
        same_elements(a, s),
        same_elements(b, s),
        sorted_by(ts, sort, a),
        sorted_by(ts, sort, b),
    ensures
        a == b,
{
    assert forall|k: int| 0 <= k < a.len() implies a[k] == b[k] by {
        lemma_sorted_prefix(ts, sort, s, a, b, k);
    }
    assert(a =~= b);
}

proof fn lemma_sorted_prefix(ts: Seq<Task>, sort: TaskSort, s: Seq<usize>, a: Seq<usize>, b: Seq<usize>, k: int)
    requires
        sort != TaskSort::NoSort && sort != TaskSort::Reverse,
        forall|i: int| 0 <= i < s.len() ==> s[i] < ts.len(),
        same_elements(a, s),
        same_elements(b, s),
        sorted_by(ts, sort, a),
        sorted_by(ts, sort, b),
        0 <= k < a.len(),
    ensures
        a[k] == b[k],
    decreases k,
{
    if k > 0 {
        lemma_sorted_prefix(ts, sort, s, a, b, k - 1);
    }
    assert forall|i: int| 0 <= i < k implies a[i] == b[i] by {
        if i < k - 1 {
            lemma_sorted_prefix(ts, sort, s, a, b, i);
        }
    }
    if a[k] != b[k] {
        let (x, y) = (a[k], b[k]);
        assert(s.contains(x)) by {
            assert(a.contains(x));
        }
        assert(s.contains(y)) by {
            assert(b.contains(y));
        }
        assert(x < ts.len() && y < ts.len()) by {
            let i1 = choose|i: int| 0 <= i < s.len() && s[i] == x;
            let i2 = choose|i: int| 0 <= i < s.len() && s[i] == y;
        }
        assert(b.contains(x)) by {
            assert(a.contains(x));
        }
        let jb = choose|j: int| 0 <= j < b.len() && b[j] == x;
        assert(a.contains(y)) by {
            assert(b.contains(y));
        }
        let ja = choose|j: int| 0 <= j < a.len() && a[j] == y;
        if jb < k {
            assert(a[jb] == x);
            assert(before(ts, sort, a[jb], a[k]));
            lemma_before_strict(ts, sort, x, x, x);
        }
        if ja < k {
            assert(b[ja] == y);
            assert(before(ts, sort, b[ja], b[k]));
            lemma_before_strict(ts, sort, y, y, y);
        }
        assert(jb > k);
        assert(ja > k);
        assert(before(ts, sort, b[k], b[jb]));
        assert(before(ts, sort, a[k], a[ja]));
        lemma_before_strict(ts, sort, x, y, x);
    }
}

} // verus!
