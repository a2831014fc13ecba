use vstd::prelude::*;
use crate::category_list::{entry_names, listed};
use crate::search::search_target;
use crate::task::Task;
use crate::date::{valid_date, Date};
use crate::todo::{actual_index, moved_task, other, FilterState, ToDo, toggled};
use crate::ui_event::UIEvent;
use crate::widget_list::{after_down, after_up, WidgetList};
use crate::conf::{Config, WidgetBaseConfig};
use crate::keys::{EventHandlerUI, KeyShortcut};
use crate::options::WidgetBorderType;
use crate::style::Color;
use crate::widget_type::widget_text;
use crate::widget_type::{ToDoCategory, ToDoData, WidgetType};
use crate::text::{copy_string, views};

verus! {

/// A list event that moves the cursor or clears the search.
pub open spec fn is_list_event(e: UIEvent) -> bool {
    e == UIEvent::ListDown || e == UIEvent::ListUp || e == UIEvent::ListFirst || e == UIEvent::ListLast
        || e == UIEvent::CleanSearch
}

/// The list after swapping its `from`-th and `to`-th shown tasks, when both are shown.
pub open spec fn swapped_list(t: ToDo, data: ToDoData, from: usize, to: usize) -> Seq<Task> {
    match (actual_index(t.view_order(data), from), actual_index(t.view_order(data), to)) {
        (Some(f), Some(g)) => t.list(data).update(f as int, t.list(data)[g as int]).update(g as int, t.list(data)[f as int]),
        _ => t.list(data),
    }
}

/// The list after taking out its `index`-th shown task, when it is shown.
pub open spec fn without_shown(t: ToDo, data: ToDoData, index: usize) -> Seq<Task> {
    match actual_index(t.view_order(data), index) {
        Some(i) => t.list(data).remove(i as int),
        None => t.list(data),
    }
}

/// The subjects of the shown tasks of a list, in the shown order.
pub open spec fn shown_subjects(t: ToDo, data: ToDoData) -> Seq<Seq<char>> {
    t.view_order(data).map_values(|i: usize| t.list(data)[i as int].subject@)
}

/// The subjects of the shown tasks of a list, in the shown order.
fn subjects_shown(todo: &ToDo, data: ToDoData) -> (v: Vec<String>)
    ensures
        views(v@) == shown_subjects(*todo, data),
{
    let order = todo.get_filtered_and_sorted(data);
    let list = match data {
        ToDoData::Pending => &todo.pending,
        ToDoData::Done => &todo.done,
    };
    let ghost want = shown_subjects(*todo, data);
    let mut v: Vec<String> = Vec::new();
    let mut i: usize = 0;
    while i < order.len()
        invariant
            i <= order@.len(),
            order@ == todo.view_order(data),
            list@ == todo.list(data),
            want == shown_subjects(*todo, data),
            forall|j: int| 0 <= j < order@.len() ==> order@[j] < list@.len(),
            views(v@) == want.take(i as int),
        decreases order@.len() - i,
    {
        let ghost before = views(v@);
        v.push(copy_string(&list[order[i]].subject));
        proof {
            assert(views(v@) =~= before.push(list@[order@[i as int] as int].subject@));
            assert(want.take(i + 1) =~= want.take(i as int).push(want[i as int]));
        }
        i = i + 1;
    }
    proof {
        assert(want.take(i as int) =~= want);
    }
    v
}

/// The selected row and the first shown item after a list event on a list of `n` items
/// whose cursor was `w`: `ListDown` and `ListUp` step as `after_down` and `after_up` do,
/// `ListFirst` goes to the top, `ListLast` to the last item (on its row when the list fits,
/// else on the bottom row of a window that ends there), and `CleanSearch` keeps the cursor.
pub open spec fn list_moved(w: WidgetList, n: int, event: UIEvent) -> (Option<usize>, int) {
    let v = WidgetList { len: n as usize, ..w };
    if event == UIEvent::ListDown {
        after_down(v)
    } else if event == UIEvent::ListUp {
        after_up(v)
    } else if event == UIEvent::ListFirst {
        (Some(0usize), 0)
    } else if event == UIEvent::ListLast {
        if w.spec_size() > n - 1 {
            (Some((n - 1) as usize), 0)
        } else {
            (Some((w.spec_size() - 1) as usize), n - w.spec_size())
        }
    } else {
        (w.spec_selected(), w.spec_first())
    }
}

/// A widget that lists the tasks of one list.
#[derive(Debug)]
pub struct StateList {
    pub base: WidgetList,
    pub data_type: ToDoData,
}

impl StateList {
    pub fn new(base: WidgetList, data_type: ToDoData) -> (s: StateList)
        ensures
            s.base == base,
            s.data_type == data_type,
    {
        StateList { base, data_type }
    }

    /// The widget type: the pending list or the done list.
    pub fn widget_type(&self) -> (w: WidgetType)
        ensures
            w == (match self.data_type {
                ToDoData::Pending => WidgetType::List,
                ToDoData::Done => WidgetType::Done,
            }),
    {
        WidgetType::from_data(self.data_type)
    }

    /// Removes (or, when `to_other`, moves to the other list) the task under the cursor; when
    /// the cursor then lies past the end of a non-empty list, it moves up.
    fn move_task(&mut self, to_other: bool, todo: &mut ToDo)
        requires
            old(todo).wf(),
            old(self).base.spec_index() <= usize::MAX,
        ensures
            final(todo).wf(),
            final(todo).list(old(self).data_type) == without_shown(*old(todo), old(self).data_type, old(self).base.spec_index() as usize),
            !to_other ==> final(todo).list(other(old(self).data_type)) == old(todo).list(other(old(self).data_type)),
            to_other ==> match actual_index(old(todo).view_order(old(self).data_type), old(self).base.spec_index() as usize) {
                Some(i) => {
                    &&& final(todo).list(other(old(self).data_type)).drop_last() == old(todo).list(other(old(self).data_type))
                    &&& final(todo).list(other(old(self).data_type)).len() == old(todo).list(other(old(self).data_type)).len() + 1
                    &&& exists|d: Date| valid_date(d) && final(todo).list(other(old(self).data_type)).last()@ == #[trigger] moved_task(
                        old(todo).list(old(self).data_type)[i as int]@,
                        old(todo).config,
                        d,
                    )
                },
                None => final(todo).list(other(old(self).data_type)) == old(todo).list(other(old(self).data_type)),
            },
            final(self).data_type == old(self).data_type,
            final(self).base.len == old(self).base.len,
            final(self).base.to_search == old(self).base.to_search,
            (final(self).base.spec_selected(), final(self).base.spec_first()) == (if final(todo).view_order(old(self).data_type).len()
                <= old(self).base.spec_index() && final(todo).view_order(old(self).data_type).len() > 0 {
                after_up(old(self).base)
            } else {
                (old(self).base.spec_selected(), old(self).base.spec_first())
            }),
    {
        let index = self.base.index();
        if to_other {
            todo.move_task(self.data_type, index);
        } else {
            todo.remove_task(self.data_type, index);
        }
        let len = todo.len(self.data_type);
        if len <= index && len > 0 {
            self.base.up();
        }
    }

    /// Applies an event: list movements move the cursor and record it as the list's actual
    /// task; `SwapUpItem` and `SwapDownItem` swap the task under the cursor with its
    /// neighbour and follow it; `RemoveItem` removes it and `MoveItem` moves it to the other
    /// list; `Select` makes it the active task; `NextSearch` and `PrevSearch` move the cursor
    /// to the next or previous shown task whose subject contains the search text. Returns
    /// whether the event was one of these.
    pub fn handle_event_state(&mut self, event: UIEvent, todo: &mut ToDo) -> (handled: bool)
        requires
            old(todo).wf(),
            old(self).base.spec_index() + 1 <= usize::MAX,
            event == UIEvent::ListLast ==> old(todo).view_order(old(self).data_type).len() > 0 && (old(todo).view_order(
                old(self).data_type,
            ).len() > old(self).base.spec_size() ==> old(self).base.spec_size() > 0),
        ensures
            final(todo).wf(),
            final(self).data_type == old(self).data_type,
            handled == (is_list_event(event) || event == UIEvent::SwapUpItem || event == UIEvent::SwapDownItem
                || event == UIEvent::RemoveItem || event == UIEvent::MoveItem || event == UIEvent::Select
                || event == UIEvent::NextSearch || event == UIEvent::PrevSearch),
            event == UIEvent::NextSearch || event == UIEvent::PrevSearch ==> *final(todo) == *old(todo)
                && final(self).base.to_search == old(self).base.to_search,
            (event == UIEvent::NextSearch || event == UIEvent::PrevSearch) && old(self).base.in_view_len(
                old(todo).view_order(old(self).data_type).len() as int,
            ) ==> final(self).base.spec_index() == search_target(
                shown_subjects(*old(todo), old(self).data_type),
                old(self).base.to_search,
                old(self).base.spec_index(),
                event == UIEvent::NextSearch,
            ),
            is_list_event(event) ==> final(todo).pending == old(todo).pending && final(todo).done == old(todo).done
                && final(todo).actual_of(old(self).data_type) == final(self).base.spec_index(),
            is_list_event(event) ==> (final(self).base.spec_selected(), final(self).base.spec_first()) == list_moved(
                old(self).base,
                old(todo).view_order(old(self).data_type).len() as int,
                event,
            ) && final(self).base.len == old(todo).view_order(old(self).data_type).len() && final(self).base.size
                == old(self).base.size && final(self).base.list_shift == old(self).base.list_shift,
            event == UIEvent::CleanSearch ==> final(self).base.to_search is None,
            is_list_event(event) && event != UIEvent::CleanSearch ==> final(self).base.to_search == old(self).base.to_search,
            event == UIEvent::SwapUpItem ==> final(todo).list(old(self).data_type) == (if old(self).base.spec_row() == 0 {
                old(todo).list(old(self).data_type)
            } else {
                swapped_list(*old(todo), old(self).data_type, old(self).base.spec_index() as usize, (old(self).base.spec_index() - 1) as usize)
            }),
            event == UIEvent::SwapDownItem ==> final(todo).list(old(self).data_type) == (if old(todo).view_order(old(self).data_type).len()
                <= old(self).base.spec_index() + 1 {
                old(todo).list(old(self).data_type)
            } else {
                swapped_list(*old(todo), old(self).data_type, old(self).base.spec_index() as usize, final(self).base.spec_index() as usize)
            }),
            event == UIEvent::RemoveItem || event == UIEvent::MoveItem ==> final(todo).list(old(self).data_type) == without_shown(
                *old(todo),
                old(self).data_type,
                old(self).base.spec_index() as usize,
            ),
            event == UIEvent::RemoveItem ==> final(todo).list(other(old(self).data_type)) == old(todo).list(other(old(self).data_type)),
            event == UIEvent::MoveItem ==> match actual_index(old(todo).view_order(old(self).data_type), old(self).base.spec_index() as usize) {
                Some(i) => {
                    &&& final(todo).list(other(old(self).data_type)).drop_last() == old(todo).list(other(old(self).data_type))
                    &&& final(todo).list(other(old(self).data_type)).len() == old(todo).list(other(old(self).data_type)).len() + 1
                    &&& exists|d: Date| valid_date(d) && final(todo).list(other(old(self).data_type)).last()@ == #[trigger] moved_task(
                        old(todo).list(old(self).data_type)[i as int]@,
                        old(todo).config,
                        d,
                    )
                },
                None => final(todo).list(other(old(self).data_type)) == old(todo).list(other(old(self).data_type)),
            },
            event == UIEvent::RemoveItem || event == UIEvent::MoveItem ==> (final(self).base.spec_selected(), final(self).base.spec_first())
                == (if final(todo).view_order(old(self).data_type).len() <= old(self).base.spec_index()
                && final(todo).view_order(old(self).data_type).len() > 0 {
                after_up(old(self).base)
            } else {
                (old(self).base.spec_selected(), old(self).base.spec_first())
            }),
            event == UIEvent::Select ==> final(todo).state.active == match actual_index(old(todo).view_order(old(self).data_type), old(self).base.spec_index() as usize) {
                Some(i) => Some((old(self).data_type, i)),
                None => old(todo).state.active,
            } && final(todo).pending == old(todo).pending && final(todo).done == old(todo).done,
            !handled ==> *final(self) == *old(self),
    {
        let n = todo.len(self.data_type);
        let old_len = self.base.len;
        self.base.len = n;
        if self.base.handle_event(event) {
            let i = self.base.index();
            todo.set_actual(self.data_type, i);
            return true;
        }
        match event {
            UIEvent::SwapUpItem => {
                match self.base.prev() {
                    Some((first, second)) => todo.swap_tasks(self.data_type, first, second),
                    None => {},
                }
                true
            },
            UIEvent::SwapDownItem => {
                match self.base.next() {
                    Some((first, second)) => todo.swap_tasks(self.data_type, first, second),
                    None => {},
                }
                true
            },
            UIEvent::RemoveItem => {
                self.move_task(false, todo);
                true
            },
            UIEvent::MoveItem => {
                self.move_task(true, todo);
                true
            },
            UIEvent::Select => {
                let i = self.base.index();
                todo.set_active(self.data_type, i);
                true
            },
            UIEvent::NextSearch | UIEvent::PrevSearch => {
                let names = subjects_shown(todo, self.data_type);
                self.base.search_move(&names, event == UIEvent::NextSearch);
                true
            },
            _ => {
                self.base.len = old_len;
                false
            },
        }
    }

    /// When the cursor lies past the end of the non-empty list, moves it to the last task;
    /// lists always take the focus.
    pub fn focus_event(&mut self, todo: &ToDo) -> (r: bool)
        requires
            old(self).base.spec_row() >= todo.view_order(old(self).data_type).len() && todo.view_order(old(self).data_type).len() > 0
                ==> (todo.view_order(old(self).data_type).len() > old(self).base.spec_size() ==> old(self).base.spec_size() > 0),
        ensures
            r,
            final(self).data_type == old(self).data_type,
            final(self).base.len == todo.view_order(old(self).data_type).len(),
            old(self).base.spec_row() >= todo.view_order(old(self).data_type).len() && todo.view_order(old(self).data_type).len() > 0
                ==> final(self).base.spec_index() == todo.view_order(old(self).data_type).len() - 1,
    {
        self.base.len = todo.len(self.data_type);
        self.base.focus_event()
    }
}

/// A widget that lists the names of one category, to filter by them.
#[derive(Debug)]
pub struct StateCategories {
    pub base: WidgetList,
    pub category: ToDoCategory,
}

impl StateCategories {
    pub fn new(base: WidgetList, category: ToDoCategory) -> (s: StateCategories)
        ensures
            s.base == base,
            s.category == category,
    {
        StateCategories { base, category }
    }

    /// The widget type of the category.
    pub fn widget_type(&self) -> (w: WidgetType)
        ensures
            w == (match self.category {
                ToDoCategory::Projects => WidgetType::Project,
                ToDoCategory::Contexts => WidgetType::Context,
                ToDoCategory::Hashtags => WidgetType::Hashtag,
            }),
    {
        WidgetType::from_category(self.category)
    }

    /// How many names the category lists.
    pub fn len(&self, todo: &ToDo) -> (n: usize)
        requires
            todo.wf(),
        ensures
            n == listed(*todo, self.category).len(),
    {
        let list = todo.get_categories(self.category);
        proof {
            assert(entry_names(list.vec@).len() == list.vec@.len());
        }
        list.len()
    }

    /// Toggles the filter on the name under the cursor, when there is one.
    fn toggle_filter(&mut self, filter_state: FilterState, todo: &mut ToDo)
        requires
            old(todo).wf(),
        ensures
            final(todo).wf(),
            final(todo).pending@ == old(todo).pending@,
            final(todo).done@ == old(todo).done@,
            final(todo).state.active == old(todo).state.active,
            forall|c: ToDoCategory| c != old(self).category ==> final(todo).state.filters(c) == old(todo).state.filters(c),
            *final(self) == *old(self),
            final(todo).state.filters(old(self).category) == (if old(self).base.spec_row() < listed(*old(todo), old(self).category).len() {
                toggled(
                    old(todo).state.filters(old(self).category),
                    listed(*old(todo), old(self).category)[old(self).base.spec_row()],
                    filter_state,
                )
            } else {
                old(todo).state.filters(old(self).category)
            }),
    {
        let list = todo.get_categories(self.category);
        let a = self.base.act();
        if a < list.len() {
            let name = copy_string(&list.vec[a].0);
            todo.toggle_filter(self.category, name.as_str(), filter_state);
        }
    }

    /// Applies an event: list movements move the cursor; `Select` and `Remove` toggle the
    /// filter on the name under the cursor; `NextSearch` and `PrevSearch` move the cursor to
    /// the next or previous name that contains the search text. Returns whether the event was
    /// one of these.
    pub fn handle_event_state(&mut self, event: UIEvent, todo: &mut ToDo) -> (handled: bool)
        requires
            old(todo).wf(),
            event == UIEvent::NextSearch || event == UIEvent::PrevSearch ==> old(self).base.spec_index() + 1 <= usize::MAX,
            event == UIEvent::ListLast ==> (exists|x: Seq<char>| crate::category_list::category_pool(*old(todo), old(self).category).contains(x))
                && old(self).base.spec_size() > 0,
        ensures
            final(todo).wf(),
            final(self).category == old(self).category,
            handled == (is_list_event(event) || event == UIEvent::Select || event == UIEvent::Remove
                || event == UIEvent::NextSearch || event == UIEvent::PrevSearch),
            event == UIEvent::NextSearch || event == UIEvent::PrevSearch ==> *final(todo) == *old(todo)
                && final(self).base.to_search == old(self).base.to_search,
            (event == UIEvent::NextSearch || event == UIEvent::PrevSearch) && old(self).base.in_view_len(
                listed(*old(todo), old(self).category).len() as int,
            ) ==> final(self).base.spec_index() == search_target(
                listed(*old(todo), old(self).category),
                old(self).base.to_search,
                old(self).base.spec_index(),
                event == UIEvent::NextSearch,
            ),
            final(todo).pending@ == old(todo).pending@,
            final(todo).done@ == old(todo).done@,
            final(todo).state.active == old(todo).state.active,
            forall|c: ToDoCategory| c != old(self).category ==> final(todo).state.filters(c) == old(todo).state.filters(c),
            is_list_event(event) ==> forall|c: ToDoCategory| final(todo).state.filters(c) == old(todo).state.filters(c),
            is_list_event(event) ==> (final(self).base.spec_selected(), final(self).base.spec_first()) == list_moved(
                old(self).base,
                listed(*old(todo), old(self).category).len() as int,
                event,
            ) && final(self).base.len == listed(*old(todo), old(self).category).len() && final(self).base.size
                == old(self).base.size && final(self).base.list_shift == old(self).base.list_shift,
            event == UIEvent::CleanSearch ==> final(self).base.to_search is None,
            is_list_event(event) && event != UIEvent::CleanSearch ==> final(self).base.to_search == old(self).base.to_search,
            event == UIEvent::Select || event == UIEvent::Remove ==> {
                &&& final(self).base.spec_selected() == old(self).base.spec_selected()
                &&& final(self).base.spec_first() == old(self).base.spec_first()
                &&& final(todo).state.filters(old(self).category) == (if old(self).base.spec_row() < listed(
                    *old(todo),
                    old(self).category,
                ).len() {
                    toggled(
                        old(todo).state.filters(old(self).category),
                        listed(*old(todo), old(self).category)[old(self).base.spec_row()],
                        if event == UIEvent::Select {
                            FilterState::Select
                        } else {
                            FilterState::Remove
                        },
                    )
                } else {
                    old(todo).state.filters(old(self).category)
                })
            },
    {
        let list = todo.get_categories(self.category);
        let n = list.len();
        proof {
            if event == UIEvent::ListLast {
                let x = choose|x: Seq<char>| crate::category_list::category_pool(*old(todo), old(self).category).contains(x);
                assert(entry_names(list.vec@).contains(x));
            }
        }
        self.base.len = n;
        if self.base.handle_event(event) {
            return true;
        }
        match event {
            UIEvent::Select => {
                self.toggle_filter(FilterState::Select, todo);
                true
            },
            UIEvent::Remove => {
                self.toggle_filter(FilterState::Remove, todo);
                true
            },
            UIEvent::NextSearch | UIEvent::PrevSearch => {
                let names = list.names();
                proof {
                    assert(views(names@).len() == names@.len());
                }
                self.base.search_move(&names, event == UIEvent::NextSearch);
                true
            },
            _ => false,
        }
    }
}

/// What a preview widget shows: the active task, or the task under the cursor of a list.
pub trait Previewable {
    /// The widget type of such a preview.
    spec fn spec_widget_type() -> WidgetType;

    fn widget_type() -> (w: WidgetType)
        ensures
            w == Self::spec_widget_type(),
    ;
}

/// The preview of the active task.
#[derive(Debug)]
pub struct ActivePreview;

/// The preview of the task under the cursor of the pending list.
#[derive(Debug)]
pub struct PendingActualPreview;

/// The preview of the task under the cursor of the done list.
#[derive(Debug)]
pub struct DoneActualPreview;

impl Previewable for ActivePreview {
    open spec fn spec_widget_type() -> WidgetType {
        WidgetType::Preview
    }

    fn widget_type() -> (w: WidgetType) {
        WidgetType::Preview
    }
}

impl Previewable for PendingActualPreview {
    open spec fn spec_widget_type() -> WidgetType {
        WidgetType::PendingLivePreview
    }

    fn widget_type() -> (w: WidgetType) {
        WidgetType::PendingLivePreview
    }
}

impl Previewable for DoneActualPreview {
    open spec fn spec_widget_type() -> WidgetType {
        WidgetType::DoneLivePreview
    }

    fn widget_type() -> (w: WidgetType) {
        WidgetType::DoneLivePreview
    }
}

impl ActivePreview {
    /// The active task (see `ToDo::get_active`).
    pub fn get_task(todo: &ToDo) -> (r: Option<&Task>)
        ensures
            match todo.state.active {
                Some((d, i)) => {
                    let l = todo.list(d);
                    if i < l.len() {
                        r == Some(&l[i as int])
                    } else if l.len() > 0 {
                        r == Some(&l[l.len() - 1])
                    } else {
                        r is None
                    }
                },
                None => r is None,
            },
    {
        todo.get_active()
    }
}

impl PendingActualPreview {
    /// The task under the cursor of the pending list (see `ToDo::get_actual`).
    pub fn get_task(todo: &ToDo) -> (r: Option<&Task>)
        ensures
            match actual_index(todo.view_order(ToDoData::Pending), todo.actual_of(ToDoData::Pending)) {
                Some(i) => r == Some(&todo.list(ToDoData::Pending)[i as int]),
                None => r is None,
            },
    {
        todo.get_actual(ToDoData::Pending)
    }
}

impl DoneActualPreview {
    /// The task under the cursor of the done list (see `ToDo::get_actual`).
    pub fn get_task(todo: &ToDo) -> (r: Option<&Task>)
        ensures
            match actual_index(todo.view_order(ToDoData::Done), todo.actual_of(ToDoData::Done)) {
                Some(i) => r == Some(&todo.list(ToDoData::Done)[i as int]),
                None => r is None,
            },
    {
        todo.get_actual(ToDoData::Done)
    }
}

/// A preview widget of kind `P`, with its preview format and whether it wraps long lines.
#[derive(Debug)]
pub struct StatePreview<P: Previewable> {
    pub preview_format: String,
    pub wrap_preview: bool,
    pub kind: core::marker::PhantomData<P>,
}

impl<P: Previewable> StatePreview<P> {
    pub fn new(preview_format: String, wrap_preview: bool) -> (s: StatePreview<P>)
        ensures
            s.preview_format == preview_format,
            s.wrap_preview == wrap_preview,
    {
        StatePreview { preview_format, wrap_preview, kind: core::marker::PhantomData }
    }

    /// The widget type of the preview's kind.
    pub fn widget_type(&self) -> (w: WidgetType)
        ensures
            w == P::spec_widget_type(),
    {
        P::widget_type()
    }

    /// Previews take no events.
    pub fn handle_event_state(&mut self, event: UIEvent) -> (handled: bool)
        ensures
            !handled,
    {
        false
    }
}

/// The state of a widget of any type.
#[derive(Debug)]
pub enum WidgetState {
    List(StateList),
    Categories(StateCategories),
    Preview(StatePreview<ActivePreview>),
    PendingLivePreview(StatePreview<PendingActualPreview>),
    DoneLivePreview(StatePreview<DoneActualPreview>),
}

/// The widget type of a widget state.
pub open spec fn state_type(s: WidgetState) -> WidgetType {
    match s {
        WidgetState::List(l) => match l.data_type {
            ToDoData::Pending => WidgetType::List,
            ToDoData::Done => WidgetType::Done,
        },
        WidgetState::Categories(c) => match c.category {
            ToDoCategory::Projects => WidgetType::Project,
            ToDoCategory::Contexts => WidgetType::Context,
            ToDoCategory::Hashtags => WidgetType::Hashtag,
        },
        WidgetState::Preview(_) => WidgetType::Preview,
        WidgetState::PendingLivePreview(_) => WidgetType::PendingLivePreview,
        WidgetState::DoneLivePreview(_) => WidgetType::DoneLivePreview,
    }
}

/// A list widget as it starts: its first row selected, nothing shown yet, no search.
pub open spec fn fresh_list(w: WidgetList, list_shift: usize) -> bool {
    &&& w.spec_selected() == Some(0usize)
    &&& w.len == 0
    &&& w.spec_first() == 0
    &&& w.spec_size() == 0
    &&& w.spec_shift() == list_shift
    &&& w.to_search is None
}

impl WidgetState {
    /// The widget type of the state (see `state_type`).
    pub fn widget_type(&self) -> (w: WidgetType)
        ensures
            w == state_type(*self),
    {
        match self {
            WidgetState::List(l) => l.widget_type(),
            WidgetState::Categories(c) => c.widget_type(),
            WidgetState::Preview(p) => p.widget_type(),
            WidgetState::PendingLivePreview(p) => p.widget_type(),
            WidgetState::DoneLivePreview(p) => p.widget_type(),
        }
    }
}

/// What every widget has besides its state: its title, the color that marks it active,
/// whether it has the focus, its key bindings and its border.
#[derive(Debug)]
pub struct WidgetBase {
    pub title: String,
    pub active_color: Color,
    pub focus: bool,
    pub event_handler: EventHandlerUI,
    pub border_type: WidgetBorderType,
}

impl WidgetBase {
    /// A base titled `title`, without the focus or key bindings, with the configured active
    /// color and border.
    pub fn new(title: String, config: &Config) -> (b: WidgetBase)
        ensures
            b.title@ == title@,
            b.active_color == config.styles.active_color,
            !b.focus,
            b.event_handler.events@.len() == 0,
            b.border_type == config.widget_base_config.border_type,
    {
        WidgetBase {
            title,
            active_color: config.styles.active_color,
            focus: false,
            event_handler: EventHandlerUI::empty(),
            border_type: config.widget_base_config.border_type,
        }
    }

    /// The base with its key bindings replaced by `events`.
    pub fn events(self, events: EventHandlerUI) -> (b: WidgetBase)
        ensures
            b.title == self.title,
            b.active_color == self.active_color,
            b.focus == self.focus,
            b.event_handler.events@ == events.events@,
            b.border_type == self.border_type,
    {
        WidgetBase { event_handler: events, ..self }
    }
}

/// A widget: its base and its state.
#[derive(Debug)]
pub struct Widget {
    pub base: WidgetBase,
    pub state: WidgetState,
}

/// The key bindings that a new widget of a type takes from the configuration: those of the
/// task lists for the two lists, those of the category lists for the three category lists,
/// none for previews.
pub open spec fn widget_bindings(t: WidgetType, c: WidgetBaseConfig) -> Seq<(KeyShortcut, UIEvent)> {
    if t is List || t is Done {
        c.tasks_keybind.events@
    } else if t is Project || t is Context || t is Hashtag {
        c.category_keybind.events@
    } else {
        seq![]
    }
}

/// A new widget of type `widget_type`: titled with the type's name, without the focus, with
/// the configured active color, border and key bindings (see `widget_bindings`); the lists of
/// tasks and of category names start fresh with the configured shift, and previews take the
/// configured format and wrapping.
pub fn new_widget(widget_type: WidgetType, config: &Config) -> (w: Widget)
    ensures
        state_type(w.state) == widget_type,
        w.base.title@ == widget_text(widget_type),
        !w.base.focus,
        w.base.active_color == config.styles.active_color,
        w.base.border_type == config.widget_base_config.border_type,
        w.base.event_handler.events@ == widget_bindings(widget_type, config.widget_base_config),
        match w.state {
            WidgetState::List(l) => fresh_list(l.base, config.list_config.list_shift),
            WidgetState::Categories(c) => fresh_list(c.base, config.list_config.list_shift),
            WidgetState::Preview(p) => p.preview_format@ == config.preview_config.preview_format@ && p.wrap_preview
                == config.preview_config.wrap_preview,
            WidgetState::PendingLivePreview(p) => p.preview_format@ == config.preview_config.preview_format@
                && p.wrap_preview == config.preview_config.wrap_preview,
            WidgetState::DoneLivePreview(p) => p.preview_format@ == config.preview_config.preview_format@
                && p.wrap_preview == config.preview_config.wrap_preview,
        },
{
    let shift = config.list_config.list_shift;
    let format = copy_string(&config.preview_config.preview_format);
    let wrap = config.preview_config.wrap_preview;
    let wb = &config.widget_base_config;
    let base = WidgetBase::new(widget_type.to_text(), config);
    match widget_type {
        WidgetType::List => Widget {
            base: base.events(wb.tasks_keybind.copy()),
            state: WidgetState::List(StateList::new(WidgetList::new(shift), ToDoData::Pending)),
        },
        WidgetType::Done => Widget {
            base: base.events(wb.tasks_keybind.copy()),
            state: WidgetState::List(StateList::new(WidgetList::new(shift), ToDoData::Done)),
        },
        WidgetType::Project => Widget {
            base: base.events(wb.category_keybind.copy()),
            state: WidgetState::Categories(StateCategories::new(WidgetList::new(shift), ToDoCategory::Projects)),
        },
        WidgetType::Context => Widget {
            base: base.events(wb.category_keybind.copy()),
            state: WidgetState::Categories(StateCategories::new(WidgetList::new(shift), ToDoCategory::Contexts)),
        },
        WidgetType::Hashtag => Widget {
            base: base.events(wb.category_keybind.copy()),
            state: WidgetState::Categories(StateCategories::new(WidgetList::new(shift), ToDoCategory::Hashtags)),
        },
        WidgetType::Preview => Widget { base, state: WidgetState::Preview(StatePreview::new(format, wrap)) },
        WidgetType::PendingLivePreview => Widget {
            base,
            state: WidgetState::PendingLivePreview(StatePreview::new(format, wrap)),
        },
        WidgetType::DoneLivePreview => Widget {
            base,
            state: WidgetState::DoneLivePreview(StatePreview::new(format, wrap)),
        },
    }
}

} // verus!
