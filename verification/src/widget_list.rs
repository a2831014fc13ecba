use vstd::prelude::*;
use crate::search::{lemma_match_before_bounds, lemma_match_from_bounds, next_search_index, prev_search_index, search_target};
use crate::text::{copy_string, views};
use crate::ui_event::UIEvent;

verus! {

/// The scrolling state of a list widget: which row of the visible window is selected, which
/// item is shown first, how many items there are and how many rows fit.
#[derive(Debug)]
pub struct WidgetList {
    pub selected: Option<usize>,
    pub len: usize,
    pub first: usize,
    pub size: usize,
    pub list_shift: usize,
    pub to_search: Option<String>,
}

/// The selected row and the first shown item after moving down: the selected row moves
/// down while it is more than `list_shift` rows above the bottom of the window, then the
/// window scrolls, and once the window shows the end of the list the row moves down to the
/// last row.
pub open spec fn after_down(w: WidgetList) -> (Option<usize>, int) {
    let (len, size, first, act, shift) = (w.len as int, w.spec_size(), w.spec_first(), w.spec_row(), w.spec_shift());
    if len <= size {
        if len > act + 1 {
            (Some((act + 1) as usize), first)
        } else {
            (w.spec_selected(), first)
        }
    } else if size <= act + 1 + shift {
        if first + size < len {
            (w.spec_selected(), first + 1)
        } else if size > act + 1 {
            (Some((act + 1) as usize), first)
        } else {
            (w.spec_selected(), first)
        }
    } else {
        (Some((act + 1) as usize), first)
    }
}

/// The selected row and the first shown item after moving up: the selected row moves up
/// while it is more than `list_shift` rows below the top of the window, then the window
/// scrolls back, and once the window shows the start of the list the row moves up to the
/// first row.
pub open spec fn after_up(w: WidgetList) -> (Option<usize>, int) {
    let (first, act, shift) = (w.spec_first(), w.spec_row(), w.spec_shift());
    if act <= shift {
        if first > 0 {
            (w.spec_selected(), first - 1)
        } else if act > 0 {
            (Some((act - 1) as usize), first)
        } else {
            (w.spec_selected(), first)
        }
    } else {
        (Some((act - 1) as usize), first)
    }
}

/// The selected row, or 0 when none is.
pub open spec fn spec_act(selected: Option<usize>) -> int {
    match selected {
        Some(a) => a as int,
        None => 0,
    }
}

impl WidgetList {
    pub open spec fn spec_selected(&self) -> Option<usize> {
        self.selected
    }

    pub open spec fn spec_first(&self) -> int {
        self.first as int
    }

    pub open spec fn spec_size(&self) -> int {
        self.size as int
    }

    pub open spec fn spec_shift(&self) -> int {
        self.list_shift as int
    }

    /// The selected row of the visible window.
    pub open spec fn spec_row(&self) -> int {
        spec_act(self.spec_selected())
    }

    /// The index of the selected item in the whole list.
    pub open spec fn spec_index(&self) -> int {
        self.spec_row() + self.spec_first()
    }

    /// The selection lies inside the list and inside the visible window, and the window lies
    /// inside the list (or starts at the top when the list fits).
    pub open spec fn in_view(&self) -> bool {
        self.in_view_len(self.len as int)
    }

    /// As `in_view`, for a list of `len` items.
    pub open spec fn in_view_len(&self, len: int) -> bool {
        let (size, first, act) = (self.spec_size(), self.spec_first(), self.spec_row());
        &&& self.spec_selected() is Some
        &&& size > 0
        &&& if len <= size {
            first == 0 && (act < len || (len == 0 && act == 0))
        } else {
            act < size && first + size <= len
        }
    }

    /// A list with nothing selected but its first row, showing no items yet.
    pub fn new(list_shift: usize) -> (w: WidgetList)
        ensures
            w.spec_selected() == Some(0usize),
            w.len == 0,
            w.spec_first() == 0,
            w.spec_size() == 0,
            w.spec_shift() == list_shift,
            w.to_search is None,
    {
        WidgetList { selected: Some(0), len: 0, first: 0, size: 0, list_shift, to_search: None }
    }

    /// The selected row of the visible window.
    pub fn act(&self) -> (a: usize)
        ensures
            a == self.spec_row(),
    {
        match self.selected {
            Some(a) => a,
            None => 0,
        }
    }

    /// The index of the selected item in the whole list.
    pub fn index(&self) -> (i: usize)
        requires
            self.spec_index() <= usize::MAX,
        ensures
            i == self.spec_index(),
    {
        self.act() + self.first
    }

    /// The selected row, as the list state holds it.
    pub fn state(&self) -> (s: Option<usize>)
        ensures
            s == self.spec_selected(),
    {
        self.selected
    }

    pub fn first_shown(&self) -> (f: usize)
        ensures
            f == self.spec_first(),
    {
        self.first
    }

    pub fn size(&self) -> (s: usize)
        ensures
            s == self.spec_size(),
    {
        self.size
    }

    /// Sets how many rows the widget shows.
    pub fn set_size(&mut self, size: u16)
        ensures
            final(self).spec_size() == size,
            final(self).spec_selected() == old(self).spec_selected(),
            final(self).spec_first() == old(self).spec_first(),
            final(self).spec_shift() == old(self).spec_shift(),
            final(self).len == old(self).len,
            final(self).to_search == old(self).to_search,
    {
        self.size = size as usize;
    }

    /// Moves the selection down: the selected row moves down while it is far enough from the
    /// bottom of the window (`list_shift` rows), then the window scrolls, and once the window
    /// shows the end of the list the row moves down to the last row.
    pub fn down(&mut self)
        ensures
            final(self).len == old(self).len,
            final(self).spec_size() == old(self).spec_size(),
            final(self).spec_shift() == old(self).spec_shift(),
            final(self).to_search == old(self).to_search,
            (final(self).spec_selected(), final(self).spec_first()) == after_down(*old(self)),
    {
        let act = self.act();
        if self.len <= self.size {
            if self.len > act && self.len - act > 1 {
                self.selected = Some(act + 1);
            }
        } else if act >= self.size || self.size - act - 1 <= self.list_shift {
            if self.first < self.len - self.size {
                self.first = self.first + 1;
            } else if self.size > act && self.size - act > 1 {
                self.selected = Some(act + 1);
            }
        } else {
            self.selected = Some(act + 1);
        }
    }

    /// Moves the selection up: the selected row moves up while it is far enough from the top
    /// of the window (`list_shift` rows), then the window scrolls back, and once the window
    /// shows the start of the list the row moves up to the first row.
    pub fn up(&mut self)
        ensures
            final(self).len == old(self).len,
            final(self).spec_size() == old(self).spec_size(),
            final(self).spec_shift() == old(self).spec_shift(),
            final(self).to_search == old(self).to_search,
            (final(self).spec_selected(), final(self).spec_first()) == after_up(*old(self)),
    {
        let act = self.act();
        if act <= self.list_shift {
            if self.first > 0 {
                self.first = self.first - 1;
            } else if act > 0 {
                self.selected = Some(act - 1);
            }
        } else {
            self.selected = Some(act - 1);
        }
    }

    /// Moves to the next item and returns the old and new index, or `None` at the end.
    pub fn next(&mut self) -> (r: Option<(usize, usize)>)
        requires
            old(self).spec_index() + 1 <= usize::MAX,
        ensures
            final(self).len == old(self).len,
            final(self).spec_size() == old(self).spec_size(),
            final(self).spec_shift() == old(self).spec_shift(),
            old(self).len <= old(self).spec_index() + 1 ==> r is None && *final(self) == *old(self),
            old(self).len > old(self).spec_index() + 1 ==> r == Some(
                (old(self).spec_index() as usize, final(self).spec_index() as usize),
            ),
            old(self).in_view() && old(self).len > old(self).spec_index() + 1 ==> final(self).spec_index()
                == old(self).spec_index() + 1,
    {
        let idx = self.index();
        if self.len <= idx + 1 {
            None
        } else {
            proof {
                if self.in_view() {
                    lemma_down_steps(*self);
                }
            }
            self.down();
            proof {
                lemma_down_bound(*old(self), *self);
            }
            Some((idx, self.index()))
        }
    }

    /// Moves to the previous item and returns the old and new index, or `None` on the
    /// first row of the window.
    pub fn prev(&mut self) -> (r: Option<(usize, usize)>)
        requires
            old(self).spec_index() <= usize::MAX,
        ensures
            final(self).len == old(self).len,
            final(self).spec_size() == old(self).spec_size(),
            final(self).spec_shift() == old(self).spec_shift(),
            old(self).spec_row() == 0 ==> r is None && *final(self) == *old(self),
            old(self).spec_row() != 0 ==> r == Some(
                (old(self).spec_index() as usize, final(self).spec_index() as usize),
            ) && final(self).spec_index() == old(self).spec_index() - 1,
    {
        if self.act() == 0 {
            None
        } else {
            let old_index = self.index();
            self.up();
            Some((old_index, self.index()))
        }
    }

    /// Moves the selection down `n` times (see `down`).
    pub fn down_times(&mut self, n: usize)
        ensures
            final(self).len == old(self).len,
            final(self).spec_size() == old(self).spec_size(),
            final(self).spec_shift() == old(self).spec_shift(),
            final(self).to_search == old(self).to_search,
            old(self).in_view() ==> final(self).in_view(),
            old(self).in_view() && old(self).spec_index() + n < old(self).len ==> final(self).spec_index()
                == old(self).spec_index() + n,
    {
        let mut k: usize = 0;
        while k < n
            invariant
                k <= n,
                self.len == old(self).len,
                self.spec_size() == old(self).spec_size(),
                self.spec_shift() == old(self).spec_shift(),
                self.to_search == old(self).to_search,
                old(self).in_view() ==> self.in_view(),
                old(self).in_view() && old(self).spec_index() + n < old(self).len ==> self.spec_index()
                    == old(self).spec_index() + k,
            decreases n - k,
        {
            let ghost before = *self;
            self.down();
            proof {
                if before.in_view() {
                    lemma_down_view(before, *self);
                }
            }
            k = k + 1;
        }
    }

    /// Moves the selection up `n` times (see `up`).
    pub fn up_times(&mut self, n: usize)
        ensures
            final(self).len == old(self).len,
            final(self).spec_size() == old(self).spec_size(),
            final(self).spec_shift() == old(self).spec_shift(),
            final(self).to_search == old(self).to_search,
            old(self).in_view() ==> final(self).in_view(),
            old(self).in_view() && n <= old(self).spec_index() ==> final(self).spec_index() == old(self).spec_index() - n,
    {
        let mut k: usize = 0;
        while k < n
            invariant
                k <= n,
                self.len == old(self).len,
                self.spec_size() == old(self).spec_size(),
                self.spec_shift() == old(self).spec_shift(),
                self.to_search == old(self).to_search,
                old(self).in_view() ==> self.in_view(),
                old(self).in_view() && n <= old(self).spec_index() ==> self.spec_index() == old(self).spec_index() - k,
            decreases n - k,
        {
            let ghost before = *self;
            self.up();
            proof {
                if before.in_view() {
                    lemma_up_view(before, *self);
                }
            }
            k = k + 1;
        }
    }

    /// Moves the cursor to the next entry of `names` after it that contains the search text,
    /// or, backward, to the last one before it (see `search_target`); with no search text or
    /// no such entry it stays.
    pub fn search_move(&mut self, names: &Vec<String>, forward: bool)
        requires
            old(self).spec_index() + 1 <= usize::MAX,
        ensures
            final(self).len == old(self).len,
            final(self).spec_size() == old(self).spec_size(),
            final(self).spec_shift() == old(self).spec_shift(),
            final(self).to_search == old(self).to_search,
            old(self).in_view() ==> final(self).in_view(),
            old(self).in_view() && old(self).len == names@.len() ==> final(self).spec_index() == search_target(
                views(names@),
                old(self).to_search,
                old(self).spec_index(),
                forward,
            ),
    {
        let s = match &self.to_search {
            Some(t) => copy_string(t),
            None => {
                return;
            },
        };
        let idx = self.index();
        if forward {
            proof {
                lemma_match_from_bounds(views(names@), s@, idx + 1);
                assert(views(names@).len() == names.len());
            }
            match next_search_index(names, s.as_str(), idx + 1) {
                Some(k) => self.down_times(k + 1),
                None => {},
            }
        } else {
            proof {
                lemma_match_before_bounds(views(names@), s@, idx as int);
            }
            match prev_search_index(names, s.as_str(), idx) {
                Some(k) => self.up_times(k + 1),
                None => {},
            }
        }
    }

    /// Selects the first item.
    pub fn first(&mut self)
        ensures
            final(self).spec_selected() == Some(0usize),
            final(self).spec_first() == 0,
            final(self).len == old(self).len,
            final(self).spec_size() == old(self).spec_size(),
            final(self).spec_shift() == old(self).spec_shift(),
            final(self).to_search == old(self).to_search,
    {
        self.selected = Some(0);
        self.first = 0;
    }

    /// Selects the last item: on its row when the list fits, otherwise on the bottom row of a
    /// window that ends at the last item.
    pub fn last(&mut self)
        requires
            old(self).len > 0,
            old(self).len > old(self).spec_size() ==> old(self).spec_size() > 0,
        ensures
            final(self).len == old(self).len,
            final(self).spec_size() == old(self).spec_size(),
            final(self).spec_shift() == old(self).spec_shift(),
            final(self).to_search == old(self).to_search,
            old(self).spec_size() > old(self).len - 1 ==> final(self).spec_first() == 0
                && final(self).spec_selected() == Some((old(self).len - 1) as usize),
            old(self).spec_size() <= old(self).len - 1 ==> final(self).spec_first() == old(self).len
                - old(self).spec_size() && final(self).spec_selected() == Some((old(self).spec_size() - 1) as usize),
            final(self).spec_index() == old(self).len - 1,
    {
        let shown_items = self.len - 1;
        if self.size > shown_items {
            self.first = 0;
            self.selected = Some(shown_items);
        } else {
            self.first = self.len - self.size;
            self.selected = Some(self.size - 1);
        }
    }

    pub fn set_search(&mut self, to_search: String)
        ensures
            final(self).to_search == Some(to_search),
            final(self).spec_selected() == old(self).spec_selected(),
            final(self).spec_first() == old(self).spec_first(),
            final(self).spec_size() == old(self).spec_size(),
            final(self).spec_shift() == old(self).spec_shift(),
            final(self).len == old(self).len,
    {
        self.to_search = Some(to_search);
    }

    pub fn clear_search(&mut self)
        ensures
            final(self).to_search is None,
            final(self).spec_selected() == old(self).spec_selected(),
            final(self).spec_first() == old(self).spec_first(),
            final(self).spec_size() == old(self).spec_size(),
            final(self).spec_shift() == old(self).spec_shift(),
            final(self).len == old(self).len,
    {
        self.to_search = None;
    }

    /// The range of item indices shown: from the first shown up to (not including) the first
    /// after the window.
    pub fn range(&self) -> (r: (usize, usize))
        requires
            self.spec_first() + self.spec_size() <= usize::MAX,
        ensures
            r == (self.first as usize, (self.spec_first() + self.spec_size()) as usize),
    {
        (self.first, self.first + self.size)
    }

    /// Applies a list movement event and reports whether the event was one.
    pub fn handle_event(&mut self, event: UIEvent) -> (handled: bool)
        requires
            event == UIEvent::ListLast ==> old(self).len > 0 && (old(self).len > old(self).spec_size()
                ==> old(self).spec_size() > 0),
        ensures
            handled == (event == UIEvent::ListDown || event == UIEvent::ListUp || event
                == UIEvent::ListFirst || event == UIEvent::ListLast || event == UIEvent::CleanSearch),
            !handled ==> *final(self) == *old(self),
            final(self).len == old(self).len,
            final(self).spec_size() == old(self).spec_size(),
            final(self).spec_shift() == old(self).spec_shift(),
            event != UIEvent::CleanSearch ==> final(self).to_search == old(self).to_search,
            event == UIEvent::CleanSearch ==> final(self).to_search is None
                && final(self).spec_selected() == old(self).spec_selected()
                && final(self).spec_first() == old(self).spec_first(),
            event == UIEvent::ListDown ==> (final(self).spec_selected(), final(self).spec_first()) == after_down(*old(self)),
            event == UIEvent::ListUp ==> (final(self).spec_selected(), final(self).spec_first()) == after_up(*old(self)),
            event == UIEvent::ListFirst ==> final(self).spec_selected() == Some(0usize) && final(self).spec_first() == 0,
            event == UIEvent::ListFirst ==> final(self).spec_index() == 0,
            event == UIEvent::ListLast ==> final(self).spec_index() == old(self).len - 1,
            event == UIEvent::ListLast && old(self).spec_size() > old(self).len - 1 ==> final(self).spec_first() == 0
                && final(self).spec_selected() == Some((old(self).len - 1) as usize),
            event == UIEvent::ListLast && old(self).spec_size() <= old(self).len - 1 ==> final(self).spec_first()
                == old(self).len - old(self).spec_size() && final(self).spec_selected() == Some((old(self).spec_size() - 1) as usize),
            final(self).spec_index() <= old(self).spec_index() + 1 || final(self).spec_index() < old(self).len,
            old(self).in_view() && event == UIEvent::ListDown ==> final(self).in_view()
                && final(self).spec_index() == (if old(self).spec_index() + 1 < old(self).len { old(self).spec_index() + 1 } else { old(self).spec_index() }),
            old(self).in_view() && event == UIEvent::ListUp ==> final(self).in_view()
                && final(self).spec_index() == (if old(self).spec_index() > 0 { old(self).spec_index() - 1 } else { 0 }),
    {
        match event {
            UIEvent::ListDown => {
                proof {
                    if self.in_view() {
                        lemma_down_steps(*self);
                    }
                }
                self.down();
                proof {
                    if old(self).in_view() {
                        lemma_down_view(*old(self), *self);
                    }
                }
            },
            UIEvent::ListUp => {
                self.up();
                proof {
                    if old(self).in_view() {
                        lemma_up_view(*old(self), *self);
                    }
                }
            },
            UIEvent::ListFirst => self.first(),
            UIEvent::ListLast => self.last(),
            UIEvent::CleanSearch => self.clear_search(),
            _ => {
                return false;
            },
        }
        true
    }

    /// Selects the item on the clicked row, when there is an item there. `top` is the first
    /// row of the widget's area, which holds its border.
    pub fn click(&mut self, row: usize, top: u16)
        requires
            row > top,
        ensures
            final(self).len == old(self).len,
            final(self).spec_first() == old(self).spec_first(),
            final(self).spec_size() == old(self).spec_size(),
            (row - top - 1) < old(self).len ==> final(self).spec_selected() == Some((row - top - 1) as usize),
            (row - top - 1) >= old(self).len ==> final(self).spec_selected() == old(self).spec_selected(),
    {
        let index = row - top as usize - 1;
        if index < self.len {
            self.selected = Some(index);
        }
    }

    /// When the selection lies past the end of a non-empty list, selects the last item.
    /// Lists always take the focus.
    pub fn focus_event(&mut self) -> (r: bool)
        requires
            old(self).spec_row() >= old(self).len && old(self).len > 0 ==> (old(self).len > old(self).spec_size() ==> old(self).spec_size() > 0),
        ensures
            r,
            final(self).len == old(self).len,
            old(self).spec_row() >= old(self).len && old(self).len > 0 ==> final(self).spec_index() == old(self).len - 1,
            !(old(self).spec_row() >= old(self).len && old(self).len > 0) ==> *final(self) == *old(self),
    {
        if self.act() >= self.len && self.len > 0 {
            self.last();
        }
        true
    }
}

/// In view, the index stays in bounds after moving down.
proof fn lemma_down_steps(w: WidgetList)
    requires
        w.in_view(),
    ensures
        w.spec_index() < w.len || w.len == 0,
{
}

proof fn lemma_down_bound(a: WidgetList, b: WidgetList)
    requires
        a.spec_index() + 1 < a.len,
        b.len == a.len,
        b.spec_size() == a.spec_size(),
        (b.spec_selected(), b.spec_first()) == after_down(a),
    ensures
        b.spec_index() <= a.spec_index() + 1,
        a.in_view() ==> b.spec_index() == a.spec_index() + 1,
{
}

/// Moving down (`down`, which gives `after_down`) keeps the window invariant (`in_view`: the
/// selection inside the list and the window, the window inside the list) and moves the
/// selected index one item down, unless it is on the last item.
pub proof fn lemma_down_view(a: WidgetList, b: WidgetList)
    requires
        a.in_view(),
        b.len == a.len,
        b.spec_size() == a.spec_size(),
        (b.spec_selected(), b.spec_first()) == after_down(a),
    ensures
        b.in_view(),
        b.spec_index() == (if a.spec_index() + 1 < a.len { a.spec_index() + 1 } else { a.spec_index() }),
{
}

/// Moving up (`up`, which gives `after_up`) keeps the window invariant (`in_view`) and moves
/// the selected index one item up, unless it is on the first item.
pub proof fn lemma_up_view(a: WidgetList, b: WidgetList)
    requires
        a.in_view(),
        b.len == a.len,
        b.spec_size() == a.spec_size(),
        (b.spec_selected(), b.spec_first()) == after_up(a),
    ensures
        b.in_view(),
        b.spec_index() == (if a.spec_index() > 0 { a.spec_index() - 1 } else { 0 }),
{
}

} // verus!
