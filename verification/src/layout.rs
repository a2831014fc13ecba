use vstd::prelude::*;
use crate::widget_type::{WidgetType, spec_accepts_focus};

verus! {

/// The direction in which a container lays out its items.
#[derive(PartialEq, Eq, Structural, Debug, Copy, Clone)]
pub enum Direction {
    Vertical,
    Horizontal,
}

/// The size of an item inside its container.
#[derive(PartialEq, Eq, Structural, Debug, Copy, Clone)]
pub enum Constraint {
    Length(u16),
    Percentage(u16),
}

/// An item of a container: a nested container (by its index in the layout) or a widget.
#[derive(PartialEq, Eq, Structural, Debug, Copy, Clone)]
pub enum Item {
    Cont(usize),
    Widget(WidgetType),
}

/// A container of items, laid out in one direction, with one active item.
#[derive(Debug)]
pub struct Container {
    pub items: Vec<Item>,
    pub direction: Direction,
    pub constraints: Vec<Constraint>,
    pub parent: Option<usize>,
    pub act_index: usize,
}

/// The active item of container `c`.
pub open spec fn active_item(cs: Seq<Container>, c: int) -> Item {
    cs[c].items@[cs[c].act_index as int]
}

/// Container `c` is well formed inside the container list `cs`: it has items, its active
/// index points at one of them, nested containers come after it and name it as parent, and
/// its own parent comes before it and holds it.
pub open spec fn container_wf(cs: Seq<Container>, c: int) -> bool {
    let con = cs[c];
    &&& 0 < con.items@.len()
    &&& con.act_index < con.items@.len()
    &&& forall|k: int|
        0 <= k < con.items@.len() ==> (#[trigger] con.items@[k] matches Item::Cont(j) ==> (c < j
            < cs.len() && cs[j as int].parent == Some(c as usize)))
    &&& (c == 0 <==> con.parent is None)
    &&& (con.parent matches Some(p) ==> (p < c && exists|k: int|
        0 <= k < cs[p as int].items@.len() && #[trigger] cs[p as int].items@[k] == Item::Cont(
            c as usize,
        )))
}

/// Every container of `cs` is well formed, and there is at least one (the root, at index 0).
pub open spec fn containers_wf(cs: Seq<Container>) -> bool {
    &&& cs.len() > 0
    &&& forall|c: int| 0 <= c < cs.len() ==> #[trigger] container_wf(cs, c)
}

/// The container reached from `c` by following active items while they are containers:
/// the one whose active item is a widget.
pub open spec fn leaf(cs: Seq<Container>, c: int) -> int
    decreases cs.len() - c,
{
    if 0 <= c < cs.len() {
        match active_item(cs, c) {
            Item::Cont(j) => if c < j < cs.len() {
                leaf(cs, j as int)
            } else {
                c
            },
            _ => c,
        }
    } else {
        c
    }
}

/// The two container lists differ at most in their active indices.
pub open spec fn same_shape(a: Seq<Container>, b: Seq<Container>) -> bool {
    &&& a.len() == b.len()
    &&& forall|c: int|
        0 <= c < a.len() ==> {
            &&& (#[trigger] a[c]).items@ == b[c].items@
            &&& a[c].direction == b[c].direction
            &&& a[c].constraints@ == b[c].constraints@
            &&& a[c].parent == b[c].parent
        }
}

/// The two container lists have the same active index in every container.
pub open spec fn same_indices(a: Seq<Container>, b: Seq<Container>) -> bool {
    &&& a.len() == b.len()
    &&& forall|c: int| 0 <= c < a.len() ==> (#[trigger] a[c]).act_index == b[c].act_index
}

/// How many steps the active index of `con` can still move forward (or backward).
pub open spec fn room(con: Container, forward: bool) -> int {
    if forward {
        con.items@.len() - 1 - con.act_index
    } else {
        con.act_index as int
    }
}

pub proof fn lemma_leaf_bounds(cs: Seq<Container>, c: int)
    requires
        containers_wf(cs),
        0 <= c < cs.len(),
    ensures
        c <= leaf(cs, c) < cs.len(),
        active_item(cs, leaf(cs, c)) is Widget,
    decreases cs.len() - c,
{
    assert(container_wf(cs, c));
    let k = cs[c].act_index as int;
    assert(cs[c].items@[k] == active_item(cs, c));
    match active_item(cs, c) {
        Item::Cont(j) => {
            lemma_leaf_bounds(cs, j as int);
        },
        _ => {},
    }
}

pub proof fn lemma_leaf_same_shape(a: Seq<Container>, b: Seq<Container>, c: int)
    requires
        same_shape(a, b),
        same_indices(a, b),
        0 <= c < a.len(),
    ensures
        leaf(a, c) == leaf(b, c),
    decreases a.len() - c,
{
    assert(a[c].items@ == b[c].items@);
    assert(a[c].act_index == b[c].act_index);
    match active_item(a, c) {
        Item::Cont(j) => {
            if c < j < a.len() {
                lemma_leaf_same_shape(a, b, j as int);
            }
        },
        _ => {},
    }
}

pub proof fn lemma_wf_same_shape(a: Seq<Container>, b: Seq<Container>)
    requires
        containers_wf(a),
        same_shape(a, b),
        forall|c: int| 0 <= c < b.len() ==> (#[trigger] b[c]).act_index < b[c].items@.len(),
    ensures
        containers_wf(b),
{
    assert forall|c: int| 0 <= c < b.len() implies #[trigger] container_wf(b, c) by {
        assert(container_wf(a, c));
        assert(a[c].items@ == b[c].items@);
        assert forall|k: int| 0 <= k < b[c].items@.len() implies (#[trigger] b[c].items@[k] matches Item::Cont(j) ==> (c < j < b.len() && b[j as int].parent == Some(c as usize))) by {
            assert(a[c].items@[k] == b[c].items@[k]);
            if let Item::Cont(j) = b[c].items@[k] {
                assert(a[j as int].parent == b[j as int].parent);
            }
        }
        if let Some(p) = b[c].parent {
            let k = choose|k: int|
                0 <= k < a[p as int].items@.len() && #[trigger] a[p as int].items@[k] == Item::Cont(c as usize);
            assert(a[p as int].items@ == b[p as int].items@);
            assert(b[p as int].items@[k] == Item::Cont(c as usize));
        }
    }
}

/// The leaf reached from `c` depends only on the containers from `c` on.
pub proof fn lemma_leaf_suffix(a: Seq<Container>, b: Seq<Container>, c: int)
    requires
        a.len() == b.len(),
        0 <= c < a.len(),
        forall|d: int|
            c <= d < a.len() ==> (#[trigger] a[d]).items@ == b[d].items@ && a[d].act_index
                == b[d].act_index,
    ensures
        leaf(a, c) == leaf(b, c),
    decreases a.len() - c,
{
    assert(a[c].items@ == b[c].items@);
    match active_item(a, c) {
        Item::Cont(j) => {
            if c < j < a.len() {
                lemma_leaf_suffix(a, b, j as int);
            }
        },
        _ => {},
    }
}

/// The active index of every container.
pub open spec fn indices_of(cs: Seq<Container>) -> Seq<int> {
    cs.map_values(|con: Container| con.act_index as int)
}

/// The indices point at items of their containers.
pub open spec fn indices_ok(cs: Seq<Container>, idx: Seq<int>) -> bool {
    &&& idx.len() == cs.len()
    &&& forall|c: int| 0 <= c < cs.len() ==> 0 <= #[trigger] idx[c] < cs[c].items@.len()
}

/// The container reached from `c` by following, with the active indices `idx`, items that
/// are containers (see `leaf`).
pub open spec fn leaf_at(cs: Seq<Container>, idx: Seq<int>, c: int) -> int
    decreases cs.len() - c,
{
    if 0 <= c < cs.len() {
        match cs[c].items@[idx[c]] {
            Item::Cont(j) => if c < j < cs.len() {
                leaf_at(cs, idx, j as int)
            } else {
                c
            },
            _ => c,
        }
    } else {
        c
    }
}

/// With the active indices `idx`, container `c` shows a widget that takes the focus.
pub open spec fn focusable_at(cs: Seq<Container>, idx: Seq<int>, c: int) -> bool {
    cs[c].items@[idx[c]] matches Item::Widget(t) && spec_accepts_focus(t)
}

/// How many steps container `c` can still move forward (or backward) with indices `idx`.
pub open spec fn room_at(cs: Seq<Container>, idx: Seq<int>, c: int, forward: bool) -> int {
    if forward {
        cs[c].items@.len() - 1 - idx[c]
    } else {
        idx[c]
    }
}

/// The indices after container `c` steps one item forward (or backward).
pub open spec fn step_at(idx: Seq<int>, c: int, forward: bool) -> Seq<int> {
    idx.update(c, if forward {
        idx[c] + 1
    } else {
        idx[c] - 1
    })
}

/// The leaf lies at or after `c`, inside the containers.
pub proof fn lemma_leaf_at_bounds(cs: Seq<Container>, idx: Seq<int>, c: int)
    requires
        0 <= c < cs.len(),
    ensures
        c <= leaf_at(cs, idx, c) < cs.len(),
    decreases cs.len() - c,
{
    match cs[c].items@[idx[c]] {
        Item::Cont(j) => if c < j < cs.len() {
            lemma_leaf_at_bounds(cs, idx, j as int);
        },
        _ => {},
    }
}

/// `leaf` follows the active indices.
pub proof fn lemma_leaf_is_leaf_at(cs: Seq<Container>, shape: Seq<Container>, c: int)
    requires
        same_shape(cs, shape),
    ensures
        leaf(cs, c) == leaf_at(shape, indices_of(cs), c),
    decreases cs.len() - c,
{
    if 0 <= c < cs.len() {
        assert(indices_of(cs)[c] == cs[c].act_index as int);
        assert(cs[c].items@ == shape[c].items@);
        match active_item(cs, c) {
            Item::Cont(j) => if c < j < cs.len() {
                lemma_leaf_is_leaf_at(cs, shape, j as int);
            },
            _ => {},
        }
    }
}

/// Walking inside container `c`: it steps to its next (or previous) item, then the focus
/// goes down to a widget; when that widget does not take the focus, the walk goes on in the
/// container that holds it. The result is the new indices and the container of the widget
/// that takes the focus, or `None` when a container cannot step any further.
pub open spec fn walk_spec(cs: Seq<Container>, idx: Seq<int>, c: int, forward: bool) -> Option<(Seq<int>, int)>
    decreases cs.len() - c, room_at(cs, idx, c, forward),
    when indices_ok(cs, idx) && 0 <= c < cs.len()
{
    if room_at(cs, idx, c, forward) <= 0 {
        None
    } else {
        let idx1 = step_at(idx, c, forward);
        let l = leaf_at(cs, idx1, c);
        if focusable_at(cs, idx1, l) {
            Some((idx1, l))
        } else {
            proof {
                lemma_leaf_at_bounds(cs, idx1, c);
                assert(indices_ok(cs, idx1));
                if l == c {
                    assert(room_at(cs, idx1, l, forward) == room_at(cs, idx, c, forward) - 1);
                }
            }
            walk_spec(cs, idx1, l, forward)
        }
    }
}

/// Moving the focus in `direction` from container `c`: the nearest enclosing container laid
/// out in that direction steps to its next (or previous) item and the focus goes down to a
/// widget, walking on past widgets that do not take the focus (see `walk_spec`); a container
/// that cannot step hands the move to the next enclosing one. `None` when nothing can move.
pub open spec fn focus_move_spec(cs: Seq<Container>, idx: Seq<int>, c: int, direction: Direction, forward: bool) -> Option<(Seq<int>, int)>
    decreases c,
    when indices_ok(cs, idx) && 0 <= c < cs.len()
{
    if cs[c].direction != direction || room_at(cs, idx, c, forward) <= 0 {
        match cs[c].parent {
            Some(p) => if p < c {
                focus_move_spec(cs, idx, p as int, direction, forward)
            } else {
                None
            },
            None => None,
        }
    } else {
        let idx1 = step_at(idx, c, forward);
        let l = leaf_at(cs, idx1, c);
        if focusable_at(cs, idx1, l) {
            Some((idx1, l))
        } else {
            proof {
                lemma_leaf_at_bounds(cs, idx1, c);
            }
            walk_spec(cs, idx1, l, forward)
        }
    }
}

/// Well-formed containers point at items of their own.
pub proof fn lemma_indices_ok(cs: Seq<Container>)
    requires
        containers_wf(cs),
    ensures
        indices_ok(cs, indices_of(cs)),
{
    assert forall|c: int| 0 <= c < cs.len() implies 0 <= #[trigger] indices_of(cs)[c] < cs[c].items@.len() by {
        assert(container_wf(cs, c));
    }
}

/// The leaf reached with given indices depends only on the shape of the containers.
pub proof fn lemma_leaf_at_same_shape(a: Seq<Container>, b: Seq<Container>, idx: Seq<int>, c: int)
    requires
        same_shape(a, b),
    ensures
        leaf_at(a, idx, c) == leaf_at(b, idx, c),
    decreases a.len() - c,
{
    if 0 <= c < a.len() {
        assert(a[c].items@ == b[c].items@);
        match a[c].items@[idx[c]] {
            Item::Cont(j) => if c < j < a.len() {
                lemma_leaf_at_same_shape(a, b, idx, j as int);
            },
            _ => {},
        }
    }
}

/// A walk depends only on the shape of the containers.
pub proof fn lemma_walk_same_shape(a: Seq<Container>, b: Seq<Container>, idx: Seq<int>, c: int, forward: bool)
    requires
        same_shape(a, b),
        indices_ok(a, idx),
        0 <= c < a.len(),
    ensures
        walk_spec(a, idx, c, forward) == walk_spec(b, idx, c, forward),
    decreases a.len() - c, room_at(a, idx, c, forward),
{
    assert(a[c].items@ == b[c].items@);
    assert(indices_ok(b, idx)) by {
        assert forall|d: int| 0 <= d < b.len() implies 0 <= #[trigger] idx[d] < b[d].items@.len() by {
            assert(a[d].items@ == b[d].items@);
        }
    }
    if room_at(a, idx, c, forward) > 0 {
        let idx1 = step_at(idx, c, forward);
        lemma_leaf_at_same_shape(a, b, idx1, c);
        lemma_leaf_at_bounds(a, idx1, c);
        let l = leaf_at(a, idx1, c);
        assert(a[l].items@ == b[l].items@);
        if !focusable_at(a, idx1, l) {
            assert(indices_ok(a, idx1));
            lemma_walk_same_shape(a, b, idx1, l, forward);
        }
    }
}

/// A move of the focus depends only on the shape of the containers.
pub proof fn lemma_focus_move_same_shape(a: Seq<Container>, b: Seq<Container>, idx: Seq<int>, c: int, direction: Direction, forward: bool)
    requires
        same_shape(a, b),
        indices_ok(a, idx),
        0 <= c < a.len(),
    ensures
        focus_move_spec(a, idx, c, direction, forward) == focus_move_spec(b, idx, c, direction, forward),
    decreases c,
{
    assert(a[c].items@ == b[c].items@);
    assert(indices_ok(b, idx)) by {
        assert forall|d: int| 0 <= d < b.len() implies 0 <= #[trigger] idx[d] < b[d].items@.len() by {
            assert(a[d].items@ == b[d].items@);
        }
    }
    if a[c].direction != direction || room_at(a, idx, c, forward) <= 0 {
        if let Some(p) = a[c].parent {
            if p < c {
                lemma_focus_move_same_shape(a, b, idx, p as int, direction, forward);
            }
        }
    } else {
        let idx1 = step_at(idx, c, forward);
        lemma_leaf_at_same_shape(a, b, idx1, c);
        lemma_leaf_at_bounds(a, idx1, c);
        let l = leaf_at(a, idx1, c);
        assert(a[l].items@ == b[l].items@);
        if !focusable_at(a, idx1, l) {
            assert(indices_ok(a, idx1));
            lemma_walk_same_shape(a, b, idx1, l, forward);
        }
    }
}

/// `(c, k)` is the first position, in container order and then item order, that holds a
/// widget of type `t`.
pub open spec fn is_first_widget(cs: Seq<Container>, t: WidgetType, c: int, k: int) -> bool {
    &&& 0 <= c < cs.len()
    &&& 0 <= k < cs[c].items@.len()
    &&& cs[c].items@[k] == Item::Widget(t)
    &&& forall|d: int, j: int|
        0 <= d < cs.len() && 0 <= j < cs[d].items@.len() && (d < c || (d == c && j < k)) ==> #[trigger] cs[d].items@[j] != Item::Widget(t)
}

/// No position holds a widget of type `t`.
pub open spec fn has_no_widget(cs: Seq<Container>, t: WidgetType) -> bool {
    forall|d: int, j: int|
        0 <= d < cs.len() && 0 <= j < cs[d].items@.len() ==> #[trigger] cs[d].items@[j] != Item::Widget(t)
}

impl Container {
    /// An empty vertical container without a parent.
    pub fn new() -> (c: Container)
        ensures
            c.items@.len() == 0,
            c.constraints@.len() == 0,
            c.direction == Direction::Vertical,
            c.parent is None,
            c.act_index == 0,
    {
        Container {
            items: Vec::new(),
            direction: Direction::Vertical,
            constraints: Vec::new(),
            parent: None,
            act_index: 0,
        }
    }

    /// Appends a widget.
    pub fn add_widget(&mut self, widget: WidgetType)
        ensures
            final(self).items@ == old(self).items@.push(Item::Widget(widget)),
            final(self).direction == old(self).direction,
            final(self).constraints@ == old(self).constraints@,
            final(self).parent == old(self).parent,
            final(self).act_index == old(self).act_index,
    {
        self.items.push(Item::Widget(widget));
    }

    /// Appends a nested container, given by its index in the layout.
    pub fn add_cont(&mut self, container_index: usize)
        ensures
            final(self).items@ == old(self).items@.push(Item::Cont(container_index)),
            final(self).direction == old(self).direction,
            final(self).constraints@ == old(self).constraints@,
            final(self).parent == old(self).parent,
            final(self).act_index == old(self).act_index,
    {
        self.items.push(Item::Cont(container_index));
    }

    pub fn set_direction(&mut self, direction: Direction)
        ensures
            final(self).direction == direction,
            final(self).items@ == old(self).items@,
            final(self).constraints@ == old(self).constraints@,
            final(self).parent == old(self).parent,
            final(self).act_index == old(self).act_index,
    {
        self.direction = direction;
    }

    pub fn get_direction(&self) -> (d: Direction)
        ensures
            d == self.direction,
    {
        self.direction
    }

    pub fn set_constraints(&mut self, constraints: Vec<Constraint>)
        ensures
            final(self).constraints@ == constraints@,
            final(self).items@ == old(self).items@,
            final(self).direction == old(self).direction,
            final(self).parent == old(self).parent,
            final(self).act_index == old(self).act_index,
    {
        self.constraints = constraints;
    }

    pub fn get_index(&self) -> (i: usize)
        ensures
            i == self.act_index,
    {
        self.act_index
    }

    /// Makes item `index` active when there is such an item; reports whether it did.
    pub fn set_index(&mut self, index: usize) -> (r: bool)
        ensures
            r == (index < old(self).items@.len()),
            final(self).act_index == (if r { index } else { old(self).act_index }),
            final(self).items@ == old(self).items@,
            final(self).direction == old(self).direction,
            final(self).constraints@ == old(self).constraints@,
            final(self).parent == old(self).parent,
    {
        if self.items.len() > index {
            self.act_index = index;
            true
        } else {
            false
        }
    }

    /// The widget at position `index`, or `None` when that item is a container.
    pub fn get_widget(&self, index: usize) -> (w: Option<WidgetType>)
        requires
            index < self.items@.len(),
        ensures
            w == (match self.items@[index as int] {
                Item::Widget(t) => Some(t),
                Item::Cont(_) => None,
            }),
    {
        match self.items[index] {
            Item::Widget(t) => Some(t),
            Item::Cont(_) => None,
        }
    }

    /// The active item, when it is a widget.
    pub fn actual(&self) -> (w: Option<WidgetType>)
        requires
            self.act_index < self.items@.len(),
        ensures
            w == (match self.items@[self.act_index as int] {
                Item::Widget(t) => Some(t),
                Item::Cont(_) => None,
            }),
    {
        self.get_widget(self.act_index)
    }

    /// The type of the active item, when it is a widget.
    pub fn get_active_type(&self) -> (w: Option<WidgetType>)
        requires
            self.act_index < self.items@.len(),
        ensures
            w == (match self.items@[self.act_index as int] {
                Item::Widget(t) => Some(t),
                Item::Cont(_) => None,
            }),
    {
        self.actual()
    }

    /// Moves the active index one item forward, when there is a next item.
    pub fn next_item(&mut self) -> (r: bool)
        requires
            old(self).act_index < old(self).items@.len(),
        ensures
            r == (old(self).act_index + 1 < old(self).items@.len()),
            final(self).act_index == (if r { old(self).act_index + 1 } else { old(self).act_index as int }),
            final(self).items@ == old(self).items@,
            final(self).direction == old(self).direction,
            final(self).constraints@ == old(self).constraints@,
            final(self).parent == old(self).parent,
    {
        if self.items.len() > self.act_index + 1 {
            self.act_index = self.act_index + 1;
            true
        } else {
            false
        }
    }

    /// Moves the active index one item back, when it is not at the first item.
    pub fn previous_item(&mut self) -> (r: bool)
        ensures
            r == (old(self).act_index > 0),
            final(self).act_index == (if r { old(self).act_index - 1 } else { old(self).act_index as int }),
            final(self).items@ == old(self).items@,
            final(self).direction == old(self).direction,
            final(self).constraints@ == old(self).constraints@,
            final(self).parent == old(self).parent,
    {
        if self.act_index > 0 {
            self.act_index = self.act_index - 1;
            true
        } else {
            false
        }
    }

    /// Moves the active index one item forward or backward.
    pub fn step(&mut self, forward: bool) -> (r: bool)
        requires
            old(self).act_index < old(self).items@.len(),
        ensures
            r == (room(*old(self), forward) > 0),
            r ==> room(*final(self), forward) == room(*old(self), forward) - 1,
            final(self).act_index == (if !r { old(self).act_index as int } else if forward {
                old(self).act_index + 1
            } else {
                old(self).act_index - 1
            }),
            final(self).items@ == old(self).items@,
            final(self).direction == old(self).direction,
            final(self).constraints@ == old(self).constraints@,
            final(self).parent == old(self).parent,
    {
        if forward {
            self.next_item()
        } else {
            self.previous_item()
        }
    }
}

/// The layout of the user interface: a tree of containers, stored root first, with one
/// active container, and whether its active widget currently has the focus.
#[derive(Debug)]
pub struct Layout {
    containers: Vec<Container>,
    act: usize,
    focused: bool,
}

impl Layout {
    pub closed spec fn spec_containers(&self) -> Seq<Container> {
        self.containers@
    }

    pub closed spec fn spec_act(&self) -> int {
        self.act as int
    }

    pub closed spec fn spec_focused(&self) -> bool {
        self.focused
    }

    /// The containers are well formed and the active one is among them.
    pub open spec fn nav_wf(&self) -> bool {
        &&& containers_wf(self.spec_containers())
        &&& 0 <= self.spec_act() < self.spec_containers().len()
    }

    /// Well formed, and the active container's active item is a widget.
    pub open spec fn wf(&self) -> bool {
        &&& self.nav_wf()
        &&& active_item(self.spec_containers(), self.spec_act()) is Widget
    }

    /// The active widget's type.
    pub open spec fn spec_active_widget(&self) -> WidgetType {
        active_item(self.spec_containers(), self.spec_act())->Widget_0
    }

    /// Builds a layout from well-formed containers, the root active, then descends to a widget.
    pub fn from_containers(containers: Vec<Container>) -> (l: Layout)
        requires
            containers_wf(containers@),
        ensures
            l.wf(),
            l.spec_containers() == containers@,
            l.spec_act() == leaf(containers@, 0),
            l.spec_focused() == spec_accepts_focus(l.spec_active_widget()),
    {
        let mut l = Layout { containers, act: 0, focused: false };
        l.actualize_layout();
        proof {
            lemma_leaf_bounds(l.containers@, 0);
        }
        let t = l.get_active_widget();
        l.focused = t.accepts_focus();
        l
    }

    pub fn len(&self) -> (n: usize)
        ensures
            n == self.spec_containers().len(),
    {
        self.containers.len()
    }

    pub fn act_index(&self) -> (a: usize)
        ensures
            a == self.spec_act(),
    {
        self.act
    }

    pub fn is_focused(&self) -> (b: bool)
        ensures
            b == self.spec_focused(),
    {
        self.focused
    }

    /// The container at position `i`.
    pub fn container(&self, i: usize) -> (c: &Container)
        requires
            i < self.spec_containers().len(),
        ensures
            *c == self.spec_containers()[i as int],
    {
        &self.containers[i]
    }

    /// The active container.
    pub fn act(&self) -> (c: &Container)
        requires
            self.nav_wf(),
        ensures
            *c == self.spec_containers()[self.spec_act()],
    {
        &self.containers[self.act]
    }

    /// The active container, to change in place; the layout takes it back as it is left.
    pub fn act_mut(&mut self) -> (c: &mut Container)
        requires
            old(self).nav_wf(),
        ensures
            *c == old(self).spec_containers()[old(self).spec_act()],
            final(self).spec_containers() == old(self).spec_containers().update(old(self).spec_act(), *final(c)),
            final(self).spec_act() == old(self).spec_act(),
            final(self).spec_focused() == old(self).spec_focused(),
    {
        &mut self.containers[self.act]
    }

    /// The type of the active widget.
    pub fn get_active_widget(&self) -> (w: WidgetType)
        requires
            self.wf(),
        ensures
            w == self.spec_active_widget(),
    {
        proof {
            assert(container_wf(self.containers@, self.act as int));
        }
        match self.containers[self.act].items[self.containers[self.act].act_index] {
            Item::Widget(t) => t,
            Item::Cont(_) => {
                proof {
                    assert(false);
                }
                WidgetType::List
            },
        }
    }

    /// Follows active items from the active container down to the container whose active
    /// item is a widget.
    pub fn actualize_layout(&mut self)
        requires
            old(self).nav_wf(),
        ensures
            final(self).nav_wf(),
            final(self).spec_containers() == old(self).spec_containers(),
            final(self).spec_focused() == old(self).spec_focused(),
            final(self).spec_act() == leaf(old(self).spec_containers(), old(self).spec_act()),
            active_item(final(self).spec_containers(), final(self).spec_act()) is Widget,
    {
        proof {
            lemma_leaf_bounds(self.containers@, self.act as int);
        }
        let ghost start = self.act as int;
        loop
            invariant
                containers_wf(self.containers@),
                self.containers@ == old(self).containers@,
                self.focused == old(self).focused,
                0 <= self.act < self.containers@.len(),
                leaf(self.containers@, self.act as int) == leaf(self.containers@, start),
                0 <= start < self.containers@.len(),
                start == old(self).act,
            decreases self.containers@.len() - self.act,
        {
            proof {
                assert(container_wf(self.containers@, self.act as int));
            }
            let c = &self.containers[self.act];
            match c.items[c.act_index] {
                Item::Cont(j) => {
                    proof {
                        let k = self.containers@[self.act as int].act_index as int;
                        assert(self.containers@[self.act as int].items@[k] == Item::Cont(j));
                    }
                    self.act = j;
                },
                Item::Widget(t) => {
                    proof {
                        let k = self.containers@[self.act as int].act_index as int;
                        assert(self.containers@[self.act as int].items@[k] == Item::Widget(t));
                        assert(leaf(self.containers@, self.act as int) == self.act);
                    }
                    return;
                },
            }
        }
    }

    /// The active index of every container.
    fn indices(&self) -> (v: Vec<usize>)
        ensures
            v@.len() == self.spec_containers().len(),
            forall|c: int| 0 <= c < v@.len() ==> v@[c] == #[trigger] self.spec_containers()[c].act_index,
    {
        let mut v: Vec<usize> = Vec::new();
        let mut i: usize = 0;
        while i < self.containers.len()
            invariant
                i <= self.containers@.len(),
                v@.len() == i,
                forall|c: int| 0 <= c < i ==> v@[c] == #[trigger] self.containers@[c].act_index,
            decreases self.containers@.len() - i,
        {
            v.push(self.containers[i].act_index);
            i = i + 1;
        }
        v
    }

    /// Puts back the active container and the active index of every container.
    fn restore(&mut self, act: usize, v: &Vec<usize>)
        requires
            old(self).nav_wf(),
            act < old(self).spec_containers().len(),
            v@.len() == old(self).spec_containers().len(),
            forall|c: int| 0 <= c < v@.len() ==> v@[c] < (#[trigger] old(self).spec_containers()[c]).items@.len(),
        ensures
            final(self).nav_wf(),
            same_shape(final(self).spec_containers(), old(self).spec_containers()),
            final(self).spec_act() == act,
            final(self).spec_focused() == old(self).spec_focused(),
            forall|c: int| 0 <= c < v@.len() ==> v@[c] == #[trigger] final(self).spec_containers()[c].act_index,
    {
        let mut i: usize = 0;
        let n = self.containers.len();
        while i < n
            invariant
                n == self.containers@.len(),
                i <= n,
                v@.len() == n,
                self.act == old(self).act,
                self.focused == old(self).focused,
                same_shape(self.containers@, old(self).containers@),
                forall|c: int| 0 <= c < i ==> v@[c] == #[trigger] self.containers@[c].act_index,
                forall|c: int| i <= c < n ==> (#[trigger] self.containers@[c]).act_index == old(self).containers@[c].act_index,
            decreases n - i,
        {
            self.containers[i].act_index = v[i];
            i = i + 1;
        }
        self.act = act;
        proof {
            lemma_wf_same_shape(old(self).containers@, self.containers@);
        }
    }

    /// Moves the active index of the active container, then descends to a widget, until a
    /// widget that takes the focus is active or the container cannot move further.
    fn walk_in_container(&mut self, forward: bool) -> (r: bool)
        requires
            old(self).wf(),
        ensures
            final(self).wf(),
            same_shape(final(self).spec_containers(), old(self).spec_containers()),
            final(self).spec_focused() == old(self).spec_focused(),
            r ==> spec_accepts_focus(final(self).spec_active_widget()),
            match walk_spec(old(self).spec_containers(), indices_of(old(self).spec_containers()), old(self).spec_act(), forward) {
                Some((idx, a)) => r && indices_of(final(self).spec_containers()) == idx && final(self).spec_act() == a,
                None => !r,
            },
        decreases old(self).spec_containers().len() - old(self).spec_act(), room(
            old(self).spec_containers()[old(self).spec_act()],
            forward,
        ),
    {
        proof {
            assert(container_wf(self.containers@, self.act as int));
            lemma_indices_ok(self.containers@);
        }
        let ghost before = self.containers@;
        let ghost idx0 = indices_of(before);
        let a = self.act;
        let stepped = self.containers[a].step(forward);
        proof {
            assert forall|c: int| 0 <= c < self.containers@.len() implies (#[trigger] self.containers@[c]).act_index < self.containers@[c].items@.len() by {
                if c != a {
                    assert(self.containers@[c] == before[c]);
                    assert(container_wf(before, c));
                }
            }
            assert(same_shape(before, self.containers@));
            lemma_wf_same_shape(before, self.containers@);
            assert(room_at(before, idx0, a as int, forward) == room(before[a as int], forward));
            if !stepped {
                assert(same_indices(before, self.containers@));
                assert(active_item(before, a as int) == active_item(self.containers@, a as int));
            } else {
                assert forall|c: int| 0 <= c < before.len() implies #[trigger] indices_of(self.containers@)[c] == step_at(idx0, a as int, forward)[c] by {
                    if c != a {
                        assert(self.containers@[c] == before[c]);
                    }
                }
                assert(indices_of(self.containers@) =~= step_at(idx0, a as int, forward));
            }
        }
        if stepped {
            proof {
                lemma_leaf_bounds(self.containers@, a as int);
                lemma_leaf_is_leaf_at(self.containers@, before, a as int);
            }
            let ghost idx1 = indices_of(self.containers@);
            self.actualize_layout();
            let t = self.get_active_widget();
            proof {
                let l = self.act as int;
                assert(l == leaf_at(before, idx1, a as int));
                assert(self.containers@[l].items@ == before[l].items@);
                assert(idx1[l] == self.containers@[l].act_index);
                assert(focusable_at(before, idx1, l) == spec_accepts_focus(t));
            }
            if t.accepts_focus() {
                true
            } else {
                proof {
                    lemma_indices_ok(self.containers@);
                    lemma_walk_same_shape(self.containers@, before, idx1, self.act as int, forward);
                }
                self.walk_in_container(forward)
            }
        } else {
            false
        }
    }

    /// Moves the focus in `direction`, forward or backward: in the nearest enclosing container
    /// laid out in that direction that can still move, then down to a widget; skips widgets
    /// that do not take the focus. On failure everything is as it was.
    fn change_focus(&mut self, direction: Direction, forward: bool) -> (r: bool)
        requires
            old(self).nav_wf(),
        ensures
            final(self).nav_wf(),
            same_shape(final(self).spec_containers(), old(self).spec_containers()),
            final(self).spec_focused() == old(self).spec_focused(),
            r ==> final(self).wf() && spec_accepts_focus(final(self).spec_active_widget()),
            !r ==> final(self).spec_act() == old(self).spec_act() && same_indices(
                final(self).spec_containers(),
                old(self).spec_containers(),
            ),
            match focus_move_spec(old(self).spec_containers(), indices_of(old(self).spec_containers()), old(self).spec_act(), direction, forward) {
                Some((idx, a)) => r && indices_of(final(self).spec_containers()) == idx && final(self).spec_act() == a,
                None => !r,
            },
        decreases old(self).spec_act(),
    {
        let old_act = self.act;
        let old_idx = self.indices();
        let ghost cs0 = self.containers@;
        let ghost idx0 = indices_of(cs0);
        proof {
            assert forall|c: int| 0 <= c < old_idx@.len() implies old_idx@[c] < (#[trigger] self.containers@[c]).items@.len() by {
                assert(container_wf(self.containers@, c));
            }
            lemma_indices_ok(cs0);
        }
        while self.containers[self.act].direction != direction
            invariant
                containers_wf(self.containers@),
                self.containers@ == old(self).containers@,
                self.containers@ == cs0,
                idx0 == indices_of(cs0),
                indices_ok(cs0, idx0),
                self.focused == old(self).focused,
                0 <= self.act <= old_act,
                old_act == old(self).act,
                old_act < self.containers@.len(),
                focus_move_spec(cs0, idx0, self.act as int, direction, forward) == focus_move_spec(cs0, idx0, old_act as int, direction, forward),
            decreases self.act,
        {
            proof {
                assert(container_wf(self.containers@, self.act as int));
            }
            match self.containers[self.act].parent {
                Some(p) => {
                    self.act = p;
                },
                None => {
                    self.act = old_act;
                    return false;
                },
            }
        }
        let ghost before = self.containers@;
        let a = self.act;
        proof {
            assert(container_wf(self.containers@, a as int));
            assert(room_at(cs0, idx0, a as int, forward) == room(cs0[a as int], forward));
        }
        let stepped = self.containers[a].step(forward);
        proof {
            assert forall|c: int| 0 <= c < self.containers@.len() implies (#[trigger] self.containers@[c]).act_index < self.containers@[c].items@.len() by {
                if c != a {
                    assert(self.containers@[c] == before[c]);
                    assert(container_wf(before, c));
                }
            }
            assert(same_shape(before, self.containers@));
            lemma_wf_same_shape(before, self.containers@);
            if !stepped {
                assert(same_indices(before, self.containers@));
                assert(active_item(before, a as int) == active_item(self.containers@, a as int));
                assert forall|c: int| 0 <= c < before.len() implies #[trigger] indices_of(self.containers@)[c] == idx0[c] by {
                    assert(self.containers@[c].act_index == before[c].act_index);
                }
                assert(indices_of(self.containers@) =~= idx0);
            } else {
                assert forall|c: int| 0 <= c < before.len() implies #[trigger] indices_of(self.containers@)[c] == step_at(idx0, a as int, forward)[c] by {
                    if c != a {
                        assert(self.containers@[c] == before[c]);
                    }
                }
                assert(indices_of(self.containers@) =~= step_at(idx0, a as int, forward));
            }
        }
        if stepped {
            proof {
                lemma_leaf_bounds(self.containers@, a as int);
                lemma_leaf_is_leaf_at(self.containers@, before, a as int);
            }
            let ghost idx1 = indices_of(self.containers@);
            self.actualize_layout();
            let t = self.get_active_widget();
            proof {
                let l = self.act as int;
                assert(l == leaf_at(cs0, idx1, a as int));
                assert(self.containers@[l].items@ == cs0[l].items@);
                assert(idx1[l] == self.containers@[l].act_index);
                assert(focusable_at(cs0, idx1, l) == spec_accepts_focus(t));
            }
            if t.accepts_focus() {
                true
            } else {
                proof {
                    lemma_indices_ok(self.containers@);
                    lemma_walk_same_shape(self.containers@, cs0, idx1, self.act as int, forward);
                }
                if self.walk_in_container(forward) {
                    true
                } else {
                    self.restore(old_act, &old_idx);
                    proof {
                        assert forall|c: int| 0 <= c < cs0.len() implies #[trigger] indices_of(self.containers@)[c] == idx0[c] by {
                            assert(old_idx@[c] == self.containers@[c].act_index);
                        }
                    }
                    false
                }
            }
        } else {
            match self.containers[a].parent {
                Some(p) => {
                    self.act = p;
                    proof {
                        assert(container_wf(before, a as int));
                        assert(p < a);
                        lemma_focus_move_same_shape(cs0, self.containers@, idx0, p as int, direction, forward);
                    }
                    if self.change_focus(direction, forward) {
                        true
                    } else {
                        self.restore(old_act, &old_idx);
                        false
                    }
                },
                None => {
                    self.act = old_act;
                    false
                },
            }
        }
    }

    /// Moves the focus and reports whether it moved. When it moved, the new active widget
    /// takes the focus; when it did not, the layout is unchanged.
    pub fn move_focus(&mut self, direction: Direction, forward: bool) -> (r: bool)
        requires
            old(self).wf(),
        ensures
            final(self).wf(),
            same_shape(final(self).spec_containers(), old(self).spec_containers()),
            r ==> spec_accepts_focus(final(self).spec_active_widget()) && final(self).spec_focused(),
            !r ==> final(self).spec_act() == old(self).spec_act() && same_indices(
                final(self).spec_containers(),
                old(self).spec_containers(),
            ) && final(self).spec_focused() == old(self).spec_focused(),
            match focus_move_spec(old(self).spec_containers(), indices_of(old(self).spec_containers()), old(self).spec_act(), direction, forward) {
                Some((idx, a)) => r && indices_of(final(self).spec_containers()) == idx && final(self).spec_act() == a,
                None => !r,
            },
    {
        let ret = self.change_focus(direction, forward);
        let ghost mid = self.containers@;
        let ghost mid_act = self.act as int;
        self.actualize_layout();
        proof {
            if !ret {
                assert(container_wf(self.containers@, mid_act));
                assert(active_item(old(self).containers@, old(self).act as int) == active_item(
                    mid,
                    mid_act,
                ));
                assert(leaf(mid, mid_act) == mid_act);
            } else {
                assert(leaf(mid, mid_act) == mid_act);
            }
        }
        if ret {
            self.focused = true;
        }
        ret
    }

    /// Moves the focus to the left.
    pub fn left(&mut self) -> (r: bool)
        requires
            old(self).wf(),
        ensures
            final(self).wf(),
            same_shape(final(self).spec_containers(), old(self).spec_containers()),
            r ==> spec_accepts_focus(final(self).spec_active_widget()) && final(self).spec_focused(),
            !r ==> final(self).spec_act() == old(self).spec_act() && same_indices(
                final(self).spec_containers(),
                old(self).spec_containers(),
            ) && final(self).spec_focused() == old(self).spec_focused(),
            match focus_move_spec(old(self).spec_containers(), indices_of(old(self).spec_containers()), old(self).spec_act(), Direction::Horizontal, false) {
                Some((idx, a)) => r && indices_of(final(self).spec_containers()) == idx && final(self).spec_act() == a,
                None => !r,
            },
    {
        self.move_focus(Direction::Horizontal, false)
    }

    /// Moves the focus to the right.
    pub fn right(&mut self) -> (r: bool)
        requires
            old(self).wf(),
        ensures
            final(self).wf(),
            same_shape(final(self).spec_containers(), old(self).spec_containers()),
            r ==> spec_accepts_focus(final(self).spec_active_widget()) && final(self).spec_focused(),
            !r ==> final(self).spec_act() == old(self).spec_act() && same_indices(
                final(self).spec_containers(),
                old(self).spec_containers(),
            ) && final(self).spec_focused() == old(self).spec_focused(),
            match focus_move_spec(old(self).spec_containers(), indices_of(old(self).spec_containers()), old(self).spec_act(), Direction::Horizontal, true) {
                Some((idx, a)) => r && indices_of(final(self).spec_containers()) == idx && final(self).spec_act() == a,
                None => !r,
            },
    {
        self.move_focus(Direction::Horizontal, true)
    }

    /// Moves the focus upwards.
    pub fn up(&mut self) -> (r: bool)
        requires
            old(self).wf(),
        ensures
            final(self).wf(),
            same_shape(final(self).spec_containers(), old(self).spec_containers()),
            r ==> spec_accepts_focus(final(self).spec_active_widget()) && final(self).spec_focused(),
            !r ==> final(self).spec_act() == old(self).spec_act() && same_indices(
                final(self).spec_containers(),
                old(self).spec_containers(),
            ) && final(self).spec_focused() == old(self).spec_focused(),
            match focus_move_spec(old(self).spec_containers(), indices_of(old(self).spec_containers()), old(self).spec_act(), Direction::Vertical, false) {
                Some((idx, a)) => r && indices_of(final(self).spec_containers()) == idx && final(self).spec_act() == a,
                None => !r,
            },
    {
        self.move_focus(Direction::Vertical, false)
    }

    /// Moves the focus downwards.
    pub fn down(&mut self) -> (r: bool)
        requires
            old(self).wf(),
        ensures
            final(self).wf(),
            same_shape(final(self).spec_containers(), old(self).spec_containers()),
            r ==> spec_accepts_focus(final(self).spec_active_widget()) && final(self).spec_focused(),
            !r ==> final(self).spec_act() == old(self).spec_act() && same_indices(
                final(self).spec_containers(),
                old(self).spec_containers(),
            ) && final(self).spec_focused() == old(self).spec_focused(),
            match focus_move_spec(old(self).spec_containers(), indices_of(old(self).spec_containers()), old(self).spec_act(), Direction::Vertical, true) {
                Some((idx, a)) => r && indices_of(final(self).spec_containers()) == idx && final(self).spec_act() == a,
                None => !r,
            },
    {
        self.move_focus(Direction::Vertical, true)
    }

    /// Takes the focus away from the active widget.
    pub fn unfocus(&mut self)
        ensures
            final(self).spec_containers() == old(self).spec_containers(),
            final(self).spec_act() == old(self).spec_act(),
            !final(self).spec_focused(),
    {
        self.focused = false;
    }

    /// Gives the focus to the active widget, when it takes it; reports whether it did.
    pub fn focus(&mut self) -> (r: bool)
        requires
            old(self).wf(),
        ensures
            final(self).spec_containers() == old(self).spec_containers(),
            final(self).spec_act() == old(self).spec_act(),
            r == spec_accepts_focus(old(self).spec_active_widget()),
            final(self).spec_focused() == r,
    {
        let t = self.get_active_widget();
        self.focused = t.accepts_focus();
        self.focused
    }


    /// Points every ancestor of the active container at the child on the way to it, so that
    /// following active items from the root leads to the active container.
    fn actualize_parents(&mut self)
        requires
            old(self).wf(),
        ensures
            final(self).wf(),
            same_shape(final(self).spec_containers(), old(self).spec_containers()),
            final(self).spec_act() == old(self).spec_act(),
            final(self).spec_focused() == old(self).spec_focused(),
            final(self).spec_containers()[final(self).spec_act()].act_index == old(self).spec_containers()[old(self).spec_act()].act_index,
            leaf(final(self).spec_containers(), 0) == final(self).spec_act(),
    {
        let mut child = self.act;
        proof {
            assert(container_wf(self.containers@, child as int));
            assert(leaf(self.containers@, child as int) == child);
        }
        loop
            invariant
                containers_wf(self.containers@),
                same_shape(self.containers@, old(self).containers@),
                self.act == old(self).act,
                self.focused == old(self).focused,
                child <= self.act < self.containers@.len(),
                leaf(self.containers@, child as int) == self.act,
                self.containers@[self.act as int].act_index == old(self).containers@[self.act as int].act_index,
                active_item(self.containers@, self.act as int) is Widget,
            ensures
                child == 0,
                containers_wf(self.containers@),
                same_shape(self.containers@, old(self).containers@),
                self.act == old(self).act,
                self.focused == old(self).focused,
                self.act < self.containers@.len(),
                leaf(self.containers@, child as int) == self.act,
                self.containers@[self.act as int].act_index == old(self).containers@[self.act as int].act_index,
                active_item(self.containers@, self.act as int) is Widget,
            decreases child,
        {
            proof {
                assert(container_wf(self.containers@, child as int));
            }
            match self.containers[child].parent {
                None => {
                    proof {
                        assert(child == 0);
                    }
                    break;
                },
                Some(p) => {
                    proof {
                        assert(container_wf(self.containers@, p as int));
                    }
                    let ghost w = choose|k: int|
                        0 <= k < self.containers@[p as int].items@.len()
                            && #[trigger] self.containers@[p as int].items@[k] == Item::Cont(child);
                    let mut k: usize = 0;
                    while k < self.containers[p].items.len() && self.containers[p].items[k] != Item::Cont(child)
                        invariant
                            k <= self.containers@[p as int].items@.len(),
                            p < self.containers@.len(),
                            0 <= w < self.containers@[p as int].items@.len(),
                            self.containers@[p as int].items@[w] == Item::Cont(child),
                            forall|j: int| 0 <= j < k ==> self.containers@[p as int].items@[j] != Item::Cont(child),
                        decreases self.containers@[p as int].items@.len() - k,
                    {
                        k = k + 1;
                    }
                    proof {
                        if k >= self.containers@[p as int].items@.len() {
                            assert(self.containers@[p as int].items@[w] != Item::Cont(child));
                        }
                    }
                    let ghost before = self.containers@;
                    self.containers[p].act_index = k;
                    proof {
                        assert forall|c: int| 0 <= c < self.containers@.len() implies (#[trigger] self.containers@[c]).act_index < self.containers@[c].items@.len() by {
                            if c != p {
                                assert(self.containers@[c] == before[c]);
                                assert(container_wf(before, c));
                            }
                        }
                        assert(same_shape(before, self.containers@));
                        lemma_wf_same_shape(before, self.containers@);
                        assert forall|d: int| child <= d < self.containers@.len() implies (#[trigger] self.containers@[d]).items@ == before[d].items@ && self.containers@[d].act_index == before[d].act_index by {
                            assert(self.containers@[d] == before[d]);
                        }
                        lemma_leaf_suffix(self.containers@, before, child as int);
                        assert(active_item(self.containers@, p as int) == Item::Cont(child));
                        assert(leaf(self.containers@, p as int) == leaf(self.containers@, child as int));
                        assert(self.containers@[self.act as int] == before[self.act as int]);
                    }
                    child = p;
                },
            }
        }
    }

    /// Selects the first widget of type `widget_type` (in container order, then item order).
    /// Nothing changes when there is none, when it is already the active widget, or when it
    /// does not take the focus; otherwise it becomes the active, focused widget and every
    /// container on the way from the root points towards it.
    pub fn select_widget(&mut self, widget_type: WidgetType)
        requires
            old(self).wf(),
        ensures
            final(self).wf(),
            same_shape(final(self).spec_containers(), old(self).spec_containers()),
            has_no_widget(old(self).spec_containers(), widget_type) ==> final(self).spec_act() == old(self).spec_act()
                && same_indices(final(self).spec_containers(), old(self).spec_containers())
                && final(self).spec_focused() == old(self).spec_focused(),
            forall|c: int, k: int| #[trigger] is_first_widget(old(self).spec_containers(), widget_type, c, k) ==> {
                if (c == old(self).spec_act() && k == old(self).spec_containers()[c].act_index) || !spec_accepts_focus(widget_type) {
                    &&& final(self).spec_act() == old(self).spec_act()
                    &&& same_indices(final(self).spec_containers(), old(self).spec_containers())
                    &&& final(self).spec_focused() == old(self).spec_focused()
                } else {
                    &&& final(self).spec_act() == c
                    &&& final(self).spec_containers()[c].act_index == k
                    &&& final(self).spec_focused()
                    &&& leaf(final(self).spec_containers(), 0) == c
                }
            },
    {
        let n = self.containers.len();
        let mut found: Option<(usize, usize)> = None;
        let mut c: usize = 0;
        while c < n && found.is_none()
            invariant
                n == self.containers@.len(),
                c <= n,
                self == old(self),
                found matches Some((fc, fk)) ==> is_first_widget(self.containers@, widget_type, fc as int, fk as int),
                found is None ==> forall|d: int, j: int| 0 <= d < c && 0 <= j < self.containers@[d].items@.len() ==> #[trigger] self.containers@[d].items@[j] != Item::Widget(widget_type),
            decreases n - c, (if found is None { 1int } else { 0int }),
        {
            let m = self.containers[c].items.len();
            let mut k: usize = 0;
            while k < m && found.is_none()
                invariant
                    n == self.containers@.len(),
                    c < n,
                    m == self.containers@[c as int].items@.len(),
                    k <= m,
                    self == old(self),
                    found matches Some((fc, fk)) ==> is_first_widget(self.containers@, widget_type, fc as int, fk as int),
                    found is None ==> forall|d: int, j: int| 0 <= d < self.containers@.len() && 0 <= j < self.containers@[d].items@.len() && (d < c || (d == c && j < k)) ==> #[trigger] self.containers@[d].items@[j] != Item::Widget(widget_type),
                decreases m - k, (if found is None { 1int } else { 0int }),
            {
                if self.containers[c].items[k] == Item::Widget(widget_type) {
                    found = Some((c, k));
                } else {
                    k = k + 1;
                }
            }
            if found.is_none() {
                c = c + 1;
            }
        }
        match found {
            None => {},
            Some((fc, fk)) => {
                proof {
                    assert(container_wf(self.containers@, self.act as int));
                    assert(container_wf(self.containers@, fc as int));
                }
                if (fc == self.act && fk == self.containers[self.act].act_index) || !widget_type.accepts_focus() {
                } else {
                    self.act = fc;
                    let ghost before = self.containers@;
                    self.containers[fc].act_index = fk;
                    proof {
                        assert forall|d: int| 0 <= d < self.containers@.len() implies (#[trigger] self.containers@[d]).act_index < self.containers@[d].items@.len() by {
                            if d != fc {
                                assert(self.containers@[d] == before[d]);
                                assert(container_wf(before, d));
                            }
                        }
                        assert(same_shape(before, self.containers@));
                        lemma_wf_same_shape(before, self.containers@);
                        assert(active_item(self.containers@, fc as int) == Item::Widget(widget_type));
                    }
                    self.focused = true;
                    self.actualize_parents();
                }
            },
        }
        proof {
            if found is None {
                assert(has_no_widget(old(self).containers@, widget_type));
            }
            assert forall|c: int, k: int| #[trigger] is_first_widget(old(self).spec_containers(), widget_type, c, k) implies found == Some((c as usize, k as usize)) by {
                if let Some((fc, fk)) = found {
                    if fc < c || (fc == c && fk < k) {
                    } else if c < fc || (c == fc && k < fk) {
                    }
                } else {
                    assert(old(self).containers@[c].items@[k] == Item::Widget(widget_type));
                }
            }
        }
    }

}

} // verus!
