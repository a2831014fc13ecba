use vstd::prelude::*;
use crate::error::ToDoError;
use crate::layout::{Container, Item};
use crate::widget_type::WidgetType;

verus! {

/// A value together with the index of the container that holds it.
#[derive(Debug)]
pub struct Holder<T> {
    pub data: T,
    pub parent: usize,
}

impl<T> Holder<T> {
    pub fn new(data: T, parent: usize) -> (h: Holder<T>)
        ensures
            h.data == data,
            h.parent == parent,
    {
        Holder { data, parent }
    }
}

/// An item placed in a container: a nested container, or a widget that knows its container.
#[derive(Debug)]
pub enum IItem {
    Container(usize),
    Widget(Holder<WidgetType>),
}

impl IItem {
    /// Places an item in container `parent`: a widget is held with its parent; a nested
    /// container records `parent` as its own parent.
    pub fn new(item: Item, parent: usize, containers: &mut Vec<Container>) -> (r: IItem)
        requires
            item matches Item::Cont(c) ==> c < old(containers)@.len(),
        ensures
            final(containers)@.len() == old(containers)@.len(),
            match item {
                Item::Widget(w) => r matches IItem::Widget(h) && h.data == w && h.parent == parent
                    && final(containers)@ == old(containers)@,
                Item::Cont(c) => {
                    &&& r == IItem::Container(c)
                    &&& final(containers)@[c as int].parent == Some(parent)
                    &&& final(containers)@[c as int].items == old(containers)@[c as int].items
                    &&& final(containers)@[c as int].direction == old(containers)@[c as int].direction
                    &&& final(containers)@[c as int].constraints == old(containers)@[c as int].constraints
                    &&& final(containers)@[c as int].act_index == old(containers)@[c as int].act_index
                    &&& forall|j: int| 0 <= j < final(containers)@.len() && j != c ==> final(containers)@[j] == old(containers)@[j]
                },
            },
    {
        match item {
            Item::Widget(w) => IItem::Widget(Holder::new(w, parent)),
            Item::Cont(c) => {
                containers[c].parent = Some(parent);
                IItem::Container(c)
            },
        }
    }

    /// The widget, when the item is one.
    pub fn actual(&self) -> (r: Result<&WidgetType, ToDoError>)
        ensures
            match self {
                IItem::Widget(h) => r matches Ok(w) && *w == h.data,
                IItem::Container(_) => r matches Err(ToDoError::ActiveIsNotWidget),
            },
    {
        match self {
            IItem::Widget(h) => Ok(&h.data),
            IItem::Container(_) => Err(ToDoError::ActiveIsNotWidget),
        }
    }

    /// The widget, to change, when the item is one.
    pub fn actual_mut(&mut self) -> (r: Result<&mut WidgetType, ToDoError>)
        ensures
            match *old(self) {
                IItem::Widget(h) => r matches Ok(w) && *w == h.data && *final(self) == IItem::Widget(
                    Holder { data: *final(w), parent: h.parent },
                ),
                IItem::Container(c) => r matches Err(ToDoError::ActiveIsNotWidget) && *final(self) == IItem::Container(c),
            },
    {
        match self {
            IItem::Widget(h) => Ok(&mut h.data),
            IItem::Container(_) => Err(ToDoError::ActiveIsNotWidget),
        }
    }
}

} // verus!
