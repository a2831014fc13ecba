use vstd::prelude::*;

verus! {

/// How the finish date is set when a task is completed.
#[derive(PartialEq, Eq, Structural, Debug, Copy, Clone)]
pub enum SetFinalDateType {
    Override,
    OnlyMissing,
    Never,
}

impl Default for SetFinalDateType {
    fn default() -> (r: Self)
        ensures
            r == SetFinalDateType::OnlyMissing,
    {
        SetFinalDateType::OnlyMissing
    }
}

/// The possible orders of the task lists.
#[derive(PartialEq, Eq, Structural, Debug, Copy, Clone)]
pub enum TaskSort {
    NoSort,
    Reverse,
    Priority,
    Alphanumeric,
    AlphanumericReverse,
}

impl Default for TaskSort {
    fn default() -> (r: Self)
        ensures
            r == TaskSort::NoSort,
    {
        TaskSort::NoSort
    }
}

/// When the task files are saved.
#[derive(PartialEq, Eq, Structural, Debug, Copy, Clone)]
pub enum SavePolicy {
    ManualOnly,
    AutoSave,
    OnChange,
}

impl Default for SavePolicy {
    fn default() -> (r: Self)
        ensures
            r == SavePolicy::AutoSave,
    {
        SavePolicy::AutoSave
    }
}

/// How pasted text is handled.
#[derive(PartialEq, Eq, Structural, Debug, Copy, Clone)]
pub enum PasteBehavior {
    AsKeys,
    Insert,
    Nothing,
}

impl Default for PasteBehavior {
    fn default() -> (r: Self)
        ensures
            r == PasteBehavior::Insert,
    {
        PasteBehavior::Insert
    }
}

/// Text modifiers of a style.
#[derive(PartialEq, Eq, Structural, Debug, Copy, Clone)]
pub enum TextModifier {
    Bold,
    Italic,
    Underlined,
}

/// The border drawn around widgets.
#[derive(PartialEq, Eq, Structural, Debug, Copy, Clone)]
pub enum WidgetBorderType {
    Plain,
    Rounded,
    Double,
    Thick,
}

impl Default for WidgetBorderType {
    fn default() -> (r: Self)
        ensures
            r == WidgetBorderType::Rounded,
    {
        WidgetBorderType::Rounded
    }
}

} // verus!
