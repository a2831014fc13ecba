use vstd::prelude::*;

verus! {

/// The events that key bindings map to.
#[derive(PartialEq, Eq, Structural, Debug, Copy, Clone)]
pub enum UIEvent {
    NoEvent,
    Quit,
    Save,
    Load,
    MoveLeft,
    MoveRight,
    MoveUp,
    MoveDown,
    InsertMode,
    EditMode,
    SearchMode,
    ListDown,
    ListUp,
    ListFirst,
    ListLast,
    CleanSearch,
    SwapUpItem,
    SwapDownItem,
    RemoveItem,
    MoveItem,
    Select,
    Remove,
    NextSearch,
    PrevSearch,
}

} // verus!
