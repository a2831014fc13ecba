use vstd::prelude::*;
use crate::ui_event::UIEvent;

verus! {

/// The media keys of a keyboard.
#[derive(PartialEq, Eq, Structural, Debug, Copy, Clone)]
pub enum MediaKeyCodeDef {
    Play,
    Pause,
    PlayPause,
    Reverse,
    Stop,
    FastForward,
    Rewind,
    TrackNext,
    TrackPrevious,
    Record,
    LowerVolume,
    RaiseVolume,
    MuteVolume,
}

/// The modifier keys of a keyboard, pressed on their own.
#[derive(PartialEq, Eq, Structural, Debug, Copy, Clone)]
pub enum ModifierKeyCodeDef {
    LeftShift,
    LeftControl,
    LeftAlt,
    LeftSuper,
    LeftHyper,
    LeftMeta,
    RightShift,
    RightControl,
    RightAlt,
    RightSuper,
    RightHyper,
    RightMeta,
    IsoLevel3Shift,
    IsoLevel5Shift,
}

/// A key of a keyboard.
#[derive(PartialEq, Eq, Structural, Debug, Copy, Clone)]
pub enum KeyCodeDef {
    Backspace,
    Enter,
    Left,
    Right,
    Up,
    Down,
    Home,
    End,
    PageUp,
    PageDown,
    Tab,
    BackTab,
    Delete,
    Insert,
    F(u8),
    Char(char),
    Null,
    Esc,
    CapsLock,
    ScrollLock,
    NumLock,
    PrintScreen,
    Pause,
    Menu,
    KeypadBegin,
    Media(MediaKeyCodeDef),
    Modifier(ModifierKeyCodeDef),
}

/// The bit of the Shift key among the modifiers of a shortcut.
pub const SHIFT: u8 = 1;

/// The bit of the Control key among the modifiers of a shortcut.
pub const CONTROL: u8 = 2;

/// The bit of the Alt key among the modifiers of a shortcut.
pub const ALT: u8 = 4;

/// A key pressed with a set of modifier keys (one bit each).
#[derive(PartialEq, Eq, Structural, Debug, Copy, Clone)]
pub struct KeyShortcut {
    pub code: KeyCodeDef,
    pub modifiers: u8,
}

impl KeyShortcut {
    /// A key pressed with the given modifiers.
    pub fn new(code: KeyCodeDef, modifiers: u8) -> (k: KeyShortcut)
        ensures
            k.code == code,
            k.modifiers == modifiers,
    {
        KeyShortcut { code, modifiers }
    }

    /// A key pressed on its own.
    pub fn key(code: KeyCodeDef) -> (k: KeyShortcut)
        ensures
            k.code == code,
            k.modifiers == 0,
    {
        KeyShortcut { code, modifiers: 0 }
    }
}

/// The event that key bindings give a shortcut: that of its last binding, or `NoEvent`
/// when it has none.
pub open spec fn bound_event(bindings: Seq<(KeyShortcut, UIEvent)>, key: KeyShortcut) -> UIEvent
    decreases bindings.len(),
{
    if bindings.len() == 0 {
        UIEvent::NoEvent
    } else if bindings.last().0 == key {
        bindings.last().1
    } else {
        bound_event(bindings.drop_last(), key)
    }
}

/// Key bindings: shortcuts and the events they give, a later binding of a shortcut
/// replacing an earlier one.
#[derive(Debug)]
pub struct EventHandlerUI {
    pub events: Vec<(KeyShortcut, UIEvent)>,
}

impl EventHandlerUI {
    /// Bindings with the given shortcuts and events, in order.
    pub fn new(events: Vec<(KeyShortcut, UIEvent)>) -> (h: EventHandlerUI)
        ensures
            h.events@ == events@,
    {
        EventHandlerUI { events }
    }

    /// No bindings.
    pub fn empty() -> (h: EventHandlerUI)
        ensures
            h.events@.len() == 0,
    {
        EventHandlerUI { events: Vec::new() }
    }

    /// The event that a shortcut gives (see `bound_event`).
    pub fn get_event(&self, key: KeyShortcut) -> (e: UIEvent)
        ensures
            e == bound_event(self.events@, key),
    {
        let mut i = self.events.len();
        assert(self.events@.take(i as int) =~= self.events@);
        while i > 0
            invariant
                i <= self.events@.len(),
                bound_event(self.events@, key) == bound_event(self.events@.take(i as int), key),
            decreases i,
        {
            let ghost t = self.events@.take(i as int);
            assert(t.drop_last() =~= self.events@.take(i - 1));
            if self.events[i - 1].0 == key {
                return self.events[i - 1].1;
            }
            i = i - 1;
        }
        UIEvent::NoEvent
    }

    /// A copy of the bindings.
    pub fn copy(&self) -> (h: EventHandlerUI)
        ensures
            h.events@ == self.events@,
    {
        let mut v: Vec<(KeyShortcut, UIEvent)> = Vec::new();
        let mut i: usize = 0;
        while i < self.events.len()
            invariant
                i <= self.events@.len(),
                v@ == self.events@.take(i as int),
            decreases self.events@.len() - i,
        {
            v.push(self.events[i]);
            i = i + 1;
            assert(v@ =~= self.events@.take(i as int));
        }
        assert(self.events@.take(self.events@.len() as int) =~= self.events@);
        EventHandlerUI { events: v }
    }
}

/// The default bindings of the task lists.
pub open spec fn default_tasks_bindings() -> Seq<(KeyShortcut, UIEvent)> {
    seq![
        (KeyShortcut { code: KeyCodeDef::Char('u'), modifiers: SHIFT }, UIEvent::SwapUpItem),
        (KeyShortcut { code: KeyCodeDef::Char('d'), modifiers: SHIFT }, UIEvent::SwapDownItem),
        (KeyShortcut { code: KeyCodeDef::Char('x'), modifiers: 0 }, UIEvent::RemoveItem),
        (KeyShortcut { code: KeyCodeDef::Char('d'), modifiers: 0 }, UIEvent::MoveItem),
        (KeyShortcut { code: KeyCodeDef::Enter, modifiers: 0 }, UIEvent::Select),
        (KeyShortcut { code: KeyCodeDef::Char('n'), modifiers: 0 }, UIEvent::NextSearch),
        (KeyShortcut { code: KeyCodeDef::Char('n'), modifiers: SHIFT }, UIEvent::PrevSearch),
    ]
}

/// The default bindings of the category lists.
pub open spec fn default_category_bindings() -> Seq<(KeyShortcut, UIEvent)> {
    seq![
        (KeyShortcut { code: KeyCodeDef::Enter, modifiers: 0 }, UIEvent::Select),
        (KeyShortcut { code: KeyCodeDef::Backspace, modifiers: 0 }, UIEvent::Remove),
        (KeyShortcut { code: KeyCodeDef::Char('n'), modifiers: 0 }, UIEvent::NextSearch),
        (KeyShortcut { code: KeyCodeDef::Char('n'), modifiers: SHIFT }, UIEvent::PrevSearch),
    ]
}

/// The default bindings of the task lists (see `default_tasks_bindings`).
pub fn default_tasks_keybind() -> (h: EventHandlerUI)
    ensures
        h.events@ == default_tasks_bindings(),
{
    let v = vec![
        (KeyShortcut::new(KeyCodeDef::Char('u'), SHIFT), UIEvent::SwapUpItem),
        (KeyShortcut::new(KeyCodeDef::Char('d'), SHIFT), UIEvent::SwapDownItem),
        (KeyShortcut::key(KeyCodeDef::Char('x')), UIEvent::RemoveItem),
        (KeyShortcut::key(KeyCodeDef::Char('d')), UIEvent::MoveItem),
        (KeyShortcut::key(KeyCodeDef::Enter), UIEvent::Select),
        (KeyShortcut::key(KeyCodeDef::Char('n')), UIEvent::NextSearch),
        (KeyShortcut::new(KeyCodeDef::Char('n'), SHIFT), UIEvent::PrevSearch),
    ];
    assert(v@ =~= default_tasks_bindings());
    EventHandlerUI::new(v)
}

/// The default bindings of the category lists (see `default_category_bindings`).
pub fn default_category_keybind() -> (h: EventHandlerUI)
    ensures
        h.events@ == default_category_bindings(),
{
    let v = vec![
        (KeyShortcut::key(KeyCodeDef::Enter), UIEvent::Select),
        (KeyShortcut::key(KeyCodeDef::Backspace), UIEvent::Remove),
        (KeyShortcut::key(KeyCodeDef::Char('n')), UIEvent::NextSearch),
        (KeyShortcut::new(KeyCodeDef::Char('n'), SHIFT), UIEvent::PrevSearch),
    ];
    assert(v@ =~= default_category_bindings());
    EventHandlerUI::new(v)
}

/// The default bindings of the window: `q` quits, `S` saves, `u` loads, `H`, `L`, `K` and `J`
/// move to the widget on the left, right, above and below, `I` and `E` insert and edit a task,
/// and `/` searches.
pub open spec fn default_window_bindings() -> Seq<(KeyShortcut, UIEvent)> {
    seq![
        (KeyShortcut { code: KeyCodeDef::Char('q'), modifiers: 0 }, UIEvent::Quit),
        (KeyShortcut { code: KeyCodeDef::Char('s'), modifiers: SHIFT }, UIEvent::Save),
        (KeyShortcut { code: KeyCodeDef::Char('u'), modifiers: 0 }, UIEvent::Load),
        (KeyShortcut { code: KeyCodeDef::Char('h'), modifiers: SHIFT }, UIEvent::MoveLeft),
        (KeyShortcut { code: KeyCodeDef::Char('l'), modifiers: SHIFT }, UIEvent::MoveRight),
        (KeyShortcut { code: KeyCodeDef::Char('k'), modifiers: SHIFT }, UIEvent::MoveUp),
        (KeyShortcut { code: KeyCodeDef::Char('j'), modifiers: SHIFT }, UIEvent::MoveDown),
        (KeyShortcut { code: KeyCodeDef::Char('i'), modifiers: SHIFT }, UIEvent::InsertMode),
        (KeyShortcut { code: KeyCodeDef::Char('e'), modifiers: SHIFT }, UIEvent::EditMode),
        (KeyShortcut { code: KeyCodeDef::Char('/'), modifiers: 0 }, UIEvent::SearchMode),
    ]
}

/// The default bindings of the lists: `j` and `k` move down and up, `g` and `G` go to the
/// first and the last item, and `h` clears the search.
pub open spec fn default_list_bindings() -> Seq<(KeyShortcut, UIEvent)> {
    seq![
        (KeyShortcut { code: KeyCodeDef::Char('j'), modifiers: 0 }, UIEvent::ListDown),
        (KeyShortcut { code: KeyCodeDef::Char('k'), modifiers: 0 }, UIEvent::ListUp),
        (KeyShortcut { code: KeyCodeDef::Char('g'), modifiers: 0 }, UIEvent::ListFirst),
        (KeyShortcut { code: KeyCodeDef::Char('g'), modifiers: SHIFT }, UIEvent::ListLast),
        (KeyShortcut { code: KeyCodeDef::Char('h'), modifiers: 0 }, UIEvent::CleanSearch),
    ]
}

/// The default bindings of the window (see `default_window_bindings`).
pub fn default_window_keybind() -> (h: EventHandlerUI)
    ensures
        h.events@ == default_window_bindings(),
{
    let v = vec![
        (KeyShortcut::key(KeyCodeDef::Char('q')), UIEvent::Quit),
        (KeyShortcut::new(KeyCodeDef::Char('s'), SHIFT), UIEvent::Save),
        (KeyShortcut::key(KeyCodeDef::Char('u')), UIEvent::Load),
        (KeyShortcut::new(KeyCodeDef::Char('h'), SHIFT), UIEvent::MoveLeft),
        (KeyShortcut::new(KeyCodeDef::Char('l'), SHIFT), UIEvent::MoveRight),
        (KeyShortcut::new(KeyCodeDef::Char('k'), SHIFT), UIEvent::MoveUp),
        (KeyShortcut::new(KeyCodeDef::Char('j'), SHIFT), UIEvent::MoveDown),
        (KeyShortcut::new(KeyCodeDef::Char('i'), SHIFT), UIEvent::InsertMode),
        (KeyShortcut::new(KeyCodeDef::Char('e'), SHIFT), UIEvent::EditMode),
        (KeyShortcut::key(KeyCodeDef::Char('/')), UIEvent::SearchMode),
    ];
    assert(v@ =~= default_window_bindings());
    EventHandlerUI::new(v)
}

/// The default bindings of the lists (see `default_list_bindings`).
pub fn default_list_keybind() -> (h: EventHandlerUI)
    ensures
        h.events@ == default_list_bindings(),
{
    let v = vec![
        (KeyShortcut::key(KeyCodeDef::Char('j')), UIEvent::ListDown),
        (KeyShortcut::key(KeyCodeDef::Char('k')), UIEvent::ListUp),
        (KeyShortcut::key(KeyCodeDef::Char('g')), UIEvent::ListFirst),
        (KeyShortcut::new(KeyCodeDef::Char('g'), SHIFT), UIEvent::ListLast),
        (KeyShortcut::key(KeyCodeDef::Char('h')), UIEvent::CleanSearch),
    ];
    assert(v@ =~= default_list_bindings());
    EventHandlerUI::new(v)
}

} // verus!
