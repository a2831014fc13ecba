use vstd::prelude::*;
use crate::keys::{default_list_bindings, default_list_keybind, default_window_bindings, default_window_keybind, EventHandlerUI};
use crate::options::{PasteBehavior, TaskSort};
use crate::text::to_string;
use crate::widget_type::WidgetType;

verus! {

/// The levels of the log.
#[derive(PartialEq, Eq, Structural, Debug, Copy, Clone)]
pub enum LogLevel {
    Off,
    Error,
    Warn,
    Info,
    Debug,
    Trace,
}

/// The widget that is active at start.
pub fn default_init_widget() -> (w: WidgetType)
    ensures
        w == WidgetType::List,
{
    WidgetType::List
}

/// The title of the window.
pub fn default_window_title() -> (s: String)
    ensures
        s@ == "ToDo tui"@,
{
    to_string("ToDo tui")
}

/// Whether the preview wraps long lines.
pub fn default_wrap_preview() -> (b: bool)
    ensures
        b,
{
    true
}

/// The interval between automatic saves, in seconds.
pub fn default_autosave_duration() -> (d: u64)
    ensures
        d == 900,
{
    900
}

/// The file of the log.
pub fn default_log_file() -> (s: String)
    ensures
        s@ == "log.log"@,
{
    to_string("log.log")
}

/// The pattern of the log's lines.
pub fn default_log_format() -> (s: String)
    ensures
        s@ == "{d} [{h({l})}] {M}: {m}{n}"@,
{
    to_string("{d} [{h({l})}] {M}: {m}{n}")
}

/// The level of the log.
pub fn default_log_level() -> (l: LogLevel)
    ensures
        l == LogLevel::Info,
{
    LogLevel::Info
}

/// Whether the task files are watched.
pub fn default_file_watcher() -> (b: bool)
    ensures
        b,
{
    true
}

/// The interval between refreshes of the lists, in seconds.
pub fn default_list_refresh_rate() -> (d: u64)
    ensures
        d == 5,
{
    5
}

/// How many rows a list keeps between the cursor and its edges while scrolling.
pub fn default_list_shift() -> (n: usize)
    ensures
        n == 4,
{
    4
}

/// The order of the pending list: none.
pub fn default_pending_sort() -> (s: TaskSort)
    ensures
        s == TaskSort::NoSort,
{
    TaskSort::NoSort
}

/// The order of the done list: none.
pub fn default_done_sort() -> (s: TaskSort)
    ensures
        s == TaskSort::NoSort,
{
    TaskSort::NoSort
}

/// Whether the categories of done tasks are listed.
pub fn default_use_done() -> (b: bool)
    ensures
        !b,
{
    false
}

/// Whether a task reopened from the done list loses its finish date.
pub fn default_delete_final_date() -> (b: bool)
    ensures
        b,
{
    true
}

/// The format of the preview, after an empty first line.
pub fn default_preview_format() -> (s: String)
    ensures
        s@ == "\nPending: $pending Done: $done\nSubject: $subject\nPriority: $priority\nCreate date: $create_date\nLink: $link"@,
{
    to_string("\nPending: $pending Done: $done\nSubject: $subject\nPriority: $priority\nCreate date: $create_date\nLink: $link")
}

/// The format of the preview.
pub fn default_preview_foramt() -> (s: String)
    ensures
        s@ == "Pending: $pending Done: $done\nSubject: $subject\nPriority: $priority\nCreate date: $create_date\nLink: $link"@,
{
    to_string("Pending: $pending Done: $done\nSubject: $subject\nPriority: $priority\nCreate date: $create_date\nLink: $link")
}

/// The default layout: the pending list over the preview on the left; the done list over the
/// contexts and projects on the right.
pub fn default_layout() -> (s: String)
    ensures
        s@ == "\n[\n    Direction: Horizontal,\n    Size: 50%,\n    [\n        List: 50%,\n        Preview,\n    ],\n    [ Direction: Vertical,\n      Done,\n      [ \n        Contexts,\n        Projects,\n      ],\n    ],\n]\n"@,
{
    to_string("\n[\n    Direction: Horizontal,\n    Size: 50%,\n    [\n        List: 50%,\n        Preview,\n    ],\n    [ Direction: Vertical,\n      Done,\n      [ \n        Contexts,\n        Projects,\n      ],\n    ],\n]\n")
}

/// Where and how the log is written.
#[derive(Debug)]
pub struct Logger {
    pub file: String,
    pub format: String,
    pub level: LogLevel,
}

impl Logger {
    /// The default log: `log.log`, the default pattern, at level `Info`.
    pub fn default_logger() -> (l: Logger)
        ensures
            l.file@ == "log.log"@,
            l.format@ == "{d} [{h({l})}] {M}: {m}{n}"@,
            l.level == LogLevel::Info,
    {
        Logger { file: default_log_file(), format: default_log_format(), level: default_log_level() }
    }
}

/// How the preview is shown.
#[derive(Debug)]
pub struct PreviewConfig {
    pub preview_format: String,
    pub wrap_preview: bool,
}

impl PreviewConfig {
    /// The default preview: the default format, wrapping long lines.
    pub fn default_config() -> (c: PreviewConfig)
        ensures
            c.preview_format@ == "Pending: $pending Done: $done\nSubject: $subject\nPriority: $priority\nCreate date: $create_date\nLink: $link"@,
            c.wrap_preview,
    {
        PreviewConfig { preview_format: default_preview_foramt(), wrap_preview: default_wrap_preview() }
    }
}

/// How the lists are shown.
#[derive(Debug)]
pub struct ListConfig {
    pub list_shift: usize,
    pub pending_format: String,
    pub done_format: String,
    /// The key bindings of the lists.
    pub list_keybind: EventHandlerUI,
}

impl ListConfig {
    /// The default lists: a shift of four rows, each task by its subject in its priority's
    /// style, and the default list bindings (see `default_list_bindings`).
    pub fn default_config() -> (c: ListConfig)
        ensures
            c.list_shift == 4,
            c.pending_format@ == "[$subject](! priority)"@,
            c.done_format@ == "[$subject](! priority)"@,
            c.list_keybind.events@ == default_list_bindings(),
    {
        ListConfig {
            list_shift: default_list_shift(),
            pending_format: to_string("[$subject](! priority)"),
            done_format: to_string("[$subject](! priority)"),
            list_keybind: default_list_keybind(),
        }
    }
}

/// The window and its layout.
#[derive(Debug)]
pub struct UiConfig {
    pub init_widget: WidgetType,
    pub window_title: String,
    /// The key bindings of the window.
    pub window_keybinds: EventHandlerUI,
    /// The interval between refreshes of the lists, in seconds.
    pub list_refresh_rate: u64,
    pub save_state_path: Option<String>,
    pub layout: String,
    /// How pasted text is taken.
    pub paste_behavior: PasteBehavior,
    /// Whether the mouse is used.
    pub enable_mouse: bool,
}

impl UiConfig {
    /// The default window: the pending list active, the default title and window bindings
    /// (see `default_window_bindings`), a refresh every five seconds, the pending list and
    /// preview on the left and the done list over the contexts and projects on the right,
    /// pasted text inserted, and the mouse on.
    pub fn default_config() -> (c: UiConfig)
        ensures
            c.init_widget == WidgetType::List,
            c.window_title@ == "ToDo tui"@,
            c.window_keybinds.events@ == default_window_bindings(),
            c.list_refresh_rate == 5,
            c.save_state_path is None,
            c.layout@ == "[  Direction: Horizontal,  Size: 50%,  [    List: 80%, Preview: 20%,  ],  [    Direction: Vertical,    Done: 60%,    [      Contexts: 50%,      Projects: 50%,    ],  ],]"@,
            c.paste_behavior == PasteBehavior::Insert,
            c.enable_mouse,
    {
        UiConfig {
            init_widget: default_init_widget(),
            window_title: default_window_title(),
            window_keybinds: default_window_keybind(),
            list_refresh_rate: default_list_refresh_rate(),
            save_state_path: None,
            layout: to_string("[  Direction: Horizontal,  Size: 50%,  [    List: 80%, Preview: 20%,  ],  [    Direction: Vertical,    Done: 60%,    [      Contexts: 50%,      Projects: 50%,    ],  ],]"),
            paste_behavior: PasteBehavior::Insert,
            enable_mouse: true,
        }
    }
}

} // verus!
