use vstd::prelude::*;
use crate::config::{HookPaths, ToDoConfig};
use crate::defaults::{ListConfig, PreviewConfig, UiConfig};
use crate::file_worker::{default_todo_path_text, FileWorkerConfig};
use crate::keys::{default_category_bindings, default_category_keybind, default_tasks_bindings, default_tasks_keybind, EventHandlerUI};
use crate::options::{PasteBehavior, SavePolicy, SetFinalDateType, TaskSort, WidgetBorderType};
use crate::style::{ActiveColorConfig, Color, CustomCategoryStyle, Styles, TextStyle, TextStyleList};
use crate::widget_type::WidgetType;

verus! {

/// The key bindings and the border of the widgets.
#[derive(Debug)]
pub struct WidgetBaseConfig {
    /// The bindings of the task lists.
    pub tasks_keybind: EventHandlerUI,
    /// The bindings of the category lists.
    pub category_keybind: EventHandlerUI,
    pub border_type: WidgetBorderType,
}

impl WidgetBaseConfig {
    /// The default bindings (see `default_tasks_bindings` and `default_category_bindings`)
    /// and rounded borders.
    pub fn default_config() -> (c: WidgetBaseConfig)
        ensures
            c.tasks_keybind.events@ == default_tasks_bindings(),
            c.category_keybind.events@ == default_category_bindings(),
            c.border_type == WidgetBorderType::Rounded,
    {
        WidgetBaseConfig {
            tasks_keybind: default_tasks_keybind(),
            category_keybind: default_category_keybind(),
            border_type: WidgetBorderType::Rounded,
        }
    }
}

/// The whole configuration.
#[derive(Debug)]
pub struct Config {
    pub ui_config: UiConfig,
    pub todo_config: ToDoConfig,
    pub file_worker_config: FileWorkerConfig,
    pub widget_base_config: WidgetBaseConfig,
    pub list_config: ListConfig,
    pub preview_config: PreviewConfig,
    pub active_color_config: ActiveColorConfig,
    pub styles: Styles,
    pub hook_paths: HookPaths,
}

impl Config {
    /// The default configuration, given the home directory if it is known (see each part's
    /// default).
    pub fn default_with_home(home: Option<&str>) -> (c: Config)
        ensures
            c.file_worker_config.todo_path@ == default_todo_path_text(match home {
                Some(h) => Some(h@),
                None => None,
            }),
            c.ui_config.init_widget == WidgetType::List,
            c.list_config.list_shift == 4,
            c.preview_config.wrap_preview,
            c.todo_config.set_final_date == SetFinalDateType::OnlyMissing,
            c.widget_base_config.tasks_keybind.events@ == default_tasks_bindings(),
            c.widget_base_config.category_keybind.events@ == default_category_bindings(),
            c.widget_base_config.border_type == WidgetBorderType::Rounded,
            c.styles.active_color == Color::Red,
    {
        Config {
            ui_config: UiConfig::default_config(),
            todo_config: ToDoConfig::default(),
            file_worker_config: FileWorkerConfig::default_with_home(home),
            widget_base_config: WidgetBaseConfig::default_config(),
            list_config: ListConfig::default_config(),
            preview_config: PreviewConfig::default_config(),
            active_color_config: ActiveColorConfig::default(),
            styles: Styles::default_styles(),
            hook_paths: HookPaths::default(),
        }
    }
}

/// A layer of settings of the todo lists (`ToDoConfig`): each one set or left unset.
#[derive(Debug)]
pub struct ToDoConfigOption {
    pub use_done: Option<bool>,
    pub pending_sort: Option<TaskSort>,
    pub done_sort: Option<TaskSort>,
    pub delete_final_date: Option<bool>,
    pub set_final_date: Option<SetFinalDateType>,
}

impl ToDoConfigOption {
    /// The layer that sets nothing.
    pub open spec fn nothing() -> ToDoConfigOption {
        ToDoConfigOption {
            use_done: None,
            pending_sort: None,
            done_sort: None,
            delete_final_date: None,
            set_final_date: None,
        }
    }

    /// The layer that sets every setting to that of `c`.
    pub open spec fn of(c: ToDoConfig) -> ToDoConfigOption {
        ToDoConfigOption {
            use_done: Some(c.use_done),
            pending_sort: Some(c.pending_sort),
            done_sort: Some(c.done_sort),
            delete_final_date: Some(c.delete_final_date),
            set_final_date: Some(c.set_final_date),
        }
    }

    /// The layer that sets every setting to that of `c` (see `of`).
    pub fn from_config(c: ToDoConfig) -> (o: ToDoConfigOption)
        ensures
            o == ToDoConfigOption::of(c),
    {
        ToDoConfigOption {
            use_done: Some(c.use_done),
            pending_sort: Some(c.pending_sort),
            done_sort: Some(c.done_sort),
            delete_final_date: Some(c.delete_final_date),
            set_final_date: Some(c.set_final_date),
        }
    }

    /// The settings of `base`, each replaced by this layer's where this layer sets it.
    pub open spec fn merged(self, base: ToDoConfig) -> ToDoConfig {
        ToDoConfig {
            use_done: match self.use_done {
                Some(v) => v,
                None => base.use_done,
            },
            pending_sort: match self.pending_sort {
                Some(v) => v,
                None => base.pending_sort,
            },
            done_sort: match self.done_sort {
                Some(v) => v,
                None => base.done_sort,
            },
            delete_final_date: match self.delete_final_date {
                Some(v) => v,
                None => base.delete_final_date,
            },
            set_final_date: match self.set_final_date {
                Some(v) => v,
                None => base.set_final_date,
            },
        }
    }

    /// A layer that sets nothing.
    pub fn unset() -> (o: ToDoConfigOption)
        ensures
            o.use_done is None,
            o.pending_sort is None,
            o.done_sort is None,
            o.delete_final_date is None,
            o.set_final_date is None,
    {
        ToDoConfigOption {
            use_done: None,
            pending_sort: None,
            done_sort: None,
            delete_final_date: None,
            set_final_date: None,
        }
    }

    /// The settings of `base` with those that this layer sets replaced (see `merged`).
    pub fn merge(self, base: ToDoConfig) -> (c: ToDoConfig)
        ensures
            c == self.merged(base),
    {
        ToDoConfig {
            use_done: match self.use_done {
                Some(v) => v,
                None => base.use_done,
            },
            pending_sort: match self.pending_sort {
                Some(v) => v,
                None => base.pending_sort,
            },
            done_sort: match self.done_sort {
                Some(v) => v,
                None => base.done_sort,
            },
            delete_final_date: match self.delete_final_date {
                Some(v) => v,
                None => base.delete_final_date,
            },
            set_final_date: match self.set_final_date {
                Some(v) => v,
                None => base.set_final_date,
            },
        }
    }
}

/// A layer of settings of the task files (`FileWorkerConfig`): each one set or left unset.
#[derive(Debug)]
pub struct FileWorkerConfigOption {
    pub todo_path: Option<String>,
    pub archive_path: Option<Option<String>>,
    pub save_policy: Option<SavePolicy>,
    pub autosave_duration: Option<u64>,
    pub file_watcher: Option<bool>,
}

impl FileWorkerConfigOption {
    /// The layer that sets nothing.
    pub open spec fn nothing() -> FileWorkerConfigOption {
        FileWorkerConfigOption {
            todo_path: None,
            archive_path: None,
            save_policy: None,
            autosave_duration: None,
            file_watcher: None,
        }
    }

    /// The layer that sets every setting to that of `c`.
    pub open spec fn of(c: FileWorkerConfig) -> FileWorkerConfigOption {
        FileWorkerConfigOption {
            todo_path: Some(c.todo_path),
            archive_path: Some(c.archive_path),
            save_policy: Some(c.save_policy),
            autosave_duration: Some(c.autosave_duration),
            file_watcher: Some(c.file_watcher),
        }
    }

    /// The layer that sets every setting to that of `c` (see `of`).
    pub fn from_config(c: FileWorkerConfig) -> (o: FileWorkerConfigOption)
        ensures
            o == FileWorkerConfigOption::of(c),
    {
        FileWorkerConfigOption {
            todo_path: Some(c.todo_path),
            archive_path: Some(c.archive_path),
            save_policy: Some(c.save_policy),
            autosave_duration: Some(c.autosave_duration),
            file_watcher: Some(c.file_watcher),
        }
    }

    /// The settings of `base`, each replaced by this layer's where this layer sets it.
    pub open spec fn merged(self, base: FileWorkerConfig) -> FileWorkerConfig {
        FileWorkerConfig {
            todo_path: match self.todo_path {
                Some(v) => v,
                None => base.todo_path,
            },
            archive_path: match self.archive_path {
                Some(v) => v,
                None => base.archive_path,
            },
            save_policy: match self.save_policy {
                Some(v) => v,
                None => base.save_policy,
            },
            autosave_duration: match self.autosave_duration {
                Some(v) => v,
                None => base.autosave_duration,
            },
            file_watcher: match self.file_watcher {
                Some(v) => v,
                None => base.file_watcher,
            },
        }
    }

    /// A layer that sets nothing.
    pub fn unset() -> (o: FileWorkerConfigOption)
        ensures
            o.todo_path is None,
            o.archive_path is None,
            o.save_policy is None,
            o.autosave_duration is None,
            o.file_watcher is None,
    {
        FileWorkerConfigOption {
            todo_path: None,
            archive_path: None,
            save_policy: None,
            autosave_duration: None,
            file_watcher: None,
        }
    }

    /// The settings of `base` with those that this layer sets replaced (see `merged`).
    pub fn merge(self, base: FileWorkerConfig) -> (c: FileWorkerConfig)
        ensures
            c == self.merged(base),
    {
        FileWorkerConfig {
            todo_path: match self.todo_path {
                Some(v) => v,
                None => base.todo_path,
            },
            archive_path: match self.archive_path {
                Some(v) => v,
                None => base.archive_path,
            },
            save_policy: match self.save_policy {
                Some(v) => v,
                None => base.save_policy,
            },
            autosave_duration: match self.autosave_duration {
                Some(v) => v,
                None => base.autosave_duration,
            },
            file_watcher: match self.file_watcher {
                Some(v) => v,
                None => base.file_watcher,
            },
        }
    }
}

/// A layer of settings of the widgets (`WidgetBaseConfig`): each one set or left unset.
#[derive(Debug)]
pub struct WidgetBaseConfigOption {
    pub tasks_keybind: Option<EventHandlerUI>,
    pub category_keybind: Option<EventHandlerUI>,
    pub border_type: Option<WidgetBorderType>,
}

impl WidgetBaseConfigOption {
    /// The layer that sets nothing.
    pub open spec fn nothing() -> WidgetBaseConfigOption {
        WidgetBaseConfigOption {
            tasks_keybind: None,
            category_keybind: None,
            border_type: None,
        }
    }

    /// The layer that sets every setting to that of `c`.
    pub open spec fn of(c: WidgetBaseConfig) -> WidgetBaseConfigOption {
        WidgetBaseConfigOption {
            tasks_keybind: Some(c.tasks_keybind),
            category_keybind: Some(c.category_keybind),
            border_type: Some(c.border_type),
        }
    }

    /// The layer that sets every setting to that of `c` (see `of`).
    pub fn from_config(c: WidgetBaseConfig) -> (o: WidgetBaseConfigOption)
        ensures
            o == WidgetBaseConfigOption::of(c),
    {
        WidgetBaseConfigOption {
            tasks_keybind: Some(c.tasks_keybind),
            category_keybind: Some(c.category_keybind),
            border_type: Some(c.border_type),
        }
    }

    /// The settings of `base`, each replaced by this layer's where this layer sets it.
    pub open spec fn merged(self, base: WidgetBaseConfig) -> WidgetBaseConfig {
        WidgetBaseConfig {
            tasks_keybind: match self.tasks_keybind {
                Some(v) => v,
                None => base.tasks_keybind,
            },
            category_keybind: match self.category_keybind {
                Some(v) => v,
                None => base.category_keybind,
            },
            border_type: match self.border_type {
                Some(v) => v,
                None => base.border_type,
            },
        }
    }

    /// A layer that sets nothing.
    pub fn unset() -> (o: WidgetBaseConfigOption)
        ensures
            o.tasks_keybind is None,
            o.category_keybind is None,
            o.border_type is None,
    {
        WidgetBaseConfigOption {
            tasks_keybind: None,
            category_keybind: None,
            border_type: None,
        }
    }

    /// The settings of `base` with those that this layer sets replaced (see `merged`).
    pub fn merge(self, base: WidgetBaseConfig) -> (c: WidgetBaseConfig)
        ensures
            c == self.merged(base),
    {
        WidgetBaseConfig {
            tasks_keybind: match self.tasks_keybind {
                Some(v) => v,
                None => base.tasks_keybind,
            },
            category_keybind: match self.category_keybind {
                Some(v) => v,
                None => base.category_keybind,
            },
            border_type: match self.border_type {
                Some(v) => v,
                None => base.border_type,
            },
        }
    }
}

/// A layer of settings of the lists (`ListConfig`): each one set or left unset.
#[derive(Debug)]
pub struct ListConfigOption {
    pub list_shift: Option<usize>,
    pub pending_format: Option<String>,
    pub done_format: Option<String>,
    pub list_keybind: Option<EventHandlerUI>,
}

impl ListConfigOption {
    /// The layer that sets nothing.
    pub open spec fn nothing() -> ListConfigOption {
        ListConfigOption {
            list_shift: None,
            pending_format: None,
            done_format: None,
            list_keybind: None,
        }
    }

    /// The layer that sets every setting to that of `c`.
    pub open spec fn of(c: ListConfig) -> ListConfigOption {
        ListConfigOption {
            list_shift: Some(c.list_shift),
            pending_format: Some(c.pending_format),
            done_format: Some(c.done_format),
            list_keybind: Some(c.list_keybind),
        }
    }

    /// The layer that sets every setting to that of `c` (see `of`).
    pub fn from_config(c: ListConfig) -> (o: ListConfigOption)
        ensures
            o == ListConfigOption::of(c),
    {
        ListConfigOption {
            list_shift: Some(c.list_shift),
            pending_format: Some(c.pending_format),
            done_format: Some(c.done_format),
            list_keybind: Some(c.list_keybind),
        }
    }

    /// The settings of `base`, each replaced by this layer's where this layer sets it.
    pub open spec fn merged(self, base: ListConfig) -> ListConfig {
        ListConfig {
            list_shift: match self.list_shift {
                Some(v) => v,
                None => base.list_shift,
            },
            pending_format: match self.pending_format {
                Some(v) => v,
                None => base.pending_format,
            },
            done_format: match self.done_format {
                Some(v) => v,
                None => base.done_format,
            },
            list_keybind: match self.list_keybind {
                Some(v) => v,
                None => base.list_keybind,
            },
        }
    }

    /// A layer that sets nothing.
    pub fn unset() -> (o: ListConfigOption)
        ensures
            o.list_shift is None,
            o.pending_format is None,
            o.done_format is None,
            o.list_keybind is None,
    {
        ListConfigOption {
            list_shift: None,
            pending_format: None,
            done_format: None,
            list_keybind: None,
        }
    }

    /// The settings of `base` with those that this layer sets replaced (see `merged`).
    pub fn merge(self, base: ListConfig) -> (c: ListConfig)
        ensures
            c == self.merged(base),
    {
        ListConfig {
            list_shift: match self.list_shift {
                Some(v) => v,
                None => base.list_shift,
            },
            pending_format: match self.pending_format {
                Some(v) => v,
                None => base.pending_format,
            },
            done_format: match self.done_format {
                Some(v) => v,
                None => base.done_format,
            },
            list_keybind: match self.list_keybind {
                Some(v) => v,
                None => base.list_keybind,
            },
        }
    }
}

/// A layer of settings of the preview (`PreviewConfig`): each one set or left unset.
#[derive(Debug)]
pub struct PreviewConfigOption {
    pub preview_format: Option<String>,
    pub wrap_preview: Option<bool>,
}

impl PreviewConfigOption {
    /// The layer that sets nothing.
    pub open spec fn nothing() -> PreviewConfigOption {
        PreviewConfigOption {
            preview_format: None,
            wrap_preview: None,
        }
    }

    /// The layer that sets every setting to that of `c`.
    pub open spec fn of(c: PreviewConfig) -> PreviewConfigOption {
        PreviewConfigOption {
            preview_format: Some(c.preview_format),
            wrap_preview: Some(c.wrap_preview),
        }
    }

    /// The layer that sets every setting to that of `c` (see `of`).
    pub fn from_config(c: PreviewConfig) -> (o: PreviewConfigOption)
        ensures
            o == PreviewConfigOption::of(c),
    {
        PreviewConfigOption {
            preview_format: Some(c.preview_format),
            wrap_preview: Some(c.wrap_preview),
        }
    }

    /// The settings of `base`, each replaced by this layer's where this layer sets it.
    pub open spec fn merged(self, base: PreviewConfig) -> PreviewConfig {
        PreviewConfig {
            preview_format: match self.preview_format {
                Some(v) => v,
                None => base.preview_format,
            },
            wrap_preview: match self.wrap_preview {
                Some(v) => v,
                None => base.wrap_preview,
            },
        }
    }

    /// A layer that sets nothing.
    pub fn unset() -> (o: PreviewConfigOption)
        ensures
            o.preview_format is None,
            o.wrap_preview is None,
    {
        PreviewConfigOption {
            preview_format: None,
            wrap_preview: None,
        }
    }

    /// The settings of `base` with those that this layer sets replaced (see `merged`).
    pub fn merge(self, base: PreviewConfig) -> (c: PreviewConfig)
        ensures
            c == self.merged(base),
    {
        PreviewConfig {
            preview_format: match self.preview_format {
                Some(v) => v,
                None => base.preview_format,
            },
            wrap_preview: match self.wrap_preview {
                Some(v) => v,
                None => base.wrap_preview,
            },
        }
    }
}

/// A layer of settings of the window (`UiConfig`): each one set or left unset.
#[derive(Debug)]
pub struct UiConfigOption {
    pub init_widget: Option<WidgetType>,
    pub window_title: Option<String>,
    pub list_refresh_rate: Option<u64>,
    pub save_state_path: Option<Option<String>>,
    pub layout: Option<String>,
    pub window_keybinds: Option<EventHandlerUI>,
    pub paste_behavior: Option<PasteBehavior>,
    pub enable_mouse: Option<bool>,
}

impl UiConfigOption {
    /// The layer that sets nothing.
    pub open spec fn nothing() -> UiConfigOption {
        UiConfigOption {
            init_widget: None,
            window_title: None,
            list_refresh_rate: None,
            save_state_path: None,
            layout: None,
            window_keybinds: None,
            paste_behavior: None,
            enable_mouse: None,
        }
    }

    /// The layer that sets every setting to that of `c`.
    pub open spec fn of(c: UiConfig) -> UiConfigOption {
        UiConfigOption {
            init_widget: Some(c.init_widget),
            window_title: Some(c.window_title),
            list_refresh_rate: Some(c.list_refresh_rate),
            save_state_path: Some(c.save_state_path),
            layout: Some(c.layout),
            window_keybinds: Some(c.window_keybinds),
            paste_behavior: Some(c.paste_behavior),
            enable_mouse: Some(c.enable_mouse),
        }
    }

    /// The layer that sets every setting to that of `c` (see `of`).
    pub fn from_config(c: UiConfig) -> (o: UiConfigOption)
        ensures
            o == UiConfigOption::of(c),
    {
        UiConfigOption {
            init_widget: Some(c.init_widget),
            window_title: Some(c.window_title),
            list_refresh_rate: Some(c.list_refresh_rate),
            save_state_path: Some(c.save_state_path),
            layout: Some(c.layout),
            window_keybinds: Some(c.window_keybinds),
            paste_behavior: Some(c.paste_behavior),
            enable_mouse: Some(c.enable_mouse),
        }
    }

    /// The settings of `base`, each replaced by this layer's where this layer sets it.
    pub open spec fn merged(self, base: UiConfig) -> UiConfig {
        UiConfig {
            init_widget: match self.init_widget {
                Some(v) => v,
                None => base.init_widget,
            },
            window_title: match self.window_title {
                Some(v) => v,
                None => base.window_title,
            },
            list_refresh_rate: match self.list_refresh_rate {
                Some(v) => v,
                None => base.list_refresh_rate,
            },
            save_state_path: match self.save_state_path {
                Some(v) => v,
                None => base.save_state_path,
            },
            layout: match self.layout {
                Some(v) => v,
                None => base.layout,
            },
            window_keybinds: match self.window_keybinds {
                Some(v) => v,
                None => base.window_keybinds,
            },
            paste_behavior: match self.paste_behavior {
                Some(v) => v,
                None => base.paste_behavior,
            },
            enable_mouse: match self.enable_mouse {
                Some(v) => v,
                None => base.enable_mouse,
            },
        }
    }

    /// A layer that sets nothing.
    pub fn unset() -> (o: UiConfigOption)
        ensures
            o.init_widget is None,
            o.window_title is None,
            o.list_refresh_rate is None,
            o.save_state_path is None,
            o.layout is None,
            o.window_keybinds is None,
            o.paste_behavior is None,
            o.enable_mouse is None,
    {
        UiConfigOption {
            init_widget: None,
            window_title: None,
            list_refresh_rate: None,
            save_state_path: None,
            layout: None,
            window_keybinds: None,
            paste_behavior: None,
            enable_mouse: None,
        }
    }

    /// The settings of `base` with those that this layer sets replaced (see `merged`).
    pub fn merge(self, base: UiConfig) -> (c: UiConfig)
        ensures
            c == self.merged(base),
    {
        UiConfig {
            init_widget: match self.init_widget {
                Some(v) => v,
                None => base.init_widget,
            },
            window_title: match self.window_title {
                Some(v) => v,
                None => base.window_title,
            },
            list_refresh_rate: match self.list_refresh_rate {
                Some(v) => v,
                None => base.list_refresh_rate,
            },
            save_state_path: match self.save_state_path {
                Some(v) => v,
                None => base.save_state_path,
            },
            layout: match self.layout {
                Some(v) => v,
                None => base.layout,
            },
            window_keybinds: match self.window_keybinds {
                Some(v) => v,
                None => base.window_keybinds,
            },
            paste_behavior: match self.paste_behavior {
                Some(v) => v,
                None => base.paste_behavior,
            },
            enable_mouse: match self.enable_mouse {
                Some(v) => v,
                None => base.enable_mouse,
            },
        }
    }
}

/// A layer of settings of the active items (`ActiveColorConfig`): each one set or left unset.
#[derive(Debug)]
pub struct ActiveColorConfigOption {
    pub list_active_color: Option<TextStyle>,
    pub pending_active_color: Option<TextStyle>,
    pub done_active_color: Option<TextStyle>,
    pub category_active_color: Option<TextStyle>,
    pub projects_active_color: Option<TextStyle>,
    pub contexts_active_color: Option<TextStyle>,
    pub tags_active_color: Option<TextStyle>,
}

impl ActiveColorConfigOption {
    /// The layer that sets nothing.
    pub open spec fn nothing() -> ActiveColorConfigOption {
        ActiveColorConfigOption {
            list_active_color: None,
            pending_active_color: None,
            done_active_color: None,
            category_active_color: None,
            projects_active_color: None,
            contexts_active_color: None,
            tags_active_color: None,
        }
    }

    /// The layer that sets every setting to that of `c`.
    pub open spec fn of(c: ActiveColorConfig) -> ActiveColorConfigOption {
        ActiveColorConfigOption {
            list_active_color: Some(c.list_active_color),
            pending_active_color: Some(c.pending_active_color),
            done_active_color: Some(c.done_active_color),
            category_active_color: Some(c.category_active_color),
            projects_active_color: Some(c.projects_active_color),
            contexts_active_color: Some(c.contexts_active_color),
            tags_active_color: Some(c.tags_active_color),
        }
    }

    /// The layer that sets every setting to that of `c` (see `of`).
    pub fn from_config(c: ActiveColorConfig) -> (o: ActiveColorConfigOption)
        ensures
            o == ActiveColorConfigOption::of(c),
    {
        ActiveColorConfigOption {
            list_active_color: Some(c.list_active_color),
            pending_active_color: Some(c.pending_active_color),
            done_active_color: Some(c.done_active_color),
            category_active_color: Some(c.category_active_color),
            projects_active_color: Some(c.projects_active_color),
            contexts_active_color: Some(c.contexts_active_color),
            tags_active_color: Some(c.tags_active_color),
        }
    }

    /// The settings of `base`, each replaced by this layer's where this layer sets it.
    pub open spec fn merged(self, base: ActiveColorConfig) -> ActiveColorConfig {
        ActiveColorConfig {
            list_active_color: match self.list_active_color {
                Some(v) => v,
                None => base.list_active_color,
            },
            pending_active_color: match self.pending_active_color {
                Some(v) => v,
                None => base.pending_active_color,
            },
            done_active_color: match self.done_active_color {
                Some(v) => v,
                None => base.done_active_color,
            },
            category_active_color: match self.category_active_color {
                Some(v) => v,
                None => base.category_active_color,
            },
            projects_active_color: match self.projects_active_color {
                Some(v) => v,
                None => base.projects_active_color,
            },
            contexts_active_color: match self.contexts_active_color {
                Some(v) => v,
                None => base.contexts_active_color,
            },
            tags_active_color: match self.tags_active_color {
                Some(v) => v,
                None => base.tags_active_color,
            },
        }
    }

    /// A layer that sets nothing.
    pub fn unset() -> (o: ActiveColorConfigOption)
        ensures
            o.list_active_color is None,
            o.pending_active_color is None,
            o.done_active_color is None,
            o.category_active_color is None,
            o.projects_active_color is None,
            o.contexts_active_color is None,
            o.tags_active_color is None,
    {
        ActiveColorConfigOption {
            list_active_color: None,
            pending_active_color: None,
            done_active_color: None,
            category_active_color: None,
            projects_active_color: None,
            contexts_active_color: None,
            tags_active_color: None,
        }
    }

    /// The settings of `base` with those that this layer sets replaced (see `merged`).
    pub fn merge(self, base: ActiveColorConfig) -> (c: ActiveColorConfig)
        ensures
            c == self.merged(base),
    {
        ActiveColorConfig {
            list_active_color: match self.list_active_color {
                Some(v) => v,
                None => base.list_active_color,
            },
            pending_active_color: match self.pending_active_color {
                Some(v) => v,
                None => base.pending_active_color,
            },
            done_active_color: match self.done_active_color {
                Some(v) => v,
                None => base.done_active_color,
            },
            category_active_color: match self.category_active_color {
                Some(v) => v,
                None => base.category_active_color,
            },
            projects_active_color: match self.projects_active_color {
                Some(v) => v,
                None => base.projects_active_color,
            },
            contexts_active_color: match self.contexts_active_color {
                Some(v) => v,
                None => base.contexts_active_color,
            },
            tags_active_color: match self.tags_active_color {
                Some(v) => v,
                None => base.tags_active_color,
            },
        }
    }
}

/// A layer of settings of the task lists' styles (`Styles`): each one set or left unset.
#[derive(Debug)]
pub struct StylesOption {
    pub active_color: Option<Color>,
    pub priority_style: Option<TextStyleList>,
    pub projects_style: Option<TextStyle>,
    pub contexts_style: Option<TextStyle>,
    pub hashtags_style: Option<TextStyle>,
    pub category_style: Option<TextStyle>,
    pub category_select_style: Option<TextStyle>,
    pub category_remove_style: Option<TextStyle>,
    pub custom_category_style: Option<CustomCategoryStyle>,
    pub highlight: Option<TextStyle>,
}

impl StylesOption {
    /// The layer that sets nothing.
    pub open spec fn nothing() -> StylesOption {
        StylesOption {
            active_color: None,
            priority_style: None,
            projects_style: None,
            contexts_style: None,
            hashtags_style: None,
            category_style: None,
            category_select_style: None,
            category_remove_style: None,
            custom_category_style: None,
            highlight: None,
        }
    }

    /// The layer that sets every setting to that of `c`.
    pub open spec fn of(c: Styles) -> StylesOption {
        StylesOption {
            active_color: Some(c.active_color),
            priority_style: Some(c.priority_style),
            projects_style: Some(c.projects_style),
            contexts_style: Some(c.contexts_style),
            hashtags_style: Some(c.hashtags_style),
            category_style: Some(c.category_style),
            category_select_style: Some(c.category_select_style),
            category_remove_style: Some(c.category_remove_style),
            custom_category_style: Some(c.custom_category_style),
            highlight: Some(c.highlight),
        }
    }

    /// The layer that sets every setting to that of `c` (see `of`).
    pub fn from_config(c: Styles) -> (o: StylesOption)
        ensures
            o == StylesOption::of(c),
    {
        StylesOption {
            active_color: Some(c.active_color),
            priority_style: Some(c.priority_style),
            projects_style: Some(c.projects_style),
            contexts_style: Some(c.contexts_style),
            hashtags_style: Some(c.hashtags_style),
            category_style: Some(c.category_style),
            category_select_style: Some(c.category_select_style),
            category_remove_style: Some(c.category_remove_style),
            custom_category_style: Some(c.custom_category_style),
            highlight: Some(c.highlight),
        }
    }

    /// The settings of `base`, each replaced by this layer's where this layer sets it.
    pub open spec fn merged(self, base: Styles) -> Styles {
        Styles {
            active_color: match self.active_color {
                Some(v) => v,
                None => base.active_color,
            },
            priority_style: match self.priority_style {
                Some(v) => v,
                None => base.priority_style,
            },
            projects_style: match self.projects_style {
                Some(v) => v,
                None => base.projects_style,
            },
            contexts_style: match self.contexts_style {
                Some(v) => v,
                None => base.contexts_style,
            },
            hashtags_style: match self.hashtags_style {
                Some(v) => v,
                None => base.hashtags_style,
            },
            category_style: match self.category_style {
                Some(v) => v,
                None => base.category_style,
            },
            category_select_style: match self.category_select_style {
                Some(v) => v,
                None => base.category_select_style,
            },
            category_remove_style: match self.category_remove_style {
                Some(v) => v,
                None => base.category_remove_style,
            },
            custom_category_style: match self.custom_category_style {
                Some(v) => v,
                None => base.custom_category_style,
            },
            highlight: match self.highlight {
                Some(v) => v,
                None => base.highlight,
            },
        }
    }

    /// A layer that sets nothing.
    pub fn unset() -> (o: StylesOption)
        ensures
            o.active_color is None,
            o.priority_style is None,
            o.projects_style is None,
            o.contexts_style is None,
            o.hashtags_style is None,
            o.category_style is None,
            o.category_select_style is None,
            o.category_remove_style is None,
            o.custom_category_style is None,
            o.highlight is None,
    {
        StylesOption {
            active_color: None,
            priority_style: None,
            projects_style: None,
            contexts_style: None,
            hashtags_style: None,
            category_style: None,
            category_select_style: None,
            category_remove_style: None,
            custom_category_style: None,
            highlight: None,
        }
    }

    /// The settings of `base` with those that this layer sets replaced (see `merged`).
    pub fn merge(self, base: Styles) -> (c: Styles)
        ensures
            c == self.merged(base),
    {
        Styles {
            active_color: match self.active_color {
                Some(v) => v,
                None => base.active_color,
            },
            priority_style: match self.priority_style {
                Some(v) => v,
                None => base.priority_style,
            },
            projects_style: match self.projects_style {
                Some(v) => v,
                None => base.projects_style,
            },
            contexts_style: match self.contexts_style {
                Some(v) => v,
                None => base.contexts_style,
            },
            hashtags_style: match self.hashtags_style {
                Some(v) => v,
                None => base.hashtags_style,
            },
            category_style: match self.category_style {
                Some(v) => v,
                None => base.category_style,
            },
            category_select_style: match self.category_select_style {
                Some(v) => v,
                None => base.category_select_style,
            },
            category_remove_style: match self.category_remove_style {
                Some(v) => v,
                None => base.category_remove_style,
            },
            custom_category_style: match self.custom_category_style {
                Some(v) => v,
                None => base.custom_category_style,
            },
            highlight: match self.highlight {
                Some(v) => v,
                None => base.highlight,
            },
        }
    }
}

/// A layer of settings of the hook scripts (`HookPaths`): each one set or left unset.
#[derive(Debug)]
pub struct HookPathsOption {
    pub pre_new_task: Option<Option<String>>,
    pub post_new_task: Option<Option<String>>,
    pub pre_remove_task: Option<Option<String>>,
    pub post_remove_task: Option<Option<String>>,
    pub pre_move_task: Option<Option<String>>,
    pub post_move_task: Option<Option<String>>,
    pub pre_update_task: Option<Option<String>>,
    pub post_update_task: Option<Option<String>>,
}

impl HookPathsOption {
    /// The layer that sets nothing.
    pub open spec fn nothing() -> HookPathsOption {
        HookPathsOption {
            pre_new_task: None,
            post_new_task: None,
            pre_remove_task: None,
            post_remove_task: None,
            pre_move_task: None,
            post_move_task: None,
            pre_update_task: None,
            post_update_task: None,
        }
    }

    /// The layer that sets every setting to that of `c`.
    pub open spec fn of(c: HookPaths) -> HookPathsOption {
        HookPathsOption {
            pre_new_task: Some(c.pre_new_task),
            post_new_task: Some(c.post_new_task),
            pre_remove_task: Some(c.pre_remove_task),
            post_remove_task: Some(c.post_remove_task),
            pre_move_task: Some(c.pre_move_task),
            post_move_task: Some(c.post_move_task),
            pre_update_task: Some(c.pre_update_task),
            post_update_task: Some(c.post_update_task),
        }
    }

    /// The layer that sets every setting to that of `c` (see `of`).
    pub fn from_config(c: HookPaths) -> (o: HookPathsOption)
        ensures
            o == HookPathsOption::of(c),
    {
        HookPathsOption {
            pre_new_task: Some(c.pre_new_task),
            post_new_task: Some(c.post_new_task),
            pre_remove_task: Some(c.pre_remove_task),
            post_remove_task: Some(c.post_remove_task),
            pre_move_task: Some(c.pre_move_task),
            post_move_task: Some(c.post_move_task),
            pre_update_task: Some(c.pre_update_task),
            post_update_task: Some(c.post_update_task),
        }
    }

    /// The settings of `base`, each replaced by this layer's where this layer sets it.
    pub open spec fn merged(self, base: HookPaths) -> HookPaths {
        HookPaths {
            pre_new_task: match self.pre_new_task {
                Some(v) => v,
                None => base.pre_new_task,
            },
            post_new_task: match self.post_new_task {
                Some(v) => v,
                None => base.post_new_task,
            },
            pre_remove_task: match self.pre_remove_task {
                Some(v) => v,
                None => base.pre_remove_task,
            },
            post_remove_task: match self.post_remove_task {
                Some(v) => v,
                None => base.post_remove_task,
            },
            pre_move_task: match self.pre_move_task {
                Some(v) => v,
                None => base.pre_move_task,
            },
            post_move_task: match self.post_move_task {
                Some(v) => v,
                None => base.post_move_task,
            },
            pre_update_task: match self.pre_update_task {
                Some(v) => v,
                None => base.pre_update_task,
            },
            post_update_task: match self.post_update_task {
                Some(v) => v,
                None => base.post_update_task,
            },
        }
    }

    /// A layer that sets nothing.
    pub fn unset() -> (o: HookPathsOption)
        ensures
            o.pre_new_task is None,
            o.post_new_task is None,
            o.pre_remove_task is None,
            o.post_remove_task is None,
            o.pre_move_task is None,
            o.post_move_task is None,
            o.pre_update_task is None,
            o.post_update_task is None,
    {
        HookPathsOption {
            pre_new_task: None,
            post_new_task: None,
            pre_remove_task: None,
            post_remove_task: None,
            pre_move_task: None,
            post_move_task: None,
            pre_update_task: None,
            post_update_task: None,
        }
    }

    /// The settings of `base` with those that this layer sets replaced (see `merged`).
    pub fn merge(self, base: HookPaths) -> (c: HookPaths)
        ensures
            c == self.merged(base),
    {
        HookPaths {
            pre_new_task: match self.pre_new_task {
                Some(v) => v,
                None => base.pre_new_task,
            },
            post_new_task: match self.post_new_task {
                Some(v) => v,
                None => base.post_new_task,
            },
            pre_remove_task: match self.pre_remove_task {
                Some(v) => v,
                None => base.pre_remove_task,
            },
            post_remove_task: match self.post_remove_task {
                Some(v) => v,
                None => base.post_remove_task,
            },
            pre_move_task: match self.pre_move_task {
                Some(v) => v,
                None => base.pre_move_task,
            },
            post_move_task: match self.post_move_task {
                Some(v) => v,
                None => base.post_move_task,
            },
            pre_update_task: match self.pre_update_task {
                Some(v) => v,
                None => base.pre_update_task,
            },
            post_update_task: match self.post_update_task {
                Some(v) => v,
                None => base.post_update_task,
            },
        }
    }
}

/// A layer of the whole configuration: a layer of each part.
#[derive(Debug)]
pub struct ConfigOption {
    pub ui_config: UiConfigOption,
    pub todo_config: ToDoConfigOption,
    pub file_worker_config: FileWorkerConfigOption,
    pub widget_base_config: WidgetBaseConfigOption,
    pub list_config: ListConfigOption,
    pub preview_config: PreviewConfigOption,
    pub active_color_config: ActiveColorConfigOption,
    pub styles: StylesOption,
    pub hook_paths: HookPathsOption,
}

impl ConfigOption {
    /// The layer that sets nothing.
    pub open spec fn nothing() -> ConfigOption {
        ConfigOption {
            ui_config: UiConfigOption::nothing(),
            todo_config: ToDoConfigOption::nothing(),
            file_worker_config: FileWorkerConfigOption::nothing(),
            widget_base_config: WidgetBaseConfigOption::nothing(),
            list_config: ListConfigOption::nothing(),
            preview_config: PreviewConfigOption::nothing(),
            active_color_config: ActiveColorConfigOption::nothing(),
            styles: StylesOption::nothing(),
            hook_paths: HookPathsOption::nothing(),
        }
    }

    /// The layer that sets every setting to that of `c`.
    pub open spec fn of(c: Config) -> ConfigOption {
        ConfigOption {
            ui_config: UiConfigOption::of(c.ui_config),
            todo_config: ToDoConfigOption::of(c.todo_config),
            file_worker_config: FileWorkerConfigOption::of(c.file_worker_config),
            widget_base_config: WidgetBaseConfigOption::of(c.widget_base_config),
            list_config: ListConfigOption::of(c.list_config),
            preview_config: PreviewConfigOption::of(c.preview_config),
            active_color_config: ActiveColorConfigOption::of(c.active_color_config),
            styles: StylesOption::of(c.styles),
            hook_paths: HookPathsOption::of(c.hook_paths),
        }
    }

    /// The layer that sets every setting to that of `c` (see `of`).
    pub fn from_config(c: Config) -> (o: ConfigOption)
        ensures
            o == ConfigOption::of(c),
    {
        ConfigOption {
            ui_config: UiConfigOption::from_config(c.ui_config),
            todo_config: ToDoConfigOption::from_config(c.todo_config),
            file_worker_config: FileWorkerConfigOption::from_config(c.file_worker_config),
            widget_base_config: WidgetBaseConfigOption::from_config(c.widget_base_config),
            list_config: ListConfigOption::from_config(c.list_config),
            preview_config: PreviewConfigOption::from_config(c.preview_config),
            active_color_config: ActiveColorConfigOption::from_config(c.active_color_config),
            styles: StylesOption::from_config(c.styles),
            hook_paths: HookPathsOption::from_config(c.hook_paths),
        }
    }

    /// The configuration `base` with each part merged with this layer's part.
    pub open spec fn merged(self, base: Config) -> Config {
        Config {
            ui_config: self.ui_config.merged(base.ui_config),
            todo_config: self.todo_config.merged(base.todo_config),
            file_worker_config: self.file_worker_config.merged(base.file_worker_config),
            widget_base_config: self.widget_base_config.merged(base.widget_base_config),
            list_config: self.list_config.merged(base.list_config),
            preview_config: self.preview_config.merged(base.preview_config),
            active_color_config: self.active_color_config.merged(base.active_color_config),
            styles: self.styles.merged(base.styles),
            hook_paths: self.hook_paths.merged(base.hook_paths),
        }
    }

    /// A layer that sets nothing.
    pub fn unset() -> (o: ConfigOption)
        ensures
            o == ConfigOption::nothing(),
    {
        ConfigOption {
            ui_config: UiConfigOption::unset(),
            todo_config: ToDoConfigOption::unset(),
            file_worker_config: FileWorkerConfigOption::unset(),
            widget_base_config: WidgetBaseConfigOption::unset(),
            list_config: ListConfigOption::unset(),
            preview_config: PreviewConfigOption::unset(),
            active_color_config: ActiveColorConfigOption::unset(),
            styles: StylesOption::unset(),
            hook_paths: HookPathsOption::unset(),
        }
    }

    /// The configuration `base` with each part merged with this layer's part (see
    /// `merged`).
    pub fn merge(self, base: Config) -> (c: Config)
        ensures
            c == self.merged(base),
    {
        Config {
            ui_config: self.ui_config.merge(base.ui_config),
            todo_config: self.todo_config.merge(base.todo_config),
            file_worker_config: self.file_worker_config.merge(base.file_worker_config),
            widget_base_config: self.widget_base_config.merge(base.widget_base_config),
            list_config: self.list_config.merge(base.list_config),
            preview_config: self.preview_config.merge(base.preview_config),
            active_color_config: self.active_color_config.merge(base.active_color_config),
            styles: self.styles.merge(base.styles),
            hook_paths: self.hook_paths.merge(base.hook_paths),
        }
    }
}

/// The configuration from its layers, later layers overriding earlier ones: the defaults,
/// then the configuration file, then the environment, then the command-line flags. Each
/// setting is the flags' when they set it, else the environment's, else the file's, else the
/// default.
pub fn merge_layers(defaults: Config, file: ConfigOption, env: ConfigOption, flags: ConfigOption) -> (c: Config)
    ensures
        c == flags.merged(env.merged(file.merged(defaults))),
{
    let c = file.merge(defaults);
    let c = env.merge(c);
    flags.merge(c)
}

/// The laws of merging layers: a layer that sets nothing gives the base back, and a layer
/// that sets every setting gives its own values whatever the base; in general each setting is
/// the layer's when the layer sets it, else the base's (see `merged`).
pub proof fn lemma_merge_laws(base: Config, c: Config)
    ensures
        ConfigOption::nothing().merged(base) == base,
        ConfigOption::of(c).merged(base) == c,
{
}

/// Each setting of the todo lists is merged on its own: a layer that leaves a setting unset keeps
/// the base's value for it, and a layer that sets it gives its own value, whatever the other
/// settings of the layer and of the base.
pub proof fn lemma_todo_merge_each_setting(layer: ToDoConfigOption, base: ToDoConfig)
    ensures
        layer.use_done is None ==> layer.merged(base).use_done == base.use_done,
        layer.use_done matches Some(v) ==> layer.merged(base).use_done == v,
        layer.pending_sort is None ==> layer.merged(base).pending_sort == base.pending_sort,
        layer.pending_sort matches Some(v) ==> layer.merged(base).pending_sort == v,
        layer.done_sort is None ==> layer.merged(base).done_sort == base.done_sort,
        layer.done_sort matches Some(v) ==> layer.merged(base).done_sort == v,
        layer.delete_final_date is None ==> layer.merged(base).delete_final_date == base.delete_final_date,
        layer.delete_final_date matches Some(v) ==> layer.merged(base).delete_final_date == v,
        layer.set_final_date is None ==> layer.merged(base).set_final_date == base.set_final_date,
        layer.set_final_date matches Some(v) ==> layer.merged(base).set_final_date == v,
{
}

/// Each setting of the task files is merged on its own: a layer that leaves a setting unset keeps
/// the base's value for it, and a layer that sets it gives its own value, whatever the other
/// settings of the layer and of the base.
pub proof fn lemma_file_worker_merge_each_setting(layer: FileWorkerConfigOption, base: FileWorkerConfig)
    ensures
        layer.todo_path is None ==> layer.merged(base).todo_path == base.todo_path,
        layer.todo_path matches Some(v) ==> layer.merged(base).todo_path == v,
        layer.archive_path is None ==> layer.merged(base).archive_path == base.archive_path,
        layer.archive_path matches Some(v) ==> layer.merged(base).archive_path == v,
        layer.save_policy is None ==> layer.merged(base).save_policy == base.save_policy,
        layer.save_policy matches Some(v) ==> layer.merged(base).save_policy == v,
        layer.autosave_duration is None ==> layer.merged(base).autosave_duration == base.autosave_duration,
        layer.autosave_duration matches Some(v) ==> layer.merged(base).autosave_duration == v,
        layer.file_watcher is None ==> layer.merged(base).file_watcher == base.file_watcher,
        layer.file_watcher matches Some(v) ==> layer.merged(base).file_watcher == v,
{
}

/// Each setting of the widgets is merged on its own: a layer that leaves a setting unset keeps
/// the base's value for it, and a layer that sets it gives its own value, whatever the other
/// settings of the layer and of the base.
pub proof fn lemma_widget_base_merge_each_setting(layer: WidgetBaseConfigOption, base: WidgetBaseConfig)
    ensures
        layer.tasks_keybind is None ==> layer.merged(base).tasks_keybind == base.tasks_keybind,
        layer.tasks_keybind matches Some(v) ==> layer.merged(base).tasks_keybind == v,
        layer.category_keybind is None ==> layer.merged(base).category_keybind == base.category_keybind,
        layer.category_keybind matches Some(v) ==> layer.merged(base).category_keybind == v,
        layer.border_type is None ==> layer.merged(base).border_type == base.border_type,
        layer.border_type matches Some(v) ==> layer.merged(base).border_type == v,
{
}

/// Each setting of the task lists is merged on its own: a layer that leaves a setting unset keeps
/// the base's value for it, and a layer that sets it gives its own value, whatever the other
/// settings of the layer and of the base.
pub proof fn lemma_list_merge_each_setting(layer: ListConfigOption, base: ListConfig)
    ensures
        layer.list_shift is None ==> layer.merged(base).list_shift == base.list_shift,
        layer.list_shift matches Some(v) ==> layer.merged(base).list_shift == v,
        layer.pending_format is None ==> layer.merged(base).pending_format == base.pending_format,
        layer.pending_format matches Some(v) ==> layer.merged(base).pending_format == v,
        layer.done_format is None ==> layer.merged(base).done_format == base.done_format,
        layer.done_format matches Some(v) ==> layer.merged(base).done_format == v,
        layer.list_keybind is None ==> layer.merged(base).list_keybind == base.list_keybind,
        layer.list_keybind matches Some(v) ==> layer.merged(base).list_keybind == v,
{
}

/// Each setting of the preview is merged on its own: a layer that leaves a setting unset keeps
/// the base's value for it, and a layer that sets it gives its own value, whatever the other
/// settings of the layer and of the base.
pub proof fn lemma_preview_merge_each_setting(layer: PreviewConfigOption, base: PreviewConfig)
    ensures
        layer.preview_format is None ==> layer.merged(base).preview_format == base.preview_format,
        layer.preview_format matches Some(v) ==> layer.merged(base).preview_format == v,
        layer.wrap_preview is None ==> layer.merged(base).wrap_preview == base.wrap_preview,
        layer.wrap_preview matches Some(v) ==> layer.merged(base).wrap_preview == v,
{
}

/// Each setting of the user interface is merged on its own: a layer that leaves a setting unset keeps
/// the base's value for it, and a layer that sets it gives its own value, whatever the other
/// settings of the layer and of the base.
pub proof fn lemma_ui_merge_each_setting(layer: UiConfigOption, base: UiConfig)
    ensures
        layer.init_widget is None ==> layer.merged(base).init_widget == base.init_widget,
        layer.init_widget matches Some(v) ==> layer.merged(base).init_widget == v,
        layer.window_title is None ==> layer.merged(base).window_title == base.window_title,
        layer.window_title matches Some(v) ==> layer.merged(base).window_title == v,
        layer.list_refresh_rate is None ==> layer.merged(base).list_refresh_rate == base.list_refresh_rate,
        layer.list_refresh_rate matches Some(v) ==> layer.merged(base).list_refresh_rate == v,
        layer.save_state_path is None ==> layer.merged(base).save_state_path == base.save_state_path,
        layer.save_state_path matches Some(v) ==> layer.merged(base).save_state_path == v,
        layer.layout is None ==> layer.merged(base).layout == base.layout,
        layer.layout matches Some(v) ==> layer.merged(base).layout == v,
        layer.window_keybinds is None ==> layer.merged(base).window_keybinds == base.window_keybinds,
        layer.window_keybinds matches Some(v) ==> layer.merged(base).window_keybinds == v,
        layer.paste_behavior is None ==> layer.merged(base).paste_behavior == base.paste_behavior,
        layer.paste_behavior matches Some(v) ==> layer.merged(base).paste_behavior == v,
        layer.enable_mouse is None ==> layer.merged(base).enable_mouse == base.enable_mouse,
        layer.enable_mouse matches Some(v) ==> layer.merged(base).enable_mouse == v,
{
}

/// Each setting of the active colors is merged on its own: a layer that leaves a setting unset keeps
/// the base's value for it, and a layer that sets it gives its own value, whatever the other
/// settings of the layer and of the base.
pub proof fn lemma_active_color_merge_each_setting(layer: ActiveColorConfigOption, base: ActiveColorConfig)
    ensures
        layer.list_active_color is None ==> layer.merged(base).list_active_color == base.list_active_color,
        layer.list_active_color matches Some(v) ==> layer.merged(base).list_active_color == v,
        layer.pending_active_color is None ==> layer.merged(base).pending_active_color == base.pending_active_color,
        layer.pending_active_color matches Some(v) ==> layer.merged(base).pending_active_color == v,
        layer.done_active_color is None ==> layer.merged(base).done_active_color == base.done_active_color,
        layer.done_active_color matches Some(v) ==> layer.merged(base).done_active_color == v,
        layer.category_active_color is None ==> layer.merged(base).category_active_color == base.category_active_color,
        layer.category_active_color matches Some(v) ==> layer.merged(base).category_active_color == v,
        layer.projects_active_color is None ==> layer.merged(base).projects_active_color == base.projects_active_color,
        layer.projects_active_color matches Some(v) ==> layer.merged(base).projects_active_color == v,
        layer.contexts_active_color is None ==> layer.merged(base).contexts_active_color == base.contexts_active_color,
        layer.contexts_active_color matches Some(v) ==> layer.merged(base).contexts_active_color == v,
        layer.tags_active_color is None ==> layer.merged(base).tags_active_color == base.tags_active_color,
        layer.tags_active_color matches Some(v) ==> layer.merged(base).tags_active_color == v,
{
}

/// Each setting of the styles is merged on its own: a layer that leaves a setting unset keeps
/// the base's value for it, and a layer that sets it gives its own value, whatever the other
/// settings of the layer and of the base.
pub proof fn lemma_styles_merge_each_setting(layer: StylesOption, base: Styles)
    ensures
        layer.active_color is None ==> layer.merged(base).active_color == base.active_color,
        layer.active_color matches Some(v) ==> layer.merged(base).active_color == v,
        layer.priority_style is None ==> layer.merged(base).priority_style == base.priority_style,
        layer.priority_style matches Some(v) ==> layer.merged(base).priority_style == v,
        layer.projects_style is None ==> layer.merged(base).projects_style == base.projects_style,
        layer.projects_style matches Some(v) ==> layer.merged(base).projects_style == v,
        layer.contexts_style is None ==> layer.merged(base).contexts_style == base.contexts_style,
        layer.contexts_style matches Some(v) ==> layer.merged(base).contexts_style == v,
        layer.hashtags_style is None ==> layer.merged(base).hashtags_style == base.hashtags_style,
        layer.hashtags_style matches Some(v) ==> layer.merged(base).hashtags_style == v,
        layer.category_style is None ==> layer.merged(base).category_style == base.category_style,
        layer.category_style matches Some(v) ==> layer.merged(base).category_style == v,
        layer.category_select_style is None ==> layer.merged(base).category_select_style == base.category_select_style,
        layer.category_select_style matches Some(v) ==> layer.merged(base).category_select_style == v,
        layer.category_remove_style is None ==> layer.merged(base).category_remove_style == base.category_remove_style,
        layer.category_remove_style matches Some(v) ==> layer.merged(base).category_remove_style == v,
        layer.custom_category_style is None ==> layer.merged(base).custom_category_style == base.custom_category_style,
        layer.custom_category_style matches Some(v) ==> layer.merged(base).custom_category_style == v,
        layer.highlight is None ==> layer.merged(base).highlight == base.highlight,
        layer.highlight matches Some(v) ==> layer.merged(base).highlight == v,
{
}

/// Each setting of the hooks is merged on its own: a layer that leaves a setting unset keeps
/// the base's value for it, and a layer that sets it gives its own value, whatever the other
/// settings of the layer and of the base.
pub proof fn lemma_hook_paths_merge_each_setting(layer: HookPathsOption, base: HookPaths)
    ensures
        layer.pre_new_task is None ==> layer.merged(base).pre_new_task == base.pre_new_task,
        layer.pre_new_task matches Some(v) ==> layer.merged(base).pre_new_task == v,
        layer.post_new_task is None ==> layer.merged(base).post_new_task == base.post_new_task,
        layer.post_new_task matches Some(v) ==> layer.merged(base).post_new_task == v,
        layer.pre_remove_task is None ==> layer.merged(base).pre_remove_task == base.pre_remove_task,
        layer.pre_remove_task matches Some(v) ==> layer.merged(base).pre_remove_task == v,
        layer.post_remove_task is None ==> layer.merged(base).post_remove_task == base.post_remove_task,
        layer.post_remove_task matches Some(v) ==> layer.merged(base).post_remove_task == v,
        layer.pre_move_task is None ==> layer.merged(base).pre_move_task == base.pre_move_task,
        layer.pre_move_task matches Some(v) ==> layer.merged(base).pre_move_task == v,
        layer.post_move_task is None ==> layer.merged(base).post_move_task == base.post_move_task,
        layer.post_move_task matches Some(v) ==> layer.merged(base).post_move_task == v,
        layer.pre_update_task is None ==> layer.merged(base).pre_update_task == base.pre_update_task,
        layer.pre_update_task matches Some(v) ==> layer.merged(base).pre_update_task == v,
        layer.post_update_task is None ==> layer.merged(base).post_update_task == base.post_update_task,
        layer.post_update_task matches Some(v) ==> layer.merged(base).post_update_task == v,
{
}

} // verus!
