use vstd::prelude::*;
use crate::error::ToDoError;
use crate::text::{lowercase, to_lowercase, str_eq, to_string};

verus! {

/// The kinds of widgets that a layout can hold.
#[derive(PartialEq, Eq, Structural, Debug, Copy, Clone)]
pub enum WidgetType {
    List,
    Done,
    Project,
    Context,
    Hashtag,
    Preview,
    PendingLivePreview,
    DoneLivePreview,
}

/// Which list of tasks a widget or operation refers to.
#[derive(PartialEq, Eq, Structural, Debug, Copy, Clone)]
pub enum ToDoData {
    Pending,
    Done,
}

/// The three kinds of categories of a todo.txt task.
#[derive(PartialEq, Eq, Structural, Debug, Copy, Clone)]
pub enum ToDoCategory {
    Projects,
    Contexts,
    Hashtags,
}

/// Whether a widget of this type takes the focus: previews never do.
pub open spec fn spec_accepts_focus(w: WidgetType) -> bool {
    !(w is Preview || w is PendingLivePreview || w is DoneLivePreview)
}

impl WidgetType {
    /// Whether a widget of this type takes the focus when the user moves onto it.
    pub fn accepts_focus(&self) -> (b: bool)
        ensures
            b == spec_accepts_focus(*self),
    {
        match self {
            WidgetType::Preview | WidgetType::PendingLivePreview | WidgetType::DoneLivePreview => false,
            _ => true,
        }
    }

    /// The widget type that shows a list of the given category.
    pub fn from_category(value: ToDoCategory) -> (w: WidgetType)
        ensures
            w == (match value {
                ToDoCategory::Projects => WidgetType::Project,
                ToDoCategory::Contexts => WidgetType::Context,
                ToDoCategory::Hashtags => WidgetType::Hashtag,
            }),
    {
        match value {
            ToDoCategory::Projects => WidgetType::Project,
            ToDoCategory::Contexts => WidgetType::Context,
            ToDoCategory::Hashtags => WidgetType::Hashtag,
        }
    }

    /// The widget type that shows the given list of tasks.
    pub fn from_data(value: ToDoData) -> (w: WidgetType)
        ensures
            w == (match value {
                ToDoData::Pending => WidgetType::List,
                ToDoData::Done => WidgetType::Done,
            }),
    {
        match value {
            ToDoData::Pending => WidgetType::List,
            ToDoData::Done => WidgetType::Done,
        }
    }
}

/// The widget type that a lowercase name stands for.
pub open spec fn widget_named(n: Seq<char>) -> Option<WidgetType> {
    if n == "list"@ {
        Some(WidgetType::List)
    } else if n == "done"@ {
        Some(WidgetType::Done)
    } else if n == "projects"@ {
        Some(WidgetType::Project)
    } else if n == "contexts"@ {
        Some(WidgetType::Context)
    } else if n == "hashtags"@ {
        Some(WidgetType::Hashtag)
    } else if n == "preview"@ {
        Some(WidgetType::Preview)
    } else {
        None
    }
}

/// The name of a widget type: its variant's name in lowercase.
pub open spec fn widget_text(w: WidgetType) -> Seq<char> {
    match w {
        WidgetType::List => "list"@,
        WidgetType::Done => "done"@,
        WidgetType::Project => "project"@,
        WidgetType::Context => "context"@,
        WidgetType::Hashtag => "hashtag"@,
        WidgetType::Preview => "preview"@,
        WidgetType::PendingLivePreview => "pendinglivepreview"@,
        WidgetType::DoneLivePreview => "donelivepreview"@,
    }
}

impl WidgetType {
    /// The widget type that a name stands for, in any case: `list`, `done`, `projects`,
    /// `contexts`, `hashtags` or `preview`.
    pub fn parse(s: &str) -> (r: Result<WidgetType, ToDoError>)
        ensures
            match r {
                Ok(w) => widget_named(lowercase(s@)) == Some(w),
                Err(e) => widget_named(lowercase(s@)) is None && (e matches ToDoError::ParseWidgetType(n)
                    && n@ == s@),
            },
    {
        let l = to_lowercase(s);
        let n = l.as_str();
        if str_eq(n, "list") {
            Ok(WidgetType::List)
        } else if str_eq(n, "done") {
            Ok(WidgetType::Done)
        } else if str_eq(n, "projects") {
            Ok(WidgetType::Project)
        } else if str_eq(n, "contexts") {
            Ok(WidgetType::Context)
        } else if str_eq(n, "hashtags") {
            Ok(WidgetType::Hashtag)
        } else if str_eq(n, "preview") {
            Ok(WidgetType::Preview)
        } else {
            Err(ToDoError::ParseWidgetType(to_string(s)))
        }
    }

    /// The name of the widget type (see `widget_text`).
    pub fn to_text(&self) -> (s: String)
        ensures
            s@ == widget_text(*self),
    {
        match self {
            WidgetType::List => to_string("list"),
            WidgetType::Done => to_string("done"),
            WidgetType::Project => to_string("project"),
            WidgetType::Context => to_string("context"),
            WidgetType::Hashtag => to_string("hashtag"),
            WidgetType::Preview => to_string("preview"),
            WidgetType::PendingLivePreview => to_string("pendinglivepreview"),
            WidgetType::DoneLivePreview => to_string("donelivepreview"),
        }
    }
}

impl Default for WidgetType {
    fn default() -> (r: Self)
        ensures
            r == WidgetType::List,
    {
        WidgetType::List
    }
}

impl core::str::FromStr for WidgetType {
    type Err = ToDoError;

    fn from_str(s: &str) -> (r: Result<WidgetType, ToDoError>)
        ensures
            match r {
                Ok(w) => widget_named(lowercase(s@)) == Some(w),
                Err(e) => widget_named(lowercase(s@)) is None && (e matches ToDoError::ParseWidgetType(n)
                    && n@ == s@),
            },
    {
        WidgetType::parse(s)
    }
}

} // verus!
