use vstd::prelude::*;

verus! {

/// The errors of the library's parsers and lookups.
#[derive(Debug)]
pub enum ToDoError {
    /// The selected widget is not in the layout.
    WidgetDoesNotExist,
    /// A number could not be read.
    ParseValue(String),
    /// A size is neither an unsigned integer nor a percentage.
    ParseUnknownValue(String),
    /// The name is not one of a widget type.
    ParseWidgetType(String),
    /// The text is not a style.
    ParseTextStyle(String),
    /// The style list has no entry.
    ParseTextStyleList(String),
    /// The name is not one of a text modifier.
    ParseTextModifier(String),
    /// The text is not a color.
    ColorSerializationFailed(String),
    /// The custom category style is not valid.
    CustomCategoryStyleParseFailed(String),
    /// The active container does not hold a widget.
    ActiveIsNotWidget,
}

} // verus!
