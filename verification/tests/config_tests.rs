use todotxt_tui::conf::{merge_layers, Config, ConfigOption, ListConfigOption};
use todotxt_tui::defaults::{ListConfig, UiConfig};
use todotxt_tui::keys::{KeyCodeDef, KeyShortcut, SHIFT};
use todotxt_tui::layout::Layout;
use todotxt_tui::options::PasteBehavior;
use todotxt_tui::ui_event::UIEvent;
use todotxt_tui::widget_type::WidgetType;
use std::str::FromStr;
use todotxt_tui::options::TextModifier;
use todotxt_tui::parsers::{enum_debug_display_parser, parse_duration};
use todotxt_tui::style::{ActiveColorConfig, Color, CustomCategoryStyle, Styles, TextStyle, TextStyleList};
use todotxt_tui::widget_type::{ToDoCategory, ToDoData};

#[test]
fn fom_str_text_modifier() {
    assert_eq!(TextModifier::from_str("bold").unwrap(), TextModifier::Bold);
    assert_eq!(TextModifier::from_str("iTALic").unwrap(), TextModifier::Italic);
    assert!(TextModifier::from_str("Some random data").is_err());
}

#[test]
fn text_modifier_underline() {
    assert_eq!(TextModifier::from_str("UNDERLINE").unwrap(), TextModifier::Underlined);
    assert!(TextModifier::from_str("underlined").is_err());
}

#[test]
fn test_parse_duration() {
    assert_eq!(parse_duration("1000").unwrap(), 1000);
    assert!(parse_duration("-1000").is_err());
    assert_eq!(parse_duration("+7").unwrap(), 7);
    assert!(parse_duration("").is_err());
    assert!(parse_duration("18446744073709551616").is_err());
    assert_eq!(parse_duration("18446744073709551615").unwrap(), u64::MAX);
}

#[test]
fn kebab_names() {
    assert_eq!(enum_debug_display_parser("OnlyMissing"), "only-missing");
    assert_eq!(enum_debug_display_parser("AlphanumericReverse"), "alphanumeric-reverse");
    assert_eq!(enum_debug_display_parser("None"), "none");
    assert_eq!(enum_debug_display_parser(""), "");
    assert_eq!(todotxt_tui::options::TaskSort::NoSort.to_text(), "none");
    assert_eq!(todotxt_tui::options::SetFinalDateType::OnlyMissing.to_text(), "only-missing");
    assert_eq!(todotxt_tui::options::WidgetBorderType::Rounded.to_text(), "rounded");
}

#[test]
fn colors_from_text() {
    assert_eq!(Color::from_str("red").unwrap(), Color::Red);
    assert_eq!(Color::from_str("LightBlue").unwrap(), Color::LightBlue);
    assert_eq!(Color::from_str("42").unwrap(), Color::Indexed(42));
    assert_eq!(Color::from_str("#123456").unwrap(), Color::Rgb(0x12, 0x34, 0x56));
    assert_eq!(Color::from_str("#00FF00").unwrap(), Color::Rgb(0, 255, 0));
    assert!(Color::from_str("#12345").is_err());
    assert!(Color::from_str("#12345g").is_err());
    assert!(Color::from_str("256").is_err());
    assert!(Color::from_str("purple").is_err());
    assert_eq!(Color::Rgb(1, 171, 255).to_text(), "#01abff");
    assert_eq!(Color::Indexed(7).to_text(), "7");
    assert_eq!(Color::DarkGray.to_text(), "DarkGray");
}

#[test]
fn text_style() {
    let style = TextStyle::new();
    assert_eq!(style.bg, None);
    assert_eq!(style.fg, None);
    assert_eq!(style.modifier, None);
    assert!(!style.is_some());
    let style = style.bg(Color::Red).fg(Color::Green).modifier(TextModifier::Bold);
    assert_eq!(style.bg, Some(Color::Red));
    assert_eq!(style.fg, Some(Color::Green));
    assert_eq!(style.modifier, Some(TextModifier::Bold));
    assert!(style.is_some());
}

#[test]
fn combine_styles() {
    let style = TextStyle::new()
        .bg(Color::Red)
        .modifier(TextModifier::Bold)
        .combine(&TextStyle::new().fg(Color::Green).modifier(TextModifier::Italic));
    assert_eq!(style.bg, Some(Color::Red));
    assert_eq!(style.fg, Some(Color::Green));
    assert_eq!(style.modifier, Some(TextModifier::Italic));

    let style = TextStyle::new().bg(Color::Red).combine(&TextStyle::new().bg(Color::Yellow));
    assert_eq!(style.bg, Some(Color::Yellow));
    assert_eq!(style.fg, None);
    assert_eq!(style.modifier, None);
}

#[test]
fn text_style_list() {
    let style = TextStyleList::default().get_style(0);
    assert_eq!(style.fg, Some(Color::Red));
    assert_eq!(style.bg, None);
    assert_eq!(style.modifier, None);
    assert_eq!(TextStyleList::default().get_style(26), TextStyle::new());
}

#[test]
fn from_str() {
    assert_eq!(TextStyle::from_str("red").unwrap(), TextStyle::new().fg(Color::Red));
    assert_eq!(TextStyle::from_str("^red").unwrap(), TextStyle::new().bg(Color::Red));
    assert_eq!(
        TextStyle::from_str("green ^blue").unwrap(),
        TextStyle::new().fg(Color::Green).bg(Color::Blue)
    );
    assert_eq!(TextStyle::from_str("bold").unwrap(), TextStyle::new().modifier(TextModifier::Bold));
    assert_eq!(TextStyle::from_str("italic").unwrap(), TextStyle::new().modifier(TextModifier::Italic));
    assert_eq!(
        TextStyle::from_str("underline").unwrap(),
        TextStyle::new().modifier(TextModifier::Underlined)
    );
    assert_eq!(
        TextStyle::from_str("red bold ^blue italic").unwrap(),
        TextStyle::new()
            .fg(Color::Red)
            .modifier(TextModifier::Bold)
            .bg(Color::Blue)
            .modifier(TextModifier::Italic)
    );
    assert_eq!(TextStyle::from_str("B").unwrap(), TextStyle::new().fg(Color::Yellow));
}

#[test]
fn from_str_err() {
    for bad in ["invalid_color", "^bg_invalid_color", "invalid_modifier", "unknown_style"] {
        match TextStyle::from_str(bad) {
            Err(todotxt_tui::error::ToDoError::ParseTextStyle(w)) => assert_eq!(w, bad),
            other => panic!("unexpected {other:?}"),
        }
    }
}

#[test]
fn text_style_list_from_str() {
    let list = TextStyleList::parse("A:green").unwrap();
    assert_eq!(list.get_style(0), TextStyle::new().fg(Color::Red));
    for i in 1..27 {
        assert_eq!(list.get_style(i), TextStyle::new());
    }
    let other = TextStyleList::parse("x:red, C:blue").unwrap();
    assert_eq!(other.get_style(2), TextStyle::new().fg(Color::Blue));
    assert_eq!(other.get_style(0), TextStyle::new());
    assert!(TextStyleList::parse("empty:blue").is_err());
}

#[test]
fn custom_category_style() {
    let c = CustomCategoryStyle::parse("+a=red,@b=^blue bold,+a=green").unwrap();
    assert_eq!(c.get("+a"), Some(TextStyle::new().fg(Color::Green)));
    assert_eq!(c.get("@b"), Some(TextStyle::new().bg(Color::Blue).modifier(TextModifier::Bold)));
    assert_eq!(c.get("#c"), None);
    assert!(CustomCategoryStyle::parse("nokey").is_err());
    assert!(CustomCategoryStyle::parse("+a=nothing").is_err());
}

#[test]
fn get_active_style() {
    let mut color = ActiveColorConfig::default();
    color.list_active_color = TextStyle::new().bg(Color::Red);
    color.pending_active_color = TextStyle::new().bg(Color::Yellow);
    assert_eq!(color.get_active_style(ToDoData::Pending), TextStyle::new().bg(Color::Yellow));
    color.pending_active_color = TextStyle::new();
    assert_eq!(color.get_active_style(ToDoData::Pending), TextStyle::new().bg(Color::Red));
    color.done_active_color = TextStyle::new().fg(Color::Blue);
    assert_eq!(
        color.get_active_style(ToDoData::Done),
        TextStyle::new().bg(Color::Red).fg(Color::Blue)
    );
}

#[test]
fn get_active_config_style() {
    let mut color = ActiveColorConfig::default();
    color.list_active_color = TextStyle::new().bg(Color::Red);
    color.category_active_color = TextStyle::new().fg(Color::White);
    assert_eq!(
        color.get_active_config_style(ToDoCategory::Projects),
        TextStyle::new().bg(Color::Red).fg(Color::White)
    );
    color.tags_active_color = TextStyle::new().bg(Color::Green);
    assert_eq!(
        color.get_active_config_style(ToDoCategory::Hashtags),
        TextStyle::new().bg(Color::Green).fg(Color::White)
    );
}

#[test]
fn category_styles() {
    let styles = Styles::default_styles();
    assert_eq!(styles.get_category_style("+todo-tui"), TextStyle::new().fg(Color::LightBlue));
    assert_eq!(styles.get_category_style("+other"), TextStyle::new());
    let mut styles = Styles::default_styles();
    styles.category_style = TextStyle::new().fg(Color::Gray);
    styles.contexts_style = TextStyle::new().bg(Color::Cyan);
    assert_eq!(
        styles.get_category_style("@home"),
        TextStyle::new().fg(Color::Gray).bg(Color::Cyan)
    );
    assert_eq!(styles.get_category_style("plain"), TextStyle::new().fg(Color::Gray));
}

#[test]
fn colors_read_back_from_their_text() {
    let colors = [
        Color::Black,
        Color::Red,
        Color::DarkGray,
        Color::LightMagenta,
        Color::White,
        Color::Indexed(0),
        Color::Indexed(42),
        Color::Indexed(255),
        Color::Rgb(0, 16, 255),
        Color::Rgb(171, 205, 239),
    ];
    for c in colors {
        assert_eq!(Color::parse(&c.to_text()).ok(), Some(c));
    }
    assert_eq!(Color::Rgb(0, 16, 255).to_text(), "#0010ff");
    assert_eq!(Color::parse("#0010ff").ok(), Some(Color::Rgb(0, 16, 255)));
    assert_eq!(Color::parse("#00ff00").ok(), Some(Color::Rgb(0, 255, 0)));
    assert!(Color::parse("nocolor").is_err());
}

#[test]
fn a_layer_replaces_only_what_it_sets() {
    let mut layer = ListConfigOption::unset();
    layer.list_shift = Some(8);
    let merged = layer.merge(ListConfig::default_config());
    assert_eq!(merged.list_shift, 8);
    assert_eq!(merged.pending_format, "[$subject](! priority)");
}

#[test]
fn flags_override_environment_which_overrides_the_file() {
    let mut file = ConfigOption::unset();
    file.ui_config.window_title = Some(String::from("from file"));
    file.list_config.list_shift = Some(1);
    file.preview_config.wrap_preview = Some(false);
    let mut env = ConfigOption::unset();
    env.ui_config.window_title = Some(String::from("from env"));
    env.list_config.list_shift = Some(2);
    let mut flags = ConfigOption::unset();
    flags.list_config.list_shift = Some(3);
    let c = merge_layers(Config::default_with_home(Some("/home/me")), file, env, flags);
    assert_eq!(c.ui_config.window_title, "from env");
    assert_eq!(c.list_config.list_shift, 3);
    assert!(!c.preview_config.wrap_preview);
    assert_eq!(c.file_worker_config.todo_path, "/home/me/todo.txt");
    assert_eq!(c.ui_config.list_refresh_rate, 5);
}

#[test]
fn a_full_layer_gives_its_own_values() {
    let layer = ConfigOption::from_config(Config::default_with_home(Some("/b")));
    let merged = layer.merge(Config::default_with_home(Some("/a")));
    assert_eq!(merged.file_worker_config.todo_path, "/b/todo.txt");
    let nothing = ConfigOption::unset().merge(Config::default_with_home(Some("/a")));
    assert_eq!(nothing.file_worker_config.todo_path, "/a/todo.txt");
}

#[test]
fn default_window_and_list_bindings() {
    let ui = UiConfig::default_config();
    let w = &ui.window_keybinds;
    assert_eq!(w.get_event(KeyShortcut::key(KeyCodeDef::Char('q'))), UIEvent::Quit);
    assert_eq!(w.get_event(KeyShortcut::new(KeyCodeDef::Char('s'), SHIFT)), UIEvent::Save);
    assert_eq!(w.get_event(KeyShortcut::key(KeyCodeDef::Char('u'))), UIEvent::Load);
    assert_eq!(w.get_event(KeyShortcut::new(KeyCodeDef::Char('h'), SHIFT)), UIEvent::MoveLeft);
    assert_eq!(w.get_event(KeyShortcut::new(KeyCodeDef::Char('j'), SHIFT)), UIEvent::MoveDown);
    assert_eq!(w.get_event(KeyShortcut::new(KeyCodeDef::Char('e'), SHIFT)), UIEvent::EditMode);
    assert_eq!(w.get_event(KeyShortcut::key(KeyCodeDef::Char('/'))), UIEvent::SearchMode);
    assert_eq!(w.get_event(KeyShortcut::key(KeyCodeDef::Char('s'))), UIEvent::NoEvent);
    assert_eq!(ui.paste_behavior, PasteBehavior::Insert);
    assert!(ui.enable_mouse);

    let list = ListConfig::default_config();
    let l = &list.list_keybind;
    assert_eq!(l.get_event(KeyShortcut::key(KeyCodeDef::Char('j'))), UIEvent::ListDown);
    assert_eq!(l.get_event(KeyShortcut::key(KeyCodeDef::Char('k'))), UIEvent::ListUp);
    assert_eq!(l.get_event(KeyShortcut::key(KeyCodeDef::Char('g'))), UIEvent::ListFirst);
    assert_eq!(l.get_event(KeyShortcut::new(KeyCodeDef::Char('g'), SHIFT)), UIEvent::ListLast);
    assert_eq!(l.get_event(KeyShortcut::key(KeyCodeDef::Char('h'))), UIEvent::CleanSearch);
}

#[test]
fn default_window_layout_is_valid() {
    let ui = UiConfig::default_config();
    let layout = Layout::from_str(&ui.layout).unwrap();
    assert_eq!(layout.get_active_widget(), WidgetType::List);
}
