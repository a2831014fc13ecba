use todotxt_tui::conf::Config;
use todotxt_tui::keys::{KeyCodeDef, KeyShortcut, SHIFT};
use todotxt_tui::options::WidgetBorderType;
use todotxt_tui::style::Color;
use todotxt_tui::ui_event::UIEvent;
use todotxt_tui::widget_state::{new_widget, WidgetBase, WidgetState};
use todotxt_tui::widget_state::{ActivePreview, DoneActualPreview, PendingActualPreview, StatePreview};
use todotxt_tui::widget_type::WidgetType;

#[test]
fn pending_live_preview_widget_type() {
    let preview = StatePreview::<PendingActualPreview>::new(String::from("$subject"), true);
    assert_eq!(preview.widget_type(), WidgetType::PendingLivePreview);
}

#[test]
fn done_live_preview_widget_type() {
    let preview = StatePreview::<DoneActualPreview>::new(String::from("$subject"), true);
    assert_eq!(preview.widget_type(), WidgetType::DoneLivePreview);
}

#[test]
fn active_preview_widget_type() {
    let preview = StatePreview::<ActivePreview>::new(String::from("$subject"), true);
    assert_eq!(preview.widget_type(), WidgetType::Preview);
}

#[test]
fn new_widgets_have_their_type() {
    let config = Config::default_with_home(Some("/home/me"));
    let preview = &config.preview_config;
    for t in [
        WidgetType::List,
        WidgetType::Done,
        WidgetType::Project,
        WidgetType::Context,
        WidgetType::Hashtag,
        WidgetType::Preview,
        WidgetType::PendingLivePreview,
        WidgetType::DoneLivePreview,
    ] {
        let w = new_widget(t, &config);
        assert_eq!(w.state.widget_type(), t);
        assert!(!w.base.focus);
        assert_eq!(w.base.border_type, WidgetBorderType::Rounded);
        assert_eq!(w.base.active_color, Color::Red);
        match w.state {
            WidgetState::List(l) => assert_eq!(l.base.list_shift, 4),
            WidgetState::Categories(c) => assert_eq!(c.base.selected, Some(0)),
            WidgetState::Preview(p) => assert!(p.wrap_preview),
            WidgetState::PendingLivePreview(p) => assert_eq!(p.preview_format, preview.preview_format),
            WidgetState::DoneLivePreview(p) => assert_eq!(p.preview_format, preview.preview_format),
        }
    }
}

#[test]
fn new_done_widget_is_titled_done() {
    let config = Config::default_with_home(None);
    let w = new_widget(WidgetType::Done, &config);
    assert_eq!(w.state.widget_type(), WidgetType::Done);
    assert_eq!(w.base.title, "done");
    assert!(!w.base.focus);
}

#[test]
fn new_widgets_take_the_configured_bindings() {
    let config = Config::default_with_home(None);
    let list = new_widget(WidgetType::List, &config);
    assert_eq!(list.base.title, "list");
    assert_eq!(
        list.base.event_handler.get_event(KeyShortcut::new(KeyCodeDef::Char('u'), SHIFT)),
        UIEvent::SwapUpItem
    );
    assert_eq!(list.base.event_handler.get_event(KeyShortcut::key(KeyCodeDef::Char('x'))), UIEvent::RemoveItem);
    let projects = new_widget(WidgetType::Project, &config);
    assert_eq!(projects.base.title, "project");
    assert_eq!(projects.base.event_handler.get_event(KeyShortcut::key(KeyCodeDef::Backspace)), UIEvent::Remove);
    assert_eq!(projects.base.event_handler.get_event(KeyShortcut::key(KeyCodeDef::Char('x'))), UIEvent::NoEvent);
    let preview = new_widget(WidgetType::Preview, &config);
    assert_eq!(preview.base.title, "preview");
    assert!(preview.base.event_handler.events.is_empty());
}

#[test]
fn events_builder_sets_handler_and_title() {
    let config = Config::default_with_home(None);
    let handler = config.widget_base_config.category_keybind.copy();
    let base = WidgetBase::new(String::from("my widget"), &config).events(handler.copy());
    assert_eq!(base.title, "my widget");
    assert_eq!(base.event_handler.events, handler.events);
}
