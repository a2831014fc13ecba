use todotxt_tui::config::ToDoConfig;
use todotxt_tui::defaults::default_list_shift;
use todotxt_tui::input::StateInput;
use todotxt_tui::file_worker::load_todotxt;
use todotxt_tui::task::Task;
use todotxt_tui::todo::{FilterState, ToDo};
use todotxt_tui::ui_event::UIEvent;
use todotxt_tui::widget_list::WidgetList;
use todotxt_tui::widget_state::{StateCategories, StateList};
use todotxt_tui::widget_type::{ToDoCategory, ToDoData, WidgetType};

fn testing_widget(len: usize) -> WidgetList {
    let mut widget = WidgetList::new(default_list_shift());
    widget.set_size(10);
    widget.len = len;
    widget
}

fn n_times(times: usize, func: fn(&mut WidgetList), s: &mut WidgetList) {
    for _ in 0..times {
        func(s)
    }
}

#[test]
fn movement_in_short_list() {
    let mut widget = testing_widget(5);

    assert_eq!(widget.index(), 0);
    assert_eq!(widget.act(), 0);
    assert_eq!(widget.first, 0);

    widget.down();
    assert_eq!(widget.index(), 1);
    assert_eq!(widget.act(), 1);
    assert_eq!(widget.first, 0);
}

#[test]
fn movement_basic() {
    let mut widget = testing_widget(50);

    assert_eq!(widget.index(), 0);
    assert_eq!(widget.act(), 0);
    assert_eq!(widget.first, 0);

    widget.down();
    assert_eq!(widget.index(), 1);
    assert_eq!(widget.act(), 1);
    assert_eq!(widget.first, 0);

    widget.down();
    assert_eq!(widget.index(), 2);
    assert_eq!(widget.act(), 2);
    assert_eq!(widget.first, 0);

    widget.up();
    assert_eq!(widget.index(), 1);
    assert_eq!(widget.act(), 1);
    assert_eq!(widget.first, 0);

    widget.down();
    assert_eq!(widget.index(), 2);
    assert_eq!(widget.act(), 2);
    assert_eq!(widget.first, 0);
}

#[test]
fn movement_full_list() {
    let mut widget = testing_widget(50);

    n_times(5, WidgetList::down, &mut widget);
    assert_eq!(widget.index(), 5);
    assert_eq!(widget.act(), 5);
    assert_eq!(widget.first, 0);

    widget.down();
    assert_eq!(widget.index(), 6);
    assert_eq!(widget.act(), 5);
    assert_eq!(widget.first, 1);

    widget.down();
    assert_eq!(widget.index(), 7);
    assert_eq!(widget.act(), 5);
    assert_eq!(widget.first, 2);

    n_times(50, WidgetList::down, &mut widget);
    assert_eq!(widget.index(), 49);
    assert_eq!(widget.act(), 9);
    assert_eq!(widget.first, 40);

    widget.up();
    assert_eq!(widget.index(), 48);
    assert_eq!(widget.act(), 8);
    assert_eq!(widget.first, 40);

    n_times(4, WidgetList::up, &mut widget);
    assert_eq!(widget.index(), 44);
    assert_eq!(widget.act(), 4);
    assert_eq!(widget.first, 40);

    widget.up();
    assert_eq!(widget.index(), 43);
    assert_eq!(widget.act(), 4);
    assert_eq!(widget.first, 39);

    n_times(39, WidgetList::up, &mut widget);
    assert_eq!(widget.index(), 4);
    assert_eq!(widget.act(), 4);
    assert_eq!(widget.first, 0);

    widget.up();
    assert_eq!(widget.index(), 3);
    assert_eq!(widget.act(), 3);
    assert_eq!(widget.first, 0);

    n_times(3, WidgetList::up, &mut widget);
    assert_eq!(widget.index(), 0);
    assert_eq!(widget.act(), 0);
    assert_eq!(widget.first, 0);
}

#[test]
fn move_task() {
    let mut widget = testing_widget(50);
    assert_eq!(widget.next(), Some((0, 1)));
    assert_eq!(widget.next(), Some((1, 2)));
    assert_eq!(widget.next(), Some((2, 3)));
    assert_eq!(widget.next(), Some((3, 4)));
    assert_eq!(widget.next(), Some((4, 5)));

    assert_eq!(widget.prev(), Some((5, 4)));
    assert_eq!(widget.prev(), Some((4, 3)));
    assert_eq!(widget.prev(), Some((3, 2)));
    assert_eq!(widget.prev(), Some((2, 1)));
    assert_eq!(widget.prev(), Some((1, 0)));

    widget.down();
    assert_eq!(widget.next(), Some((1, 2)));

    widget.up();
    assert_eq!(widget.next(), Some((1, 2)));

    widget.up();
    assert_eq!(widget.next(), Some((1, 2)));
}

#[test]
fn move_task_borders() {
    let mut widget = testing_widget(50);
    assert_eq!(widget.prev(), None);

    widget.down();
    assert_eq!(widget.prev(), Some((1, 0)));

    n_times(50, WidgetList::down, &mut widget);
    assert_eq!(widget.next(), None);

    widget.up();
    assert_eq!(widget.next(), Some((48, 49)));
}

#[test]
fn first_and_last_item() {
    let mut widget = testing_widget(50);
    widget.last();
    assert_eq!(widget.index(), 49);
    assert_eq!(widget.act(), 9);
    assert_eq!(widget.first, 40);

    widget.first();
    assert_eq!(widget.index(), 0);
    assert_eq!(widget.act(), 0);
    assert_eq!(widget.first, 0);

    let mut widget = testing_widget(5);
    widget.last();
    assert_eq!(widget.index(), 4);
    assert_eq!(widget.act(), 4);
    assert_eq!(widget.first, 0);

    widget.first();
    assert_eq!(widget.index(), 0);
    assert_eq!(widget.act(), 0);
    assert_eq!(widget.first, 0);
}

#[test]
fn range() {
    let widget = testing_widget(50);
    assert_eq!(widget.range(), (0, 10));
}

#[test]
fn handle_event() {
    let mut widget = testing_widget(50);
    assert!(widget.handle_event(UIEvent::ListDown));
    assert_eq!(widget.index(), 1);
    assert_eq!(widget.act(), 1);
    assert_eq!(widget.first, 0);

    assert!(widget.handle_event(UIEvent::ListUp));
    assert_eq!(widget.index(), 0);
    assert_eq!(widget.act(), 0);
    assert_eq!(widget.first, 0);

    assert!(widget.handle_event(UIEvent::ListLast));
    assert_eq!(widget.index(), 49);
    assert_eq!(widget.act(), 9);
    assert_eq!(widget.first, 40);

    assert!(widget.handle_event(UIEvent::ListFirst));
    assert_eq!(widget.index(), 0);
    assert_eq!(widget.act(), 0);
    assert_eq!(widget.first, 0);

    assert!(!widget.handle_event(UIEvent::NoEvent));
}

#[test]
fn down_and_up_times() {
    let mut widget = testing_widget(50);
    widget.down_times(7);
    assert_eq!(widget.index(), 7);
    widget.up_times(3);
    assert_eq!(widget.index(), 4);
}

fn filter_of(todo: &ToDo, category: ToDoCategory, name: &str) -> Option<FilterState> {
    todo.get_state()
        .get_category(category)
        .iter()
        .find(|(n, _)| n == name)
        .map(|(_, s)| *s)
}

#[test]
fn handle_event_state() {
    let mut todo = ToDo::new(ToDoConfig::default());
    todo.add_task(parse_line("Task +project1"));
    todo.add_task(parse_line("Task +project1"));
    todo.add_task(parse_line("Task +project2"));
    todo.add_task(parse_line("Task +project3"));

    let mut c = StateCategories::new(WidgetList::new(default_list_shift()), ToDoCategory::Projects);
    assert_eq!(c.widget_type(), WidgetType::Project);

    c.base.set_size(20);
    c.base.set_search(String::from("proj"));
    assert!(c.handle_event_state(UIEvent::NextSearch, &mut todo));
    assert_eq!(c.base.index(), 1);
    assert!(c.handle_event_state(UIEvent::NextSearch, &mut todo));
    assert_eq!(c.base.act(), 2);
    assert!(c.handle_event_state(UIEvent::NextSearch, &mut todo));
    assert_eq!(c.base.act(), 2);
    assert!(c.handle_event_state(UIEvent::NextSearch, &mut todo));
    assert_eq!(c.base.act(), 2);

    assert!(c.handle_event_state(UIEvent::PrevSearch, &mut todo));
    assert_eq!(c.base.act(), 1);
    assert!(c.handle_event_state(UIEvent::PrevSearch, &mut todo));
    assert_eq!(c.base.act(), 0);
    assert!(c.handle_event_state(UIEvent::PrevSearch, &mut todo));
    assert_eq!(c.base.act(), 0);

    c.base.clear_search();
    assert!(c.handle_event_state(UIEvent::NextSearch, &mut todo));
    assert_eq!(c.base.act(), 0);

    assert!(c.handle_event_state(UIEvent::Select, &mut todo));
    assert_eq!(
        filter_of(&todo, ToDoCategory::Projects, "project1"),
        Some(FilterState::Select)
    );

    assert!(c.handle_event_state(UIEvent::Remove, &mut todo));
    assert_eq!(
        filter_of(&todo, ToDoCategory::Projects, "project1"),
        Some(FilterState::Remove)
    );

    // Do nothing on unknown event
    assert!(!c.handle_event_state(UIEvent::Quit, &mut todo));
}

#[test]
fn list_search_follows_subjects() {
    let mut todo = ToDo::new(ToDoConfig::default());
    for line in ["buy milk", "call mom", "buy bread", "walk"] {
        todo.add_task(parse_line(line));
    }
    let mut l = StateList::new(WidgetList::new(default_list_shift()), ToDoData::Pending);
    assert_eq!(l.widget_type(), WidgetType::List);
    l.base.set_size(10);
    l.base.set_search(String::from("buy"));
    assert!(l.handle_event_state(UIEvent::NextSearch, &mut todo));
    assert_eq!(l.base.index(), 2);
    assert!(l.handle_event_state(UIEvent::NextSearch, &mut todo));
    assert_eq!(l.base.index(), 2);
    assert!(l.handle_event_state(UIEvent::PrevSearch, &mut todo));
    assert_eq!(l.base.index(), 0);
}

#[test]
fn list_events_edit_the_lists() {
    let mut todo = ToDo::new(ToDoConfig::default());
    for line in ["first", "second", "third"] {
        todo.add_task(parse_line(line));
    }
    let mut l = StateList::new(WidgetList::new(default_list_shift()), ToDoData::Pending);
    l.base.set_size(10);
    assert!(l.handle_event_state(UIEvent::ListDown, &mut todo));
    assert_eq!(todo.get_actual(ToDoData::Pending).unwrap().subject, "second");
    assert!(l.handle_event_state(UIEvent::SwapUpItem, &mut todo));
    assert_eq!(todo.pending[0].subject, "second");
    assert_eq!(todo.pending[1].subject, "first");
    assert!(l.handle_event_state(UIEvent::Select, &mut todo));
    assert_eq!(todo.get_active().unwrap().subject, "second");
    assert!(l.handle_event_state(UIEvent::MoveItem, &mut todo));
    assert_eq!(todo.done.len(), 1);
    assert_eq!(todo.done[0].subject, "second");
    assert!(todo.done[0].finished);
    assert!(l.handle_event_state(UIEvent::RemoveItem, &mut todo));
    assert_eq!(todo.pending.len(), 1);
    assert!(!l.handle_event_state(UIEvent::Quit, &mut todo));
}

const AUTOCOMPLETE_TASKS: &str = r#"
        1 +project1 @context1 #hashtag1 
        2 +project2 @context2
        3 +project3 @context3
        4 +name_project2 @context3 #hashtag1
        5 +name_project3 @context3 #hashtag2
        6 +unique @context2 #hashtag2
        "#;

fn autocomplete_case(todo: &ToDo, widget: &mut StateInput, input: &str, expected: &str) {
    widget.actual = String::from(input);
    widget.autocomplete(todo);
    assert_eq!(widget.actual, expected);
}

fn check_autocomplete() {
    let mut todo = ToDo::new(ToDoConfig::default());
    load_todotxt(AUTOCOMPLETE_TASKS, &mut todo);
    let mut widget = StateInput::new();

    autocomplete_case(&todo, &mut widget, "some text +missing", "some text +missing");
    autocomplete_case(&todo, &mut widget, "some text +pr", "some text +project");
    autocomplete_case(
        &todo,
        &mut widget,
        "some text +project1 +name",
        "some text +project1 +name_project",
    );
    autocomplete_case(&todo, &mut widget, "text +uni", "text +unique ");
    autocomplete_case(&todo, &mut widget, "+uni", "+unique ");
    autocomplete_case(&todo, &mut widget, "@con", "@context");
    autocomplete_case(&todo, &mut widget, "@context1", "@context1 ");
    autocomplete_case(&todo, &mut widget, "#hash", "#hashtag");
    autocomplete_case(&todo, &mut widget, "#hashtag2", "#hashtag2 ");
}

#[test]
fn state_input_test_autocomplete() {
    check_autocomplete();
}

#[test]
fn widget_state_test_autocomplete() {
    check_autocomplete();
}

fn parse_line(line: &str) -> Task {
    line.parse().unwrap()
}
