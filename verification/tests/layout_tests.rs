use todotxt_tui::holder::IItem;
use todotxt_tui::layout::{Constraint, Container, Direction, Item, Layout};
use todotxt_tui::layout_parser::{parse_layout, LayoutError};
use todotxt_tui::widget_type::WidgetType;
use todotxt_tui::widget_type::WidgetType::{Context, Done, List, Project};

fn mock_layout() -> Layout {
    let mock_layout = r#"
        [
            Direction: Horizontal,
            Size: 50%,
            [
                List: 50%,
                Preview,
            ],
            [ Direction: Vertical,
              Done,
              [
                Contexts,
                Projects,
              ],
            ],
        ]
        "#;
    Layout::from_str(mock_layout).unwrap()
}

fn testing_layout() -> Layout {
    Layout::from_str(
        r#"
            [
                Direction: Horizontal,
                Size: 30%,
                List: 50%,
                [
                    Direction: Vertical,
                    Done: 50%,
                    Projects: 50%,
                ],
            ]
            "#,
    )
    .unwrap()
}

fn check_active(layout: &Layout, widget_type: WidgetType) {
    match layout.act().get_active_type() {
        Some(active) if active == widget_type => {}
        Some(active) => panic!("Active widget must be {:?} not {:?}.", widget_type, active),
        None => panic!("Active item is not widget"),
    }
}

#[test]
fn test_basic_movement() {
    let mut l = mock_layout();
    assert_eq!(l.get_active_widget(), WidgetType::List);

    assert!(l.right());
    assert_eq!(l.get_active_widget(), WidgetType::Done);
    assert!(l.left());
    assert_eq!(l.get_active_widget(), WidgetType::List);
    assert!(l.right());
    assert_eq!(l.get_active_widget(), WidgetType::Done);
    assert!(!l.right());
    assert_eq!(l.get_active_widget(), WidgetType::Done);
    assert!(l.down());
    assert_eq!(l.get_active_widget(), WidgetType::Context);
    assert!(l.right());
    assert_eq!(l.get_active_widget(), WidgetType::Project);
    assert!(!l.down());
    assert_eq!(l.get_active_widget(), WidgetType::Project);
    assert!(l.left());
    assert_eq!(l.get_active_widget(), WidgetType::Context);
    assert!(l.left());
    assert_eq!(l.get_active_widget(), WidgetType::List);
    assert!(l.right());
    assert_eq!(l.get_active_widget(), WidgetType::Context);
    assert!(l.left());
    assert_eq!(l.get_active_widget(), WidgetType::List);
    assert!(!l.up());
    assert_eq!(l.get_active_widget(), WidgetType::List);
}

#[test]
fn test_from_string() {
    let str_layout = r#"
            [
              dIrEcTiOn:HoRiZoNtAl,
              Size: 50%,
              List: 50%,
              [
                Done,
                Hashtags: 50%,
              ],
              Projects: 50%,
            ]
        "#;

    let mut containers = parse_layout(str_layout).unwrap();
    assert_eq!(containers.len(), 2);

    assert_eq!(containers[0].get_direction(), Direction::Horizontal);
    assert_eq!(containers[0].parent, None);
    while containers[0].previous_item() {}
    assert_eq!(containers[0].get_active_type(), Some(WidgetType::List));
    assert!(containers[0].next_item());
    assert_eq!(containers[0].get_active_type(), None);
    assert!(containers[0].next_item());
    assert_eq!(containers[0].get_active_type(), Some(WidgetType::Project));
    assert!(!containers[0].next_item());

    assert_eq!(containers[1].get_direction(), Direction::Vertical);
    assert_eq!(containers[1].parent, Some(0));
    while containers[1].previous_item() {}
    assert_eq!(containers[1].get_active_type(), Some(WidgetType::Done));
    assert!(containers[1].next_item());
    assert_eq!(containers[1].get_active_type(), Some(WidgetType::Hashtag));
    assert!(!containers[1].next_item());

    let layout = Layout::from_str(str_layout).unwrap();
    assert_eq!(layout.len(), 2);
    assert_eq!(layout.get_active_widget(), WidgetType::List);
}

#[test]
fn sizes_and_constraints_are_read() {
    let containers = parse_layout("[Direction: Vertical, Size: 30, List: 40%, Done]").unwrap();
    assert_eq!(containers.len(), 1);
    assert_eq!(containers[0].get_direction(), Direction::Vertical);
    assert_eq!(
        containers[0].constraints,
        vec![Constraint::Percentage(40), Constraint::Percentage(50)]
    );
    let containers = parse_layout("[List: 7, [Done], Projects: 20%]").unwrap();
    assert_eq!(containers.len(), 2);
    assert_eq!(containers[0].get_direction(), Direction::Vertical);
    assert_eq!(containers[1].get_direction(), Direction::Horizontal);
    assert_eq!(
        containers[0].constraints,
        vec![
            Constraint::Length(7),
            Constraint::Percentage(50),
            Constraint::Percentage(20)
        ]
    );
}

#[test]
fn bad_templates_are_refused() {
    assert_eq!(parse_layout("List").unwrap_err(), LayoutError::Syntax);
    assert_eq!(parse_layout("[List").unwrap_err(), LayoutError::Syntax);
    assert_eq!(parse_layout("[Lists]").unwrap_err(), LayoutError::UnknownWidget);
    assert_eq!(parse_layout("[List: 70000]").unwrap_err(), LayoutError::SizeOverflow);
    assert_eq!(parse_layout("[List, []]").unwrap_err(), LayoutError::Syntax);
    assert_eq!(
        Layout::from_str("[List, [Direction: Vertical]]").unwrap_err(),
        LayoutError::EmptyBlock
    );
}

#[test]
fn test_selecting_widget() {
    let mut layout = testing_layout();
    for widget_type in [List, Done, Project] {
        layout.select_widget(widget_type);
        check_active(&layout, widget_type);
    }

    // If Context is not find it is not set.
    layout.select_widget(Context);
    check_active(&layout, Project);
}

#[test]
fn test_next_item() {
    let mut layout = testing_layout();

    // Test next widget in child container.
    layout.select_widget(List);
    assert!(layout.act_mut().next_item());
    layout.actualize_layout();
    check_active(&layout, Done);

    // Test next widget in same container.
    layout.select_widget(Done);
    assert!(layout.act_mut().next_item());
    layout.actualize_layout();
    check_active(&layout, Project);

    // Test next in container have not default value
    layout.select_widget(List);
    assert!(layout.act_mut().next_item());
    layout.actualize_layout();
    check_active(&layout, Project);

    // Test return value if there is no next item
    assert!(!layout.act_mut().next_item());
    layout.actualize_layout();
    assert!(!layout.act_mut().next_item());
    layout.actualize_layout();
    assert!(!layout.act_mut().next_item());
    layout.actualize_layout();
    assert_eq!(layout.act().act_index, 1);
    check_active(&layout, Project);
}

#[test]
fn test_previous_item() {
    let mut layout = testing_layout();

    // Test previous widget in same container.
    layout.select_widget(Project);
    assert!(layout.act_mut().previous_item());
    layout.actualize_layout();

    // Test return value if there is no previous item
    assert!(!layout.act_mut().previous_item());
    layout.actualize_layout();
    assert!(!layout.act_mut().previous_item());
    layout.actualize_layout();
    assert!(!layout.act_mut().previous_item());
    layout.actualize_layout();
    assert_eq!(layout.act().act_index, 0);
    check_active(&layout, Done);
}

#[test]
fn focus_follows_widgets_that_take_it() {
    let mut l = mock_layout();
    assert!(l.is_focused());
    l.unfocus();
    assert!(!l.is_focused());
    assert!(l.focus());
    assert!(l.is_focused());
    l.select_widget(WidgetType::Preview);
    assert_eq!(l.get_active_widget(), WidgetType::List);
}

#[test]
fn placing_a_container_records_its_parent() {
    let mut cs = vec![
        Container { items: vec![Item::Cont(1)], direction: Direction::Vertical, constraints: vec![], parent: None, act_index: 0 },
        Container { items: vec![Item::Widget(WidgetType::List)], direction: Direction::Horizontal, constraints: vec![], parent: None, act_index: 0 },
    ];
    let it = IItem::new(Item::Cont(1), 0, &mut cs);
    assert!(matches!(it, IItem::Container(1)));
    assert_eq!(cs[1].parent, Some(0));
    assert_eq!(cs[0].parent, None);
    let mut w = IItem::new(Item::Widget(WidgetType::List), 1, &mut cs);
    *w.actual_mut().unwrap() = WidgetType::Done;
    assert_eq!(*w.actual().unwrap(), WidgetType::Done);
    let mut c = IItem::new(Item::Cont(1), 0, &mut cs);
    assert!(c.actual_mut().is_err());
}
