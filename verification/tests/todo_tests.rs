use todotxt_tui::config::ToDoConfig;
use todotxt_tui::date::Date;
use todotxt_tui::options::SetFinalDateType;
use todotxt_tui::task::{Task, LOWEST_PRIORITY};
use todotxt_tui::todo::{FilterState, ToDo};
use todotxt_tui::widget_type::{ToDoCategory, ToDoData};

fn date(year: i32, month: u32, day: u32) -> Date {
    Date { year, month, day }
}

fn example_todo() -> ToDo {
    let mut todo = ToDo::new(ToDoConfig::default());

    let mut task = parse_line("measure space for 1 +project1 @context1 #hashtag1");
    task.finished = true;
    task.priority = 0;
    task.create_date = Some(date(2023, 4, 30));
    task.finish_date = Some(date(2023, 5, 21));
    task.due_date = Some(date(2023, 6, 30));
    todo.add_task(task);

    let mut task = parse_line("measure space for 2 +project2 @context2");
    task.create_date = Some(date(2023, 4, 30));
    task.due_date = Some(date(2023, 6, 30));
    todo.add_task(task);

    let mut task = parse_line("measure space for 3 +project3 @context3");
    task.priority = 2;
    task.create_date = Some(date(2023, 4, 30));
    task.due_date = Some(date(2023, 6, 30));
    todo.add_task(task);

    let mut task = parse_line("measure space for +project2 @context3 #hashtag1");
    task.due_date = Some(date(2023, 6, 30));
    todo.add_task(task);

    let mut task = parse_line("measure space for 5 +project3 @context3 #hashtag2");
    task.finished = true;
    task.due_date = Some(date(2023, 6, 30));
    todo.add_task(task);

    let mut task = parse_line("measure space for 6 +project3 @context2 #hashtag2");
    task.due_date = Some(date(2023, 6, 30));
    todo.add_task(task);

    todo
}

/// Sets a filter the way a map insert does: a name already there takes the new state.
fn insert_filter(filters: &mut Vec<(String, FilterState)>, name: &str, state: FilterState) {
    match filters.iter_mut().find(|(n, _)| n == name) {
        Some(entry) => entry.1 = state,
        None => filters.push((String::from(name), state)),
    }
}

fn subjects(todo: &ToDo, data: ToDoData) -> Vec<String> {
    let list = match data {
        ToDoData::Pending => &todo.pending,
        ToDoData::Done => &todo.done,
    };
    todo.get_filtered_and_sorted(data)
        .into_iter()
        .map(|i| list[i].subject.clone())
        .collect()
}

fn active_subject(todo: &ToDo) -> Option<String> {
    todo.get_active().map(|t: &Task| t.subject.clone())
}

#[test]
fn test_add_task() {
    let mut todo = example_todo();
    todo.config.use_done = true;

    assert_eq!(todo.done.len(), 2);
    assert_eq!(todo.pending.len(), 4);

    assert_eq!(todo.done[0].priority, 0);
    assert!(todo.done[0].create_date.is_some());
    assert!(todo.done[0].finish_date.is_some());
    assert!(todo.done[0].finished);
    assert_eq!(todo.done[0].threshold_date, None);
    assert!(todo.done[0].due_date.is_some());
    assert_eq!(todo.done[0].contexts.len(), 1);
    assert_eq!(todo.done[0].projects.len(), 1);
    assert_eq!(todo.done[0].hashtags.len(), 1);

    assert!(todo.pending[0].is_lowest());
    assert_eq!(todo.pending[0].priority, LOWEST_PRIORITY);
    assert!(todo.pending[0].create_date.is_some());
    assert!(todo.pending[0].finish_date.is_none());
    assert!(!todo.pending[0].finished);
    assert_eq!(todo.pending[0].threshold_date, None);
    assert!(todo.pending[0].due_date.is_some());
    assert_eq!(todo.pending[0].contexts.len(), 1);
    assert_eq!(todo.pending[0].projects.len(), 1);
    assert_eq!(todo.pending[0].hashtags.len(), 0);

    assert_eq!(todo.pending[1].priority, 2);
    assert!(todo.pending[1].create_date.is_some());
    assert!(todo.pending[1].finish_date.is_none());
    assert!(!todo.pending[1].finished);
    assert_eq!(todo.pending[1].threshold_date, None);
    assert!(todo.pending[1].due_date.is_some());
    assert_eq!(todo.pending[1].contexts.len(), 1);
    assert_eq!(todo.pending[1].projects.len(), 1);
    assert_eq!(todo.pending[1].hashtags.len(), 0);
}

fn category_names(todo: &ToDo, category: ToDoCategory) -> Vec<(String, Option<FilterState>)> {
    todo.get_categories(category).vec
}

fn unfiltered(items: &[&str]) -> Vec<(String, Option<FilterState>)> {
    items.iter().map(|s| (String::from(*s), None)).collect()
}

#[test]
fn test_categeries_list() {
    let mut todo = example_todo();
    assert_eq!(
        category_names(&todo, ToDoCategory::Projects),
        unfiltered(&["project2", "project3"])
    );
    assert_eq!(
        category_names(&todo, ToDoCategory::Contexts),
        unfiltered(&["context2", "context3"])
    );
    assert_eq!(
        category_names(&todo, ToDoCategory::Hashtags),
        unfiltered(&["hashtag1", "hashtag2"])
    );

    todo.config.use_done = true;
    assert_eq!(
        category_names(&todo, ToDoCategory::Projects),
        unfiltered(&["project1", "project2", "project3"])
    );
    assert_eq!(
        category_names(&todo, ToDoCategory::Contexts),
        unfiltered(&["context1", "context2", "context3"])
    );
    assert_eq!(
        category_names(&todo, ToDoCategory::Hashtags),
        unfiltered(&["hashtag1", "hashtag2"])
    );
}

#[test]
fn categories_show_their_filters() {
    let mut todo = example_todo();
    todo.toggle_filter(ToDoCategory::Projects, "project9", FilterState::Remove);
    todo.toggle_filter(ToDoCategory::Projects, "project2", FilterState::Select);
    assert_eq!(
        category_names(&todo, ToDoCategory::Projects),
        vec![
            (String::from("project2"), Some(FilterState::Select)),
            (String::from("project3"), None),
            (String::from("project9"), Some(FilterState::Remove)),
        ]
    );
}

#[test]
fn test_filtering() {
    let mut todo = ToDo::new(ToDoConfig::default());
    for line in [
        "task 1",
        "task 2 +project1",
        "task 3 +project1 +project2",
        "task 4 +project1 +project3",
        "task 5 +project1 +project2 +project3",
        "task 6 +project3 @context2 #hashtag2 #hashtag1",
        "task 7 +project2 @context1 #hashtag1 #hashtag2",
        "task 8 +project2 @context2",
        "task 9 +projects3 @context3",
        "task 10 +project2 @context3 #hashtag1 #hashtag2",
        "task 11 +project3 @context3 #hashtag2 #hashtag3",
        "task 12 +project3 @context2 #hashtag2",
    ] {
        todo.add_task(parse_line(line));
    }

    let filtered = todo.get_filtered_and_sorted(ToDoData::Pending);
    assert_eq!(filtered.len(), 12);

    insert_filter(&mut todo.state.project_filters, "project9999", FilterState::Select);
    let filtered = todo.get_filtered_and_sorted(ToDoData::Pending);
    assert_eq!(filtered.len(), 0);

    todo.state.project_filters.clear();
    insert_filter(&mut todo.state.project_filters, "project1", FilterState::Select);
    assert_eq!(
        subjects(&todo, ToDoData::Pending),
        vec![
            "task 2 +project1",
            "task 3 +project1 +project2",
            "task 4 +project1 +project3",
            "task 5 +project1 +project2 +project3",
        ]
    );

    insert_filter(&mut todo.state.project_filters, "project2", FilterState::Select);
    assert_eq!(
        subjects(&todo, ToDoData::Pending),
        vec!["task 3 +project1 +project2", "task 5 +project1 +project2 +project3"]
    );

    insert_filter(&mut todo.state.project_filters, "project3", FilterState::Select);
    assert_eq!(
        subjects(&todo, ToDoData::Pending),
        vec!["task 5 +project1 +project2 +project3"]
    );

    insert_filter(&mut todo.state.project_filters, "project1", FilterState::Select);
    assert_eq!(
        subjects(&todo, ToDoData::Pending),
        vec!["task 5 +project1 +project2 +project3"]
    );

    todo.state.project_filters.clear();
    insert_filter(&mut todo.state.context_filters, "context1", FilterState::Select);
    assert_eq!(
        subjects(&todo, ToDoData::Pending),
        vec!["task 7 +project2 @context1 #hashtag1 #hashtag2"]
    );

    todo.state.context_filters.clear();
    insert_filter(&mut todo.state.hashtag_filters, "hashtag2", FilterState::Remove);
    assert_eq!(todo.len(ToDoData::Pending), 7);
}

#[test]
fn actual_consistency_move() {
    let mut todo = example_todo();
    todo.set_active(ToDoData::Pending, 2);
    let subject = active_subject(&todo).unwrap();
    // Item after
    todo.move_task(ToDoData::Pending, 3);
    assert_eq!(active_subject(&todo).unwrap(), subject);

    // Item before
    todo.move_task(ToDoData::Pending, 0);
    assert_eq!(active_subject(&todo).unwrap(), subject);

    // Active item
    todo.move_task(ToDoData::Pending, 1);
    assert!(todo.get_active().is_none());
}

#[test]
fn actual_consistency_remove() {
    let mut todo = example_todo();
    todo.set_active(ToDoData::Pending, 2);
    let subject = active_subject(&todo).unwrap();
    // Item after
    todo.remove_task(ToDoData::Pending, 3);
    assert_eq!(active_subject(&todo).unwrap(), subject);

    // Item before
    todo.remove_task(ToDoData::Pending, 0);
    assert_eq!(active_subject(&todo).unwrap(), subject);

    // Active item
    todo.remove_task(ToDoData::Pending, 1);
    assert!(todo.get_active().is_none());
}

#[test]
fn actual_consistency_swap() {
    let mut todo = example_todo();
    todo.set_active(ToDoData::Pending, 2);
    let subject = active_subject(&todo).unwrap();
    // Item outside
    todo.swap_tasks(ToDoData::Pending, 0, 1);
    assert_eq!(active_subject(&todo).unwrap(), subject);

    // Item from
    todo.swap_tasks(ToDoData::Pending, 2, 0);
    assert_eq!(active_subject(&todo).unwrap(), subject);

    // Item to
    todo.swap_tasks(ToDoData::Pending, 1, 2);
    assert_eq!(active_subject(&todo).unwrap(), subject);
}

#[test]
fn move_data() {
    let todo = example_todo();
    let mut empty = ToDo::new(ToDoConfig::default());
    assert!(empty.pending.is_empty());
    assert!(empty.done.is_empty());
    empty.move_data(example_todo());
    let lines = |v: &Vec<Task>| v.iter().map(|t| format!("{:?}", t)).collect::<Vec<_>>();
    assert_eq!(lines(&todo.pending), lines(&empty.pending));
    assert_eq!(lines(&todo.done), lines(&empty.done));
}

#[test]
fn version() {
    let mut todo = ToDo::new(ToDoConfig::default());
    assert!(todo.get_version().is_actual(0, ToDoData::Pending));
    assert!(todo.get_version().is_actual(0, ToDoData::Done));
    todo.move_data(example_todo());
    assert!(todo.get_version().is_actual(1, ToDoData::Pending));
    assert!(todo.get_version().is_actual(1, ToDoData::Done));
    todo.move_task(ToDoData::Done, 1);
    assert!(todo.get_version().is_actual(2, ToDoData::Pending));
    assert!(todo.get_version().is_actual(2, ToDoData::Done));
    todo.add_task(parse_line("Some simple task"));
    assert!(todo.get_version().is_actual(3, ToDoData::Pending));
    assert!(todo.get_version().is_actual(2, ToDoData::Done));
    todo.add_task(parse_line("x Some simple task"));
    assert!(todo.get_version().is_actual(3, ToDoData::Pending));
    assert!(todo.get_version().is_actual(3, ToDoData::Done));
    assert!(todo.get_version().is_actual_all((3, 3)));
}

fn filter_of(filters: &Vec<(String, FilterState)>, name: &str) -> Option<FilterState> {
    filters.iter().find(|(n, _)| n == name).map(|(_, s)| *s)
}

#[test]
fn toggle_filter() {
    let mut todo = example_todo();
    assert!(todo.state.project_filters.is_empty());
    todo.toggle_filter(ToDoCategory::Projects, "project1", FilterState::Select);
    assert_eq!(
        filter_of(&todo.state.project_filters, "project1"),
        Some(FilterState::Select)
    );
    assert_eq!(todo.state.project_filters.len(), 1);
    todo.toggle_filter(ToDoCategory::Projects, "project1", FilterState::Select);
    assert!(todo.state.project_filters.is_empty());

    todo.toggle_filter(ToDoCategory::Contexts, "context1", FilterState::Select);
    assert_eq!(
        filter_of(&todo.state.context_filters, "context1"),
        Some(FilterState::Select)
    );
    assert_eq!(todo.state.context_filters.len(), 1);
    todo.toggle_filter(ToDoCategory::Contexts, "context1", FilterState::Select);
    assert!(todo.state.context_filters.is_empty());

    todo.toggle_filter(ToDoCategory::Hashtags, "hashtag1", FilterState::Select);
    assert_eq!(
        filter_of(&todo.state.hashtag_filters, "hashtag1"),
        Some(FilterState::Select)
    );
    assert_eq!(todo.state.hashtag_filters.len(), 1);
    todo.toggle_filter(ToDoCategory::Hashtags, "hashtag1", FilterState::Select);
    assert!(todo.state.hashtag_filters.is_empty());
}

#[test]
fn toggle_filter_switches_state() {
    let mut todo = example_todo();
    todo.toggle_filter(ToDoCategory::Projects, "project1", FilterState::Select);
    todo.toggle_filter(ToDoCategory::Projects, "project1", FilterState::Remove);
    assert_eq!(
        filter_of(&todo.state.project_filters, "project1"),
        Some(FilterState::Remove)
    );
    assert_eq!(todo.state.project_filters.len(), 1);
}

#[test]
fn new_task() {
    let mut todo = ToDo::new(ToDoConfig::default());
    todo.new_task("Some pending task");
    assert_eq!(todo.pending.len(), 1);
    assert_eq!(todo.pending[0].subject, "Some pending task");
    assert!(todo.pending[0].create_date.is_some());
    todo.new_task("x Some done task");
    assert_eq!(todo.done.len(), 1);
    assert_eq!(todo.done[0].subject, "Some done task");
}

#[test]
fn new_task_fills_in_due_today() {
    let mut todo = ToDo::new(ToDoConfig::default());
    let day = date(2024, 2, 29);
    todo.new_task_on("Pay rent due: ", day);
    assert_eq!(todo.pending[0].due_date, Some(day));
    assert_eq!(todo.pending[0].create_date, Some(day));
    todo.new_task_on("2020-01-02 Call home due:today ", day);
    assert_eq!(todo.pending[1].due_date, Some(day));
    assert_eq!(todo.pending[1].create_date, Some(date(2020, 1, 2)));
}

#[test]
fn update_active() {
    let mut todo = example_todo();
    todo.state.active = Some((ToDoData::Pending, 0));
    todo.update_active("New subject");
    assert_eq!(todo.pending[0].subject, "New subject");

    todo.state.active = Some((ToDoData::Done, 0));
    todo.update_active("New done subject");
    assert_eq!(todo.done[0].subject, "New done subject");
}

#[test]
fn update_finish_date() {
    let mut todo = example_todo();

    todo.config.set_final_date = SetFinalDateType::OnlyMissing;
    assert_eq!(todo.pending[0].finish_date, None);
    todo.move_task(ToDoData::Pending, 0);
    assert_eq!(todo.done.last().unwrap().finish_date, Some(ToDo::get_actual_date()));

    todo.config.set_final_date = SetFinalDateType::Never;
    assert_eq!(todo.pending[0].finish_date, None);
    todo.move_task(ToDoData::Pending, 0);
    assert_eq!(todo.done.last().unwrap().finish_date, None);

    todo.config.set_final_date = SetFinalDateType::Override;
    todo.pending[0].finish_date = Some(date(2023, 4, 30));
    todo.move_task(ToDoData::Pending, 0);
    assert_eq!(todo.done.last().unwrap().finish_date, Some(ToDo::get_actual_date()));

    todo.config.delete_final_date = true;
    todo.done[0].finish_date = Some(date(2023, 4, 30));
    todo.move_task(ToDoData::Done, 0);
    assert_eq!(todo.pending.last().unwrap().finish_date, None);

    todo.config.delete_final_date = false;
    let day = Some(date(2023, 4, 30));
    todo.done[0].finish_date = day;
    todo.move_task(ToDoData::Done, 0);
    assert_eq!(todo.pending.last().unwrap().finish_date, day);
}

#[test]
fn moving_with_a_given_day_sets_it() {
    let mut todo = example_todo();
    let day = date(2024, 1, 31);
    todo.move_task_on(ToDoData::Pending, 0, day);
    assert_eq!(todo.done.last().unwrap().finish_date, Some(day));
    assert!(todo.done.last().unwrap().finished);
    assert_eq!(todo.pending.len(), 3);
}

fn parse_line(line: &str) -> Task {
    line.parse().unwrap()
}

#[test]
fn active_task_of_the_other_list_stays() {
    let mut todo = example_todo();
    todo.set_active(ToDoData::Done, 1);
    let subject = active_subject(&todo).unwrap();
    todo.remove_task(ToDoData::Pending, 0);
    assert_eq!(active_subject(&todo).unwrap(), subject);
    todo.move_task(ToDoData::Pending, 0);
    assert_eq!(active_subject(&todo).unwrap(), subject);
    todo.swap_tasks(ToDoData::Pending, 0, 1);
    assert_eq!(active_subject(&todo).unwrap(), subject);
    assert_eq!(todo.state.active, Some((ToDoData::Done, 1)));
}
