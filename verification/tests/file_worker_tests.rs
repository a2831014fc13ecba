use todotxt_tui::config::ToDoConfig;
use todotxt_tui::file_worker::{
    expand_paths, load_todotxt, new_file_format, save_todotxt, FileFormatError, FileWorkerCommands,
    FileWorkerConfig, FormatKind, WorkerAction, WorkerState,
};
use todotxt_tui::options::SavePolicy;
use todotxt_tui::todo::{ToDo, Version};

const TESTING_STRING: &str = r#"
        x (A) 2023-05-21 2023-04-30 measure space for 1 +project1 @context1 #hashtag1 due:2023-06-30
                         2023-04-30 measure space for 2 +project2 @context2           due:2023-06-30
                     (C) 2023-04-30 measure space for 3 +project3 @context3           due:2023-06-30
                                    measure space for 4 +project2 @context3 #hashtag1 due:2023-06-30
                                  x measure space for 5 +project3 @context3 #hashtag2 due:2023-06-30
                                    measure space for 6 +project3 @context2 #hashtag2 due:2023-06-30
        "#;

fn config(todo_path: &str, archive_path: Option<&str>) -> FileWorkerConfig {
    FileWorkerConfig {
        todo_path: String::from(todo_path),
        archive_path: archive_path.map(String::from),
        save_policy: SavePolicy::AutoSave,
        autosave_duration: 900,
        file_watcher: true,
    }
}

#[test]
fn todotxt_test_load_tasks() {
    let mut todo = ToDo::new(ToDoConfig::default());
    load_todotxt(TESTING_STRING, &mut todo);
    assert_eq!(todo.pending.len(), 4);
    assert_eq!(todo.done.len(), 2);
    assert_eq!(todo.pending[0].subject, "measure space for 2 +project2 @context2");
    assert_eq!(todo.pending[1].subject, "measure space for 3 +project3 @context3");
    assert_eq!(todo.pending[1].priority, 2);
    assert_eq!(
        todo.pending[2].subject,
        "measure space for 4 +project2 @context3 #hashtag1"
    );
    assert_eq!(
        todo.pending[3].subject,
        "measure space for 6 +project3 @context2 #hashtag2"
    );
    assert_eq!(
        todo.done[0].subject,
        "measure space for 1 +project1 @context1 #hashtag1"
    );
    assert_eq!(
        todo.done[1].subject,
        "measure space for 5 +project3 @context3 #hashtag2"
    );
}

fn expected_lines(done: bool) -> String {
    TESTING_STRING
        .trim()
        .lines()
        .map(|line| line.split_whitespace().collect::<Vec<_>>().join(" "))
        .filter(|line| line.starts_with("x ") == done)
        .collect::<Vec<String>>()
        .join("\n")
        + "\n"
}

#[test]
fn test_save_tasks() {
    let mut todo = ToDo::new(ToDoConfig::default());
    load_todotxt(TESTING_STRING, &mut todo);
    assert_eq!(save_todotxt(&todo.pending), expected_lines(false));
    assert_eq!(save_todotxt(&todo.done), expected_lines(true));
}

#[test]
fn save_of_nothing_is_empty() {
    assert_eq!(save_todotxt(&[]), "");
}

#[test]
fn new_expand_env() {
    let c = expand_paths(config("$HOME/test", Some("plain/archive.txt"))).unwrap();
    assert!(c.todo_path.ends_with("/test"));
    assert!(!c.todo_path.contains('$'));
    assert_eq!(c.archive_path, Some(String::from("plain/archive.txt")));
    assert!(expand_paths(config("$TODO_TUI_SURELY_UNSET_VARIABLE/x", None)).is_err());
    let c = expand_paths(config("todo.txt", None)).unwrap();
    assert_eq!(c.todo_path, "todo.txt");
    assert_eq!(c.archive_path, None);
}

#[test]
fn format_mismatch_rejected() {
    let c = config("todo.ics", Some("archive.txt"));
    assert_eq!(new_file_format(&c, false), Err(FileFormatError::ArchiveWithICal));
    assert_eq!(
        new_file_format(&config("tasks", Some("archive.txt")), true),
        Err(FileFormatError::ArchiveWithICal)
    );
}

#[test]
fn storage_is_chosen_by_path() {
    assert_eq!(new_file_format(&config("todo.ics", None), false), Ok(FormatKind::ICalSingleFile));
    assert_eq!(new_file_format(&config("tasks", None), true), Ok(FormatKind::ICalDirectory));
    assert_eq!(
        new_file_format(&config("todo.txt", Some("done.txt")), false),
        Ok(FormatKind::TodoTxt)
    );
    assert_eq!(new_file_format(&config(".ics", None), false), Ok(FormatKind::TodoTxt));
}

#[test]
fn worker_skips_saves_without_changes() {
    let mut state = WorkerState::new((1, 1));
    let same = Version { pending: 1, done: 1 };
    let changed = Version { pending: 2, done: 1 };
    assert_eq!(state.handle(FileWorkerCommands::Save, &same, true), WorkerAction::Nothing);
    assert_eq!(state.save_queue, 0);
    assert_eq!(state.handle(FileWorkerCommands::Save, &changed, true), WorkerAction::Save);
    assert_eq!(state.save_queue, 2);
    assert_eq!(state.handle(FileWorkerCommands::Load, &changed, true), WorkerAction::Nothing);
    assert_eq!(state.handle(FileWorkerCommands::Load, &changed, true), WorkerAction::Nothing);
    assert_eq!(state.handle(FileWorkerCommands::Load, &changed, true), WorkerAction::LoadAndRecord);
    state.record(&changed);
    assert_eq!(state.versions, (2, 1));
    assert_eq!(
        state.handle(FileWorkerCommands::ForceSave, &changed, false),
        WorkerAction::SaveAndRecord
    );
    assert_eq!(state.save_queue, 1);
    assert_eq!(state.handle(FileWorkerCommands::Exit, &changed, false), WorkerAction::Stop);
}

#[test]
fn a_save_after_a_recorded_forced_save_writes_nothing() {
    let mut state = WorkerState::new((0, 0));
    let v = Version { pending: 5, done: 2 };
    assert_eq!(state.handle(FileWorkerCommands::ForceSave, &v, false), WorkerAction::SaveAndRecord);
    state.record(&v);
    assert_eq!(state.handle(FileWorkerCommands::Save, &v, false), WorkerAction::Nothing);
    let w = Version { pending: 6, done: 2 };
    assert_eq!(state.handle(FileWorkerCommands::Save, &w, false), WorkerAction::Save);
}
