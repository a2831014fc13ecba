use todotxt_tui::date::Date;
use todotxt_tui::ical::{
    build_categories, build_new_vtodo, extract_raw_vtodos, ical_priority_to_todotxt, load_tasks,
    parse_categories, raw_property_value, save_tasks, save_tasks_with, todotxt_priority_to_ical,
    update_vtodo_properties, vtodo_task, get_tag, IcalError,
};
use todotxt_tui::config::ToDoConfig;
use todotxt_tui::file_worker::{directory_load_plan, directory_save_plan, directory_save_plan_with};
use todotxt_tui::task::Task;
use todotxt_tui::todo::ToDo;
use todotxt_tui::vtodo::{increment_sequence, remove_property, set_or_update_property};

const SAMPLE_ICS: &str = "\
BEGIN:VCALENDAR\r\n\
VERSION:2.0\r\n\
PRODID:-//Test//Test//EN\r\n\
BEGIN:VTODO\r\n\
UID:test-uid-001\r\n\
DTSTAMP:20230501T120000Z\r\n\
SUMMARY:Buy groceries\r\n\
PRIORITY:1\r\n\
STATUS:NEEDS-ACTION\r\n\
DUE:20230630\r\n\
DTSTART:20230430\r\n\
CATEGORIES:+shopping,@errands,#urgent\r\n\
DESCRIPTION:Milk and eggs\r\n\
END:VTODO\r\n\
BEGIN:VTODO\r\n\
UID:test-uid-002\r\n\
DTSTAMP:20230501T120000Z\r\n\
SUMMARY:Clean house\r\n\
STATUS:COMPLETED\r\n\
COMPLETED:20230521T000000Z\r\n\
CATEGORIES:@home\r\n\
X-CUSTOM:preserved-value\r\n\
END:VTODO\r\n\
END:VCALENDAR\r\n";

fn date(year: i32, month: u32, day: u32) -> Date {
    Date { year, month, day }
}

fn tag(task: &Task, key: &str) -> Option<String> {
    get_tag(&task.tags, key)
}

#[test]
fn ical_test_priority_mapping() {
    assert_eq!(ical_priority_to_todotxt(1), 0);
    assert_eq!(ical_priority_to_todotxt(2), 1);
    assert_eq!(ical_priority_to_todotxt(3), 2);
    assert_eq!(ical_priority_to_todotxt(4), 3);
    assert_eq!(ical_priority_to_todotxt(5), 26);
    assert_eq!(ical_priority_to_todotxt(0), 26);

    assert_eq!(todotxt_priority_to_ical(0), Some(1));
    assert_eq!(todotxt_priority_to_ical(1), Some(2));
    assert_eq!(todotxt_priority_to_ical(3), Some(4));
    assert_eq!(todotxt_priority_to_ical(26), None);
}

#[test]
fn test_priority_mapping() {
    for (ical, todotxt) in [(1u32, 0u8), (2, 1), (3, 2), (4, 3)] {
        assert_eq!(ical_priority_to_todotxt(ical), todotxt);
        assert_eq!(todotxt_priority_to_ical(todotxt), Some(ical));
    }
    assert_eq!(ical_priority_to_todotxt(9), 26);
    assert_eq!(todotxt_priority_to_ical(4), None);
}

#[test]
fn test_categories_parsing() {
    let (projects, contexts, hashtags) = parse_categories("+work,@office,#urgent,plain");
    assert_eq!(projects, vec!["work"]);
    assert_eq!(contexts, vec!["office", "plain"]);
    assert_eq!(hashtags, vec!["urgent"]);
}

#[test]
fn categories_skip_empty_entries() {
    let (projects, contexts, hashtags) = parse_categories(" +a , ,@b,,");
    assert_eq!(projects, vec!["a"]);
    assert_eq!(contexts, vec!["b"]);
    assert!(hashtags.is_empty());
}

#[test]
fn test_categories_building() {
    let mut task = Task::empty();
    task.projects = vec!["work".to_string()];
    task.contexts = vec!["office".to_string()];
    task.hashtags = vec!["urgent".to_string()];
    assert_eq!(build_categories(&task), "+work,@office,#urgent");
    assert_eq!(build_categories(&Task::empty()), "");
}

#[test]
fn categories_round_trip() {
    let mut task = Task::empty();
    task.projects = vec!["a".to_string(), "b-c".to_string()];
    task.contexts = vec!["+odd".to_string()];
    task.hashtags = vec!["tag".to_string(), "".to_string()];
    let text = build_categories(&task);
    let (projects, contexts, hashtags) = parse_categories(&text);
    assert_eq!(projects, task.projects);
    assert_eq!(contexts, task.contexts);
    assert_eq!(hashtags, task.hashtags);
    assert_eq!(parse_categories(""), (vec![], vec![], vec![]));
}

#[test]
fn priority_round_trip() {
    for p in 0..=26u8 {
        if let Some(i) = todotxt_priority_to_ical(p) {
            assert_eq!(ical_priority_to_todotxt(i), p);
        }
    }
    for q in 1..=4u32 {
        assert_eq!(todotxt_priority_to_ical(ical_priority_to_todotxt(q)), Some(q));
    }
}

#[test]
fn raw_vtodos_are_extracted() {
    let raws = extract_raw_vtodos(SAMPLE_ICS);
    assert_eq!(raws.len(), 2);
    assert!(raws[0].starts_with("BEGIN:VTODO\r\nUID:test-uid-001\r\n"));
    assert!(raws[0].ends_with("END:VTODO\r\n"));
    assert!(raws[1].contains("X-CUSTOM:preserved-value\r\n"));
}

#[test]
fn property_values() {
    let raw = "BEGIN:VTODO\r\nDTSTART;VALUE=DATE:20230430\r\n  SUMMARY:Hello \r\nEND:VTODO\r\n";
    assert_eq!(raw_property_value(raw, "DTSTART").as_deref(), Some("20230430"));
    assert_eq!(raw_property_value(raw, "SUMMARY").as_deref(), Some("Hello"));
    assert_eq!(raw_property_value(raw, "DUE"), None);
}

#[test]
fn ical_test_load_tasks() {
    let mut todo = ToDo::new(ToDoConfig::default());
    load_tasks(SAMPLE_ICS, &mut todo);

    assert_eq!(todo.pending.len(), 1);
    assert_eq!(todo.done.len(), 1);

    let pending = &todo.pending[0];
    assert_eq!(pending.subject, "Buy groceries");
    assert_eq!(pending.priority, 0);
    assert!(!pending.finished);
    assert_eq!(pending.due_date, Some(date(2023, 6, 30)));
    assert_eq!(pending.create_date, Some(date(2023, 4, 30)));
    assert_eq!(pending.projects, vec!["shopping"]);
    assert_eq!(pending.contexts, vec!["errands"]);
    assert_eq!(pending.hashtags, vec!["urgent"]);
    assert_eq!(tag(pending, "_ical_uid"), Some("test-uid-001".to_string()));
    assert!(tag(pending, "_ical_vtodo").is_some());

    let done = &todo.done[0];
    assert_eq!(done.subject, "Clean house");
    assert!(done.finished);
    assert_eq!(done.finish_date, Some(date(2023, 5, 21)));
    assert_eq!(done.contexts, vec!["home"]);
    assert_eq!(tag(done, "_ical_uid"), Some("test-uid-002".to_string()));
}

#[test]
fn ical_test_save_new_tasks() {
    let mut task = parse_line("Buy milk +shopping @errands due:2023-06-30");
    task.priority = 0;
    let output = save_tasks(&[task]).unwrap();

    assert!(output.contains("BEGIN:VCALENDAR"));
    assert!(output.contains("BEGIN:VTODO"));
    assert!(output.contains("SUMMARY:Buy milk"));
    assert!(output.contains("PRIORITY:1"));
    assert!(output.contains("STATUS:NEEDS-ACTION"));
    assert!(output.contains("DUE:20230630"));
    assert!(output.contains("CATEGORIES:+shopping,@errands"));
    assert!(output.contains("UID:"));
    assert!(output.contains("END:VTODO"));
    assert!(output.contains("END:VCALENDAR"));
}

#[test]
fn ical_test_round_trip_preserves_properties() {
    let mut todo = ToDo::new(ToDoConfig::default());
    load_tasks(SAMPLE_ICS, &mut todo);
    todo.pending[0].subject = "Buy organic groceries".to_string();
    let output = save_tasks(&todo.pending).unwrap();
    assert!(output.contains("SUMMARY:Buy organic groceries"));
    assert!(output.contains("DESCRIPTION:Milk and eggs"), "DESCRIPTION should be preserved: {output}");
    assert!(output.contains("UID:test-uid-001"));
}

#[test]
fn ical_test_round_trip_preserves_custom_properties() {
    let mut todo = ToDo::new(ToDoConfig::default());
    load_tasks(SAMPLE_ICS, &mut todo);
    let output = save_tasks(&todo.done).unwrap();
    assert!(output.contains("X-CUSTOM:preserved-value"), "X-CUSTOM should be preserved: {output}");
}

#[test]
fn saving_with_given_times_is_exact() {
    let mut task = parse_line("Call mom");
    task.finished = true;
    task.finish_date = Some(date(2024, 1, 2));
    let out = save_tasks_with(&[task], &vec!["20240102T030405Z".to_string()], &vec!["uid-1".to_string()]).unwrap();
    assert_eq!(
        out,
        "BEGIN:VCALENDAR\nVERSION:2.0\nPRODID:-//todotxt-tui//EN\n\
         BEGIN:VTODO\r\nUID:uid-1\r\nDTSTAMP:20240102T030405Z\r\nSUMMARY:Call mom\r\n\
         STATUS:COMPLETED\r\nCOMPLETED:20240102T000000Z\r\nEND:VTODO\r\n\
         END:VCALENDAR\n"
    );
}

#[test]
fn update_rewrites_stored_vtodo() {
    let raws = extract_raw_vtodos(SAMPLE_ICS);
    let task = vtodo_task(&raws[0]);
    let out = update_vtodo_properties(&raws[0], &task, "20240101T000000Z");
    assert!(out.contains("SEQUENCE:1\r\n"));
    assert!(out.contains("LAST-MODIFIED:20240101T000000Z\r\n"));
    assert!(out.contains("DESCRIPTION:Milk and eggs\r\n"));
    assert!(out.ends_with("\r\n"));
    let again = update_vtodo_properties(&out, &task, "20240102T000000Z");
    assert!(again.contains("SEQUENCE:2\r\n"));
}

#[test]
fn new_vtodo_text() {
    let task = parse_line("(B) Write report +work");
    let text = build_new_vtodo(&task, "abc", "20240101T000000Z");
    assert_eq!(
        text,
        "BEGIN:VTODO\r\nUID:abc\r\nDTSTAMP:20240101T000000Z\r\nSUMMARY:Write report +work\r\nPRIORITY:2\r\nSTATUS:NEEDS-ACTION\r\nCATEGORIES:+work\r\nEND:VTODO\r\n"
    );
}

#[test]
fn bad_stored_vtodo_is_an_error() {
    let mut task = Task::empty();
    task.tags.push(("_ical_vtodo".to_string(), "not base64!".to_string()));
    assert_eq!(save_tasks(&[task]).unwrap_err(), IcalError::BadEncoding);
    let mut task = Task::empty();
    task.tags.push(("_ical_vtodo".to_string(), "/w==".to_string()));
    assert_eq!(save_tasks(&[task]).unwrap_err(), IcalError::NotUtf8);
}

#[test]
fn property_editing() {
    let mut lines: Vec<String> = vec!["BEGIN:VTODO", "SUMMARY:a", "DUE;VALUE=DATE:1", "END:VTODO"]
        .into_iter()
        .map(String::from)
        .collect();
    set_or_update_property(&mut lines, "SUMMARY", "b");
    set_or_update_property(&mut lines, "STATUS", "COMPLETED");
    remove_property(&mut lines, "DUE");
    increment_sequence(&mut lines);
    increment_sequence(&mut lines);
    assert_eq!(
        lines,
        vec!["BEGIN:VTODO", "SUMMARY:b", "STATUS:COMPLETED", "SEQUENCE:2", "END:VTODO"]
    );
}

fn parse_line(line: &str) -> Task {
    line.parse().unwrap()
}

#[test]
fn stray_end_lines_make_no_block() {
    assert!(extract_raw_vtodos("END:VTODO\r\n").is_empty());
    let text = "BEGIN:VTODO\r\nUID:a\r\nEND:VTODO\r\nEND:VTODO\r\n";
    let raws = extract_raw_vtodos(text);
    assert_eq!(raws, vec!["BEGIN:VTODO\r\nUID:a\r\nEND:VTODO\r\n".to_string()]);
}

#[test]
fn test_orphan_files_are_deleted() {
    let mut todo = ToDo::new(ToDoConfig::default());
    load_tasks(SAMPLE_ICS, &mut todo);
    let existing = vec![
        String::from("test-uid-001.ics"),
        String::from("test-uid-002.ics"),
        String::from("notes.txt"),
    ];
    let nows = vec![String::from("20240101T000000Z"); todo.pending.len()];
    let uids = vec![String::from("fresh"); todo.pending.len()];
    let (files, removed) = directory_save_plan_with(&todo.pending, &existing, &nows, &uids).unwrap();
    assert!(files.iter().any(|(name, _)| name == "test-uid-001.ics"));
    assert_eq!(removed, vec![String::from("test-uid-002.ics")], "Orphaned file should be removed");
}

#[test]
fn each_task_gets_a_file_with_one_vtodo() {
    let mut t = Task::empty();
    t.subject = String::from("water plants");
    let tasks = vec![t];
    let (files, removed) =
        directory_save_plan_with(&tasks, &Vec::new(), &vec![String::from("20240101T000000Z")], &vec![String::from("abc")])
            .unwrap();
    assert_eq!(files.len(), 1);
    assert_eq!(files[0].0, "abc.ics");
    assert!(files[0].1.starts_with("BEGIN:VCALENDAR\n"));
    assert!(files[0].1.ends_with("END:VCALENDAR\n"));
    assert_eq!(files[0].1.matches("BEGIN:VTODO").count(), 1);
    assert!(files[0].1.contains("SUMMARY:water plants"));
    assert!(removed.is_empty());
}

#[test]
fn a_task_without_identifier_gets_a_uuid_file_name() {
    let tasks = vec![Task::empty()];
    let (files, removed) = directory_save_plan(&tasks, &Vec::new()).unwrap();
    let name = &files[0].0;
    assert_eq!(name.len(), 40);
    assert!(name.ends_with(".ics"));
    for (i, c) in name.chars().take(36).enumerate() {
        if i == 8 || i == 13 || i == 18 || i == 23 {
            assert_eq!(c, '-');
        } else {
            assert!(c.is_ascii_hexdigit() && !c.is_ascii_uppercase());
        }
    }
    assert!(removed.is_empty());
}

#[test]
fn test_non_ics_files_ignored_on_load() {
    let names = vec![
        String::from("metadata.json"),
        String::from("test-uid-001.ics"),
        String::from(".vdirsyncer_status"),
        String::from(".ics"),
    ];
    assert_eq!(directory_load_plan(&names), vec![String::from("test-uid-001.ics")]);
}
