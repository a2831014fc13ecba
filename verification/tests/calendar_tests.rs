use todotxt_tui::calendar::load_calendar_text;
use todotxt_tui::config::ToDoConfig;
use todotxt_tui::date::Date;
use todotxt_tui::ical::{get_tag, IcalError};
use todotxt_tui::todo::ToDo;

const SAMPLE_ICS_1: &str = "\
BEGIN:VCALENDAR\r\n\
VERSION:2.0\r\n\
PRODID:-//Test//Test//EN\r\n\
BEGIN:VTODO\r\n\
 UID:test-uid-001\r\n\
DTSTAMP:20230501T120000Z\r\n\
SUMMARY:Buy groceries\r\n\
PRIORITY:1\r\n\
STATUS:NEEDS-ACTION\r\n\
DUE:20230630\r\n\
DTSTART:20230430\r\n\
CATEGORIES:+shopping\r\n\
CATEGORIES:@errands\r\n\
CATEGORIES:#urgent\r\n\
DESCRIPTION:Milk and eggs\r\n\
END:VTODO\r\n\
END:VCALENDAR\r\n";

const SAMPLE_ICS_2: &str = "\
BEGIN:VCALENDAR\r\n\
VERSION:2.0\r\n\
PRODID:-//Test//Test//EN\r\n\
BEGIN:VTODO\r\n\
 UID:test-uid-002\r\n\
DTSTAMP:20230501T120000Z\r\n\
SUMMARY:Clean house\r\n\
STATUS:COMPLETED\r\n\
COMPLETED:20230521T000000Z\r\n\
CATEGORIES:@home\r\n\
X-CUSTOM:preserved-value\r\n\
END:VTODO\r\n\
END:VCALENDAR\r\n";

const SAMPLE_ICS_MULTI: &str = "\
BEGIN:VCALENDAR\r\n\
VERSION:2.0\r\n\
PRODID:-//Test//Test//EN\r\n\
BEGIN:VTODO\r\n\
 UID:test-uid-001\r\n\
DTSTAMP:20230501T120000Z\r\n\
SUMMARY:Buy groceries\r\n\
PRIORITY:1\r\n\
STATUS:NEEDS-ACTION\r\n\
DUE:20230630\r\n\
DTSTART:20230430\r\n\
CATEGORIES:+shopping\r\n\
CATEGORIES:@errands\r\n\
CATEGORIES:#urgent\r\n\
DESCRIPTION:Milk and eggs\r\n\
END:VTODO\r\n\
BEGIN:VTODO\r\n\
 UID:test-uid-002\r\n\
DTSTAMP:20230501T120000Z\r\n\
SUMMARY:Clean house\r\n\
STATUS:COMPLETED\r\n\
COMPLETED:20230521T000000Z\r\n\
CATEGORIES:@home\r\n\
X-CUSTOM:preserved-value\r\n\
END:VTODO\r\n\
END:VCALENDAR\r\n";

fn date(year: i32, month: u32, day: u32) -> Date {
    Date { year, month, day }
}

#[test]
fn test_load_tasks() {
    let mut todo = ToDo::new(ToDoConfig::default());
    load_calendar_text(SAMPLE_ICS_1, &mut todo).unwrap();
    load_calendar_text(SAMPLE_ICS_2, &mut todo).unwrap();

    assert_eq!(todo.pending.len(), 1);
    assert_eq!(todo.done.len(), 1);

    let pending = &todo.pending[0];
    assert_eq!(pending.subject, "Buy groceries");
    assert_eq!(pending.priority, 0);
    assert!(!pending.finished);
    assert_eq!(pending.due_date, Some(date(2023, 6, 30)));
    assert_eq!(pending.create_date, Some(date(2023, 4, 30)));
    assert_eq!(pending.projects, vec!["shopping"]);
    assert_eq!(pending.contexts, vec!["errands"]);
    assert_eq!(pending.hashtags, vec!["urgent"]);
    assert_eq!(get_tag(&pending.tags, "_ical_uid"), Some("test-uid-001".to_string()));
    assert!(get_tag(&pending.tags, "_ical_vtodo").is_some());

    let done = &todo.done[0];
    assert_eq!(done.subject, "Clean house");
    assert!(done.finished);
    assert_eq!(done.finish_date, Some(date(2023, 5, 21)));
    assert_eq!(done.contexts, vec!["home"]);
    assert_eq!(get_tag(&done.tags, "_ical_uid"), Some("test-uid-002".to_string()));
}

#[test]
fn test_single_file_load_tasks() {
    let mut todo = ToDo::new(ToDoConfig::default());
    load_calendar_text(SAMPLE_ICS_MULTI, &mut todo).unwrap();
    assert_eq!(todo.pending.len(), 1);
    assert_eq!(todo.done.len(), 1);
    assert_eq!(todo.pending[0].subject, "Buy groceries");
    assert_eq!(todo.done[0].subject, "Clean house");
}

#[test]
fn text_that_is_no_calendar_is_refused() {
    let mut todo = ToDo::new(ToDoConfig::default());
    assert_eq!(load_calendar_text("no calendar here", &mut todo), Err(IcalError::BadCalendar));
    assert!(todo.pending.is_empty() && todo.done.is_empty());
}
