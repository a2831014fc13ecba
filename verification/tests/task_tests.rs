use todotxt_tui::date::Date;
use todotxt_tui::due::add_days;
use todotxt_tui::task::parse_task;

fn date(year: i32, month: u32, day: u32) -> Date {
    Date { year, month, day }
}

#[test]
fn absolute_due_and_threshold_dates() {
    let t = parse_task("call mum due:2023-06-30 t:2023-06-01 +family", date(2024, 1, 1));
    assert_eq!(t.subject, "call mum +family");
    assert_eq!(t.due_date, Some(date(2023, 6, 30)));
    assert_eq!(t.threshold_date, Some(date(2023, 6, 1)));
    assert_eq!(t.projects, vec![String::from("family")]);
    assert!(t.tags.is_empty());
}

#[test]
fn relative_dates_count_from_the_given_day() {
    let today = date(2024, 2, 27);
    let t = parse_task("pay rent due:3d t:-1w", today);
    assert_eq!(t.subject, "pay rent");
    assert_eq!(t.due_date, Some(date(2024, 3, 1)));
    assert_eq!(t.threshold_date, Some(date(2024, 2, 20)));
    let m = parse_task("x due:2m", today);
    assert_eq!(m.due_date, Some(date(2024, 4, 28)));
    let y = parse_task("x due:+1years", today);
    assert_eq!(y.due_date, Some(date(2025, 2, 26)));
}

#[test]
fn last_due_tag_wins_and_other_tags_stay() {
    let t = parse_task("a due:2020-01-01 rec:3d due:1d b", date(2024, 12, 31));
    assert_eq!(t.subject, "a b");
    assert_eq!(t.due_date, Some(date(2025, 1, 1)));
    assert_eq!(t.tags, vec![(String::from("rec"), String::from("3d"))]);
}

#[test]
fn values_that_are_no_date_give_none() {
    let t = parse_task("a due:soon t:/path", date(2024, 1, 1));
    assert_eq!(t.due_date, None);
    assert_eq!(t.threshold_date, None);
    assert_eq!(t.subject, "a t:/path");
}

#[test]
fn offsets_beyond_the_limit_give_none() {
    let today = date(2024, 1, 1);
    assert_eq!(parse_task("far due:200000001d", today).due_date, None);
    assert_eq!(parse_task("far due:99999999999999999999999d", today).due_date, None);
    assert_eq!(parse_task("far due:275001m", today).due_date, None);
    assert_eq!(parse_task("far due:11484y", today).due_date, None);
    let far = parse_task("far due:1000000d", today).due_date.unwrap();
    assert_eq!(far, date(4761, 11, 28));
    assert_eq!(parse_task("far due:1000y", today).due_date, Some(date(3024, 1, 9)));
}

#[test]
fn adding_days_crosses_months_and_years() {
    assert_eq!(add_days(date(2023, 12, 31), 1), Some(date(2024, 1, 1)));
    assert_eq!(add_days(date(2024, 3, 1), -1), Some(date(2024, 2, 29)));
    assert_eq!(add_days(date(2023, 3, 1), -1), Some(date(2023, 2, 28)));
    assert_eq!(add_days(date(2024, 1, 1), 366), Some(date(2025, 1, 1)));
}

#[test]
fn the_parsed_line_is_the_task_priority_and_dates() {
    let t = parse_task("x (B) 2023-05-21 2023-04-30 measure space", date(2024, 1, 1));
    assert!(t.finished);
    assert_eq!(t.priority, 1);
    assert_eq!(t.finish_date, Some(date(2023, 5, 21)));
    assert_eq!(t.create_date, Some(date(2023, 4, 30)));
    assert_eq!(t.subject, "measure space");
}

#[test]
fn text_after_a_relative_date_may_be_anything() {
    let today = date(2024, 1, 1);
    assert_eq!(parse_task("a due:3dé", today).due_date, Some(date(2024, 1, 4)));
    assert_eq!(parse_task("a due:+1week", today).due_date, Some(date(2024, 1, 8)));
    assert_eq!(parse_task("a due:é3d", today).due_date, None);
}
