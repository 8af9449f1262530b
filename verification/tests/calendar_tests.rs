use chrono::NaiveDate;
use kisara::calendar::{air_calendar, WEEK_DAYS};

fn date(y: i32, m: u32, d: u32) -> NaiveDate {
    NaiveDate::from_ymd_opt(y, m, d).expect("a date")
}

#[test]
fn the_calendar_has_seven_days() {
    assert_eq!(WEEK_DAYS, 7);
    let week = air_calendar(Vec::<(NaiveDate, u8)>::new(), date(2024, 1, 1));
    assert_eq!(week, vec![Vec::<u8>::new(); 7]);
}

#[test]
fn each_day_gets_what_airs_on_it() {
    let start = date(2024, 2, 27);
    let rows = vec![
        (date(2024, 2, 27), "a"),
        (date(2024, 2, 27), "b"),
        (date(2024, 2, 29), "leap"),
        (date(2024, 3, 1), "c"),
        (date(2024, 3, 4), "last"),
    ];
    let week = air_calendar(rows, start);
    assert_eq!(
        week,
        vec![vec!["a", "b"], vec![], vec!["leap"], vec!["c"], vec![], vec![], vec!["last"]]
    );
}

#[test]
fn rows_outside_the_week_are_left_out() {
    let start = date(2024, 1, 10);
    let rows = vec![
        (date(2024, 1, 9), "yesterday"),
        (date(2024, 1, 10), "today"),
        (date(2024, 1, 16), "in six days"),
        (date(2024, 1, 17), "in a week"),
        (date(2023, 1, 10), "a year ago"),
    ];
    let week = air_calendar(rows, start);
    assert_eq!(week[0], vec!["today"]);
    assert_eq!(week[6], vec!["in six days"]);
    assert_eq!(week.iter().map(|d| d.len()).sum::<usize>(), 2);
}

#[test]
fn only_the_first_run_of_a_date_is_kept() {
    let start = date(2024, 1, 10);
    let rows = vec![
        (date(2024, 1, 11), 1),
        (date(2024, 1, 11), 2),
        (date(2024, 1, 10), 3),
        (date(2024, 1, 11), 4),
        (date(2024, 1, 10), 5),
        (date(2024, 1, 30), 6),
        (date(2024, 1, 12), 7),
        (date(2024, 1, 30), 8),
        (date(2024, 1, 12), 9),
    ];
    let week = air_calendar(rows, start);
    assert_eq!(week[0], vec![3]);
    assert_eq!(week[1], vec![1, 2]);
    assert_eq!(week[2], vec![7]);
    assert!(week[3..].iter().all(|d| d.is_empty()));
}
