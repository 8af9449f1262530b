use chrono::NaiveDate;
use kisara::season::{
    determine_current_season, get_season_start_end, quarter_label, quarter_of, Season,
};

fn date(y: i32, m: u32, d: u32) -> NaiveDate {
    NaiveDate::from_ymd_opt(y, m, d).expect("a date")
}

#[test]
fn season_new_keeps_its_parts() {
    let s = Season::new(2024, 3);
    assert_eq!(s.year, 2024);
    assert_eq!(s.season, 3);
}

#[test]
fn each_month_lies_in_its_season() {
    let expected = [1, 1, 2, 2, 2, 3, 3, 3, 4, 4, 4];
    for (i, season) in expected.iter().enumerate() {
        let s = Season::determine_season(date(2024, i as u32 + 1, 15));
        assert_eq!(s, Season::new(2024, *season), "month {}", i + 1);
    }
}

#[test]
fn december_belongs_to_the_winter_of_the_next_year() {
    assert_eq!(Season::determine_season(date(2023, 12, 1)), Season::new(2024, 1));
    assert_eq!(Season::determine_season(date(2023, 12, 31)), Season::new(2024, 1));
    assert_eq!(Season::determine_season(date(-1, 12, 31)), Season::new(0, 1));
    assert_eq!(Season::determine_season(NaiveDate::MAX), Season::new(262143, 1));
}

#[test]
fn each_month_lies_in_its_quarter() {
    let expected = [1, 1, 1, 2, 2, 2, 3, 3, 3, 4, 4, 4];
    for (i, quarter) in expected.iter().enumerate() {
        assert_eq!(quarter_of(date(2024, i as u32 + 1, 1)), (2024, *quarter));
    }
    assert_eq!(quarter_of(date(1999, 12, 31)), (1999, 4));
}

#[test]
fn today_lies_in_a_quarter() {
    let (year, quarter) = determine_current_season();
    assert!((1..=4).contains(&quarter));
    assert!(year >= 2024);
}

#[test]
fn a_quarters_schedule_runs_between_two_first_mondays() {
    assert_eq!(get_season_start_end((2024, 1)), Some((date(2023, 12, 4), date(2024, 3, 4))));
    assert_eq!(get_season_start_end((2024, 2)), Some((date(2024, 3, 4), date(2024, 6, 3))));
    assert_eq!(get_season_start_end((2024, 3)), Some((date(2024, 6, 3), date(2024, 9, 2))));
    assert_eq!(get_season_start_end((2024, 4)), Some((date(2024, 9, 2), date(2025, 1, 6))));
}

#[test]
fn there_is_no_schedule_for_what_is_no_quarter() {
    assert_eq!(get_season_start_end((2024, 0)), None);
    assert_eq!(get_season_start_end((2024, 5)), None);
    assert_eq!(get_season_start_end((2024, -1)), None);
    assert_eq!(get_season_start_end((i32::MIN, 1)), None);
    assert_eq!(get_season_start_end((i32::MAX, 4)), None);
    assert_eq!(get_season_start_end((i32::MAX, 2)), None);
}

#[test]
fn a_quarter_is_written_with_a_q() {
    assert_eq!(quarter_label((2024, 3)), "2024Q3");
    assert_eq!(quarter_label((-5, 1)), "-5Q1");
}
