//! Broadcast seasons: a year and one of its four quarters.

use vstd::prelude::*;
use crate::text::{decimal, i64_to_string};

verus! {

/// The year of a date.
pub uninterp spec fn year_of(date: chrono::NaiveDate) -> i32;

/// The month of a date, from 1 to 12.
pub uninterp spec fn month_of(date: chrono::NaiveDate) -> u32;

/// The first Monday of a month, if the year and the month make a date.
pub uninterp spec fn first_monday_of(year: i32, month: u32) -> Option<chrono::NaiveDate>;

/// Calls `Datelike::year` on a date: the year that `year_of` names. A date
/// keeps its year in the upper 19 bits of a 32-bit number, which bounds it.
#[verifier::external_body]
fn date_year(date: &chrono::NaiveDate) -> (year: i32)
    ensures
        year == year_of(*date),
        -262144 <= year <= 262143,
{
    chrono::Datelike::year(date)
}

/// Calls `Datelike::month` on a date: the month that `month_of` names, which
/// is from 1 to 12.
#[verifier::external_body]
fn date_month(date: &chrono::NaiveDate) -> (month: u32)
    ensures
        month == month_of(*date),
        1 <= month <= 12,
{
    chrono::Datelike::month(date)
}

/// Calls `NaiveDate::from_weekday_of_month_opt` for the first Monday: the
/// date that `first_monday_of` names.
#[verifier::external_body]
fn first_monday(year: i32, month: u32) -> (date: Option<chrono::NaiveDate>)
    ensures
        date == first_monday_of(year, month),
{
    chrono::NaiveDate::from_weekday_of_month_opt(year, month, chrono::Weekday::Mon, 1)
}

/// Calls `chrono::Local::now` and keeps the date: today, by the machine's
/// clock and time zone. Nothing is known of it beforehand.
#[verifier::external_body]
fn today() -> (date: chrono::NaiveDate) {
    chrono::Local::now().date_naive()
}

/// A broadcast season: `season` 1 is winter, 2 spring, 3 summer, 4 autumn.
#[derive(Debug, Clone, Copy, PartialEq, Eq, Hash, PartialOrd, Ord)]
pub struct Season {
    pub year: i32,
    pub season: i32,
}

/// The season in which a month lies: December, January and February are
/// winter, and December counts to the winter of the next year.
pub open spec fn season_of_month(year: int, month: int) -> (int, int) {
    if month == 12 {
        (year + 1, 1)
    } else if month <= 2 {
        (year, 1)
    } else if month <= 5 {
        (year, 2)
    } else if month <= 8 {
        (year, 3)
    } else {
        (year, 4)
    }
}

/// The quarter of the calendar year in which a month lies.
pub open spec fn quarter_of_month(month: int) -> int {
    if month <= 3 {
        1
    } else if month <= 6 {
        2
    } else if month <= 9 {
        3
    } else {
        4
    }
}

impl Season {
    pub fn new(year: i32, season: i32) -> (s: Self)
        ensures
            s.year == year,
            s.season == season,
    {
        Self { year, season }
    }

    /// The season in which a date lies.
    pub fn determine_season(date: chrono::NaiveDate) -> (s: Self)
        ensures
            (s.year as int, s.season as int) == season_of_month(
                year_of(date) as int,
                month_of(date) as int,
            ),
            1 <= s.season <= 4,
    {
        let year = date_year(&date);
        let month = date_month(&date);
        let season = if month <= 2 || month == 12 {
            1
        } else if month <= 5 {
            2
        } else if month <= 8 {
            3
        } else {
            4
        };
        let adjusted_year = if month == 12 {
            year + 1
        } else {
            year
        };
        Self::new(adjusted_year, season)
    }
}

/// The year and the calendar quarter of a date.
pub fn quarter_of(date: chrono::NaiveDate) -> (r: (i32, i32))
    ensures
        r.0 == year_of(date),
        r.1 == quarter_of_month(month_of(date) as int),
        1 <= r.1 <= 4,
{
    let year = date_year(&date);
    let month = date_month(&date);
    let season = if month <= 3 {
        1
    } else if month <= 6 {
        2
    } else if month <= 9 {
        3
    } else {
        4
    };
    (year, season)
}

/// The year and the calendar quarter of today.
pub fn determine_current_season() -> (r: (i32, i32))
    ensures
        1 <= r.1 <= 4,
{
    quarter_of(today())
}

/// The year and month in which a quarter's schedule begins: the month before
/// the quarter.
pub open spec fn schedule_start_of(year: int, season: int) -> (int, int) {
    if season == 1 {
        (year - 1, 12)
    } else {
        (year, 3 * (season - 1))
    }
}

/// The year and month in which a quarter's schedule ends: the last month of
/// the quarter, and for the fourth quarter the January after it.
pub open spec fn schedule_end_of(year: int, season: int) -> (int, int) {
    if season == 4 {
        (year + 1, 1)
    } else {
        (year, 3 * season)
    }
}

/// The first Monday of a year's month, if both are in range.
pub open spec fn first_monday_in(at: (int, int)) -> Option<chrono::NaiveDate> {
    if i32::MIN <= at.0 <= i32::MAX {
        first_monday_of(at.0 as i32, at.1 as u32)
    } else {
        None
    }
}

/// The days between which a quarter's schedule lies: from the first Monday
/// of the month before the quarter to the first Monday of the quarter's last
/// month. There are none for a quarter that is not 1 to 4, nor where one of
/// the two Mondays is no date.
pub fn get_season_start_end(quarter: (i32, i32)) -> (r: Option<
    (chrono::NaiveDate, chrono::NaiveDate),
>)
    ensures
        r is Some <==> 1 <= quarter.1 <= 4 && first_monday_in(
            schedule_start_of(quarter.0 as int, quarter.1 as int),
        ) is Some && first_monday_in(schedule_end_of(quarter.0 as int, quarter.1 as int)) is Some,
        r matches Some(days) ==> Some(days.0) == first_monday_in(
            schedule_start_of(quarter.0 as int, quarter.1 as int),
        ) && Some(days.1) == first_monday_in(schedule_end_of(quarter.0 as int, quarter.1 as int)),
{
    let (year, season) = quarter;
    if season < 1 || season > 4 {
        return None;
    }
    let start = if season == 1 {
        match year.checked_sub(1) {
            Some(before) => first_monday(before, 12),
            None => None,
        }
    } else {
        first_monday(year, (3 * (season - 1)) as u32)
    };
    let end = if season == 4 {
        match year.checked_add(1) {
            Some(after) => first_monday(after, 1),
            None => None,
        }
    } else {
        first_monday(year, (3 * season) as u32)
    };
    match (start, end) {
        (Some(start), Some(end)) => Some((start, end)),
        _ => None,
    }
}

/// How a quarter is written: the year, a `Q`, the quarter.
pub open spec fn quarter_label_of(year: int, season: int) -> Seq<char> {
    decimal(year) + "Q"@ + decimal(season)
}

/// Writes a year's quarter.
pub fn quarter_label(quarter: (i32, i32)) -> (label: String)
    ensures
        label@ == quarter_label_of(quarter.0 as int, quarter.1 as int),
{
    let mut label = i64_to_string(quarter.0 as i64);
    label.append("Q");
    let season = i64_to_string(quarter.1 as i64);
    label.append(season.as_str());
    label
}

} // verus!
