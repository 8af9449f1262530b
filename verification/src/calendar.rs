//! The air calendar: what airs on each day of the week that begins today.

use vstd::prelude::*;

verus! {

/// How many days `date` lies after `start`; negative where it lies before.
pub uninterp spec fn days_from(start: chrono::NaiveDate, date: chrono::NaiveDate) -> i64;

/// Calls `NaiveDate::signed_duration_since` and takes the whole days of the
/// difference: the number that `days_from` names.
#[verifier::external_body]
fn days_between(start: &chrono::NaiveDate, date: &chrono::NaiveDate) -> (days: i64)
    ensures
        days == days_from(*start, *date),
{
    date.signed_duration_since(*start).num_days()
}

/// The days of the calendar.
pub const WEEK_DAYS: usize = 7;

/// The day offsets of the given rows.
pub open spec fn offsets_of<T>(rows: Seq<(chrono::NaiveDate, T)>, start: chrono::NaiveDate) -> Seq<
    int,
> {
    Seq::new(rows.len(), |k: int| days_from(start, rows[k].0) as int)
}

/// The items of the given rows.
pub open spec fn items_of<T>(rows: Seq<(chrono::NaiveDate, T)>) -> Seq<T> {
    Seq::new(rows.len(), |k: int| rows[k].1)
}

/// Whether a row of day `day` that came next would belong to the day's
/// first run: no row of that day has come yet, or the last row is of that
/// day and belongs to the first run itself.
pub open spec fn continues_first_run(offsets: Seq<int>, day: int) -> bool
    decreases offsets.len(),
{
    !offsets.contains(day) || (offsets.len() > 0 && offsets.last() == day && continues_first_run(
        offsets.drop_last(),
        day,
    ))
}

/// The items of the first run of rows of a day: of the rows of that day
/// that follow each other without a row of another day between them, those
/// that come first.
pub open spec fn first_run_of<T>(offsets: Seq<int>, items: Seq<T>, day: int) -> Seq<T>
    decreases offsets.len(),
{
    if offsets.len() == 0 || items.len() != offsets.len() {
        Seq::empty()
    } else {
        let before = first_run_of(offsets.drop_last(), items.drop_last(), day);
        if offsets.last() == day && continues_first_run(offsets.drop_last(), day) {
            before.push(items.last())
        } else {
            before
        }
    }
}

proof fn lemma_contains_push(offsets: Seq<int>, next: int, day: int)
    ensures
        offsets.push(next).contains(day) <==> offsets.contains(day) || next == day,
{
    let more = offsets.push(next);
    if offsets.contains(day) {
        let k = choose|k: int| 0 <= k < offsets.len() && offsets[k] == day;
        assert(more[k] == day);
    }
    if next == day {
        assert(more[offsets.len() as int] == day);
    }
    if more.contains(day) {
        let k = choose|k: int| 0 <= k < more.len() && more[k] == day;
        if k < offsets.len() {
            assert(offsets[k] == day);
        }
    }
}

/// Sorts what airs into the seven days from `start` on. Each row is a date
/// and what airs on it. A day gets the first run of rows of its date, in the
/// rows' order; rows of other dates, and later runs of a date, are left out.
pub fn air_calendar<T>(rows: Vec<(chrono::NaiveDate, T)>, start: chrono::NaiveDate) -> (week: Vec<
    Vec<T>,
>)
    ensures
        week@.len() == WEEK_DAYS,
        forall|day: int|
            0 <= day < WEEK_DAYS ==> (#[trigger] week@[day])@ == first_run_of(
                offsets_of(rows@, start),
                items_of(rows@),
                day,
            ),
{
    let ghost all_offsets = offsets_of(rows@, start);
    let ghost all_items = items_of(rows@);
    let ghost total = rows@.len();
    let ghost given = rows@;
    let mut pending = rows;
    let mut rows: Vec<(chrono::NaiveDate, T)> = Vec::new();
    while pending.len() > 0
        invariant
            total == given.len(),
            pending@.len() + rows@.len() == total,
            pending@ == given.take(pending@.len() as int),
            forall|k: int| 0 <= k < rows@.len() ==> #[trigger] rows@[k] == given[total - 1 - k],
        decreases pending.len(),
    {
        let ghost held = pending@;
        let row = pending.pop().unwrap();
        assert(row == given[held.len() - 1]);
        rows.push(row);
        assert(pending@ =~= given.take(pending@.len() as int));
    }
    let mut week: Vec<Vec<T>> = Vec::new();
    let mut seen: Vec<bool> = Vec::new();
    let mut open: Vec<bool> = Vec::new();
    let mut d: usize = 0;
    while d < WEEK_DAYS
        invariant
            d <= WEEK_DAYS,
            week@.len() == d,
            seen@.len() == d,
            open@.len() == d,
            forall|i: int| 0 <= i < d ==> (#[trigger] week@[i])@.len() == 0,
            forall|i: int| 0 <= i < d ==> !(#[trigger] seen@[i]),
            forall|i: int| 0 <= i < d ==> #[trigger] open@[i],
        decreases WEEK_DAYS - d,
    {
        week.push(Vec::new());
        seen.push(false);
        open.push(true);
        d += 1;
    }
    let ghost mut done: int = 0;
    assert(all_offsets.take(0) =~= Seq::<int>::empty());
    assert(all_items.take(0) =~= Seq::<T>::empty());
    while rows.len() > 0
        invariant
            total == given.len(),
            all_offsets == offsets_of(given, start),
            all_items == items_of(given),
            0 <= done <= total,
            rows@.len() == total - done,
            forall|k: int| 0 <= k < rows@.len() ==> #[trigger] rows@[k] == given[total - 1 - k],
            week@.len() == WEEK_DAYS,
            seen@.len() == WEEK_DAYS,
            open@.len() == WEEK_DAYS,
            forall|day: int|
                0 <= day < WEEK_DAYS ==> (#[trigger] week@[day])@ == first_run_of(
                    all_offsets.take(done),
                    all_items.take(done),
                    day,
                ),
            forall|day: int|
                0 <= day < WEEK_DAYS ==> #[trigger] seen@[day] == all_offsets.take(done).contains(
                    day,
                ),
            forall|day: int|
                0 <= day < WEEK_DAYS ==> #[trigger] open@[day] == continues_first_run(
                    all_offsets.take(done),
                    day,
                ),
        decreases rows.len(),
    {
        let ghost before_offsets = all_offsets.take(done);
        let ghost before_items = all_items.take(done);
        let ghost old_week = week@;
        let ghost old_seen = seen@;
        let ghost old_open = open@;
        let row = rows.pop().unwrap();
        assert(row == given[done]);
        let (date, item) = row;
        let offset = days_between(&start, &date);
        let ghost o = offset as int;
        assert(all_offsets[done] == o);
        assert(all_items[done] == item);
        let ghost next_offsets = all_offsets.take(done + 1);
        let ghost next_items = all_items.take(done + 1);
        assert(next_offsets =~= before_offsets.push(o));
        assert(next_items =~= before_items.push(item));
        assert(next_offsets.drop_last() =~= before_offsets);
        assert(next_items.drop_last() =~= before_items);
        let mut hit: usize = WEEK_DAYS;
        if 0 <= offset && offset < 7 {
            hit = offset as usize;
            if open[hit] {
                let mut day_list = Vec::new();
                std::mem::swap(&mut day_list, &mut week[hit]);
                day_list.push(item);
                week.set(hit, day_list);
            }
            seen.set(hit, true);
        }
        let mut i: usize = 0;
        while i < WEEK_DAYS
            invariant
                i <= WEEK_DAYS,
                open@.len() == WEEK_DAYS,
                seen@.len() == WEEK_DAYS,
                hit <= WEEK_DAYS,
                forall|day: int|
                    0 <= day < i ==> #[trigger] open@[day] == (if day == hit {
                        old_open[day]
                    } else {
                        !seen@[day]
                    }),
                forall|day: int| i <= day < WEEK_DAYS ==> #[trigger] open@[day] == old_open[day],
            decreases WEEK_DAYS - i,
        {
            if i != hit {
                let fresh = !seen[i];
                open.set(i, fresh);
            }
            i += 1;
        }
        proof {
            assert forall|day: int| 0 <= day < WEEK_DAYS implies #[trigger] seen@[day]
                == next_offsets.contains(day) by {
                lemma_contains_push(before_offsets, o, day);
            }
            assert forall|day: int| 0 <= day < WEEK_DAYS implies #[trigger] open@[day]
                == continues_first_run(next_offsets, day) by {
                lemma_contains_push(before_offsets, o, day);
            }
            assert forall|day: int| 0 <= day < WEEK_DAYS implies (#[trigger] week@[day])@
                == first_run_of(next_offsets, next_items, day) by {
                if day == hit && old_open[day] {
                    assert(week@[day]@ =~= old_week[day]@.push(item));
                } else {
                    assert(week@[day]@ == old_week[day]@);
                }
            }
            done = done + 1;
        }
    }
    assert(all_offsets.take(done) =~= all_offsets);
    assert(all_items.take(done) =~= all_items);
    week
}

} // verus!
