//! The summary reporter: buckets every record of a store by age — minutes
//! since the last change, or since the last check — into nine fixed,
//! human-labeled ranges, and counts the records per bucket.
//!
//! A record whose selected timestamp lies in the future relative to "now" is
//! a fatal input error, reported as an error value and never silently
//! clamped: it signals a corrupted or clock-skewed store.

use vstd::prelude::*;

use crate::store::Status;
use crate::store::status_in_range;
use crate::store::ts_in_range;

verus! {

/// Minutes in one day.
pub const MIN_ONE_DAY: u64 = 60 * 24;

/// Minutes in three days.
pub const MIN_THREE_DAYS: u64 = 60 * 24 * 3;

/// Minutes in one week.
pub const MIN_ONE_WEEK: u64 = 60 * 24 * 7;

/// Minutes in three weeks.
pub const MIN_THREE_WEEKS: u64 = 60 * 24 * 7 * 3;

/// Minutes in three thirty-day months.
pub const MIN_THREE_MONTHS: u64 = 60 * 24 * 30 * 3;

/// Minutes in one 365-day year.
pub const MIN_ONE_YEAR: u64 = 60 * 24 * 365;

/// Minutes in three 365-day years.
pub const MIN_THREE_YEARS: u64 = 60 * 24 * 365 * 3;

/// Minutes in ten 365-day years.
pub const MIN_TEN_YEARS: u64 = 60 * 24 * 365 * 10;

/// The bucket for an elapsed span of minutes: the first of the eight
/// thresholds that the span does not exceed, or the open-ended ninth bucket.
pub open spec fn bucket_index_of(minutes: int) -> int {
    if minutes <= MIN_ONE_DAY {
        0
    } else if minutes <= MIN_THREE_DAYS {
        1
    } else if minutes <= MIN_ONE_WEEK {
        2
    } else if minutes <= MIN_THREE_WEEKS {
        3
    } else if minutes <= MIN_THREE_MONTHS {
        4
    } else if minutes <= MIN_ONE_YEAR {
        5
    } else if minutes <= MIN_THREE_YEARS {
        6
    } else if minutes <= MIN_TEN_YEARS {
        7
    } else {
        8
    }
}

/// The label of a bucket, in threshold order.
pub open spec fn bucket_label_of(b: int) -> Seq<char> {
    if b == 0 {
        "< 1 Day"@
    } else if b == 1 {
        "< 3 Days"@
    } else if b == 2 {
        "< 1 Week"@
    } else if b == 3 {
        "< 3 Weeks"@
    } else if b == 4 {
        "< 3 Months"@
    } else if b == 5 {
        "< 1 Year"@
    } else if b == 6 {
        "< 3 Years"@
    } else if b == 7 {
        "< 10 Years"@
    } else {
        "10 Years +"@
    }
}

/// Whether a record takes part in a summary: the change-age summary can be
/// asked to leave archived records out; the check-age summary never filters.
pub open spec fn selects(st: Status, use_change: bool, ignore_archived: bool) -> bool {
    !use_change || !ignore_archived || st.archived != Some(true)
}

/// The timestamp a summary reads from a record.
pub open spec fn selected_time(st: Status, use_change: bool) -> int {
    if use_change {
        st.change_time as int
    } else {
        st.check_time as int
    }
}

/// Truncating whole minutes from `t` up to `now`.
pub open spec fn minutes_since(t: int, now: int) -> int {
    (now - t) / 60
}

/// How many of the records a summary counts into bucket `b`.
pub open spec fn bucket_count(
    records: Seq<Status>,
    use_change: bool,
    ignore_archived: bool,
    now: int,
    b: int,
) -> nat
    decreases records.len(),
{
    if records.len() == 0 {
        0
    } else {
        bucket_count(records.drop_last(), use_change, ignore_archived, now, b) + (
        if selects(records.last(), use_change, ignore_archived) && bucket_index_of(
            minutes_since(selected_time(records.last(), use_change), now),
        ) == b {
            1nat
        } else {
            0nat
        })
    }
}

/// Whether some record a summary would count carries a timestamp in the
/// future relative to `now` — the one fatal input of the reporter.
pub open spec fn has_future_time(
    records: Seq<Status>,
    use_change: bool,
    ignore_archived: bool,
    now: int,
) -> bool {
    exists|i: int|
        0 <= i < records.len() && selects(records[i], use_change, ignore_archived)
            && selected_time(records[i], use_change) > now
}

/// Law: a summary of no records counts zero into every bucket (the labels
/// still stand, bucket by bucket), and has no fatal input.
pub proof fn lemma_empty_summary(use_change: bool, ignore_archived: bool, now: int, b: int)
    ensures
        bucket_count(Seq::<Status>::empty(), use_change, ignore_archived, now, b) == 0,
        !has_future_time(Seq::<Status>::empty(), use_change, ignore_archived, now),
{
}

/// The summary reporter's one error: a counted record's timestamp lies in
/// the future, which signals a corrupted or clock-skewed store.
#[derive(Debug, Clone, Copy, PartialEq, Eq)]
pub enum SummaryError {
    TimeInFuture,
}

/// The bucket for an elapsed span of minutes.
pub fn bucket_index(minutes: u64) -> (b: usize)
    ensures
        b == bucket_index_of(minutes as int),
        b < 9,
{
    if minutes <= MIN_ONE_DAY {
        0
    } else if minutes <= MIN_THREE_DAYS {
        1
    } else if minutes <= MIN_ONE_WEEK {
        2
    } else if minutes <= MIN_THREE_WEEKS {
        3
    } else if minutes <= MIN_THREE_MONTHS {
        4
    } else if minutes <= MIN_ONE_YEAR {
        5
    } else if minutes <= MIN_THREE_YEARS {
        6
    } else if minutes <= MIN_TEN_YEARS {
        7
    } else {
        8
    }
}

/// The label of a bucket, in threshold order.
pub fn bucket_label(b: usize) -> (r: &'static str)
    requires
        b < 9,
    ensures
        r@ == bucket_label_of(b as int),
{
    match b {
        0 => "< 1 Day",
        1 => "< 3 Days",
        2 => "< 1 Week",
        3 => "< 3 Weeks",
        4 => "< 3 Months",
        5 => "< 1 Year",
        6 => "< 3 Years",
        7 => "< 10 Years",
        _ => "10 Years +",
    }
}

/// Counts the records into the nine buckets by the selected timestamp, or
/// reports the first future timestamp among the counted records as fatal.
fn summarise_age_by(records: &Vec<Status>, now: i64, use_change: bool, ignore_archived: bool) -> (r:
    Result<Vec<u64>, SummaryError>)
    requires
        ts_in_range(now as int),
        forall|i: int| 0 <= i < records@.len() ==> status_in_range(#[trigger] records@[i]),
    ensures
        r is Ok <==> !has_future_time(records@, use_change, ignore_archived, now as int),
        r matches Ok(c) ==> c@.len() == 9 && (forall|b: int|
            0 <= b < 9 ==> c@[b] == bucket_count(
                records@,
                use_change,
                ignore_archived,
                now as int,
                b,
            )),
{
    let mut counts: Vec<u64> = Vec::new();
    let mut z: usize = 0;
    while z < 9
        invariant
            z <= 9,
            counts@.len() == z,
            forall|b: int| 0 <= b < z ==> counts@[b] == 0,
        decreases 9 - z,
    {
        counts.push(0);
        z += 1;
    }
    let n = records.len();
    let mut i: usize = 0;
    while i < n
        invariant
            i <= n,
            n == records@.len(),
            ts_in_range(now as int),
            forall|k: int| 0 <= k < records@.len() ==> status_in_range(#[trigger] records@[k]),
            counts@.len() == 9,
            forall|b: int|
                0 <= b < 9 ==> counts@[b] == bucket_count(
                    records@.take(i as int),
                    use_change,
                    ignore_archived,
                    now as int,
                    b,
                ),
            forall|b: int| 0 <= b < 9 ==> counts@[b] <= i,
            forall|j: int|
                0 <= j < i ==> !(selects(#[trigger] records@[j], use_change, ignore_archived)
                    && selected_time(records@[j], use_change) > now),
        decreases n - i,
    {
        let st = records[i];
        let sel: bool = if use_change && ignore_archived {
            match st.archived {
                Some(true) => false,
                _ => true,
            }
        } else {
            true
        };
        proof {
            assert(sel == selects(records@[i as int], use_change, ignore_archived));
        }
        if sel {
            let t = if use_change {
                st.change_time
            } else {
                st.check_time
            };
            if t > now {
                proof {
                    assert(has_future_time(records@, use_change, ignore_archived, now as int));
                }
                return Err(SummaryError::TimeInFuture);
            }
            let mins = ((now - t) as u64) / 60;
            let b = bucket_index(mins);
            let c = counts[b];
            counts[b] = c + 1;
        }
        proof {
            assert(records@.take(i + 1 as int).drop_last() =~= records@.take(i as int));
            assert(records@.take(i + 1 as int).last() == records@[i as int]);
        }
        i += 1;
    }
    proof {
        assert(records@.take(n as int) =~= records@);
    }
    Ok(counts)
}

/// The change-age summary: counts every record (or, when asked, every
/// record not archived) by minutes since its last change. A counted record
/// with a change time in the future is fatal.
pub fn summary_repo_age(records: &Vec<Status>, now: i64, ignore_archived: bool) -> (r: Result<
    Vec<u64>,
    SummaryError,
>)
    requires
        ts_in_range(now as int),
        forall|i: int| 0 <= i < records@.len() ==> status_in_range(#[trigger] records@[i]),
    ensures
        r is Ok <==> !has_future_time(records@, true, ignore_archived, now as int),
        r matches Ok(c) ==> c@.len() == 9 && (forall|b: int|
            0 <= b < 9 ==> c@[b] == bucket_count(records@, true, ignore_archived, now as int, b)),
{
    summarise_age_by(records, now, true, ignore_archived)
}

/// The check-age summary: counts every record by minutes since its last
/// check, archived or not. A record with a check time in the future is
/// fatal.
pub fn summary_check_age(records: &Vec<Status>, now: i64) -> (r: Result<Vec<u64>, SummaryError>)
    requires
        ts_in_range(now as int),
        forall|i: int| 0 <= i < records@.len() ==> status_in_range(#[trigger] records@[i]),
    ensures
        r is Ok <==> !has_future_time(records@, false, false, now as int),
        r matches Ok(c) ==> c@.len() == 9 && (forall|b: int|
            0 <= b < 9 ==> c@[b] == bucket_count(records@, false, false, now as int, b)),
{
    summarise_age_by(records, now, false, false)
}

} // verus!
