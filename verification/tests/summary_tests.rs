//! Tests for the summary reporter: bucket edges, the empty input, the
//! archived filter, and the fatal future-timestamp error.

use prob_check_repo::store::Status;
use prob_check_repo::summary::bucket_label;
use prob_check_repo::summary::summary_check_age;
use prob_check_repo::summary::summary_repo_age;
use prob_check_repo::summary::SummaryError;

const HOUR: i64 = 3600;
const DAY: i64 = 24 * HOUR;
const YEAR: i64 = 365 * DAY;

fn record(change: i64, check: i64) -> Status {
    Status {
        check_time: check,
        change_time: change,
        commit_hash: prob_check_repo::Hash::Sha1([0u8; 20]),
        archived: None,
    }
}

#[test]
fn bucket_edges() {
    let now = 20 * YEAR;
    let records = vec![
        record(now - 23 * HOUR, now), // 23 hours old: "< 1 Day"
        record(now - 25 * HOUR, now), // 25 hours old: "< 3 Days"
        record(now - 11 * YEAR, now), // 11 years old: "10 Years +"
    ];
    let counts = summary_repo_age(&records, now, false).unwrap();
    assert_eq!(counts, vec![1, 1, 0, 0, 0, 0, 0, 0, 1]);
}

#[test]
fn bucket_thresholds_are_inclusive() {
    let now = 20 * YEAR;
    // Exactly one day old still falls in "< 1 Day"; a minute past it does not.
    let records = vec![record(now - DAY, now), record(now - DAY - 60, now)];
    let counts = summary_repo_age(&records, now, false).unwrap();
    assert_eq!(counts[0], 1);
    assert_eq!(counts[1], 1);
}

#[test]
fn empty_input_gives_all_zero_counts_still_labeled() {
    let counts = summary_repo_age(&Vec::new(), 1000, true).unwrap();
    assert_eq!(counts, vec![0; 9]);
    let labels: Vec<&str> = (0..9).map(bucket_label).collect();
    assert_eq!(
        labels,
        vec![
            "< 1 Day",
            "< 3 Days",
            "< 1 Week",
            "< 3 Weeks",
            "< 3 Months",
            "< 1 Year",
            "< 3 Years",
            "< 10 Years",
            "10 Years +",
        ]
    );
    assert_eq!(labels.len(), counts.len());
}

#[test]
fn future_change_time_is_fatal() {
    let now = 1000 * DAY;
    let records = vec![record(now - DAY, now), record(now + 60, now)];
    assert_eq!(
        summary_repo_age(&records, now, false),
        Err(SummaryError::TimeInFuture)
    );
}

#[test]
fn future_check_time_is_fatal_for_check_age() {
    let now = 1000 * DAY;
    let records = vec![record(now - DAY, now + 1)];
    assert_eq!(
        summary_check_age(&records, now),
        Err(SummaryError::TimeInFuture)
    );
    // The change-age summary reads the other field and is fine here.
    assert!(summary_repo_age(&records, now, false).is_ok());
}

#[test]
fn archived_records_can_be_left_out_of_change_age() {
    let now = 1000 * DAY;
    let mut archived = record(now - 2 * DAY, now - DAY);
    archived.archived = Some(true);
    let live = record(now - 2 * DAY, now - DAY);
    let records = vec![archived, live];
    let filtered = summary_repo_age(&records, now, true).unwrap();
    assert_eq!(filtered[1], 1);
    let unfiltered = summary_repo_age(&records, now, false).unwrap();
    assert_eq!(unfiltered[1], 2);
}

#[test]
fn check_age_summary_never_filters_archived() {
    let now = 1000 * DAY;
    let mut archived = record(now - 2 * DAY, now - 23 * HOUR);
    archived.archived = Some(true);
    let records = vec![archived];
    let counts = summary_check_age(&records, now).unwrap();
    assert_eq!(counts[0], 1);
}

#[test]
fn archived_filter_skips_future_archived_record() {
    // A future change time on an archived record is not counted, so not
    // fatal, when archived records are left out.
    let now = 1000 * DAY;
    let mut archived = record(now + DAY, now - DAY);
    archived.archived = Some(true);
    let records = vec![archived];
    assert!(summary_repo_age(&records, now, true).is_ok());
    assert_eq!(
        summary_repo_age(&records, now, false),
        Err(SummaryError::TimeInFuture)
    );
}
