//! Tests for the decision engine: the exact comparison once a draw is
//! fixed, the always-due cases, and seeded reproducibility.

use prob_check_repo::engine::decide_with_draw;
use prob_check_repo::engine::do_check;
use prob_check_repo::engine::should_check_now;
use prob_check_repo::store::Status;

const DAY: i64 = 86400;

#[test]
fn probability_three_tenths_boundary() {
    // Stable for 10 days, checked just now: probability 3/10. A draw at or
    // below 0.3 * 2^64 says yes, one above says no.
    let last_change = 0;
    let last_check = 10 * DAY;
    let now = 10 * DAY;
    // floor(0.3 * 2^64) = 5534023222112865484
    assert!(decide_with_draw(last_change, last_check, now, 0));
    assert!(decide_with_draw(
        last_change,
        last_check,
        now,
        5534023222112865484
    ));
    assert!(!decide_with_draw(
        last_change,
        last_check,
        now,
        5534023222112865485
    ));
    assert!(!decide_with_draw(last_change, last_check, now, u64::MAX));
}

#[test]
fn always_due_when_check_before_change() {
    // Checked no later than changed: probability 1, whatever the draw.
    for draw in [0u64, 1, u64::MAX / 2, u64::MAX] {
        assert!(decide_with_draw(100, 100, 5000, draw));
        assert!(decide_with_draw(100, 50, 5000, draw));
        assert!(decide_with_draw(0, DAY - 1, 100 * DAY, draw));
    }
}

#[test]
fn always_due_when_elapsed_dominates() {
    // Stable 10 days but unchecked for 4: probability 12/10, past certain.
    for draw in [0u64, u64::MAX] {
        assert!(decide_with_draw(0, 10 * DAY, 14 * DAY, draw));
    }
}

#[test]
fn scaling_amplifies_with_elapsed_days() {
    // Stable 30 days: base 1/10. After 2 elapsed days the probability is
    // 2/10, so a draw between the two thresholds flips from no to yes.
    let draw = u64::MAX / 8; // 0.125, between 0.1 and 0.2
    assert!(!decide_with_draw(0, 30 * DAY, 30 * DAY, draw));
    assert!(decide_with_draw(0, 30 * DAY, 32 * DAY, draw));
}

#[test]
fn seeded_decision_is_deterministic() {
    let args = (0i64, 10 * DAY, 17 * DAY);
    let first = should_check_now(args.0, args.1, args.2, Some("a fixed seed"));
    for _ in 0..20 {
        assert_eq!(
            should_check_now(args.0, args.1, args.2, Some("a fixed seed")),
            first
        );
    }
}

#[test]
fn seeded_decision_due_cases_hold_for_any_seed() {
    for seed in [None, Some(""), Some("x"), Some("another seed")] {
        assert!(should_check_now(500, 400, 99 * DAY, seed));
        assert!(should_check_now(0, 0, 0, seed));
    }
}

#[test]
fn seeds_spread_the_draw_at_even_odds() {
    // Stable 6 days, unchecked for 1: probability 3/6. Over many distinct
    // seeds the hashed draws must land on both sides of it.
    let mut yes = 0;
    let mut no = 0;
    for i in 0..64 {
        let seed = format!("seed-{i}");
        if should_check_now(0, 6 * DAY, 7 * DAY, Some(&seed)) {
            yes += 1;
        } else {
            no += 1;
        }
    }
    assert!(yes > 0, "some seed should say yes at probability 1/2");
    assert!(no > 0, "some seed should say no at probability 1/2");
}

#[test]
fn do_check_unknown_resource_is_due() {
    assert!(do_check(None, 1000, None));
    assert!(do_check(None, 1000, Some("seed")));
}

#[test]
fn do_check_archived_resource_never_runs() {
    let st = Status {
        check_time: 100 * DAY,
        change_time: 0,
        commit_hash: prob_check_repo::Hash::Sha1([0u8; 20]),
        archived: Some(true),
    };
    assert!(!do_check(Some(&st), 200 * DAY, None));
    assert!(!do_check(Some(&st), 200 * DAY, Some("seed")));
}

#[test]
fn do_check_unarchived_due_resource_runs() {
    // Last check at or before the change: always due, seeded or not.
    for archived in [None, Some(false)] {
        let st = Status {
            check_time: 50,
            change_time: 100,
            commit_hash: prob_check_repo::Hash::Sha1([0u8; 20]),
            archived,
        };
        assert!(do_check(Some(&st), 10 * DAY, None));
        assert!(do_check(Some(&st), 10 * DAY, Some("seed")));
    }
}
