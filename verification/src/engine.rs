//! The decision engine: from the three timestamps (last change, last check,
//! now) and one uniform random draw it answers "run the check now?".
//!
//! The probability model is day-based with linear scaling: a resource that
//! had been stable for `stable` whole days before its last check gets base
//! probability `3 / stable` per day, amplified by the number of whole days
//! elapsed since that check. A stable span of zero days or less means the
//! resource is always due. The draw is one 64-bit value `draw`, read as the
//! rational `draw / 2^64` in `[0, 1)`, and the answer is whether it falls at
//! or below the probability; the whole comparison is carried out in exact
//! integer arithmetic, so the probability needs no clamping when it exceeds
//! one.

use vstd::prelude::*;

use rand::Rng;
use rand::SeedableRng;
use vstd::string::StringSliceAdditionalSpecFns;

use crate::store::Status;
use crate::store::status_in_range;
use crate::store::ts_in_range;

verus! {

/// Truncating whole-day difference from `a` to `b`, negative when `b` lies
/// before `a` (truncation is toward zero).
pub open spec fn days_between(a: int, b: int) -> int {
    if b >= a {
        (b - a) / 86400
    } else {
        -((a - b) / 86400)
    }
}

/// The elapsed-days amplification: the whole days from the last check to
/// now, floored at one, so that a check earlier the same day (or a clock
/// running behind) leaves the base probability unscaled.
pub open spec fn scaled_elapsed_days(last_check: int, now: int) -> int {
    let e = days_between(last_check, now);
    if e < 1 {
        1
    } else {
        e
    }
}

/// The decision once the uniform draw is fixed. With
/// `stable = days_between(last_change, last_check)`: probability 1 when
/// `stable <= 0`, else `3 * elapsed / stable` with `elapsed` the scaled
/// elapsed days; the draw, read as `draw / 2^64`, is compared against it,
/// which in integers is `draw * stable <= 3 * elapsed * 2^64`.
pub open spec fn spec_decision(last_change: int, last_check: int, now: int, draw: u64) -> bool {
    let stable = days_between(last_change, last_check);
    if stable <= 0 {
        true
    } else {
        draw * stable <= 3 * scaled_elapsed_days(last_check, now) * 0x1_0000_0000_0000_0000
    }
}

/// What an outside call to blake3's `hash` returns for the given input.
pub uninterp spec fn blake3_digest_of(input: Seq<u8>) -> Seq<u8>;

/// What the first 64-bit value drawn from rand's `StdRng`, freshly seeded
/// with the given 32 bytes, is.
pub uninterp spec fn seeded_first_draw_of(seed: Seq<u8>) -> u64;

/// The draw that a non-empty seed string determines: its bytes are hashed
/// to a 32-byte seed for the deterministic generator, and the first 64-bit
/// value is drawn.
pub open spec fn draw_of_seed(seed_bytes: Seq<u8>) -> u64 {
    seeded_first_draw_of(blake3_digest_of(seed_bytes))
}

/// Relies on blake3::hash: the 32-byte digest it returns is a function of
/// the input bytes alone.
#[verifier::external_body]
fn blake3_digest(input: &[u8]) -> (r: [u8; 32])
    ensures
        r@ == blake3_digest_of(input@),
{
    *blake3::hash(input).as_bytes()
}

/// Relies on rand's StdRng: `SeedableRng::from_seed` and the first value
/// that `Rng::gen` then yields are, in the version built against, a
/// function of the 32 seed bytes alone.
#[verifier::external_body]
fn seeded_draw(seed: &[u8; 32]) -> (r: u64)
    ensures
        r == seeded_first_draw_of(seed@),
{
    let mut rng = rand::rngs::StdRng::from_seed(*seed);
    rng.gen::<u64>()
}

/// Relies on rand::thread_rng and `Rng::gen` for one draw from process
/// entropy; nothing is promised of the value.
#[verifier::external_body]
fn entropy_draw() -> u64 {
    rand::thread_rng().gen::<u64>()
}

/// The verified core of the engine: the decision for a draw already in
/// hand. Pure and total over timestamps in range; negative differences take
/// the "due" branches and are not an error here.
pub fn decide_with_draw(last_change: i64, last_check: i64, now: i64, draw: u64) -> (b: bool)
    requires
        ts_in_range(last_change as int),
        ts_in_range(last_check as int),
        ts_in_range(now as int),
    ensures
        b == spec_decision(last_change as int, last_check as int, now as int, draw),
{
    if last_check <= last_change {
        return true;
    }
    let stable_secs = last_check - last_change;
    let stable = (stable_secs as u64) / 86400;
    if stable == 0 {
        return true;
    }
    let elapsed: u64 = if now <= last_check {
        1
    } else {
        let e = ((now - last_check) as u64) / 86400;
        if e == 0 {
            1
        } else {
            e
        }
    };
    proof {
        assert(stable == days_between(last_change as int, last_check as int));
        assert(elapsed == scaled_elapsed_days(last_check as int, now as int));
        assert(stable <= 0x10_0000_0000_0000);
        assert(elapsed <= 0x10_0000_0000_0000);
        assert((draw as int) * (stable as int) <= 0xffff_ffff_ffff_ffff * 0x10_0000_0000_0000)
            by (nonlinear_arith)
            requires
                draw <= 0xffff_ffff_ffff_ffff,
                0 <= stable <= 0x10_0000_0000_0000,
        ;
    }
    let lhs: u128 = (draw as u128) * (stable as u128);
    let rhs: u128 = 3 * (elapsed as u128) * 0x1_0000_0000_0000_0000u128;
    lhs <= rhs
}

/// Whether a recheck should run now. A non-empty seed makes the draw a
/// function of the seed text, so the same `(last_change, last_check, now,
/// seed)` always yields the same answer; without one (or with an empty one)
/// the draw comes from process entropy, and only what holds of every draw
/// is promised.
pub fn should_check_now(last_change: i64, last_check: i64, now: i64, seed: Option<&str>) -> (b:
    bool)
    requires
        ts_in_range(last_change as int),
        ts_in_range(last_check as int),
        ts_in_range(now as int),
    ensures
        (match seed {
            Some(s) => s@.len() > 0 ==> b == spec_decision(
                last_change as int,
                last_check as int,
                now as int,
                draw_of_seed(s.spec_bytes()),
            ),
            None => true,
        }),
        exists|r: u64|
            b == spec_decision(last_change as int, last_check as int, now as int, r),
{
    let draw: u64 = match seed {
        Some(s) => {
            if !s.is_empty() {
                let digest = blake3_digest(s.as_bytes());
                seeded_draw(&digest)
            } else {
                entropy_draw()
            }
        },
        None => entropy_draw(),
    };
    decide_with_draw(last_change, last_check, now, draw)
}

/// The outcome of one "check" invocation for a possibly-unknown resource:
/// an unknown resource is always due, an archived one never is, and
/// otherwise the engine decides from the record's timestamps.
pub fn do_check(status: Option<&Status>, now: i64, seed: Option<&str>) -> (b: bool)
    requires
        ts_in_range(now as int),
        (match status {
            Some(st) => status_in_range(*st),
            None => true,
        }),
    ensures
        (match status {
            Some(st) => {
                if st.archived == Some(true) {
                    !b
                } else {
                    &&& (match seed {
                        Some(s) => s@.len() > 0 ==> b == spec_decision(
                            st.change_time as int,
                            st.check_time as int,
                            now as int,
                            draw_of_seed(s.spec_bytes()),
                        ),
                        None => true,
                    })
                    &&& exists|r: u64|
                        b == spec_decision(st.change_time as int, st.check_time as int, now as int, r)
                }
            },
            None => b,
        }),
{
    match status {
        Some(st) => {
            let archived = match st.archived {
                Some(a) => a,
                None => false,
            };
            if archived {
                false
            } else {
                should_check_now(st.change_time, st.check_time, now, seed)
            }
        },
        None => true,
    }
}

/// Law: the decision is true whatever the draw whenever the stable span is
/// at most three times the scaled elapsed span, since the probability then
/// reaches or exceeds one. That covers every input with
/// `last_check <= last_change` (and, more broadly, a stable span of zero
/// days), and every input with no elapsed time since the last check whose
/// stable span is at most three days. Checked-just-now alone is not enough:
/// once the stable span passes three days the unscaled base probability
/// drops below one, and a large enough draw answers no.
pub proof fn lemma_always_due(last_change: int, last_check: int, now: int, draw: u64)
    requires
        days_between(last_change, last_check) <= 3 * scaled_elapsed_days(last_check, now),
    ensures
        spec_decision(last_change, last_check, now, draw),
{
    let stable = days_between(last_change, last_check);
    let e1 = scaled_elapsed_days(last_check, now);
    if stable > 0 {
        assert(draw * stable <= 3 * e1 * 0x1_0000_0000_0000_0000) by (nonlinear_arith)
            requires
                0 < stable <= 3 * e1,
                draw <= 0xffff_ffff_ffff_ffff,
                1 <= e1,
        ;
    }
}

/// Law: with a non-empty seed the outcome is a function of the four inputs
/// alone — any two results that the contract of `should_check_now` admits
/// for the same `(last_change, last_check, now, seed)` are one and the same
/// boolean.
pub proof fn lemma_seeded_determinism(
    last_change: int,
    last_check: int,
    now: int,
    seed_bytes: Seq<u8>,
    b1: bool,
    b2: bool,
)
    requires
        b1 == spec_decision(last_change, last_check, now, draw_of_seed(seed_bytes)),
        b2 == spec_decision(last_change, last_check, now, draw_of_seed(seed_bytes)),
    ensures
        b1 == b2,
{
}

} // verus!
