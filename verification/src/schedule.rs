use vstd::prelude::*;

use crate::accounts::EmployeeAccount;
use crate::accounts::EmployeeAccountView;
use crate::errors::ErrorCode;
use vstd::arithmetic::div_mod::{lemma_div_is_ordered, lemma_multiply_divide_le};
use vstd::arithmetic::mul::{lemma_mul_inequality, lemma_mul_upper_bound};

verus! {

/// The time elapsed since the schedule's start, floored at zero and
/// saturated at the widest representable step, as the claim computation
/// measures it.
pub open spec fn elapsed_of(start_time: i64, now: i64) -> int {
    if now - start_time <= 0 {
        0
    } else if now - start_time > i64::MAX {
        i64::MAX as int
    } else {
        now - start_time
    }
}

/// The schedule's length, saturated at the widest representable step. A
/// schedule only defines a vesting rate when this is positive.
pub open spec fn duration_of(start_time: i64, end_time: i64) -> int {
    if end_time - start_time > i64::MAX {
        i64::MAX as int
    } else {
        end_time - start_time
    }
}

/// The cumulative amount earned by elapsed time, irrespective of what has
/// already been withdrawn: the full allocation once the end time is
/// reached, and before that the allocation scaled by the elapsed share of
/// the schedule, rounded down.
pub open spec fn vested_of(total_amount: u64, start_time: i64, end_time: i64, now: i64) -> int
    recommends
        duration_of(start_time, end_time) > 0,
{
    if now >= end_time {
        total_amount as int
    } else {
        (total_amount * elapsed_of(start_time, now)) / duration_of(start_time, end_time)
    }
}

/// The amount a claim at this time would transfer: the vested amount minus
/// what was already withdrawn, floored at zero.
pub open spec fn claimable_of(e: EmployeeAccountView, now: i64) -> int
    recommends
        duration_of(e.start_time, e.end_time) > 0,
{
    let vested = vested_of(e.total_amount, e.start_time, e.end_time, now);
    if vested <= e.total_withdrawn {
        0
    } else {
        vested - e.total_withdrawn
    }
}

/// The vested amount never exceeds the allocation.
///
/// This is one half of the schedule law: for every schedule with a positive
/// duration and every time, `0 <= vested <= total_amount`.
pub proof fn lemma_vested_bounded(total_amount: u64, start_time: i64, end_time: i64, now: i64)
    requires
        duration_of(start_time, end_time) > 0,
    ensures
        0 <= vested_of(total_amount, start_time, end_time, now),
        vested_of(total_amount, start_time, end_time, now) <= total_amount,
{
    if now >= end_time {
    } else {
        let e = elapsed_of(start_time, now);
        let d = duration_of(start_time, end_time);
        assert(e <= d);
        lemma_mul_inequality(e, d, total_amount as int);
        assert(total_amount * e == e * total_amount) by (nonlinear_arith);
        assert(total_amount * e <= d * total_amount);
        lemma_multiply_divide_le(total_amount * e, d, total_amount as int);
        assert(total_amount * e >= 0) by (nonlinear_arith)
            requires
                total_amount >= 0,
                e >= 0,
        ;
        lemma_div_is_ordered(0, total_amount * e, d);
    }
}

/// The vested amount is monotonically non-decreasing in time.
///
/// This is the other half of the schedule law: for every schedule with a
/// positive duration, a later reading of the clock never vests less.
pub proof fn lemma_vested_monotonic(
    total_amount: u64,
    start_time: i64,
    end_time: i64,
    now1: i64,
    now2: i64,
)
    requires
        duration_of(start_time, end_time) > 0,
        now1 <= now2,
    ensures
        vested_of(total_amount, start_time, end_time, now1) <= vested_of(
            total_amount,
            start_time,
            end_time,
            now2,
        ),
{
    if now2 >= end_time {
        lemma_vested_bounded(total_amount, start_time, end_time, now1);
    } else {
        let e1 = elapsed_of(start_time, now1);
        let e2 = elapsed_of(start_time, now2);
        let d = duration_of(start_time, end_time);
        assert(e1 <= e2);
        lemma_mul_inequality(e1, e2, total_amount as int);
        assert(total_amount * e1 == e1 * total_amount) by (nonlinear_arith);
        assert(total_amount * e2 == e2 * total_amount) by (nonlinear_arith);
        lemma_div_is_ordered(total_amount * e1, total_amount * e2, d);
    }
}

/// At or after the end time the full allocation is vested, exactly.
pub proof fn lemma_vested_at_end(total_amount: u64, start_time: i64, end_time: i64, now: i64)
    requires
        duration_of(start_time, end_time) > 0,
        now >= end_time,
    ensures
        vested_of(total_amount, start_time, end_time, now) == total_amount,
{
}

/// A claim settles the ledger at the vested amount: once it is recorded, an
/// immediately repeated claim at the same time has nothing left to take,
/// and everything the two claims moved together is what the first one saw
/// vested beyond the withdrawals before it.
pub proof fn lemma_claim_idempotent(e: EmployeeAccountView, now: i64)
    requires
        duration_of(e.start_time, e.end_time) > 0,
        claimable_of(e, now) > 0,
    ensures
        e.total_withdrawn + claimable_of(e, now) == vested_of(
            e.total_amount,
            e.start_time,
            e.end_time,
            now,
        ),
        claimable_of(
            EmployeeAccountView {
                total_withdrawn: (e.total_withdrawn + claimable_of(e, now)) as u64,
                ..e
            },
            now,
        ) == 0,
{
    lemma_vested_bounded(e.total_amount, e.start_time, e.end_time, now);
}

/// Computes the vested amount of a schedule at a time.
///
/// The multiplication is carried out in a domain wide enough that it cannot
/// overflow, so the only failure is a schedule without a positive duration.
pub fn vested_amount(total_amount: u64, start_time: i64, end_time: i64, now: i64) -> (r: Result<
    u64,
    ErrorCode,
>)
    ensures
        duration_of(start_time, end_time) <= 0 ==> r == Err::<u64, ErrorCode>(
            ErrorCode::InvalidVestingTime,
        ),
        duration_of(start_time, end_time) > 0 ==> (r matches Ok(v) && v == vested_of(
            total_amount,
            start_time,
            end_time,
            now,
        )),
{
    let d_wide: i128 = (end_time as i128) - (start_time as i128);
    if d_wide <= 0 {
        return Err(ErrorCode::InvalidVestingTime);
    }
    if now >= end_time {
        return Ok(total_amount);
    }
    let duration: i128 = if d_wide > (i64::MAX as i128) {
        i64::MAX as i128
    } else {
        d_wide
    };
    let e_wide: i128 = (now as i128) - (start_time as i128);
    let elapsed: i128 = if e_wide <= 0 {
        0
    } else if e_wide > (i64::MAX as i128) {
        i64::MAX as i128
    } else {
        e_wide
    };
    proof {
        assert(elapsed == elapsed_of(start_time, now));
        assert(duration == duration_of(start_time, end_time));
        lemma_mul_upper_bound(
            total_amount as int,
            u64::MAX as int,
            elapsed as int,
            i64::MAX as int,
        );
    }
    let product: u128 = (total_amount as u128) * (elapsed as u128);
    let vested: u128 = product / (duration as u128);
    proof {
        lemma_vested_bounded(total_amount, start_time, end_time, now);
    }
    Ok(vested as u64)
}

/// Computes the amount a claim against this employee account would
/// transfer at the given time, or the exact reason none can be.
///
/// Failures come in this order: before the cliff time nothing is computed
/// at all; a schedule without a positive duration has no vesting rate; and
/// a claimable amount of exactly zero is reported rather than transferred.
pub fn compute_claimable(e: &EmployeeAccount, now: i64) -> (r: Result<u64, ErrorCode>)
    ensures
        now < e.cliff_time ==> r == Err::<u64, ErrorCode>(ErrorCode::ClaimNotAvailable),
        now >= e.cliff_time && duration_of(e@.start_time, e@.end_time) <= 0 ==> r == Err::<
            u64,
            ErrorCode,
        >(ErrorCode::InvalidVestingTime),
        now >= e.cliff_time && duration_of(e@.start_time, e@.end_time) > 0 && claimable_of(e@, now)
            == 0 ==> r == Err::<u64, ErrorCode>(ErrorCode::NoAmountToClaim),
        now >= e.cliff_time && duration_of(e@.start_time, e@.end_time) > 0 && claimable_of(e@, now)
            > 0 ==> (r matches Ok(c) && c == claimable_of(e@, now)),
{
    if now < e.cliff_time {
        return Err(ErrorCode::ClaimNotAvailable);
    }
    let vested = match vested_amount(e.total_amount, e.start_time, e.end_time, now) {
        Ok(v) => v,
        Err(code) => {
            return Err(code);
        },
    };
    if vested <= e.total_withdrawn {
        return Err(ErrorCode::NoAmountToClaim);
    }
    Ok(vested - e.total_withdrawn)
}

} // verus!
