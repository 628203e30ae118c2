use ws_vesting::errors::ErrorCode;
use ws_vesting::schedule::vested_amount;

#[test]
fn vested_is_proportional_midway() {
    // total 1000 over [0, 1000]: halfway through, half is vested.
    assert_eq!(vested_amount(1000, 0, 1000, 500), Ok(500));
}

#[test]
fn vested_rounds_down() {
    // 10 tokens over [0, 3]: after one step, floor(10 * 1 / 3) = 3.
    assert_eq!(vested_amount(10, 0, 3, 1), Ok(3));
    assert_eq!(vested_amount(10, 0, 3, 2), Ok(6));
}

#[test]
fn vested_is_total_at_and_after_end() {
    assert_eq!(vested_amount(1000, 0, 1000, 1000), Ok(1000));
    assert_eq!(vested_amount(1000, 0, 1000, 1500), Ok(1000));
    assert_eq!(vested_amount(u64::MAX, 0, 10, i64::MAX), Ok(u64::MAX));
}

#[test]
fn vested_is_zero_before_start() {
    assert_eq!(vested_amount(1000, 100, 1100, 40), Ok(0));
}

#[test]
fn vested_is_monotonic_in_time() {
    let mut last = 0;
    for now in [0i64, 1, 250, 333, 500, 999, 1000, 5000] {
        let v = vested_amount(1000, 0, 1000, now).unwrap();
        assert!(v >= last);
        assert!(v <= 1000);
        last = v;
    }
}

#[test]
fn zero_duration_schedule_is_invalid() {
    assert_eq!(vested_amount(1000, 700, 700, 800), Err(ErrorCode::InvalidVestingTime));
}

#[test]
fn negative_duration_schedule_is_invalid() {
    assert_eq!(vested_amount(1000, 700, 600, 800), Err(ErrorCode::InvalidVestingTime));
}

#[test]
fn widest_allocation_does_not_overflow() {
    // The multiplication is carried out wide: the largest allocation over
    // the longest schedule still computes exactly.
    assert_eq!(vested_amount(u64::MAX, 0, i64::MAX, i64::MAX - 1), Ok(u64::MAX - 3));
}
