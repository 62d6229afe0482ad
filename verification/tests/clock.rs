use ppm::clock::{ClockRef, MAX_DRIFT_MS};

/// A monotonic instant survives the round trip through the wall clock
/// unchanged.
#[test]
fn round_trip() {
    let anchor = ClockRef { mono: 5_000, wall: 100_000 };
    for i in [0u64, 4_999, 5_000, 5_001, 123_456] {
        let wall = anchor.to_systime(i);
        assert_eq!(i, anchor.from_systime(wall));
    }
    assert_eq!(102_000, anchor.to_systime(7_000));
    assert_eq!(98_000, anchor.to_systime(3_000));
    assert_eq!(7_000, anchor.from_systime(102_000));
    assert_eq!(3_000, anchor.from_systime(98_000));
}

/// Drift below the threshold keeps the reference; drift at or above it
/// replaces the reference with the observed pair.
#[test]
fn drift_check() {
    let mut anchor = ClockRef::update_ref_instant(0, 0);
    assert!(anchor.check_ref_time(50, 45));
    assert_eq!(ClockRef { mono: 0, wall: 0 }, anchor);

    assert!(anchor.check_ref_time(50, 50 + MAX_DRIFT_MS - 1));
    assert_eq!(ClockRef { mono: 0, wall: 0 }, anchor);

    assert!(!anchor.check_ref_time(50, 30));
    assert_eq!(ClockRef { mono: 50, wall: 30 }, anchor);

    // converting through the refreshed reference is exact again
    assert_eq!(50, anchor.from_systime(30));
}
