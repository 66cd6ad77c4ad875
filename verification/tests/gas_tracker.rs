//! Gas reservation.

use aa_bundler::GasTracker;

#[test]
fn test_gas_tracker_creation() {
    let tracker = GasTracker::new(30_000_000, 80, 20);
    assert_eq!(tracker.block_gas_limit(), 30_000_000);
    assert_eq!(tracker.threshold_percentage(), 80);
    assert_eq!(tracker.reserve_percentage(), 20);
}

#[test]
fn test_percentage_clamping() {
    let tracker = GasTracker::new(30_000_000, 150, 200);
    assert_eq!(tracker.threshold_percentage(), 100);
    assert_eq!(tracker.reserve_percentage(), 100);
}

#[test]
fn test_threshold_calculation() {
    let tracker = GasTracker::new(30_000_000, 80, 20);
    // 80% of 30M = 24M
    assert_eq!(tracker.calculate_threshold_gas(), 24_000_000);
    // 20% of 30M = 6M
    assert_eq!(tracker.calculate_reserved_gas(), 6_000_000);
}

#[test]
fn test_reservation_not_reached() {
    let tracker = GasTracker::new(30_000_000, 80, 20);
    let reservation = tracker.check_reservation(10_000_000);

    assert!(!reservation.threshold_reached);
    assert_eq!(reservation.available_for_txs, 14_000_000); // 24M - 10M
    assert_eq!(reservation.reserved_for_bundles, 6_000_000);
}

#[test]
fn test_reservation_reached() {
    let tracker = GasTracker::new(30_000_000, 80, 20);
    let reservation = tracker.check_reservation(24_000_000);

    assert!(reservation.threshold_reached);
    assert_eq!(reservation.available_for_txs, 0);
    assert_eq!(reservation.reserved_for_bundles, 6_000_000);
}

#[test]
fn test_reservation_exceeded() {
    let tracker = GasTracker::new(30_000_000, 80, 20);
    let reservation = tracker.check_reservation(25_000_000);

    assert!(reservation.threshold_reached);
    assert_eq!(reservation.available_for_txs, 0);
    assert_eq!(reservation.reserved_for_bundles, 6_000_000);
}

#[test]
fn test_can_fit_transaction() {
    let tracker = GasTracker::new(30_000_000, 80, 20);

    // With 10M used, we have 14M available
    assert!(tracker.can_fit_transaction(10_000_000, 5_000_000));
    assert!(tracker.can_fit_transaction(10_000_000, 14_000_000));
    assert!(!tracker.can_fit_transaction(10_000_000, 15_000_000));

    // At threshold, nothing fits
    assert!(!tracker.can_fit_transaction(24_000_000, 1));
}

#[test]
fn test_zero_percentages() {
    let tracker = GasTracker::new(30_000_000, 0, 0);
    let reservation = tracker.check_reservation(0);

    assert!(reservation.threshold_reached);
    assert_eq!(reservation.available_for_txs, 0);
    assert_eq!(reservation.reserved_for_bundles, 0);
}

#[test]
fn test_full_percentages() {
    let tracker = GasTracker::new(30_000_000, 100, 100);

    assert_eq!(tracker.calculate_threshold_gas(), 30_000_000);
    assert_eq!(tracker.calculate_reserved_gas(), 30_000_000);

    let reservation = tracker.check_reservation(0);
    assert!(!reservation.threshold_reached);
    assert_eq!(reservation.available_for_txs, 30_000_000);
}

#[test]
fn largest_gas_limit_does_not_overflow() {
    let tracker = GasTracker::new(u64::MAX, 100, 50);
    assert_eq!(tracker.calculate_threshold_gas(), u64::MAX);
    assert_eq!(tracker.calculate_reserved_gas(), u64::MAX / 2);
    assert_eq!(tracker.check_reservation(1).available_for_txs, u64::MAX - 1);
}

#[test]
fn threshold_stays_reached() {
    let tracker = GasTracker::new(1_000, 50, 10);
    assert!(!tracker.check_reservation(499).threshold_reached);
    assert!(tracker.check_reservation(500).threshold_reached);
    assert!(tracker.check_reservation(u64::MAX).threshold_reached);
    assert!(!tracker.can_fit_transaction(500, 0));
    assert!(tracker.can_fit_transaction(499, 0));
}

#[test]
fn copies_of_a_tracker_agree() {
    let tracker = GasTracker::new(30_000_000, 80, 20);
    let copy = tracker.clone();
    assert_eq!(copy.calculate_threshold_gas(), 24_000_000);
    let reservation = copy.check_reservation(10_000_000).clone();
    assert_eq!(reservation.available_for_txs, 14_000_000);
}
