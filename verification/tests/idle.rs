use ghost_time::idle::{IdleDetector, IdleStatus};

const SEC: u64 = 1_000_000_000;

#[test]
fn test_idle_detector_initializes() {
    let detector = IdleDetector::new((10, 20), vec![], 0);
    assert!(!detector.is_idle());
}

#[test]
fn test_idle_detection_with_short_threshold() {
    let mut detector = IdleDetector::with_threshold(2 * SEC, (5, 5), vec![], 0);
    let status = detector.check((5, 5), vec![], 0);
    assert!(status == IdleStatus::Active || status == IdleStatus::ResumedActivity);
    let status = detector.check((5, 5), vec![], 3 * SEC);
    assert_eq!(status, IdleStatus::BecameIdle);
    let status = detector.check((5, 5), vec![], 3 * SEC + 1);
    assert_eq!(status, IdleStatus::StillIdle);
}

#[test]
fn not_idle_at_exactly_the_threshold() {
    let mut d = IdleDetector::with_threshold(2 * SEC, (0, 0), vec![7], 10);
    assert_eq!(d.check((0, 0), vec![7], 10 + 2 * SEC), IdleStatus::Active);
    assert!(!d.is_idle());
    assert_eq!(d.check((0, 0), vec![7], 11 + 2 * SEC), IdleStatus::BecameIdle);
    assert!(d.is_idle());
}

#[test]
fn mouse_movement_resumes_activity() {
    let mut d = IdleDetector::with_threshold(SEC, (0, 0), vec![], 0);
    assert_eq!(d.check((0, 0), vec![], 2 * SEC), IdleStatus::BecameIdle);
    assert_eq!(d.check((1, 0), vec![], 3 * SEC), IdleStatus::ResumedActivity);
    assert!(!d.is_idle());
    assert_eq!(d.check((1, 0), vec![], 3 * SEC + 10), IdleStatus::Active);
    assert_eq!(d.check((1, 0), vec![], 5 * SEC), IdleStatus::BecameIdle);
}

#[test]
fn key_change_counts_as_input() {
    let mut d = IdleDetector::with_threshold(SEC, (0, 0), vec![1, 2], 0);
    assert_eq!(d.check((0, 0), vec![1], 5 * SEC), IdleStatus::Active);
    assert_eq!(d.check((0, 0), vec![1], 5 * SEC + 500), IdleStatus::Active);
    assert_eq!(d.check((0, 0), vec![1], 7 * SEC), IdleStatus::BecameIdle);
    assert_eq!(d.check((0, 0), vec![2, 1], 8 * SEC), IdleStatus::ResumedActivity);
}

#[test]
fn default_threshold_is_five_minutes() {
    let mut d = IdleDetector::new((0, 0), vec![], 0);
    assert_eq!(d.check((0, 0), vec![], 300 * SEC), IdleStatus::Active);
    assert_eq!(d.check((0, 0), vec![], 300 * SEC + 1), IdleStatus::BecameIdle);
}

#[test]
fn clock_going_back_counts_as_no_time() {
    let mut d = IdleDetector::with_threshold(SEC, (0, 0), vec![], 10 * SEC);
    assert_eq!(d.check((0, 0), vec![], 0), IdleStatus::Active);
}
