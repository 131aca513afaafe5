use v8_rs::HotspotProfiler;

#[test]
fn test_profiler_creation() {
    let profiler = HotspotProfiler::new(50);
    assert_eq!(profiler.threshold(), 50);
}

#[test]
fn test_record_execution() {
    let mut profiler = HotspotProfiler::new(10);

    profiler.record_execution(0);
    assert_eq!(profiler.get_count(0), 1);

    profiler.record_execution(0);
    assert_eq!(profiler.get_count(0), 2);
}

#[test]
fn test_hotspot_detection() {
    let mut profiler = HotspotProfiler::new(3);

    assert!(!profiler.is_hot(0));

    profiler.record_execution(0);
    profiler.record_execution(0);
    assert!(!profiler.is_hot(0));

    profiler.record_execution(0);
    assert!(profiler.is_hot(0));
}

#[test]
fn test_mark_hot() {
    let mut profiler = HotspotProfiler::new(100);

    assert!(!profiler.is_hot(0));
    profiler.mark_hot(0);
    assert!(profiler.is_hot(0));
}

#[test]
fn test_unmark_hot() {
    let mut profiler = HotspotProfiler::new(100);

    profiler.mark_hot(0);
    assert!(profiler.is_hot(0));

    profiler.unmark_hot(0);
    assert!(!profiler.is_hot(0));
}

#[test]
fn test_multiple_functions() {
    let mut profiler = HotspotProfiler::new(2);

    profiler.record_execution(0);
    profiler.record_execution(1);
    profiler.record_execution(0);

    assert!(profiler.is_hot(0));
    assert!(!profiler.is_hot(1));

    profiler.record_execution(1);
    assert!(profiler.is_hot(1));
}

#[test]
fn test_reset() {
    let mut profiler = HotspotProfiler::new(2);

    profiler.record_execution(0);
    profiler.record_execution(0);
    assert!(profiler.is_hot(0));

    profiler.reset();
    assert_eq!(profiler.get_count(0), 0);
    assert!(!profiler.is_hot(0));
}

#[test]
fn test_default_threshold_is_one_hundred() {
    assert_eq!(HotspotProfiler::default_threshold().threshold(), 100);
    assert_eq!(HotspotProfiler::default().threshold(), 100);
}

#[test]
fn test_hot_exactly_at_the_hundredth_call() {
    let mut profiler = HotspotProfiler::new(100);
    for call in 1..=100usize {
        assert!(!profiler.is_hot(7));
        profiler.record_execution(7);
        assert_eq!(profiler.get_count(7), call);
    }
    assert!(profiler.is_hot(7));
    profiler.record_execution(7);
    assert!(profiler.is_hot(7));
    assert!(!profiler.is_hot(8));
}

#[test]
fn test_rewarming_after_unmark() {
    let mut profiler = HotspotProfiler::new(2);
    profiler.record_execution(0);
    profiler.record_execution(0);
    profiler.record_execution(1);
    assert!(profiler.is_hot(0));
    profiler.unmark_hot(0);
    assert!(!profiler.is_hot(0));
    assert_eq!(profiler.get_count(0), 2);
    assert_eq!(profiler.get_count(1), 1);
    assert_eq!(profiler.threshold(), 2);
    profiler.record_execution(0);
    assert!(!profiler.is_hot(0));
    assert_eq!(profiler.get_count(0), 3);
    profiler.record_execution(0);
    assert!(!profiler.is_hot(0));
    profiler.record_execution(1);
    assert!(profiler.is_hot(1));
}

#[test]
fn test_count_is_kept_through_marks() {
    let mut profiler = HotspotProfiler::new(10);
    profiler.record_execution(3);
    profiler.unmark_hot(3);
    assert_eq!(profiler.get_count(3), 1);
    profiler.mark_hot(3);
    profiler.record_execution(3);
    profiler.unmark_hot(3);
    profiler.record_execution(4);
    profiler.mark_hot(4);
    profiler.unmark_hot(3);
    assert_eq!(profiler.get_count(3), 2);
    assert_eq!(profiler.get_count(4), 1);
    assert!(profiler.is_hot(4));
    assert!(!profiler.is_hot(3));
    assert_eq!(profiler.threshold(), 10);
}

#[test]
fn test_cool_down_restarts_one_function() {
    let mut profiler = HotspotProfiler::new(2);
    profiler.record_execution(0);
    profiler.record_execution(0);
    profiler.record_execution(0);
    profiler.record_execution(1);
    profiler.record_execution(1);
    assert!(profiler.is_hot(0));
    profiler.cool_down(0);
    assert!(!profiler.is_hot(0));
    assert_eq!(profiler.get_count(0), 0);
    assert!(profiler.is_hot(1));
    assert_eq!(profiler.get_count(1), 2);
    assert_eq!(profiler.threshold(), 2);
    profiler.record_execution(0);
    assert!(!profiler.is_hot(0));
    profiler.record_execution(0);
    assert!(profiler.is_hot(0));
    assert_eq!(profiler.get_count(0), 2);
    profiler.cool_down(7);
    assert_eq!(profiler.get_count(7), 0);
}

#[test]
fn test_hot_mark_is_set_once_at_the_threshold() {
    let mut profiler = HotspotProfiler::new(3);
    profiler.record_execution(1);
    profiler.record_execution(1);
    assert!(!profiler.is_hot(1));
    profiler.record_execution(1);
    assert!(profiler.is_hot(1));
    profiler.record_execution(1);
    assert!(profiler.is_hot(1));
    assert_eq!(profiler.get_count(1), 4);
    profiler.mark_hot(2);
    profiler.record_execution(2);
    assert!(profiler.is_hot(2));
    assert_eq!(profiler.get_count(2), 1);
}

#[test]
fn test_threshold_zero_is_hot_at_the_first_execution() {
    let mut profiler = HotspotProfiler::new(0);
    assert!(!profiler.is_hot(1));
    profiler.record_execution(1);
    assert!(profiler.is_hot(1));
    assert!(!profiler.is_hot(2));
    profiler.record_execution(1);
    assert!(profiler.is_hot(1));
    profiler.unmark_hot(1);
    profiler.record_execution(1);
    assert!(!profiler.is_hot(1));
    assert_eq!(profiler.get_count(1), 3);
    let mut one = HotspotProfiler::new(1);
    one.record_execution(5);
    assert!(one.is_hot(5));
}

#[test]
fn test_reset_keeps_threshold() {
    let mut profiler = HotspotProfiler::new(5);
    profiler.record_execution(1);
    profiler.mark_hot(2);
    profiler.reset();
    assert_eq!(profiler.threshold(), 5);
    assert!(!profiler.is_hot(2));
    assert_eq!(profiler.get_count(1), 0);
}

#[test]
fn test_profiler_clone_is_independent() {
    let mut profiler = HotspotProfiler::new(1);
    let copy = profiler.clone();
    profiler.record_execution(0);
    assert!(profiler.is_hot(0));
    assert!(!copy.is_hot(0));
    assert_eq!(copy.get_count(0), 0);
}
