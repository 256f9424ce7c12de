use mswm::sequence::{older_than, SequenceFilter};

#[test]
fn older_is_decided_on_the_circle() {
    assert!(!older_than(10, 10));
    assert!(older_than(9, 10));
    assert!(!older_than(11, 10));
    // 32767 steps ahead is still ahead, 32768 steps ahead is behind.
    assert!(!older_than(32777, 10));
    assert!(older_than(32778, 10));
    // Across the wrap.
    assert!(older_than(65535, 2));
    assert!(!older_than(2, 65535));
    assert!(!older_than(10, 65530));
}

#[test]
fn remembered_number_is_skipped_exactly_once() {
    let mut filter = SequenceFilter::new();
    filter.remember(10);
    filter.remember(65530);
    assert!(!filter.should_process(Some(65530)));
    assert!(filter.should_process(Some(65530)));
    // The entry for 10 lies ahead of 65530 and is still remembered.
    assert!(filter.is_remembered(10));
    assert_eq!(filter.len(), 1);
}

#[test]
fn entry_ahead_across_the_wrap_is_kept() {
    let mut filter = SequenceFilter::new();
    filter.remember(2);
    assert!(filter.should_process(Some(65535)));
    assert!(filter.is_remembered(2));
    assert!(!filter.should_process(Some(2)));
    assert_eq!(filter.len(), 0);
}

#[test]
fn entry_behind_across_the_wrap_is_dropped() {
    let mut filter = SequenceFilter::new();
    filter.remember(65535);
    assert!(filter.should_process(Some(2)));
    assert!(!filter.is_remembered(65535));
    assert_eq!(filter.len(), 0);
}

#[test]
fn older_entries_are_dropped_newer_ones_kept() {
    let mut filter = SequenceFilter::new();
    filter.remember(5);
    filter.remember(7);
    filter.remember(9);
    assert!(filter.should_process(Some(8)));
    assert!(!filter.is_remembered(5));
    assert!(!filter.is_remembered(7));
    assert!(filter.is_remembered(9));
    assert_eq!(filter.len(), 1);
}

#[test]
fn event_without_sequence_number_is_processed() {
    let mut filter = SequenceFilter::new();
    filter.remember(5);
    assert!(filter.should_process(None));
    assert_eq!(filter.len(), 1);
    assert!(filter.is_remembered(5));
}

#[test]
fn number_remembered_twice_is_skipped_twice() {
    let mut filter = SequenceFilter::new();
    filter.remember(5);
    filter.remember(5);
    assert_eq!(filter.len(), 2);
    assert!(!filter.should_process(Some(5)));
    assert!(!filter.should_process(Some(5)));
    assert!(filter.should_process(Some(5)));
}

#[test]
fn empty_filter_lets_everything_pass() {
    let mut filter = SequenceFilter::new();
    assert!(filter.should_process(Some(0)));
    assert!(filter.should_process(Some(65535)));
    assert_eq!(filter.len(), 0);
}
