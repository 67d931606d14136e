use constraint_engine::alloc_counter::{memory_used, CountingAllocator};

#[test]
fn counter_starts_at_zero() {
    assert_eq!(CountingAllocator::new().get_total(), 0);
}

#[test]
fn counter_follows_allocations_and_releases() {
    let mut counter = CountingAllocator::new();
    counter.record_alloc(100, true);
    counter.record_alloc(28, true);
    assert_eq!(counter.get_total(), 128);
    counter.record_alloc(1000, false);
    assert_eq!(counter.get_total(), 128);
    counter.record_dealloc(100);
    assert_eq!(counter.get_total(), 28);
}

#[test]
fn counter_wraps_around() {
    let mut counter = CountingAllocator::new();
    counter.record_dealloc(1);
    assert_eq!(counter.get_total(), usize::MAX);
    counter.record_alloc(2, true);
    assert_eq!(counter.get_total(), 1);
}

#[test]
fn memory_used_between_two_readings() {
    assert_eq!(memory_used(100, 350), Some(250));
    assert_eq!(memory_used(100, 100), Some(0));
    assert_eq!(memory_used(101, 100), None);
}
