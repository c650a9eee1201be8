use water::InfiniteLinkQueue;
use water::SafeQueue;
use water::SizedRingQueue;

#[test]
fn safequeue_fifo() {
    let mut q: SafeQueue<u64> = SafeQueue::new(10);
    assert_eq!(q.len(), 0);
    assert!(q.get().is_none());
    q.put(1);
    q.put(2);
    q.put(3);
    assert_eq!(q.len(), 3);
    assert_eq!(q.get(), Some(1));
    assert_eq!(q.get(), Some(2));
    q.put(4);
    assert_eq!(q.get(), Some(3));
    assert_eq!(q.get(), Some(4));
    assert!(q.get().is_none());
}

#[test]
fn infinitelinkqueue_fifo() {
    let mut q: InfiniteLinkQueue<u64> = InfiniteLinkQueue::new();
    for y in 0..100u64 {
        q.put(y);
    }
    for y in 100..200u64 {
        q.put(y + 1000);
    }
    assert_eq!(q.len(), 200);
    for y in 0..100u64 {
        assert_eq!(q.get(), Some(y));
    }
    for y in 100..200u64 {
        assert_eq!(q.get(), Some(y + 1000));
    }
    assert!(q.get().is_none());
}

#[test]
fn ringqueue_capacity_is_power_of_two() {
    let q: SizedRingQueue<u8> = SizedRingQueue::new(0);
    assert_eq!(q.capacity(), 1);
    let q: SizedRingQueue<u8> = SizedRingQueue::new(3);
    assert_eq!(q.capacity(), 8);
    let q: SizedRingQueue<u8> = SizedRingQueue::new(10);
    assert_eq!(q.capacity(), 1024);
}

#[test]
fn ringqueue_wraps_round() {
    let mut q: SizedRingQueue<u32> = SizedRingQueue::new(2);
    assert_eq!(q.capacity(), 4);
    q.put(1);
    q.put(2);
    q.put(3);
    q.put(4);
    assert_eq!(q.len(), 4);
    assert_eq!(q.get(), Some(1));
    assert_eq!(q.get(), Some(2));
    // the ring has wrapped: writes reuse freed slots
    q.put(5);
    q.put(6);
    assert_eq!(q.len(), 4);
    assert_eq!(q.get(), Some(3));
    assert_eq!(q.get(), Some(4));
    assert_eq!(q.get(), Some(5));
    assert_eq!(q.get(), Some(6));
    assert_eq!(q.get(), None);
}
