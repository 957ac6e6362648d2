use chonks::{DefaultSegmentSource, List};

#[test]
fn lifo_order_across_segments() {
    // Strict LIFO over the whole structure, not just within one segment.
    let mut l: List<u32, 2> = List::new();
    for i in 0..7u32 {
        assert!(l.push(i).is_ok());
    }
    for i in (0..7u32).rev() {
        assert_eq!(l.pop(), Some(i));
    }
    assert_eq!(l.pop(), None);
    assert_eq!(l.len(), 0);
}

#[test]
fn lifo_order_interleaved() {
    // Pushes and pops interleaved still observe stack order.
    let mut l: List<u32, 3> = List::new();
    assert!(l.push(1).is_ok());
    assert!(l.push(2).is_ok());
    assert_eq!(l.pop(), Some(2));
    assert!(l.push(3).is_ok());
    assert!(l.push(4).is_ok());
    assert_eq!(l.pop(), Some(4));
    assert_eq!(l.pop(), Some(3));
    assert!(l.push(5).is_ok());
    assert_eq!(l.pop(), Some(5));
    assert_eq!(l.pop(), Some(1));
    assert_eq!(l.pop(), None);
}

#[test]
fn lifo_order_regardless_of_chunk_size() {
    let mut a: List<u64, 1> = List::new();
    let mut b: List<u64, 4> = List::new();
    let mut c: List<u64, 16> = List::new();
    for i in 0..10u64 {
        assert!(a.push(i).is_ok());
        assert!(b.push(i).is_ok());
        assert!(c.push(i).is_ok());
    }
    for i in (0..10u64).rev() {
        assert_eq!(a.pop(), Some(i));
        assert_eq!(b.pop(), Some(i));
        assert_eq!(c.pop(), Some(i));
    }
}

#[test]
fn segments_allocated_is_ceil() {
    // With k pushes and no pops, the chain holds ceil(k / N) segments.
    for k in 0..20usize {
        let mut l: List<usize, 4> = List::new();
        for i in 0..k {
            assert!(l.push(i).is_ok());
        }
        assert_eq!(l.num_segments(), k.div_ceil(4));
    }
    for k in 0..9usize {
        let mut l: List<usize, 1> = List::new();
        for i in 0..k {
            assert!(l.push(i).is_ok());
        }
        assert_eq!(l.num_segments(), k);
    }
}

#[test]
fn bounded_push_rejected_at_capacity() {
    // After C successful pushes, the next push fails, returns its argument
    // unchanged, and leaves the length alone.
    let mut l: List<u32, 2> = List::with_capacity(5);
    for i in 0..5u32 {
        assert!(l.push(i).is_ok());
    }
    assert_eq!(l.len(), 5);
    assert_eq!(l.push(99), Err(99));
    assert_eq!(l.len(), 5);
    assert_eq!(l.num_segments(), 3);
    // The list still works normally afterwards.
    assert_eq!(l.pop(), Some(4));
    assert!(l.push(42).is_ok());
    assert_eq!(l.pop(), Some(42));
}

#[test]
fn pops_on_empty_are_idempotent() {
    // Repeated pops on an already-empty list yield nothing and change
    // nothing.
    let mut l: List<u8, 4> = List::new();
    for _ in 0..5 {
        assert_eq!(l.pop(), None);
        assert_eq!(l.len(), 0);
        assert_eq!(l.num_segments(), 0);
    }
    // The same holds after the list has been used and drained.
    assert!(l.push(1).is_ok());
    assert_eq!(l.pop(), Some(1));
    for _ in 0..5 {
        assert_eq!(l.pop(), None);
        assert_eq!(l.len(), 0);
        assert_eq!(l.num_segments(), 0);
    }
}

#[test]
fn five_items_three_segments_scenario() {
    // N = 2, pushing [1,2,3,4,5]: three segments [1,2], [3,4], [5]; five
    // pops yield 5,4,3,2,1 and the list ends empty with no segments (so
    // head and tail are both empty).
    let mut l: List<u32, 2> = List::new();
    for i in [1, 2, 3, 4, 5u32] {
        assert!(l.push(i).is_ok());
    }
    assert_eq!(l.num_segments(), 3);
    assert_eq!(l.seg_len(0), 2);
    assert_eq!(l.seg_len(1), 2);
    assert_eq!(l.seg_len(2), 1);
    // Segment contents, inspected front to back: [1,2], [3,4], [5].
    for i in 0..5usize {
        assert_eq!(*l.get(i), (i + 1) as u32);
    }
    for i in [5, 4, 3, 2, 1u32] {
        assert_eq!(l.pop(), Some(i));
    }
    assert_eq!(l.len(), 0);
    // The drained tail segment hangs on, pending detachment; the next pop
    // yields nothing, releases it, and leaves head and tail both empty.
    assert_eq!(l.num_segments(), 1);
    assert_eq!(l.pop(), None);
    assert_eq!(l.len(), 0);
    assert_eq!(l.num_segments(), 0);
}

#[test]
fn drain_releases_every_segment() {
    let mut l: List<u32, 2> = List::new();
    for i in 0..9u32 {
        assert!(l.push(i).is_ok());
    }
    assert_eq!(l.num_segments(), 5);
    let mut src = DefaultSegmentSource;
    l.drain_custom(&mut src);
    assert_eq!(l.len(), 0);
    assert_eq!(l.num_segments(), 0);
}

#[test]
fn capacity_and_queries() {
    let mut l: List<u32, 2> = List::with_capacity(3);
    assert_eq!(l.capacity(), 3);
    assert!(l.is_empty());
    assert!(!l.is_full());
    assert!(l.push(1).is_ok());
    assert!(!l.is_empty());
    assert!(l.push(2).is_ok());
    assert!(l.push(3).is_ok());
    assert!(l.is_full());
    let unbounded: List<u32, 2> = List::new();
    assert_eq!(unbounded.capacity(), usize::MAX);
}
