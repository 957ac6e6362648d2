use chonks::{DefaultSegmentSource, ListChonk, LocalPointerChonks, RecyclingList};

#[test]
fn recycling_push_pop_round_trip() {
    let mut pool: LocalPointerChonks<2> = LocalPointerChonks::with_capacity(8);
    let mut list: RecyclingList<String, 2> = RecyclingList::new();
    assert!(list.push(Box::new(String::from("a")), &mut pool).is_ok());
    assert!(list.push(Box::new(String::from("b")), &mut pool).is_ok());
    assert!(list.push(Box::new(String::from("c")), &mut pool).is_ok());
    assert_eq!(list.len(), 3);
    assert_eq!(*list.pop(&mut pool), "c");
    assert_eq!(*list.pop(&mut pool), "b");
    assert_eq!(*list.pop(&mut pool), "a");
    assert_eq!(list.len(), 0);
    assert!(list.is_empty());
}

#[test]
fn recycling_reuses_segments_through_pool() {
    let mut pool: LocalPointerChonks<2> = LocalPointerChonks::with_capacity(8);
    assert_eq!(pool.len(), 0);
    let mut list: RecyclingList<u32, 2> = RecyclingList::new();
    for i in 0..6u32 {
        assert!(list.push(Box::new(i), &mut pool).is_ok());
    }
    // All segments came from the (empty) pool's heap fallback.
    assert_eq!(pool.len(), 0);
    for i in (0..6u32).rev() {
        assert_eq!(*list.pop(&mut pool), i);
    }
    // Each segment drained on the way down went back into the pool; the
    // last one still hangs on the list, pending detachment.
    assert_eq!(pool.len(), 2);
    // Growing again first refills that pending segment, then draws the
    // recycled blocks back out of the pool.
    for i in 0..6u32 {
        assert!(list.push(Box::new(i), &mut pool).is_ok());
    }
    assert_eq!(pool.len(), 0);
    for i in (0..6u32).rev() {
        assert_eq!(*list.pop(&mut pool), i);
    }
    assert_eq!(pool.len(), 2);
}

#[test]
fn one_pool_serves_lists_of_different_types() {
    let mut pool: LocalPointerChonks<4> = LocalPointerChonks::with_capacity(16);
    let mut ints: RecyclingList<u64, 4> = RecyclingList::new();
    let mut words: RecyclingList<String, 4> = RecyclingList::new();
    for i in 0..5u64 {
        assert!(ints.push(Box::new(i), &mut pool).is_ok());
    }
    for _ in 0..5 {
        ints.pop(&mut pool);
    }
    // The second of the integer list's two segments drained mid-way and
    // went into the pool.
    assert_eq!(pool.len(), 1);
    // That block, recycled from the integer list, now serves the string
    // list.
    assert!(words.push(Box::new(String::from("x")), &mut pool).is_ok());
    assert_eq!(pool.len(), 0);
    assert_eq!(*words.pop(&mut pool), "x");
}

#[test]
fn recycling_bounded_rejects_at_capacity() {
    let mut pool: LocalPointerChonks<2> = LocalPointerChonks::with_capacity(8);
    let mut list: RecyclingList<u32, 2> = RecyclingList::with_capacity(2);
    assert_eq!(list.capacity(), 2);
    assert!(list.push(Box::new(1), &mut pool).is_ok());
    assert!(list.push(Box::new(2), &mut pool).is_ok());
    assert!(list.is_full());
    let rejected = list.push(Box::new(3), &mut pool);
    assert_eq!(rejected, Err(Box::new(3)));
    assert_eq!(list.len(), 2);
}

#[test]
fn recycling_custom_source() {
    let mut src = DefaultSegmentSource;
    let mut list: RecyclingList<u32, 2> = RecyclingList::new();
    assert!(list.push_custom(Box::new(1), &mut src).is_ok());
    assert!(list.push_custom(Box::new(2), &mut src).is_ok());
    assert!(list.push_custom(Box::new(3), &mut src).is_ok());
    assert_eq!(*list.pop_custom(&mut src), 3);
    assert_eq!(*list.pop_custom(&mut src), 2);
    assert_eq!(*list.pop_custom(&mut src), 1);
}

#[test]
fn local_pool_pop_falls_back_to_fresh() {
    let mut pool: LocalPointerChonks<4> = LocalPointerChonks::with_capacity(2);
    assert_eq!(pool.len(), 0);
    // Empty pool: pop still succeeds, handing out a fresh segment.
    let seg: ListChonk<u32, 4> = pool.pop();
    assert!(seg.is_empty());
    assert!(seg.is_detached());
    assert_eq!(pool.len(), 0);
}

#[test]
fn local_pool_push_falls_back_to_release() {
    let mut pool: LocalPointerChonks<4> = LocalPointerChonks::with_capacity(2);
    for _ in 0..2 {
        let seg: ListChonk<u32, 4> = ListChonk::new();
        pool.push(seg);
    }
    assert_eq!(pool.len(), 2);
    // Full pool: the push is absorbed by releasing the block instead.
    let seg: ListChonk<u32, 4> = ListChonk::new();
    pool.push(seg);
    assert_eq!(pool.len(), 2);
}

#[test]
fn local_pool_custom_callbacks() {
    let mut pool: LocalPointerChonks<4> = LocalPointerChonks::with_capacity(1);
    let seg: ListChonk<u32, 4> = ListChonk::new();
    pool.push_custom(seg, |_rejected| {
        panic!("the pool had room; the fallback must not run");
    });
    assert_eq!(pool.len(), 1);
    // When the pool is full the rejected block goes to the callback.
    let seg2: ListChonk<u32, 4> = ListChonk::new();
    let mut pool2: LocalPointerChonks<4> = LocalPointerChonks::with_capacity(1);
    let seg3: ListChonk<u32, 4> = ListChonk::new();
    pool2.push(seg3);
    pool2.push_custom(seg2, |rejected| {
        assert!(rejected.is_empty());
    });
    assert_eq!(pool2.len(), 1);
    // A custom allocator feeds pop when the pool is empty; whatever it
    // hands over is reinitialized.
    let mut empty_pool: LocalPointerChonks<4> = LocalPointerChonks::with_capacity(1);
    let from_custom: ListChonk<u32, 4> = empty_pool.pop_custom(|| ListChonk::new());
    assert!(from_custom.is_empty());
    assert!(from_custom.is_detached());
}

#[test]
fn local_pool_default_capacity() {
    let pool: LocalPointerChonks<16> = LocalPointerChonks::with_default_capacity();
    assert_eq!(pool.len(), 0);
    let mut pool = pool;
    let seg: ListChonk<u8, 16> = ListChonk::new();
    pool.push(seg);
    assert_eq!(pool.len(), 1);
}
