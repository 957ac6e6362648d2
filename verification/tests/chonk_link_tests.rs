use chonks::{Chonk, Link, ListChonk};

#[test]
fn chonk_push_until_full() {
    let mut c: Chonk<u8, u32, 3> = Chonk::new(7);
    assert_eq!(c.header, 7);
    assert!(c.is_empty());
    assert_eq!(c.space(), 3);
    assert!(c.push(10).is_ok());
    assert!(c.push(20).is_ok());
    assert_eq!(c.len(), 2);
    assert_eq!(c.space(), 1);
    assert!(!c.is_full());
    assert!(c.push(30).is_ok());
    assert!(c.is_full());
    assert_eq!(c.space(), 0);
    // Pushing past N fails and returns the rejected value, unchanged.
    assert_eq!(c.push(40), Err(40));
    assert_eq!(c.len(), 3);
    assert_eq!(c.data, vec![10, 20, 30]);
}

#[test]
fn link_take_replace_swap() {
    let mut a: Link<u32> = Link(Some(5));
    let taken = a.take();
    assert_eq!(taken.0, Some(5));
    assert_eq!(a.0, None);

    let previous = a.replace(Link(Some(8)));
    assert_eq!(previous.0, None);
    assert_eq!(a.0, Some(8));

    let mut b: Link<u32> = Link(Some(9));
    a.swap(&mut b);
    assert_eq!(a.0, Some(9));
    assert_eq!(b.0, Some(8));
}

#[test]
fn link_as_ref_and_copy() {
    let full: Link<u32> = Link(Some(3));
    let empty: Link<u32> = Link(None);
    assert_eq!(full.as_ref(), Some(&3));
    assert_eq!(empty.as_ref(), None);
    // Copying a link duplicates the slot, not the referent.
    let copy = full;
    assert_eq!(copy.0, Some(3));
    assert_eq!(full.0, Some(3));
    let defaulted: Link<u32> = Link::default();
    assert_eq!(defaulted.0, None);
}

#[test]
fn link_as_mut_edits_in_place() {
    let mut l: Link<u32> = Link(Some(4));
    if let Some(v) = l.as_mut() {
        *v = 9;
    }
    assert_eq!(l.0, Some(9));
    let mut e: Link<u32> = Link(None);
    assert!(e.as_mut().is_none());
    assert_eq!(e.0, None);
}

#[test]
fn link_or_else_fills_only_empty() {
    let mut empty: Link<u32> = Link(None);
    empty.or_else(|| Link(Some(1)));
    assert_eq!(empty.0, Some(1));
    // A populated slot is left alone; the fallback is not consulted.
    let mut full: Link<u32> = Link(Some(2));
    full.or_else(|| Link(Some(3)));
    assert_eq!(full.0, Some(2));
}

#[test]
fn list_chonk_starts_fresh() {
    let seg: ListChonk<u64, 4> = ListChonk::new();
    assert!(seg.is_empty());
    assert!(seg.is_detached());
    assert_eq!(seg.len(), 0);
}
