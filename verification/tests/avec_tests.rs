use radiant_rs::avec::AVec;

#[test]
fn push_returns_insert_positions() {
    let mut v: AVec<u32> = AVec::new(2);
    assert_eq!(v.push(10), 0);
    assert_eq!(v.push(20), 1);
    assert_eq!(v.len(), 2);
    assert_eq!(v.capacity(), 2);
}

#[test]
fn push_beyond_capacity_doubles_it() {
    let mut v: AVec<u32> = AVec::new(2);
    v.push(1);
    v.push(2);
    assert_eq!(v.push(3), 2);
    assert_eq!(v.capacity(), 4);
    assert_eq!(v.len(), 3);
}

#[test]
fn push_into_empty_vector_grows_exactly() {
    let mut v: AVec<u32> = AVec::new(0);
    assert_eq!(v.capacity(), 0);
    assert_eq!(v.push(7), 0);
    assert_eq!(v.capacity(), 1);
}

#[test]
fn grow_exactly_when_more_than_double_is_needed() {
    let mut v: AVec<u8> = AVec::new(3);
    v.grow(10);
    assert_eq!(v.capacity(), 10);
    v.grow(12);
    assert_eq!(v.capacity(), 20);
    v.grow(5);
    assert_eq!(v.capacity(), 20);
}

#[test]
fn pushed_values_can_be_read_back() {
    let mut v: AVec<u32> = AVec::new(1);
    v.push(5);
    v.push(6);
    let guard = v.get();
    assert_eq!(guard.deref(), &[Some(5), Some(6)][..]);
}

#[test]
fn maps_reserve_adjacent_ranges() {
    let mut v: AVec<u32> = AVec::new(4);
    let g1 = v.map(3);
    let g2 = v.map(4);
    assert_eq!(g1.mapped_range(), (0, 3));
    assert_eq!(g2.mapped_range(), (3, 7));
    assert_eq!(v.len(), 7);
    assert_eq!(v.capacity(), 8);
    g1.set(&mut v, 2, 30);
    g2.set(&mut v, 0, 40);
    g1.release(&mut v);
    g2.release(&mut v);
    let r = v.get();
    assert_eq!(r.deref(), &[None, None, Some(30), Some(40), None, None, None][..]);
}

#[test]
fn clear_resets_length_and_keeps_slots() {
    let mut v: AVec<u32> = AVec::new(2);
    v.push(1);
    v.push(2);
    v.clear();
    assert_eq!(v.len(), 0);
    assert_eq!(v.capacity(), 2);
    assert_eq!(v.push(9), 0);
    let g = v.map(1);
    g.release(&mut v);
    let r = v.get();
    assert_eq!(r.deref(), &[Some(9), Some(2)][..]);
}

#[test]
fn read_guard_covers_length_at_creation() {
    let mut v: AVec<u32> = AVec::new(4);
    v.push(1);
    let r = v.get();
    assert_eq!(r.deref().len(), 1);
}

#[test]
fn length_counts_pushes_and_maps_since_the_last_clear() {
    let mut v: AVec<u32> = AVec::new(4);
    assert_eq!(v.capacity(), 4);
    v.push(1);
    let g = v.map(3);
    g.release(&mut v);
    v.push(2);
    assert_eq!(v.len(), 5);
    v.clear();
    assert_eq!(v.capacity(), 8);
    let g = v.map(2);
    g.release(&mut v);
    v.push(3);
    assert_eq!(v.len(), 3);
}

#[test]
fn grow_keeps_doubles_or_resizes_exactly() {
    let mut v: AVec<u32> = AVec::new(4);
    v.grow(3);
    assert_eq!(v.capacity(), 4);
    v.grow(5);
    assert_eq!(v.capacity(), 8);
    v.grow(20);
    assert_eq!(v.capacity(), 20);
    assert_eq!(v.len(), 0);
}
