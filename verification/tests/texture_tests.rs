use std::collections::HashMap;
use radiant_rs::texture::{
    bytes_per_pixel_for, create_prune_map, remove_dropped, sprite_ranges_fit, RawFrame, RawFrameArray,
    TextureFormat,
};

fn frame(tag: u8) -> RawFrame {
    RawFrame { data: vec![tag], width: 1, height: 1, channels: 1 }
}

fn id_map(pairs: &[(usize, usize)]) -> HashMap<usize, usize> {
    pairs.iter().copied().collect()
}

fn tags(array: &RawFrameArray) -> Vec<u8> {
    array.raw.iter().map(|f| f.data[0]).collect()
}

#[test]
fn bytes_per_pixel() {
    assert_eq!(bytes_per_pixel_for(TextureFormat::U8), 1);
    assert_eq!(bytes_per_pixel_for(TextureFormat::F16), 2);
    assert_eq!(bytes_per_pixel_for(TextureFormat::U8U8), 2);
    assert_eq!(bytes_per_pixel_for(TextureFormat::F32), 4);
    assert_eq!(bytes_per_pixel_for(TextureFormat::U8U8U8U8), 4);
    assert_eq!(bytes_per_pixel_for(TextureFormat::U16U16), 4);
    assert_eq!(bytes_per_pixel_for(TextureFormat::F11F11F10), 4);
    assert_eq!(bytes_per_pixel_for(TextureFormat::U16U16U16), 8);
    assert_eq!(bytes_per_pixel_for(TextureFormat::F16F16F16F16), 8);
    assert_eq!(bytes_per_pixel_for(TextureFormat::F16F16), 4);
    assert_eq!(bytes_per_pixel_for(TextureFormat::F32F32), 8);
    assert_eq!(bytes_per_pixel_for(TextureFormat::F32F32F32F32), 16);
}

#[test]
fn store_frames_returns_first_id() {
    let mut array = RawFrameArray::new();
    assert!(!array.dirty);
    assert_eq!(array.store_frames(vec![frame(1), frame(2)]), 0);
    assert_eq!(array.store_frames(vec![frame(3)]), 2);
    assert!(array.dirty);
    assert_eq!(tags(&array), vec![1, 2, 3]);
    assert!(array.update());
    assert!(!array.dirty);
    assert!(!array.update());
}

#[test]
fn prune_map_sorts_live_ranges_and_counts_gaps() {
    let ranges = vec![Some((5, 3)), None, Some((0, 2)), Some((10, 1))];
    let map = create_prune_map(&ranges).unwrap();
    assert_eq!(map, vec![(0, 0), (5, 3), (10, 5)]);
    assert_eq!(create_prune_map(&vec![None, None]), None);
    assert_eq!(create_prune_map(&vec![]), None);
}

#[test]
fn prune_moves_the_frames_of_every_live_sprite() {
    // sprite A at 0..2, unused 2..4, sprite B at 4..6, unused 6..7, sprite C at 7..9
    let mut array = RawFrameArray::new();
    array.store_frames((0..9).map(frame).collect());
    let map = create_prune_map(&vec![Some((0, 2)), Some((4, 2)), Some((7, 2))]).unwrap();
    assert_eq!(map, vec![(0, 0), (4, 2), (7, 3)]);
    let destinations = array.prune_raw_textures(&map);
    assert_eq!(destinations, id_map(&[(0, 0), (4, 2), (7, 4)]));
    // A, B and C land at their new ids 0, 2 and 4.
    assert_eq!(tags(&array), vec![0, 1, 4, 5, 7, 8]);
}

#[test]
fn prune_without_gaps_keeps_frames() {
    let mut array = RawFrameArray::new();
    array.store_frames((0..4).map(frame).collect());
    let map = create_prune_map(&vec![Some((0, 2)), Some((2, 2))]).unwrap();
    let destinations = array.prune_raw_textures(&map);
    assert_eq!(destinations, id_map(&[(0, 0), (2, 2)]));
    assert_eq!(tags(&array), vec![0, 1, 2, 3]);
}

#[test]
fn prune_places_each_sprite_at_its_new_id() {
    // A at 0..1, unused 1..2, B at 2..4, unused 4..6, C at 6..7, D at 7..10
    let mut array = RawFrameArray::new();
    array.store_frames((0..10).map(frame).collect());
    let map = create_prune_map(&vec![Some((7, 3)), Some((2, 2)), Some((0, 1)), Some((6, 1))]).unwrap();
    assert_eq!(map, vec![(0, 0), (2, 1), (6, 3), (7, 3)]);
    let destinations = array.prune_raw_textures(&map);
    assert_eq!(destinations, id_map(&[(0, 0), (2, 1), (6, 3), (7, 4)]));
    let result = tags(&array);
    assert_eq!(result.len(), 7);
    // A, B, C and D hold their frames from their new first ids 0, 1, 3 and 4 on.
    assert_eq!(result, vec![0, 2, 3, 6, 7, 8, 9]);
}

#[test]
fn prune_assigns_new_ids_to_live_sprites() {
    // A at 0..2, dropped sprite at 2..4, B at 4..6, C at 7..9
    let mut array = RawFrameArray::new();
    array.store_frames((0..9).map(frame).collect());
    array.update();
    let ranges = vec![Some((0, 2)), None, Some((4, 2)), Some((7, 2))];
    let ids = array.prune(&ranges);
    assert_eq!(ids, vec![Some(0), None, Some(2), Some(4)]);
    assert!(array.dirty);
    // A's frames stay at 0, B's move to 2 and C's to 4.
    assert_eq!(tags(&array), vec![0, 1, 4, 5, 7, 8]);
}

#[test]
fn prune_without_live_sprites_keeps_frames() {
    let mut array = RawFrameArray::new();
    array.store_frames((0..3).map(frame).collect());
    array.update();
    let ids = array.prune(&vec![None, None]);
    assert_eq!(ids, vec![None, None]);
    assert!(!array.dirty);
    assert_eq!(tags(&array), vec![0, 1, 2]);
}

#[test]
fn remove_dropped_keeps_the_live_references() {
    let mut refs = vec!['a', 'b', 'c', 'd', 'e'];
    remove_dropped(&mut refs, &vec![true, false, true, false, true]);
    // 'd' goes first ('e' moves into its place), then 'b' ('e' moves again)
    assert_eq!(refs, vec!['a', 'e', 'c']);
    let mut all = vec![1, 2, 3];
    remove_dropped(&mut all, &vec![true, true, true]);
    assert_eq!(all, vec![1, 2, 3]);
    let mut none = vec![1, 2, 3];
    remove_dropped(&mut none, &vec![false, false, false]);
    assert!(none.is_empty());
}

#[test]
fn sprite_ranges_fit_requires_disjoint_nonempty_ranges_within_the_frames() {
    assert!(sprite_ranges_fit(9, &vec![Some((0, 2)), None, Some((4, 2)), Some((7, 2))]));
    assert!(sprite_ranges_fit(0, &vec![None]));
    assert!(sprite_ranges_fit(0, &vec![]));
    // overlapping
    assert!(!sprite_ranges_fit(9, &vec![Some((0, 3)), Some((2, 2))]));
    // past the frames
    assert!(!sprite_ranges_fit(8, &vec![Some((0, 2)), Some((7, 2))]));
    // empty range
    assert!(!sprite_ranges_fit(9, &vec![Some((3, 0))]));
    // touching ranges are fine
    assert!(sprite_ranges_fit(4, &vec![Some((2, 2)), Some((0, 2))]));
}

#[test]
fn prune_moves_a_single_sprite_behind_dead_frames() {
    let mut array = RawFrameArray::new();
    array.store_frames((0..4).map(frame).collect());
    let ids = array.prune(&vec![None, Some((2, 2))]);
    assert_eq!(ids, vec![None, Some(0)]);
    assert_eq!(tags(&array), vec![2, 3]);
}
