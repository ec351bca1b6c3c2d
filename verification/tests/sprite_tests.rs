use radiant_rs::sprite::{
    bucket_info, frame_grid, frame_texture_id, get_frame_coordinates, parse_sprite_name, raw_frame_origins,
    sprite_name_fits, sprite_parameters, SpriteLayout, SpriteName, SpriteParameters,
};

fn params(layout: SpriteLayout) -> SpriteParameters {
    SpriteParameters {
        dimensions: (16, 8),
        num_frames: (3, 2),
        components: 2,
        inner_margin: 1,
        layout,
    }
}

#[test]
fn bucket_sizes() {
    assert_eq!(bucket_info(9, 1), (1, 16));
    assert_eq!(bucket_info(1, 1), (1, 16));
    assert_eq!(bucket_info(8, 3), (1, 16));
    assert_eq!(bucket_info(0, 0), (1, 16));
    assert_eq!(bucket_info(16, 16), (1, 16));
    assert_eq!(bucket_info(3, 17), (2, 32));
    assert_eq!(bucket_info(64, 33), (3, 64));
    assert_eq!(bucket_info(100, 128), (4, 128));
    assert_eq!(bucket_info(129, 2), (5, 256));
    assert_eq!(bucket_info(256, 256), (5, 256));
}

#[test]
fn frame_coordinates_horizontal() {
    let p = params(SpriteLayout::HORIZONTAL);
    assert_eq!(get_frame_coordinates(&p, 0, 0), (0, 0));
    assert_eq!(get_frame_coordinates(&p, 1, 0), (17, 0));
    assert_eq!(get_frame_coordinates(&p, 4, 0), (17, 9));
    assert_eq!(get_frame_coordinates(&p, 4, 1), (17, 18));
}

#[test]
fn frame_coordinates_vertical() {
    let p = params(SpriteLayout::VERTICAL);
    assert_eq!(get_frame_coordinates(&p, 0, 0), (0, 0));
    assert_eq!(get_frame_coordinates(&p, 1, 0), (0, 9));
    assert_eq!(get_frame_coordinates(&p, 5, 0), (34, 9));
    assert_eq!(get_frame_coordinates(&p, 5, 1), (51, 9));
}

fn name(s: &str) -> Option<SpriteName> {
    assert!(sprite_name_fits(s));
    parse_sprite_name(s)
}

#[test]
fn names_with_frame_count() {
    let n = name("asteroid_64x64x24.png").unwrap();
    assert_eq!((n.frame_width, n.frame_height), (64, 64));
    assert_eq!(n.frame_count, Some(24));
    assert_eq!(n.components, None);
    assert_eq!(n.inner_margin, None);
}

#[test]
fn names_with_components_and_margin() {
    let n = name("battery_lightmapped_128x128x15x2+3.png").unwrap();
    assert_eq!((n.frame_width, n.frame_height), (128, 128));
    assert_eq!(n.frame_count, Some(15));
    assert_eq!(n.components, Some(2));
    assert_eq!(n.inner_margin, Some(3));
}

#[test]
fn names_with_margin_only() {
    let n = name("mysprite_16x16+1.png").unwrap();
    assert_eq!((n.frame_width, n.frame_height), (16, 16));
    assert_eq!(n.frame_count, None);
    assert_eq!(n.components, None);
    assert_eq!(n.inner_margin, Some(1));
}

#[test]
fn names_without_match() {
    assert!(name("plain.png").is_none());
    assert!(name("sprite_16x.png").is_none());
    assert!(name("sprite_16x16").is_none());
    assert!(name("sprite_16x16x3a.png").is_none());
}

#[test]
fn names_use_the_leftmost_match() {
    let n = name("a_1x2.b_3x4x5.png").unwrap();
    assert_eq!((n.frame_width, n.frame_height, n.frame_count), (1, 2, None));
    let n = name("a_1x_2x3.png").unwrap();
    assert_eq!((n.frame_width, n.frame_height), (2, 3));
}

#[test]
fn names_with_incomplete_optional_parts() {
    assert!(name("s_4x5x6x.7.png").is_none());
    assert!(name("s_4x5x6+.png").is_none());
    assert!(name("s_4x5x6x7+.x.").is_none());
    let n = name("s_4x5x6x7+.x_1x2.").unwrap();
    assert_eq!((n.frame_width, n.frame_height), (1, 2));
}

#[test]
fn names_with_oversized_numbers_do_not_fit() {
    assert!(!sprite_name_fits("s_99999999999x2.png"));
    assert!(sprite_name_fits("s_4294967295x2.png"));
    assert_eq!(parse_sprite_name("s_4294967295x2.png").unwrap().frame_width, u32::MAX);
}

#[test]
fn parameters_from_names() {
    let p = sprite_parameters((640, 64), name("a_64x64x10.png"), (0, 0));
    assert_eq!(p.dimensions, (64, 64));
    assert_eq!(p.num_frames, (10, 1));
    assert_eq!(p.layout, SpriteLayout::HORIZONTAL);
    assert_eq!(p.components, 1);
    assert_eq!(p.inner_margin, 0);

    let p = sprite_parameters((64, 640), name("a_64x64x10x2+1.png"), (0, 0));
    assert_eq!(p.num_frames, (1, 10));
    assert_eq!(p.layout, SpriteLayout::VERTICAL);
    assert_eq!(p.components, 2);
    assert_eq!(p.inner_margin, 1);

    let p = sprite_parameters((130, 64), name("a_64x64+2.png"), (2, 1));
    assert_eq!(p.num_frames, (2, 1));
    assert_eq!(p.layout, SpriteLayout::HORIZONTAL);

    let p = sprite_parameters((130, 70), name("plain.png"), (7, 7));
    assert_eq!(p.dimensions, (130, 70));
    assert_eq!(p.num_frames, (1, 1));
    assert_eq!(p.components, 1);
}

#[test]
fn raw_frames_are_stored_component_by_component() {
    let p = params(SpriteLayout::HORIZONTAL);
    let origins = raw_frame_origins(&p);
    assert_eq!(origins.len(), 12);
    // frame 0: components 0 and 1 lie in rows 0 and 1 of column 0
    assert_eq!(origins[0], (0, 0));
    assert_eq!(origins[1], (0, 9));
    // frame 4: column 1, row 1; its second component is one row further down
    assert_eq!(origins[8], (17, 9));
    assert_eq!(origins[9], (17, 18));
    for frame_id in 0..6u32 {
        for component in 0..2u32 {
            assert_eq!(origins[(frame_id * 2 + component) as usize], get_frame_coordinates(&p, frame_id, component));
        }
    }
}

#[test]
fn frame_texture_ids_cycle_through_the_frames() {
    assert_eq!(frame_texture_id(10, 6, 2, 0), 10);
    assert_eq!(frame_texture_id(10, 6, 2, 4), 18);
    assert_eq!(frame_texture_id(10, 6, 2, 6), 10);
    assert_eq!(frame_texture_id(10, 6, 2, 13), 12);
    assert_eq!(frame_texture_id(0, 1, 1, 99), 0);
}

#[test]
fn documented_sheet_names() {
    let n = name("battery_lightmapped_128x128x15x2.png").unwrap();
    assert_eq!((n.frame_width, n.frame_height, n.frame_count, n.components), (128, 128, Some(15), Some(2)));
    let n = name("mysprite_16x16x30.png").unwrap();
    assert_eq!((n.frame_width, n.frame_height, n.frame_count), (16, 16, Some(30)));
    let n = name("mysprite_16x16x30x2.png").unwrap();
    assert_eq!((n.frame_count, n.components, n.inner_margin), (Some(30), Some(2), None));
    let n = name("mysprite_16x16x30+1.png").unwrap();
    assert_eq!((n.frame_count, n.components, n.inner_margin), (Some(30), None, Some(1)));
    let n = name("mysprite_16x16+1.png").unwrap();
    assert_eq!((n.frame_count, n.inner_margin), (None, Some(1)));
}

#[test]
fn frame_grid_counts_whole_frames_only() {
    // 130 = 64 + 2 + 64: two frames with a margin of 2 between them
    assert_eq!(frame_grid((130, 64), (64, 64), 2), Some((2, 1)));
    assert_eq!(frame_grid((640, 64), (64, 64), 0), Some((10, 1)));
    assert_eq!(frame_grid((100, 64), (64, 64), 0), None);
    assert_eq!(frame_grid((64, 64), (0, 64), 0), None);
}
