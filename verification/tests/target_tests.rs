use radiant_rs::blendmode::{access_blendmode, inner, BlendMode};
use radiant_rs::target::{lock, prepare, take, Target, TargetInfo};

#[test]
fn display_target_prepare_and_take() {
    let mut target: Target<&str, u32, ()> = Target::new(TargetInfo::Display("window", None));
    assert!(target.is_display());
    assert!(!target.is_texture());
    assert_eq!(take(&mut target), None);
    prepare(&mut target, |d: &&str| d.len() as u32);
    assert!(matches!(lock(&mut target), TargetInfo::Display("window", Some(6))));
    prepare(&mut target, |_: &&str| 99);
    assert!(matches!(lock(&mut target), TargetInfo::Display(_, Some(6))));
    assert_eq!(take(&mut target), Some(6));
    assert!(matches!(lock(&mut target), TargetInfo::Display(_, None)));
}

#[test]
fn texture_target_has_no_frame() {
    let mut target: Target<(), u32, &str> = Target::new(TargetInfo::Framebuffer("texture"));
    assert!(target.is_texture());
    assert!(!target.is_display());
    prepare(&mut target, |_: &()| 1);
    assert_eq!(take(&mut target), None);
    assert!(matches!(lock(&mut target), TargetInfo::Framebuffer("texture")));
}

#[test]
fn blendmode_set_and_inner() {
    let mut mode = BlendMode::new(1u8);
    assert_eq!(inner(&mode), 1);
    mode.set(BlendMode::new(7u8));
    assert_eq!(inner(&mode), 7);
}

#[test]
fn access_blendmode_reads_the_description() {
    let mut mode = BlendMode::new(3u8);
    assert_eq!(access_blendmode(&mode), 3);
    mode.set(BlendMode::new(4u8));
    assert_eq!(access_blendmode(&mode), 4);
}
