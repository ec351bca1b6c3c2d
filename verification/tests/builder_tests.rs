use radiant_rs::builder::{create_displaybuilder, DisplayInfo, FontQueryBuilder};

#[test]
fn display_builder_defaults() {
    let b = create_displaybuilder();
    let info = b.get_info();
    assert_eq!((info.width, info.height), (640, 480));
    assert_eq!(info.title, "");
    assert!(!info.transparent);
    assert!(info.decorations);
    assert_eq!(info.monitor, -1);
    assert!(!info.vsync);
    assert!(info.visible);
    let d = DisplayInfo::default();
    assert_eq!((d.width, d.height, d.monitor), (640, 480, -1));
}

#[test]
fn display_builder_sets_fields() {
    let b = create_displaybuilder()
        .width(800)
        .height(600)
        .title("Window!")
        .transparent()
        .borderless()
        .monitor(2)
        .vsync()
        .hidden();
    let info = b.get_info();
    assert_eq!((info.width, info.height), (800, 600));
    assert_eq!(info.title, "Window!");
    assert!(info.transparent);
    assert!(!info.decorations);
    assert_eq!(info.monitor, 2);
    assert!(info.vsync);
    assert!(!info.visible);
    let b = b.dimensions((320, 200));
    assert_eq!((b.get_info().width, b.get_info().height), (320, 200));
}

#[test]
fn font_query_builder() {
    let q = FontQueryBuilder::new();
    assert_eq!(q.get_family(), "");
    assert_eq!(q.get_flags(), (false, false, false));
    let q = q.family("Arial").italic().monospace();
    assert_eq!(q.get_family(), "Arial");
    assert_eq!(q.get_flags(), (true, false, true));
    let q = q.oblique();
    assert_eq!(q.get_flags(), (true, true, true));
}
