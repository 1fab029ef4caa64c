use cursor_engine::raster::{fallback_cursor, select_cursor_frames, CursorImage, XCursor};

fn img(size: u32, width: u32, height: u32, delay: u32) -> CursorImage {
    CursorImage {
        size,
        width,
        height,
        xhot: 1,
        yhot: 2,
        delay,
        pixels_rgba: vec![0u8; (width * height * 4) as usize],
    }
}

#[test]
fn frame_walks_delays_in_order() {
    let c = XCursor::new(vec![img(32, 32, 32, 100), img(32, 32, 32, 50)]).unwrap();
    assert_eq!(c.frame(0).0, 0);
    assert_eq!(c.frame(99).0, 0);
    assert_eq!(c.frame(100).0, 1);
    assert_eq!(c.frame(149).0, 1);
}

#[test]
fn frame_is_periodic() {
    let c = XCursor::new(vec![img(32, 32, 32, 100), img(32, 32, 32, 50)]).unwrap();
    for m in [0u32, 5, 99, 100, 120, 149] {
        assert_eq!(c.frame(m).0, c.frame(m + 150).0);
        assert_eq!(c.frame(m).0, c.frame(m + 300).0);
    }
}

#[test]
fn frame_zero_duration_always_shows_first_frame() {
    let c = XCursor::new(vec![img(32, 32, 32, 0), img(32, 32, 32, 0)]).unwrap();
    assert_eq!(c.frame(0).0, 0);
    assert_eq!(c.frame(12345).0, 0);
}

#[test]
fn empty_frame_sequence_is_rejected() {
    assert!(XCursor::new(Vec::new()).is_none());
}

#[test]
fn animated_means_more_than_one_frame() {
    let one = XCursor::new(vec![img(32, 32, 32, 0)]).unwrap();
    let two = XCursor::new(vec![img(32, 32, 32, 10), img(32, 32, 32, 10)]).unwrap();
    assert!(!one.is_animated_cursor());
    assert!(two.is_animated_cursor());
}

#[test]
fn hotspot_reads_frame_fields() {
    let c = XCursor::new(vec![img(32, 32, 32, 0)]).unwrap();
    assert_eq!(XCursor::hotspot(&c.frames()[0]), (1, 2));
}

#[test]
fn selection_picks_closest_nominal_size() {
    let frames = vec![img(16, 16, 16, 0), img(32, 32, 32, 0), img(64, 64, 64, 0)];
    let c = select_cursor_frames(frames, 30).unwrap();
    assert_eq!(c.frames().len(), 1);
    assert_eq!(c.frames()[0].width, 32);
}

#[test]
fn selection_keeps_every_frame_of_the_chosen_dimensions() {
    let frames = vec![
        img(32, 32, 32, 10),
        img(16, 16, 16, 0),
        img(32, 32, 32, 20),
    ];
    let c = select_cursor_frames(frames, 32).unwrap();
    assert_eq!(c.frames().len(), 2);
    assert_eq!(c.animation_duration, 30);
}

#[test]
fn selection_of_nothing_is_none() {
    assert!(select_cursor_frames(Vec::new(), 24).is_none());
}

#[test]
fn fallback_cursor_is_a_static_usable_glyph() {
    let c = fallback_cursor();
    assert_eq!(c.frames().len(), 1);
    let f = &c.frames()[0];
    assert_eq!((f.width, f.height), (64, 64));
    assert_eq!((f.xhot, f.yhot), (1, 1));
    assert_eq!(f.delay, 0);
    assert_eq!(f.pixels_rgba.len(), 64 * 64 * 4);
    assert_eq!(c.animation_duration, 0);
    // a pixel on the wedge is opaque, one far outside is transparent
    let inside = (5 * 64 + 2) * 4; // x = 2, y = 5
    let outside = (1 * 64 + 60) * 4; // x = 60, y = 1
    assert_eq!(f.pixels_rgba[inside + 3], 255);
    assert_eq!(f.pixels_rgba[outside + 3], 0);
}
