use cursor_engine::json::decimal_to_micro;
use cursor_engine::lottie::LottieRenderer;

fn micro(text: &str) -> Option<i64> {
    decimal_to_micro(&text.chars().collect())
}

#[test]
fn decimal_numbers_read_exactly() {
    assert_eq!(micro("0"), Some(0));
    assert_eq!(micro("24"), Some(24000000));
    assert_eq!(micro("1.5"), Some(1500000));
    assert_eq!(micro("-0.25"), Some(-250000));
    assert_eq!(micro("0.0000019"), Some(1)); // truncated beyond six digits
    assert_eq!(micro("12.345678"), Some(12345678));
}

#[test]
fn exotic_number_shapes_are_rejected() {
    assert_eq!(micro(""), None);
    assert_eq!(micro("1e3"), None);
    assert_eq!(micro("."), None);
    assert_eq!(micro("1."), None);
    assert_eq!(micro("abc"), None);
    assert_eq!(micro("1234567890123"), None); // integer part too long
}

#[test]
fn malformed_document_is_rejected() {
    assert!(LottieRenderer::new("c".to_string(), "{not json".to_string(), None, 24).is_err());
}

#[test]
fn document_defaults_apply() {
    let l = LottieRenderer::new("c".to_string(), "{}".to_string(), None, 24).unwrap();
    assert_eq!(l.width_micro, 24000000);
    assert_eq!(l.height_micro, 24000000);
    assert_eq!(l.frame_rate_micro, 60000000);
    assert_eq!(l.total_frames(), 0);
    assert_eq!(l.frame_duration_ms(), 16);
    assert_eq!(l.hotspot(), (0, 0));
}

#[test]
fn document_fields_are_read() {
    let doc = "{\"w\": 8, \"h\": 4, \"fr\": 30, \"op\": 30}";
    let l = LottieRenderer::new("wait".to_string(), doc.to_string(), Some((2, 3)), 24).unwrap();
    assert_eq!(l.width_micro, 8000000);
    assert_eq!(l.height_micro, 4000000);
    assert_eq!(l.total_frames(), 30);
    assert_eq!(l.frame_duration_ms(), 33);
    assert_eq!(l.hotspot(), (2, 3));
}

fn doc_with_square(op: u32) -> String {
    // one layer, one group with a shape path and a fill
    format!(
        "{{\"w\": 8, \"h\": 8, \"fr\": 30, \"op\": {}, \"layers\": [{{\"shapes\": [{{\"ty\": \"gr\", \"it\": [{{\"ty\": \"sh\", \"ks\": {{\"a\": [], \"k\": [[0, 0, 8, 0, 0, 8, 8, 8]]}}}}, {{\"ty\": \"fl\", \"c\": [1, 0, 0, 1]}}]}}]}}]}}",
        op
    )
}

#[test]
fn shape_and_fill_extract_into_one_primitive() {
    let l = LottieRenderer::new("c".to_string(), doc_with_square(30), None, 24).unwrap();
    assert_eq!(l.primitives.len(), 1);
    let p = &l.primitives[0];
    assert_eq!(p.vertices.len(), 4);
    assert_eq!(p.vertices[0], (0, 0));
    assert_eq!(p.vertices[1], (8000000, 0));
    assert_eq!(p.indices, vec![0, 1, 2, 2, 1, 3]);
    assert_eq!(p.fill, Some((255, 0, 0, 255)));
    assert!(p.stroke.is_none());
}

#[test]
fn rendering_fills_covered_pixels() {
    let l = LottieRenderer::new("c".to_string(), doc_with_square(30), None, 24).unwrap();
    let f = l.render_frame(0, 1).unwrap();
    assert_eq!((f.width, f.height), (8, 8));
    assert_eq!(f.buffer.len(), 8 * 8 * 4);
    // the two triangles over (0,0) (8,0) (0,8) (8,8) cover the canvas
    // interior; check one interior pixel took the fill color
    let off = (4 * 8 + 4) * 4;
    assert_eq!(&f.buffer[off..off + 4], &[255, 0, 0, 255]);
}

#[test]
fn zero_out_point_always_renders_frame_zero() {
    // op = 0: every requested frame renders exactly like frame 0
    let l = LottieRenderer::new("c".to_string(), doc_with_square(0), None, 24).unwrap();
    assert_eq!(l.total_frames(), 0);
    let base = l.render_frame(0, 1).unwrap();
    for frame in [1u32, 7, 1000] {
        let other = l.render_frame(frame, 1).unwrap();
        assert_eq!(base.buffer, other.buffer);
        assert_eq!((base.width, base.height), (other.width, other.height));
    }
}

#[test]
fn bad_scale_is_rejected() {
    let l = LottieRenderer::new("c".to_string(), "{}".to_string(), None, 24).unwrap();
    assert!(l.render_frame(0, 0).is_err());
    assert!(l.render_frame(0, -1).is_err());
    assert!(l.render_frame(0, 2).is_ok());
}

#[test]
fn hotspot_scales_with_the_device() {
    let doc = "{\"w\": 4, \"h\": 4}";
    let l = LottieRenderer::new("c".to_string(), doc.to_string(), Some((3, 1)), 24).unwrap();
    let f = l.render_frame(0, 2).unwrap();
    assert_eq!((f.hotspot_x, f.hotspot_y), (6, 2));
    assert_eq!((f.width, f.height), (8, 8));
}

#[test]
fn oversized_canvas_is_rejected() {
    let doc = "{\"w\": 4000, \"h\": 8}";
    let l = LottieRenderer::new("c".to_string(), doc.to_string(), None, 24).unwrap();
    assert!(l.render_frame(0, 1).is_ok());
    assert!(matches!(
        l.render_frame(0, 2),
        Err(cursor_engine::lottie::RenderError::CanvasTooLarge)
    ));
    let narrow = "{\"w\": 8, \"h\": 8}";
    let l2 = LottieRenderer::new("c".to_string(), narrow.to_string(), None, 24).unwrap();
    assert!(matches!(
        l2.render_frame(0, 4096),
        Err(cursor_engine::lottie::RenderError::CanvasTooLarge)
    ));
}
