use cursor_engine::config::{
    CursorDefinition, CursorFormat, CursorThemeConfig, EasingFunction, TransitionConfig,
    TransitionType,
};
use cursor_engine::store::{Renderer, StoreError, VectorCursorStore};

fn theme() -> CursorThemeConfig {
    CursorThemeConfig::new(
        vec![
            (
                "default".to_string(),
                CursorDefinition {
                    format: CursorFormat::Svg,
                    file: "default.svg".to_string(),
                    hotspot: Some((4, 4)),
                    loop_mode: None,
                },
            ),
            (
                "wait".to_string(),
                CursorDefinition {
                    format: CursorFormat::Lottie,
                    file: "wait.json".to_string(),
                    hotspot: None,
                    loop_mode: None,
                },
            ),
        ],
        Vec::new(),
    )
}

const TINY_SVG: &str =
    "<svg xmlns=\"http://www.w3.org/2000/svg\" width=\"4\" height=\"4\"><rect width=\"4\" height=\"4\" fill=\"#ff0000\"/></svg>";

#[test]
fn config_lookup_finds_entries() {
    let c = theme();
    assert!(c.get_cursor("default").is_some());
    assert!(c.get_cursor("wait").is_some());
    assert!(c.get_cursor("missing").is_none());
    assert_eq!(c.get_cursor("wait").unwrap().file, "wait.json");
}

#[test]
fn transition_lookup_uses_the_arrow_key() {
    let c = CursorThemeConfig::new(
        Vec::new(),
        vec![(
            "a->b".to_string(),
            TransitionConfig {
                transition_type: TransitionType::CrossFade,
                duration_ms: 120,
                easing: EasingFunction::Linear,
                file: None,
            },
        )],
    );
    assert!(c.get_transition("a", "b").is_some());
    assert_eq!(c.get_transition("a", "b").unwrap().duration_ms, 120);
    assert!(c.get_transition("b", "a").is_none());
    assert!(c.get_transition("a", "c").is_none());
}

#[test]
fn unknown_cursor_is_not_found() {
    let mut store = VectorCursorStore::new("/theme".to_string(), theme(), 24);
    assert!(matches!(store.get_renderer("nope", None), Err(StoreError::NotFound)));
}

#[test]
fn uncached_cursor_asks_for_its_source_file() {
    let mut store = VectorCursorStore::new("/theme".to_string(), theme(), 24);
    match store.get_renderer("wait", None) {
        Err(StoreError::NeedsSource { file }) => assert_eq!(file, "wait.json"),
        other => panic!("expected NeedsSource, got {:?}", other),
    }
}

#[test]
fn bad_source_is_a_parse_error() {
    let mut store = VectorCursorStore::new("/theme".to_string(), theme(), 24);
    assert!(matches!(
        store.get_renderer("wait", Some("{oops")),
        Err(StoreError::Parse)
    ));
    // a failed construction caches nothing
    assert!(matches!(
        store.get_renderer("wait", None),
        Err(StoreError::NeedsSource { .. })
    ));
}

#[test]
fn get_renderer_twice_returns_the_same_handle() {
    let mut store = VectorCursorStore::new("/theme".to_string(), theme(), 24);
    let h1 = store.get_renderer("wait", Some("{\"w\": 4, \"h\": 4}")).unwrap();
    let before = store.renderers.len();
    let h2 = store.get_renderer("wait", None).unwrap();
    let h3 = store.get_renderer("wait", Some("{\"w\": 9999}")).unwrap();
    assert_eq!(h1, h2);
    assert_eq!(h1, h3);
    // cache hit: nothing was re-read or re-built
    assert_eq!(store.renderers.len(), before);
    assert!(matches!(store.renderer(h1), Renderer::Lottie(_)));
}

#[test]
fn renderer_format_follows_the_definition() {
    let mut store = VectorCursorStore::new("/theme".to_string(), theme(), 24);
    let hs = store.get_renderer("default", Some(TINY_SVG)).unwrap();
    assert!(matches!(store.renderer(hs), Renderer::Svg(_)));
    assert_eq!(store.renderer(hs).total_frames(), 1);
    assert_eq!(store.renderer(hs).frame_duration_ms(), 0);
    assert_eq!(store.renderer(hs).hotspot(), (4, 4));
}

#[test]
fn svg_frame_is_swizzled_and_scaled() {
    let mut store = VectorCursorStore::new("/theme".to_string(), theme(), 24);
    let hs = store.get_renderer("default", Some(TINY_SVG)).unwrap();
    let f = store.renderer(hs).render_frame(0, 2).unwrap();
    assert_eq!((f.width, f.height), (8, 8));
    assert_eq!(f.buffer.len(), 8 * 8 * 4);
    // native premultiplied red (255, 0, 0, 255) arrives with the first
    // and third channels exchanged
    assert_eq!(&f.buffer[0..4], &[0, 0, 255, 255]);
    // hotspot scaled by the device scale
    assert_eq!((f.hotspot_x, f.hotspot_y), (8, 8));
}

#[test]
fn base_size_and_config_are_exposed() {
    let store = VectorCursorStore::new("/theme".to_string(), theme(), 24);
    assert_eq!(store.get_base_size(), 24);
    assert!(store.get_config().get_cursor("default").is_some());
}

#[test]
fn bad_svg_source_is_a_parse_error() {
    let mut store = VectorCursorStore::new("/theme".to_string(), theme(), 24);
    assert!(matches!(
        store.get_renderer("default", Some("this is no document")),
        Err(StoreError::Parse)
    ));
}

#[test]
fn svg_render_rejects_bad_and_oversized_scales() {
    let mut store = VectorCursorStore::new("/theme".to_string(), theme(), 24);
    let hs = store.get_renderer("default", Some(TINY_SVG)).unwrap();
    assert!(matches!(
        store.renderer(hs).render_frame(0, 0),
        Err(cursor_engine::store::VectorRenderError::BadScale)
    ));
    // a 4 by 4 scene at scale 2048 would outgrow the canvas cap
    assert!(matches!(
        store.renderer(hs).render_frame(0, 2048),
        Err(cursor_engine::store::VectorRenderError::CanvasTooLarge)
    ));
}
