use cursor_engine::animator::CursorAnimator;
use cursor_engine::config::{CursorDefinition, CursorFormat, CursorThemeConfig};
use cursor_engine::icon::CursorIcon;
use cursor_engine::manager::{
    CursorManager, CursorStatus, CursorTextureCache, RenderCursor, VectorCursorSystem,
};
use cursor_engine::raster::{CursorImage, XCursor};
use cursor_engine::store::VectorCursorStore;
use cursor_engine::types::TransitionState;

fn vector_theme() -> CursorThemeConfig {
    CursorThemeConfig::new(
        vec![
            (
                "default".to_string(),
                CursorDefinition {
                    format: CursorFormat::Lottie,
                    file: "default.json".to_string(),
                    hotspot: Some((4, 4)),
                    loop_mode: None,
                },
            ),
            (
                "wait".to_string(),
                CursorDefinition {
                    format: CursorFormat::Lottie,
                    file: "wait.json".to_string(),
                    hotspot: None,
                    loop_mode: None,
                },
            ),
            (
                "custom-thing".to_string(),
                CursorDefinition {
                    format: CursorFormat::Lottie,
                    file: "custom.json".to_string(),
                    hotspot: None,
                    loop_mode: None,
                },
            ),
        ],
        Vec::new(),
    )
}

fn vector_manager() -> CursorManager {
    let store = VectorCursorStore::new("/theme".to_string(), vector_theme(), 24);
    let animator = CursorAnimator::new(vector_theme(), 24);
    CursorManager::new_with_vector_theme(24, Some(VectorCursorSystem { store, animator }))
}

#[test]
fn unmatched_icon_resolves_to_no_frame() {
    // the theme has nothing for "progress"
    let mut m = CursorManager::new(24);
    assert!(m.get_cursor_with_name(CursorIcon::Progress, 1, None).is_none());
    // and the miss is cached, still without a frame
    assert!(m.get_cursor_with_name(CursorIcon::Progress, 1, None).is_none());
}

#[test]
fn default_icon_always_resolves() {
    // even over an empty or corrupt theme, the default icon resolves to
    // a usable frame set
    let mut m = CursorManager::new(24);
    let h = m.get_cursor_with_name(CursorIcon::Default, 1, None).unwrap();
    assert!(!m.xcursor(h).frames().is_empty());
    let bad_bytes = vec![1u8, 2, 3];
    let mut m2 = CursorManager::new(24);
    let h2 = m2.get_cursor_with_name(CursorIcon::Default, 1, Some(&bad_bytes)).unwrap();
    assert!(!m2.xcursor(h2).frames().is_empty());
    let h3 = m2.get_default_cursor(1);
    assert_eq!(h2, h3);
}

#[test]
fn cursor_lookup_caches_by_icon_and_scale() {
    let mut m = CursorManager::new(24);
    let h1 = m.get_cursor_with_name(CursorIcon::Default, 1, None).unwrap();
    let h2 = m.get_cursor_with_name(CursorIcon::Default, 1, None).unwrap();
    assert_eq!(h1, h2);
    let h3 = m.get_cursor_with_name(CursorIcon::Default, 2, None).unwrap();
    assert_ne!(h1, h3);
}

#[test]
fn render_cursor_follows_the_stored_status() {
    let mut m = CursorManager::new(24);
    m.set_cursor_image(CursorStatus::Hidden);
    assert!(matches!(m.get_render_cursor(1), RenderCursor::Hidden));
    m.set_cursor_image(CursorStatus::Surface { hotspot_x: 7, hotspot_y: 9 });
    match m.get_render_cursor(1) {
        RenderCursor::Surface { hotspot_x, hotspot_y } => {
            assert_eq!((hotspot_x, hotspot_y), (7, 9));
        }
        other => panic!("expected Surface, got {:?}", other),
    }
    m.set_cursor_image(CursorStatus::Named(CursorIcon::Wait));
    match m.get_render_cursor(1) {
        RenderCursor::Named { icon, scale, cursor } => {
            // no theme data for wait: the default icon is the fallback
            assert!(matches!(icon, CursorIcon::Default));
            assert_eq!(scale, 1);
            assert!(!m.xcursor(cursor).frames().is_empty());
        }
        other => panic!("expected Named, got {:?}", other),
    }
}

#[test]
fn dead_surface_falls_back_to_default() {
    let mut m = CursorManager::new(24);
    m.set_cursor_image(CursorStatus::Surface { hotspot_x: 1, hotspot_y: 1 });
    m.check_cursor_image_surface_alive(true);
    assert!(matches!(
        m.cursor_image(),
        CursorStatus::Surface { .. }
    ));
    m.check_cursor_image_surface_alive(false);
    assert!(matches!(
        m.cursor_image(),
        CursorStatus::Named(CursorIcon::Default)
    ));
}

#[test]
fn reload_clears_the_raster_caches() {
    let mut m = CursorManager::new(24);
    let _ = m.get_cursor_with_name(CursorIcon::Default, 1, None);
    assert!(!m.named_cursor_cache.is_empty());
    m.reload(32);
    assert_eq!(m.size, 32);
    assert!(m.named_cursor_cache.is_empty());
    assert!(m.cursor_arena.is_empty());
}

#[test]
fn named_icon_with_mapping_advises_the_animator() {
    let mut m = vector_manager();
    m.set_cursor_image(CursorStatus::Named(CursorIcon::Wait));
    match &m.vector_system {
        Some(vs) => match vs.animator.current_state() {
            TransitionState::Animated { cursor_id, .. } => assert_eq!(cursor_id, "wait"),
            other => panic!("expected Animated wait, got {:?}", other),
        },
        None => panic!("vector system missing"),
    }
    // the stored raster status is advisory-independent
    assert!(matches!(
        m.cursor_image(),
        CursorStatus::Named(CursorIcon::Wait)
    ));
}

#[test]
fn unmapped_icon_leaves_the_animator_alone() {
    let mut m = vector_manager();
    let before = format!(
        "{:?}",
        m.vector_system.as_ref().unwrap().animator.current_state()
    );
    m.set_cursor_image(CursorStatus::Named(CursorIcon::ZoomIn));
    let after = format!(
        "{:?}",
        m.vector_system.as_ref().unwrap().animator.current_state()
    );
    assert_eq!(before, after);
}

#[test]
fn vector_source_needed_names_the_active_cursor_file() {
    let m = vector_manager();
    // animator starts on "default", whose renderer is not cached yet
    let (id, file) = m.vector_source_needed().unwrap();
    assert_eq!(id, "default");
    assert_eq!(file, "default.json");
}

#[test]
fn vector_render_uses_the_cached_renderer() {
    let mut m = vector_manager();
    let (id, _file) = m.vector_source_needed().unwrap();
    let doc = "{\"w\": 4, \"h\": 4, \"layers\": [{\"shapes\": [{\"ty\": \"gr\", \"it\": [{\"ty\": \"sh\", \"ks\": {\"a\": [], \"k\": [[0, 0, 4, 0, 0, 4, 4, 4]]}}, {\"ty\": \"fl\", \"c\": [0, 0, 1, 1]}]}]}]}";
    m.vector_system
        .as_mut()
        .unwrap()
        .store
        .get_renderer(id.as_str(), Some(doc))
        .unwrap();
    assert!(m.vector_source_needed().is_none());
    match m.get_render_cursor(1) {
        RenderCursor::Vector { frame } => {
            assert_eq!((frame.width, frame.height), (4, 4));
            assert_eq!(frame.buffer.len(), 4 * 4 * 4);
            assert_eq!((frame.hotspot_x, frame.hotspot_y), (4, 4));
            // the filled square's interior carries the blue fill
            let off = (2 * 4 + 1) * 4;
            assert_eq!(&frame.buffer[off..off + 4], &[0, 0, 255, 255]);
        }
        other => panic!("expected Vector, got {:?}", other),
    }
}

#[test]
fn static_animator_falls_through_to_raster() {
    let mut m = vector_manager();
    m.vector_system.as_mut().unwrap().animator.set_cursor("no-such-id");
    assert!(matches!(
        m.vector_system.as_ref().unwrap().animator.current_state(),
        TransitionState::Static
    ));
    assert!(matches!(m.get_render_cursor(1), RenderCursor::Named { .. }));
}

#[test]
fn is_animated_consults_the_raster_frames_only() {
    let mut m = CursorManager::new(24);
    // the built-in fallback has a single frame
    m.set_cursor_image(CursorStatus::Named(CursorIcon::Default));
    assert!(!m.is_current_cursor_animated(1));
    m.set_cursor_image(CursorStatus::Hidden);
    assert!(!m.is_current_cursor_animated(1));
}

#[test]
fn texture_cache_converts_and_memoizes_frames() {
    let images = vec![
        CursorImage {
            size: 32,
            width: 2,
            height: 1,
            xhot: 1,
            yhot: 0,
            delay: 50,
            pixels_rgba: vec![9, 8, 7, 6, 5, 4, 3, 2],
        },
        CursorImage {
            size: 32,
            width: 2,
            height: 1,
            xhot: 0,
            yhot: 0,
            delay: 50,
            pixels_rgba: vec![0, 1, 2, 3, 4, 5, 6, 7],
        },
    ];
    let cursor = XCursor::new(images).unwrap();
    let mut cache = CursorTextureCache::default();
    {
        let f = cache.get(CursorIcon::Default, 1, &cursor, 0).unwrap();
        assert_eq!((f.width, f.height), (2, 1));
        assert_eq!(f.buffer, vec![9, 8, 7, 6, 5, 4, 3, 2]);
        assert_eq!((f.hotspot_x, f.hotspot_y), (1, 0));
    }
    assert!(cache.get(CursorIcon::Default, 1, &cursor, 1).is_some());
    assert!(cache.get(CursorIcon::Default, 1, &cursor, 2).is_none());
    assert_eq!(cache.cache.len(), 1);
    cache.clear();
    assert!(cache.cache.is_empty());
}

#[test]
fn icon_names_are_the_protocol_names() {
    assert_eq!(CursorIcon::Default.name(), "default");
    assert_eq!(CursorIcon::Progress.name(), "progress");
    assert_eq!(CursorIcon::ZoomOut.name(), "zoom-out");
    assert!(CursorIcon::Default.alt_names().contains(&"left_ptr"));
    assert!(CursorIcon::Wait.alt_names().contains(&"watch"));
}

#[test]
fn icon_mapping_is_built_from_lowercased_ids() {
    let m = vector_manager();
    // "default" and "wait" map; "custom-thing" takes no part
    assert_eq!(m.icon_to_vector_id.len(), 2);
    assert!(m
        .icon_to_vector_id
        .iter()
        .any(|p| matches!(p.0, CursorIcon::Default) && p.1 == "default"));
    assert!(m
        .icon_to_vector_id
        .iter()
        .any(|p| matches!(p.0, CursorIcon::Wait) && p.1 == "wait"));
}

/// A minimal two-image cursor file in the legacy Xcursor layout.
fn xcursor_file_bytes() -> Vec<u8> {
    let mut out: Vec<u8> = Vec::new();
    let le = |v: u32| v.to_le_bytes();
    // file header: magic, header size, version, entry count
    out.extend_from_slice(b"Xcur");
    out.extend_from_slice(&le(16));
    out.extend_from_slice(&le(1));
    out.extend_from_slice(&le(2));
    // two table entries of the image type
    let img1_pos = 16 + 2 * 12;
    let img1_len = 36 + 4 * 2 * 2;
    let img2_pos = img1_pos + img1_len;
    out.extend_from_slice(&le(0xfffd_0002));
    out.extend_from_slice(&le(16));
    out.extend_from_slice(&le(img1_pos as u32));
    out.extend_from_slice(&le(0xfffd_0002));
    out.extend_from_slice(&le(32));
    out.extend_from_slice(&le(img2_pos as u32));
    // image chunks: header size, type, nominal size, version,
    // width, height, hotspot, delay, then the pixel bytes
    let mut image = |size: u32, dim: u32, delay: u32, byte: u8, out: &mut Vec<u8>| {
        out.extend_from_slice(&le(36));
        out.extend_from_slice(&le(0xfffd_0002));
        out.extend_from_slice(&le(size));
        out.extend_from_slice(&le(1));
        out.extend_from_slice(&le(dim));
        out.extend_from_slice(&le(dim));
        out.extend_from_slice(&le(1));
        out.extend_from_slice(&le(1));
        out.extend_from_slice(&le(delay));
        out.extend(std::iter::repeat(byte).take((4 * dim * dim) as usize));
    };
    image(16, 2, 40, 0xAA, &mut out);
    image(32, 4, 70, 0xBB, &mut out);
    out
}

#[test]
fn real_cursor_file_bytes_decode_and_select() {
    let bytes = xcursor_file_bytes();
    let mut m = CursorManager::new(24);
    // nominal sizes 16 and 32 tie for target 24; the first wins, fixing
    // the dimensions at 2x2, so exactly one frame is kept
    let h = m.get_cursor_with_name(CursorIcon::Wait, 1, Some(&bytes)).unwrap();
    let c = m.xcursor(h);
    assert_eq!(c.frames().len(), 1);
    let f = &c.frames()[0];
    assert_eq!((f.width, f.height, f.size, f.delay), (2, 2, 16, 40));
    assert_eq!((f.xhot, f.yhot), (1, 1));
    assert_eq!(f.pixels_rgba, vec![0xAA; 16]);
    assert_eq!(c.animation_duration, 40);
    // and the icon is cached: asking again without bytes keeps the handle
    let h2 = m.get_cursor_with_name(CursorIcon::Wait, 1, None).unwrap();
    assert_eq!(h, h2);
}

#[test]
fn larger_target_selects_the_other_nominal_size() {
    let bytes = xcursor_file_bytes();
    let mut m = CursorManager::new(48);
    let h = m.get_cursor_with_name(CursorIcon::Wait, 1, Some(&bytes)).unwrap();
    let f = &m.xcursor(h).frames()[0];
    assert_eq!((f.width, f.size), (4, 32));
    assert_eq!(f.pixels_rgba, vec![0xBB; 64]);
}

#[test]
fn icon_mapping_lowercases_mixed_case_ids() {
    let config = CursorThemeConfig::new(
        vec![(
            "Default".to_string(),
            CursorDefinition {
                format: CursorFormat::Lottie,
                file: "d.json".to_string(),
                hotspot: None,
                loop_mode: None,
            },
        )],
        Vec::new(),
    );
    let store = VectorCursorStore::new("/t".to_string(), config.clone(), 24);
    let animator = CursorAnimator::new(config, 24);
    let m = CursorManager::new_with_vector_theme(
        24,
        Some(VectorCursorSystem { store, animator }),
    );
    // the id is matched by its lowercased text, the mapping keeps the
    // id as the document wrote it
    assert_eq!(m.icon_to_vector_id.len(), 1);
    assert!(matches!(m.icon_to_vector_id[0].0, CursorIcon::Default));
    assert_eq!(m.icon_to_vector_id[0].1, "Default");
}
