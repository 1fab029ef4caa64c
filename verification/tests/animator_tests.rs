use cursor_engine::animator::{apply_easing, CursorAnimator};
use cursor_engine::config::{
    default_duration, default_easing, default_transition_type, CursorDefinition,
    CursorFormat, CursorThemeConfig, EasingFunction, TransitionConfig, TransitionType,
};
use cursor_engine::types::{LoopMode, TransitionState, PROGRESS_UNIT};

fn def(format: CursorFormat, file: &str, hotspot: Option<(i32, i32)>, loop_mode: Option<&str>) -> CursorDefinition {
    CursorDefinition {
        format,
        file: file.to_string(),
        hotspot,
        loop_mode: loop_mode.map(|s| s.to_string()),
    }
}

fn theme_with_transition() -> CursorThemeConfig {
    let cursors = vec![
        ("default".to_string(), def(CursorFormat::Svg, "default.svg", Some((4, 4)), None)),
        ("wait".to_string(), def(CursorFormat::Lottie, "wait.json", None, None)),
    ];
    let transitions = vec![(
        "default->wait".to_string(),
        TransitionConfig {
            transition_type: TransitionType::Morph,
            duration_ms: 300,
            easing: EasingFunction::EaseInOut,
            file: None,
        },
    )];
    CursorThemeConfig::new(cursors, transitions)
}

#[test]
fn defaults_are_documented() {
    assert!(matches!(default_transition_type(), TransitionType::Morph));
    assert_eq!(default_duration(), 200);
    assert!(matches!(default_easing(), EasingFunction::EaseInOut));
    let t = TransitionConfig::from_parts(None, None, None, None);
    assert!(matches!(t.transition_type, TransitionType::Morph));
    assert_eq!(t.duration_ms, 200);
    assert!(matches!(t.easing, EasingFunction::EaseInOut));
    assert!(t.file.is_none());
}

#[test]
fn easing_endpoints_are_exact() {
    let curves = [
        EasingFunction::Linear,
        EasingFunction::EaseIn,
        EasingFunction::EaseOut,
        EasingFunction::EaseInOut,
        EasingFunction::EaseInQuad,
        EasingFunction::EaseOutQuad,
        EasingFunction::EaseInOutQuad,
        EasingFunction::Elastic,
    ];
    for c in curves.iter() {
        assert_eq!(apply_easing(0, c), 0);
        assert_eq!(apply_easing(PROGRESS_UNIT, c), PROGRESS_UNIT);
    }
}

#[test]
fn ease_in_out_is_continuous_at_the_midpoint() {
    assert_eq!(apply_easing(500000, &EasingFunction::EaseInOut), 500000);
    assert_eq!(apply_easing(499999, &EasingFunction::EaseInOut), 499998);
    assert_eq!(apply_easing(500001, &EasingFunction::EaseInOut), 500002);
}

#[test]
fn easing_quadratic_values() {
    assert_eq!(apply_easing(500000, &EasingFunction::EaseIn), 250000);
    assert_eq!(apply_easing(500000, &EasingFunction::EaseOut), 750000);
    assert_eq!(apply_easing(250000, &EasingFunction::EaseInOut), 125000);
    // clamped above one unit before evaluation
    assert_eq!(apply_easing(2000000, &EasingFunction::Linear), 1000000);
}

#[test]
fn new_starts_on_default_cursor() {
    let animator = CursorAnimator::new(theme_with_transition(), 24);
    match animator.current_state() {
        TransitionState::Animated { cursor_id, start_time_ms, loop_mode } => {
            assert_eq!(cursor_id, "default");
            assert_eq!(*start_time_ms, 0);
            assert!(matches!(loop_mode, LoopMode::Loop));
        }
        other => panic!("expected Animated, got {:?}", other),
    }
}

#[test]
fn new_without_default_is_static() {
    let config = CursorThemeConfig::new(
        vec![("wait".to_string(), def(CursorFormat::Svg, "w.svg", None, None))],
        Vec::new(),
    );
    let animator = CursorAnimator::new(config, 24);
    assert!(matches!(animator.current_state(), TransitionState::Static));
}

#[test]
fn set_cursor_is_idempotent() {
    let mut animator = CursorAnimator::new(theme_with_transition(), 24);
    animator.set_cursor("wait");
    let first = format!("{:?}", animator.current_state());
    animator.set_cursor("wait");
    let second = format!("{:?}", animator.current_state());
    assert_eq!(first, second);
}

#[test]
fn set_cursor_unknown_id_falls_back_to_static() {
    let mut animator = CursorAnimator::new(theme_with_transition(), 24);
    animator.set_cursor("no-such-cursor");
    assert!(matches!(animator.current_state(), TransitionState::Static));
}

#[test]
fn set_cursor_with_transition_starts_transitioning() {
    let mut animator = CursorAnimator::new(theme_with_transition(), 24);
    animator.set_cursor("wait");
    match animator.current_state() {
        TransitionState::Transitioning { from_id, to_id, elapsed_ms, progress } => {
            assert_eq!(from_id, "default");
            assert_eq!(to_id, "wait");
            assert_eq!(*elapsed_ms, 0);
            assert_eq!(*progress, 0);
        }
        other => panic!("expected Transitioning, got {:?}", other),
    }
}

#[test]
fn loop_mode_strings_parse() {
    let config = CursorThemeConfig::new(
        vec![
            ("default".to_string(), def(CursorFormat::Lottie, "d.json", None, Some("once"))),
            ("bounce".to_string(), def(CursorFormat::Lottie, "b.json", None, Some("bounce"))),
            ("other".to_string(), def(CursorFormat::Lottie, "o.json", None, Some("forever"))),
        ],
        Vec::new(),
    );
    let mut animator = CursorAnimator::new(config, 24);
    assert!(matches!(
        animator.current_state(),
        TransitionState::Animated { loop_mode: LoopMode::Once, .. }
    ));
    animator.set_cursor("bounce");
    assert!(matches!(
        animator.current_state(),
        TransitionState::Animated { loop_mode: LoopMode::Bounce, .. }
    ));
    animator.set_cursor("other");
    assert!(matches!(
        animator.current_state(),
        TransitionState::Animated { loop_mode: LoopMode::Loop, .. }
    ));
}

#[test]
fn transition_completes_after_full_duration() {
    // config defines "default" (path scene, hotspot (4,4)) and "wait"
    // (keyframe composition), with a 300 ms transition default->wait:
    // three updates of 100 ms land exactly in Animated { wait, 0, Loop }.
    let mut animator = CursorAnimator::new(theme_with_transition(), 24);
    animator.set_cursor("wait");
    animator.update(100);
    animator.update(100);
    animator.update(100);
    match animator.current_state() {
        TransitionState::Animated { cursor_id, start_time_ms, loop_mode } => {
            assert_eq!(cursor_id, "wait");
            assert_eq!(*start_time_ms, 0);
            assert!(matches!(loop_mode, LoopMode::Loop));
        }
        other => panic!("expected Animated after 300ms, got {:?}", other),
    }
}

#[test]
fn transition_stores_eased_progress() {
    let mut animator = CursorAnimator::new(theme_with_transition(), 24);
    animator.set_cursor("wait");
    animator.update(100);
    match animator.current_state() {
        TransitionState::Transitioning { elapsed_ms, progress, .. } => {
            assert_eq!(*elapsed_ms, 100);
            // raw progress 1/3, ease-in-out below one half: 2 t^2
            let t = 1000000u64 / 3;
            let expected = (2 * t * t / 1000000) as u32;
            assert_eq!(*progress, expected);
        }
        other => panic!("expected Transitioning, got {:?}", other),
    }
}

#[test]
fn update_without_transition_entry_keeps_static_cursor() {
    let config = CursorThemeConfig::new(Vec::new(), Vec::new());
    let mut animator = CursorAnimator::new(config, 24);
    animator.update(100);
    assert!(matches!(animator.current_state(), TransitionState::Static));
}

#[test]
fn update_advances_keyframe_playhead_only() {
    let config = CursorThemeConfig::new(
        vec![
            ("default".to_string(), def(CursorFormat::Lottie, "d.json", None, None)),
            ("still".to_string(), def(CursorFormat::Svg, "s.svg", None, None)),
        ],
        Vec::new(),
    );
    let mut animator = CursorAnimator::new(config, 24);
    animator.update(40);
    assert!(matches!(
        animator.current_state(),
        TransitionState::Animated { start_time_ms: 40, .. }
    ));
    animator.set_cursor("still");
    animator.update(40);
    assert!(matches!(
        animator.current_state(),
        TransitionState::Animated { start_time_ms: 0, .. }
    ));
}

#[test]
fn base_size_is_kept() {
    let animator = CursorAnimator::new(theme_with_transition(), 48);
    assert_eq!(animator.get_base_size(), 48);
}
