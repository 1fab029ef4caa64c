//! Shared value types of the vector cursor subsystem.

use vstd::prelude::*;

verus! {

/// Playback repeat policy for an animated cursor.
#[derive(Debug, Clone, Copy, PartialEq, Eq, Structural)]
pub enum LoopMode {
    Once,
    Loop,
    Bounce,
}

/// Renderable format of a vector cursor.
#[derive(Debug, Clone, Copy, PartialEq, Eq, Structural)]
pub enum VectorFormat {
    Svg,
    Lottie,
}

/// A vector cursor identity together with its format.
#[derive(Debug, Clone)]
pub struct VectorCursorData {
    pub cursor_id: String,
    pub format: VectorFormat,
}

/// Progress values of the animator are measured in millionths: `0` is the
/// start of a transition and `PROGRESS_UNIT` its end.
pub const PROGRESS_UNIT: u32 = 1000000;

/// State of the animator: exactly one variant is active at a time.
///
/// `progress` of a transition is the eased progress in millionths of the
/// whole transition; some easing curves overshoot, so it may exceed
/// `PROGRESS_UNIT` (never `2 * PROGRESS_UNIT`).  `elapsed_ms` is the raw
/// time the transition has been running, which drives completion.
#[derive(Debug)]
pub enum TransitionState {
    Static,
    Transitioning { from_id: String, to_id: String, elapsed_ms: u32, progress: u32 },
    Animated { cursor_id: String, start_time_ms: u32, loop_mode: LoopMode },
}

impl TransitionState {
    /// The cursor id the state is showing or heading towards, if any.
    pub open spec fn spec_target(self) -> Option<Seq<char>> {
        match self {
            TransitionState::Static => None,
            TransitionState::Animated { cursor_id, .. } => Some(cursor_id@),
            TransitionState::Transitioning { to_id, .. } => Some(to_id@),
        }
    }
}

/// A rendered cursor frame: a premultiplied pixel buffer in the
/// compositor's channel order, `4 * width * height` bytes, together with
/// the hotspot in device pixels.
#[derive(Debug)]
pub struct RenderedFrame {
    pub width: u32,
    pub height: u32,
    pub buffer: Vec<u8>,
    pub hotspot_x: i32,
    pub hotspot_y: i32,
}

impl RenderedFrame {
    /// The buffer holds exactly one 4-byte pixel per canvas cell.
    pub open spec fn wf(self) -> bool {
        self.buffer@.len() == 4 * self.width * self.height
    }
}

} // verus!
