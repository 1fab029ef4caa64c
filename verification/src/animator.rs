//! Finite-state machine tracking which vector cursor identity is active,
//! including in-flight transitions and playback offset.  It is driven
//! purely by elapsed-time deltas supplied by the caller; no internal timer
//! exists.
//!
//! Progress and easing values are computed in integer millionths (see
//! [`crate::types::PROGRESS_UNIT`]), so every step of the state machine is
//! exact.

use vstd::prelude::*;
use vstd::string::StringExecFns;

use crate::config::{CursorFormat, CursorThemeConfig, EasingFunction};
use crate::types::{LoopMode, TransitionState};

verus! {

/// `t` limited to the unit interval `[0, 1000000]`.
pub open spec fn clamp_unit(t: int) -> int {
    if t < 0 {
        0
    } else if t > 1000000 {
        1000000
    } else {
        t
    }
}

/// `2^k`.
pub open spec fn pow2(k: nat) -> int
    decreases k,
{
    if k == 0 {
        1
    } else {
        2 * pow2((k - 1) as nat)
    }
}

/// Rational sine approximation on the first half wave, in millionths:
/// `x` is an angle in milliradians within `[0, 3142]` and the result
/// approximates `sin(x / 1000) * 1000000`.
pub open spec fn sin_half(x: int) -> int {
    (16 * (x * (3142 - x)) * 1000000) / (5 * 3142 * 3142 - 4 * (x * (3142 - x)))
}

/// Sine over one full wave: `x` in milliradians within `[0, 6284)`.
pub open spec fn sin_milli(x: int) -> int {
    if x <= 3142 {
        sin_half(x)
    } else {
        -sin_half(x - 3142)
    }
}

/// Elastic easing away from its endpoints: a decaying oscillation around
/// the end value, `2^(-10 t) * sin((10 t - 0.75) * 2 pi / 3) + 1` evaluated
/// in millionths with the rational sine above and a piecewise-linear
/// power of two.
pub open spec fn elastic_mid(t: int) -> int {
    let u = 10 * t;
    let k = u / 1000000;
    let f = u % 1000000;
    let decay = (1000000 - f / 2) / pow2(k as nat);
    let a = ((u + 2250000) * 2094395) / 1000000;
    let m = a % 6283185;
    let s = sin_milli(m / 1000);
    if s >= 0 {
        let v = 1000000 + (decay * s) / 1000000;
        if v > 2000000 {
            2000000
        } else {
            v
        }
    } else {
        let v = 1000000 - (decay * (-s)) / 1000000;
        if v < 0 {
            0
        } else {
            v
        }
    }
}

/// Value of the easing curve `e` at progress `t` (millionths, clamped to
/// the unit interval before evaluation).
pub open spec fn ease_spec(e: EasingFunction, t: int) -> int {
    let tc = clamp_unit(t);
    match e {
        EasingFunction::Linear => tc,
        EasingFunction::EaseIn => (tc * tc) / 1000000,
        EasingFunction::EaseInQuad => (tc * tc) / 1000000,
        EasingFunction::EaseOut => 1000000 - ((1000000 - tc) * (1000000 - tc)) / 1000000,
        EasingFunction::EaseOutQuad => 1000000 - ((1000000 - tc) * (1000000 - tc)) / 1000000,
        EasingFunction::EaseInOut => if tc < 500000 {
            (2 * (tc * tc)) / 1000000
        } else {
            1000000 - (2 * ((1000000 - tc) * (1000000 - tc))) / 1000000
        },
        EasingFunction::EaseInOutQuad => if tc < 500000 {
            (2 * (tc * tc)) / 1000000
        } else {
            1000000 - (2 * ((1000000 - tc) * (1000000 - tc))) / 1000000
        },
        EasingFunction::Elastic => if tc == 0 {
            0
        } else if tc == 1000000 {
            1000000
        } else {
            elastic_mid(tc)
        },
    }
}

/// Loop mode parsed from a cursor definition's optional `loop_mode`
/// string: "once" and "bounce" select themselves, anything else repeats.
pub open spec fn spec_loop_mode(lm: Option<String>) -> LoopMode {
    match lm {
        Some(s) => if s@ == "once"@ {
            LoopMode::Once
        } else if s@ == "bounce"@ {
            LoopMode::Bounce
        } else {
            LoopMode::Loop
        },
        None => LoopMode::Loop,
    }
}

pub(crate) proof fn lemma_div_below(num: int, denom: int, bound: int)
    requires
        denom > 0,
        0 <= num,
        num < denom * bound,
    ensures
        0 <= num / denom < bound,
{
    vstd::arithmetic::div_mod::lemma_fundamental_div_mod(num, denom);
    assert(num / denom < bound) by (nonlinear_arith)
        requires
            denom > 0,
            num < denom * bound,
            num == denom * (num / denom) + num % denom,
            0 <= num % denom < denom,
    ;
    assert(num / denom >= 0) by (nonlinear_arith)
        requires
            denom > 0,
            num >= 0,
            num == denom * (num / denom) + num % denom,
            0 <= num % denom < denom,
    ;
}

pub(crate) proof fn lemma_div_at_most(num: int, denom: int, bound: int)
    requires
        denom > 0,
        0 <= num,
        num <= denom * bound,
    ensures
        0 <= num / denom <= bound,
{
    assert(denom * (bound + 1) == denom * bound + denom) by (nonlinear_arith);
    lemma_div_below(num, denom, bound + 1);
}

fn pow2_small(k: u64) -> (r: u64)
    requires
        k <= 9,
    ensures
        r as int == pow2(k as nat),
        1 <= r <= 512,
{
    proof {
        reveal_with_fuel(pow2, 11);
    }
    match k {
        0 => 1,
        1 => 2,
        2 => 4,
        3 => 8,
        4 => 16,
        5 => 32,
        6 => 64,
        7 => 128,
        8 => 256,
        _ => 512,
    }
}

fn sin_half_exec(x: i64) -> (r: i64)
    requires
        0 <= x <= 3142,
    ensures
        r as int == sin_half(x as int),
        0 <= r <= 1000000,
{
    proof {
        assert(0 <= x * (3142 - x) <= 2468041) by (nonlinear_arith)
            requires
                0 <= x <= 3142,
        ;
    }
    let q = x * (3142 - x);
    let num = 16 * q * 1000000;
    let denom = 5 * 3142 * 3142 - 4 * q;
    proof {
        assert(16 * q <= 20 * q) by (nonlinear_arith)
            requires
                q >= 0,
        ;
        assert(num <= denom * 1000000) by (nonlinear_arith)
            requires
                num == 16 * q * 1000000,
                denom == 49360820 - 4 * q,
                0 <= q <= 2468041,
        ;
        lemma_div_at_most(num as int, denom as int, 1000000);
    }
    num / denom
}

fn elastic_mid_exec(t: i64) -> (r: i64)
    requires
        0 < t < 1000000,
    ensures
        r as int == elastic_mid(t as int),
        0 <= r <= 2000000,
{
    let u = 10 * t;
    let k = u / 1000000;
    proof {
        lemma_div_below(u as int, 1000000, 10);
    }
    let f = u % 1000000;
    let d = pow2_small(k as u64);
    let decay = (1000000 - f / 2) / (d as i64);
    proof {
        lemma_div_at_most((1000000 - f / 2) as int, d as int, 1000000);
    }
    let a = ((u + 2250000) * 2094395) / 1000000;
    let m = a % 6283185;
    let x = m / 1000;
    let s = if x <= 3142 {
        sin_half_exec(x)
    } else {
        -sin_half_exec(x - 3142)
    };
    assert(s as int == sin_milli((m / 1000) as int));
    if s >= 0 {
        proof {
            assert(decay * s <= 1000000 * 1000000) by (nonlinear_arith)
                requires
                    0 <= decay <= 1000000,
                    0 <= s <= 1000000,
            ;
            lemma_div_at_most((decay * s) as int, 1000000, 1000000);
        }
        let v = 1000000 + (decay * s) / 1000000;
        if v > 2000000 {
            2000000
        } else {
            v
        }
    } else {
        proof {
            assert(decay * (-s) <= 1000000 * 1000000) by (nonlinear_arith)
                requires
                    0 <= decay <= 1000000,
                    0 <= -s <= 1000000,
            ;
            lemma_div_at_most((decay * (-s)) as int, 1000000, 1000000);
        }
        let v = 1000000 - (decay * (-s)) / 1000000;
        if v < 0 {
            0
        } else {
            v
        }
    }
}

/// Loop mode named by a cursor definition's optional `loop_mode` field.
pub fn loop_mode_from(lm: &Option<String>) -> (r: LoopMode)
    ensures
        r == spec_loop_mode(*lm),
{
    match lm {
        Some(s) => {
            if *s == "once".to_owned() {
                LoopMode::Once
            } else if *s == "bounce".to_owned() {
                LoopMode::Bounce
            } else {
                LoopMode::Loop
            }
        },
        None => LoopMode::Loop,
    }
}

/// How `set_cursor` moves the animator from `pre` to `post` when asked for
/// the cursor id `id` under the theme `config`:
/// re-selecting the current target is a no-op; a configured transition
/// from the current target starts at progress zero; otherwise a defined
/// cursor starts animating from its beginning; an unknown id falls back
/// to `Static`.
pub open spec fn set_cursor_rel(
    config: CursorThemeConfig,
    pre: TransitionState,
    id: Seq<char>,
    post: TransitionState,
) -> bool {
    if pre.spec_target() == Some(id) {
        post == pre
    } else if pre.spec_target() is Some && config.spec_transition(pre.spec_target()->0, id)
        is Some {
        &&& post matches TransitionState::Transitioning {
            from_id,
            to_id,
            elapsed_ms,
            progress,
        }
        &&& from_id@ == pre.spec_target()->0
        &&& to_id@ == id
        &&& elapsed_ms == 0
        &&& progress == 0
    } else if config.spec_cursor(id) is Some {
        &&& post matches TransitionState::Animated { cursor_id, start_time_ms, loop_mode }
        &&& cursor_id@ == id
        &&& start_time_ms == 0
        &&& loop_mode == spec_loop_mode(config.spec_cursor(id)->0.loop_mode)
    } else {
        post == TransitionState::Static
    }
}

/// How `update` moves the animator from `pre` to `post` after `elapsed`
/// milliseconds under the theme `config`:
/// a transition whose entry disappeared snaps to `Static`; one whose raw
/// running time reaches its duration lands in
/// `Animated { to, 0, Loop }`; otherwise it advances and stores the eased
/// progress; an animated keyframe-composition cursor advances its
/// playhead; everything else is untouched.
pub open spec fn update_rel(
    config: CursorThemeConfig,
    pre: TransitionState,
    elapsed: u32,
    post: TransitionState,
) -> bool {
    match pre {
        TransitionState::Transitioning { from_id, to_id, elapsed_ms, progress } => {
            let tr = config.spec_transition(from_id@, to_id@);
            if tr is None {
                post == TransitionState::Static
            } else {
                let dur = tr->0.duration_ms;
                let e_new = elapsed_ms.saturating_add(elapsed);
                if e_new >= dur {
                    &&& post matches TransitionState::Animated {
                        cursor_id,
                        start_time_ms,
                        loop_mode,
                    }
                    &&& cursor_id@ == to_id@
                    &&& start_time_ms == 0
                    &&& loop_mode == LoopMode::Loop
                } else {
                    &&& post matches TransitionState::Transitioning {
                        from_id: f2,
                        to_id: t2,
                        elapsed_ms: e2,
                        progress: p2,
                    }
                    &&& f2@ == from_id@
                    &&& t2@ == to_id@
                    &&& e2 == e_new
                    &&& p2 as int == ease_spec(
                        tr->0.easing,
                        (e_new as int * 1000000) / (dur as int),
                    )
                }
            }
        },
        TransitionState::Animated { cursor_id, start_time_ms, loop_mode } => {
            let def = config.spec_cursor(cursor_id@);
            if def is Some && def->0.format == CursorFormat::Lottie {
                &&& post matches TransitionState::Animated {
                    cursor_id: c2,
                    start_time_ms: s2,
                    loop_mode: l2,
                }
                &&& c2@ == cursor_id@
                &&& s2 == start_time_ms.saturating_add(elapsed)
                &&& l2 == loop_mode
            } else {
                post == pre
            }
        },
        TransitionState::Static => post == pre,
    }
}

/// Animator owning the vector theme configuration and the single mutable
/// transition state, driven by `set_cursor` and `update` alone.
#[derive(Debug)]
pub struct CursorAnimator {
    pub config: CursorThemeConfig,
    pub current_state: TransitionState,
    pub base_size: u8,
}

impl CursorAnimator {
    /// Creates the animator; a theme that defines a cursor literally named
    /// "default" starts animating it at once, otherwise the animator
    /// starts `Static`.
    pub fn new(config: CursorThemeConfig, base_size: u8) -> (r: CursorAnimator)
        ensures
            r.config == config,
            r.base_size == base_size,
            match config.spec_cursor("default"@) {
                Some(def) => {
                    &&& r.current_state matches TransitionState::Animated {
                        cursor_id,
                        start_time_ms,
                        loop_mode,
                    }
                    &&& cursor_id@ == "default"@
                    &&& start_time_ms == 0
                    &&& loop_mode == spec_loop_mode(def.loop_mode)
                },
                None => r.current_state == TransitionState::Static,
            },
    {
        let state = match config.get_cursor("default") {
            Some(def) => {
                let lm = loop_mode_from(&def.loop_mode);
                TransitionState::Animated {
                    cursor_id: "default".to_owned(),
                    start_time_ms: 0,
                    loop_mode: lm,
                }
            },
            None => TransitionState::Static,
        };
        CursorAnimator { config, current_state: state, base_size }
    }

    /// Selects a cursor identity; see [`set_cursor_rel`] for the exact
    /// state change.  Re-selecting the current target changes nothing.
    pub fn set_cursor(&mut self, cursor_id: &str)
        ensures
            set_cursor_rel(
                old(self).config,
                old(self).current_state,
                cursor_id@,
                final(self).current_state,
            ),
            final(self).config == old(self).config,
            final(self).base_size == old(self).base_size,
    {
        let from_id: Option<String> = match &self.current_state {
            TransitionState::Static => None,
            TransitionState::Animated { cursor_id: c, .. } => Some(c.clone()),
            TransitionState::Transitioning { to_id, .. } => Some(to_id.clone()),
        };
        if let Some(from) = from_id {
            if from == cursor_id.to_owned() {
                return;
            }
            if self.config.get_transition(from.as_str(), cursor_id).is_some() {
                self.current_state = TransitionState::Transitioning {
                    from_id: from,
                    to_id: cursor_id.to_owned(),
                    elapsed_ms: 0,
                    progress: 0,
                };
                return;
            }
        }
        match self.config.get_cursor(cursor_id) {
            Some(def) => {
                let lm = loop_mode_from(&def.loop_mode);
                self.current_state = TransitionState::Animated {
                    cursor_id: cursor_id.to_owned(),
                    start_time_ms: 0,
                    loop_mode: lm,
                };
            },
            None => {
                self.current_state = TransitionState::Static;
            },
        }
    }

    /// Advances the state machine by `elapsed_ms`; see [`update_rel`] for
    /// the exact state change.
    pub fn update(&mut self, elapsed_ms: u32)
        ensures
            update_rel(
                old(self).config,
                old(self).current_state,
                elapsed_ms,
                final(self).current_state,
            ),
            final(self).config == old(self).config,
            final(self).base_size == old(self).base_size,
    {
        let transition: Option<(String, String, u32)> = match &self.current_state {
            TransitionState::Transitioning { from_id, to_id, elapsed_ms: e, .. } => Some(
                (from_id.clone(), to_id.clone(), *e),
            ),
            _ => None,
        };
        if let Some((from, to, e0)) = transition {
            let entry: Option<(u32, EasingFunction)> = match self.config.get_transition(
                from.as_str(),
                to.as_str(),
            ) {
                Some(c) => Some((c.duration_ms, c.easing)),
                None => None,
            };
            match entry {
                None => {
                    self.current_state = TransitionState::Static;
                },
                Some((dur, easing)) => {
                    let e_new = e0.saturating_add(elapsed_ms);
                    if e_new >= dur {
                        self.current_state = TransitionState::Animated {
                            cursor_id: to,
                            start_time_ms: 0,
                            loop_mode: LoopMode::Loop,
                        };
                    } else {
                        let raw64 = (e_new as u64) * 1000000 / (dur as u64);
                        proof {
                            lemma_div_below(
                                e_new as int * 1000000,
                                dur as int,
                                1000000,
                            );
                            assert(e_new as int * 1000000 < dur as int * 1000000)
                                by (nonlinear_arith)
                                requires
                                    (e_new as int) < (dur as int),
                            ;
                        }
                        let eased = apply_easing(raw64 as u32, &easing);
                        self.current_state = TransitionState::Transitioning {
                            from_id: from,
                            to_id: to,
                            elapsed_ms: e_new,
                            progress: eased,
                        };
                    }
                },
            }
            return;
        }
        let animated: Option<(String, u32, LoopMode)> = match &self.current_state {
            TransitionState::Animated { cursor_id, start_time_ms, loop_mode } => Some(
                (cursor_id.clone(), *start_time_ms, *loop_mode),
            ),
            _ => None,
        };
        if let Some((cid, start, lm)) = animated {
            let is_lottie = match self.config.get_cursor(cid.as_str()) {
                Some(def) => def.format == CursorFormat::Lottie,
                None => false,
            };
            if is_lottie {
                self.current_state = TransitionState::Animated {
                    cursor_id: cid,
                    start_time_ms: start.saturating_add(elapsed_ms),
                    loop_mode: lm,
                };
            }
        }
    }

    /// Base (unscaled) cursor size the animator was created with.
    pub fn get_base_size(&self) -> (r: u8)
        ensures
            r == self.base_size,
    {
        self.base_size
    }

    /// Current state of the animator.
    pub fn current_state(&self) -> (r: &TransitionState)
        ensures
            *r == self.current_state,
    {
        &self.current_state
    }
}

/// Evaluates the easing curve `e` at progress `t` millionths, clamped to
/// the unit interval first.  The result may overshoot the unit on purpose
/// (elastic easing), never past two units.
pub fn apply_easing(t: u32, easing: &EasingFunction) -> (r: u32)
    ensures
        r as int == ease_spec(*easing, t as int),
        r <= 2000000,
{
    let tc: u64 = if t > 1000000 {
        1000000
    } else {
        t as u64
    };
    match easing {
        EasingFunction::Linear => tc as u32,
        EasingFunction::EaseIn | EasingFunction::EaseInQuad => {
            proof {
                assert(tc * tc <= 1000000 * 1000000) by (nonlinear_arith)
                    requires
                        0 <= tc <= 1000000,
                ;
                lemma_div_at_most((tc * tc) as int, 1000000, 1000000);
            }
            ((tc * tc) / 1000000) as u32
        },
        EasingFunction::EaseOut | EasingFunction::EaseOutQuad => {
            let u = 1000000 - tc;
            proof {
                assert(u * u <= 1000000 * 1000000) by (nonlinear_arith)
                    requires
                        0 <= u <= 1000000,
                ;
                lemma_div_at_most((u * u) as int, 1000000, 1000000);
            }
            (1000000 - (u * u) / 1000000) as u32
        },
        EasingFunction::EaseInOut | EasingFunction::EaseInOutQuad => {
            if tc < 500000 {
                proof {
                    assert(2 * (tc * tc) <= 1000000 * 1000000) by (nonlinear_arith)
                        requires
                            0 <= tc <= 500000,
                    ;
                    lemma_div_at_most((2 * (tc * tc)) as int, 1000000, 1000000);
                }
                ((2 * (tc * tc)) / 1000000) as u32
            } else {
                let u = 1000000 - tc;
                proof {
                    assert(2 * (u * u) <= 1000000 * 1000000) by (nonlinear_arith)
                        requires
                            0 <= u <= 500000,
                    ;
                    lemma_div_at_most((2 * (u * u)) as int, 1000000, 1000000);
                }
                (1000000 - (2 * (u * u)) / 1000000) as u32
            }
        },
        EasingFunction::Elastic => {
            if tc == 0 {
                0
            } else if tc == 1000000 {
                1000000
            } else {
                elastic_mid_exec(tc as i64) as u32
            }
        },
    }
}

/// Every easing curve starts exactly at zero and ends exactly at one unit:
/// `ease(0) == 0` and `ease(1000000) == 1000000`.
pub proof fn lemma_easing_endpoints(e: EasingFunction)
    ensures
        ease_spec(e, 0) == 0,
        ease_spec(e, 1000000) == 1000000,
{
}

/// The two branches of the quadratic ease-in-out curve agree at the
/// midpoint: the curve is continuous at one half.
pub proof fn lemma_ease_in_out_continuous()
    ensures
        (2 * (500000int * 500000)) / 1000000 == 500000,
        1000000 - (2 * ((1000000 - 500000int) * (1000000 - 500000))) / 1000000 == 500000,
        ease_spec(EasingFunction::EaseInOut, 500000) == 500000,
{
}

/// Selecting the same cursor id twice in a row changes nothing the second
/// time: `set_cursor` is idempotent.
pub proof fn lemma_set_cursor_idempotent(
    config: CursorThemeConfig,
    s1: TransitionState,
    s2: TransitionState,
    s3: TransitionState,
    id: Seq<char>,
)
    requires
        set_cursor_rel(config, s1, id, s2),
        set_cursor_rel(config, s2, id, s3),
    ensures
        s3 == s2,
{
}

/// A transition whose raw running time reaches or exceeds its duration
/// always lands in `Animated { to, playhead 0, Loop }`, whatever the
/// easing or the stored progress.
pub proof fn lemma_transition_completes(
    config: CursorThemeConfig,
    pre: TransitionState,
    elapsed: u32,
    post: TransitionState,
    from: Seq<char>,
    to: Seq<char>,
)
    requires
        update_rel(config, pre, elapsed, post),
        pre matches TransitionState::Transitioning { from_id, to_id, elapsed_ms, .. }
            && from_id@ == from && to_id@ == to
            && elapsed_ms.saturating_add(elapsed)
            >= config.spec_transition(from, to)->0.duration_ms,
        config.spec_transition(from, to) is Some,
    ensures
        post matches TransitionState::Animated { cursor_id, start_time_ms, loop_mode }
            && cursor_id@ == to && start_time_ms == 0 && loop_mode == LoopMode::Loop,
{
}

} // verus!
