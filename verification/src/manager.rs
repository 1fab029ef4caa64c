//! Top-level cursor manager: composes the raster theme caches, the
//! optional vector cursor system (renderer store plus animator) and the
//! icon-to-vector-id mapping, and arbitrates between them for the
//! render loop.
//!
//! The manager does no file I/O: theme lookups hand in the bytes of a
//! cursor file, and `vector_source_needed` tells the caller which vector
//! source file to read.

use vstd::prelude::*;
use vstd::string::StringExecFns;

use crate::animator::{set_cursor_rel, CursorAnimator};
use crate::icon::{icon_for, icon_for_name, lower_of, lowercase, CursorIcon};
use crate::raster::{
    fallback_byte, matching_frames, parse_xcursor_bytes, select_cursor_frames, selected_dims,
    sum_delays, xcursor_frames_of, CursorImage, XCursor,
};
use crate::store::{cache_index, VectorCursorStore};
use crate::types::{RenderedFrame, TransitionState};

verus! {

/// Current cursor selection, as the input side hands it over.
#[derive(Debug, Clone, Copy, PartialEq, Eq, Structural)]
pub enum CursorStatus {
    /// No cursor is shown.
    Hidden,
    /// A client-provided surface is shown; the handle stays with the
    /// caller, only the hotspot is carried here.
    Surface { hotspot_x: i32, hotspot_y: i32 },
    /// A well-known named icon is shown.
    Named(CursorIcon),
}

/// The cursor prepared for the renderer.
#[derive(Debug)]
pub enum RenderCursor {
    Hidden,
    Surface { hotspot_x: i32, hotspot_y: i32 },
    Named { icon: CursorIcon, scale: i32, cursor: usize },
    Vector { frame: RenderedFrame },
}

/// The vector half of the manager: the renderer store and the animator,
/// each owning its copy of the immutable theme configuration.
#[derive(Debug)]
pub struct VectorCursorSystem {
    pub store: VectorCursorStore,
    pub animator: CursorAnimator,
}

/// The icon-to-vector-id entries built from a theme's cursors, in
/// document order: each id whose lowercased text matches the alias
/// table contributes one entry.
pub open spec fn icon_map_of(cursors: Seq<(String, crate::config::CursorDefinition)>) -> Seq<
    (CursorIcon, Seq<char>),
>
    decreases cursors.len(),
{
    if cursors.len() == 0 {
        Seq::empty()
    } else {
        let rest = icon_map_of(cursors.drop_last());
        match icon_for(lower_of(cursors.last().0@)) {
            Some(ic) => rest.push((ic, cursors.last().0@)),
            None => rest,
        }
    }
}

/// The vector id selected for an icon: the last mapping entry for it
/// wins, mirroring overwrite-on-insert.
pub open spec fn vector_id_for(m: Seq<(CursorIcon, Seq<char>)>, icon: CursorIcon) -> Option<
    Seq<char>,
>
    decreases m.len(),
{
    if m.len() == 0 {
        None
    } else if m.last().0 == icon {
        Some(m.last().1)
    } else {
        vector_id_for(m.drop_last(), icon)
    }
}

/// The mapping entries of a manager, by view.
pub open spec fn icon_map_view(m: Seq<(CursorIcon, String)>) -> Seq<(CursorIcon, Seq<char>)> {
    m.map_values(|p: (CursorIcon, String)| (p.0, p.1@))
}

/// First cached raster entry for `(icon, scale)`, if any.
pub open spec fn raster_cache_lookup(
    s: Seq<((CursorIcon, i32), Option<usize>)>,
    icon: CursorIcon,
    scale: i32,
) -> Option<Option<usize>>
    decreases s.len(),
{
    if s.len() == 0 {
        None
    } else if s[0].0.0 == icon && s[0].0.1 == scale {
        Some(s[0].1)
    } else {
        raster_cache_lookup(s.drop_first(), icon, scale)
    }
}

/// Top-level facade: raster theme size and caches, current selection,
/// and the optional vector system with its icon mapping.
#[derive(Debug)]
pub struct CursorManager {
    pub size: u8,
    pub current_cursor: CursorStatus,
    pub cursor_arena: Vec<XCursor>,
    pub named_cursor_cache: Vec<((CursorIcon, i32), Option<usize>)>,
    pub vector_system: Option<VectorCursorSystem>,
    pub icon_to_vector_id: Vec<(CursorIcon, String)>,
}

/// Every cached raster handle points into the arena, and every cached
/// cursor is well formed.
pub open spec fn manager_wf(m: CursorManager) -> bool {
    &&& forall|i: int| 0 <= i < m.named_cursor_cache@.len() ==> match (
        #[trigger] m.named_cursor_cache@[i]).1 {
        Some(h) => h < m.cursor_arena@.len(),
        None => true,
    }
    &&& forall|i: int| 0 <= i < m.cursor_arena@.len() ==> (
    #[trigger] m.cursor_arena@[i]).wf()
}



/// How the render query resolves a named icon when the vector path does
/// not supply a frame: the icon's cached raster cursor when it has one,
/// else the guaranteed default cursor.
pub open spec fn named_render_rel(
    pre: CursorManager,
    icon: CursorIcon,
    scale: i32,
    post: CursorManager,
    r: RenderCursor,
) -> bool {
    exists|mid: CursorManager, r1: Option<usize>|
        {
            &&& #[trigger] named_lookup_rel(pre, icon, scale, None, mid, r1)
            &&& match r1 {
                Some(h) => {
                    &&& post == mid
                    &&& h < mid.cursor_arena@.len()
                    &&& r matches RenderCursor::Named { icon: ri, scale: rs, cursor: rc }
                        && ri == icon && rs == scale && rc == h
                },
                None => exists|r2: usize|
                    {
                        &&& #[trigger] named_lookup_rel(
                            mid,
                            CursorIcon::Default,
                            scale,
                            None,
                            post,
                            Some(r2),
                        )
                        &&& r2 < post.cursor_arena@.len()
                        &&& r matches RenderCursor::Named { icon: ri, scale: rs, cursor: rc }
                            && ri == CursorIcon::Default && rs == scale && rc == r2
                    },
            }
        }
}

/// How `is_current_cursor_animated` resolves a named icon: the icon's
/// cached raster cursor, or the default cursor when the icon has none,
/// decides by its frame count.
pub open spec fn animated_lookup_rel(
    pre: CursorManager,
    icon: CursorIcon,
    scale: i32,
    post: CursorManager,
    r: bool,
) -> bool {
    exists|mid: CursorManager, r1: Option<usize>|
        {
            &&& #[trigger] named_lookup_rel(pre, icon, scale, None, mid, r1)
            &&& match r1 {
                Some(h) => {
                    &&& post == mid
                    &&& h < mid.cursor_arena@.len()
                    &&& r == (mid.cursor_arena@[h as int].images@.len() > 1)
                },
                None => exists|r2: usize|
                    {
                        &&& #[trigger] named_lookup_rel(
                            mid,
                            CursorIcon::Default,
                            scale,
                            None,
                            post,
                            Some(r2),
                        )
                        &&& r2 < post.cursor_arena@.len()
                        &&& r == (post.cursor_arena@[r2 as int].images@.len() > 1)
                    },
            }
        }
}

/// How `get_cursor_with_name` answers and changes the manager.  A cached
/// key is answered without change.  Otherwise the supplied file bytes
/// are decoded and the closest-size frame set selected; on success it is
/// added to the arena and cached.  When nothing usable comes out, the
/// default icon falls back to the built-in glyph and every other icon
/// caches the miss and reports `None`.
pub open spec fn named_lookup_rel(
    pre: CursorManager,
    icon: CursorIcon,
    scale: i32,
    source: Option<Seq<u8>>,
    post: CursorManager,
    r: Option<usize>,
) -> bool {
    &&& post.size == pre.size
    &&& post.current_cursor == pre.current_cursor
    &&& post.vector_system == pre.vector_system
    &&& post.icon_to_vector_id == pre.icon_to_vector_id
    &&& match raster_cache_lookup(pre.named_cursor_cache@, icon, scale) {
        Some(v) => {
            &&& post == pre
            &&& r == v
        },
        None => {
            let imgs = match source {
                Some(b) => xcursor_frames_of(b),
                None => None,
            };
            let loaded = imgs is Some && imgs->0.len() >= 1 && sum_delays(
                matching_frames(
                    imgs->0,
                    selected_dims(imgs->0, crate::lottie::clamp_i32(pre.size as int * scale as int)).0,
                    selected_dims(imgs->0, crate::lottie::clamp_i32(pre.size as int * scale as int)).1,
                ),
            ) <= u32::MAX;
            if loaded {
                &&& r == Some(pre.cursor_arena@.len() as usize)
                &&& post.cursor_arena@.len() == pre.cursor_arena@.len() + 1
                &&& post.cursor_arena@.subrange(
                    0,
                    pre.cursor_arena@.len() as int,
                ) == pre.cursor_arena@
                &&& post.cursor_arena@.last().wf()
                &&& post.cursor_arena@.last().images@ == matching_frames(
                    imgs->0,
                    selected_dims(imgs->0, crate::lottie::clamp_i32(pre.size as int * scale as int)).0,
                    selected_dims(imgs->0, crate::lottie::clamp_i32(pre.size as int * scale as int)).1,
                )
                &&& post.named_cursor_cache@ == pre.named_cursor_cache@.push(
                    ((icon, scale), Some(pre.cursor_arena@.len() as usize)),
                )
            } else if icon == CursorIcon::Default {
                &&& r == Some(pre.cursor_arena@.len() as usize)
                &&& post.cursor_arena@.len() == pre.cursor_arena@.len() + 1
                &&& post.cursor_arena@.subrange(
                    0,
                    pre.cursor_arena@.len() as int,
                ) == pre.cursor_arena@
                &&& post.cursor_arena@.last().wf()
                &&& post.cursor_arena@.last().images@.len() == 1
                &&& post.cursor_arena@.last().images@[0].width == 64
                &&& post.cursor_arena@.last().images@[0].height == 64
                &&& post.cursor_arena@.last().images@[0].xhot == 1
                &&& post.cursor_arena@.last().images@[0].yhot == 1
                &&& post.cursor_arena@.last().images@[0].delay == 0
                &&& post.cursor_arena@.last().images@[0].pixels_rgba@ == Seq::new(
                    16384,
                    |i: int| fallback_byte(i),
                )
                &&& post.named_cursor_cache@ == pre.named_cursor_cache@.push(
                    ((icon, scale), Some(pre.cursor_arena@.len() as usize)),
                )
            } else {
                &&& r is None
                &&& post.cursor_arena@ == pre.cursor_arena@
                &&& post.named_cursor_cache@ == pre.named_cursor_cache@.push(
                    ((icon, scale), None),
                )
            }
        },
    }
}

impl CursorManager {
    /// Creates a raster-only manager.
    pub fn new(size: u8) -> (r: CursorManager)
        ensures
            manager_wf(r),
            r.size == size,
            r.current_cursor == CursorStatus::Named(CursorIcon::Default),
            r.cursor_arena@.len() == 0,
            r.named_cursor_cache@.len() == 0,
            r.vector_system is None,
            r.icon_to_vector_id@.len() == 0,
    {
        CursorManager::new_with_vector_theme(size, None)
    }

    /// Creates the manager, optionally with a vector system; the
    /// icon-to-vector-id mapping is built from the system's theme
    /// configuration.
    pub fn new_with_vector_theme(size: u8, vector_system: Option<VectorCursorSystem>) -> (r:
        CursorManager)
        ensures
            manager_wf(r),
            r.size == size,
            r.current_cursor == CursorStatus::Named(CursorIcon::Default),
            r.cursor_arena@.len() == 0,
            r.named_cursor_cache@.len() == 0,
            r.vector_system == vector_system,
            match vector_system {
                Some(vs) => icon_map_view(r.icon_to_vector_id@) == icon_map_of(
                    vs.store.config.cursors@,
                ),
                None => r.icon_to_vector_id@.len() == 0,
            },
    {
        let icon_to_vector_id: Vec<(CursorIcon, String)> = match &vector_system {
            Some(vs) => build_icon_map(vs.store.get_config()),
            None => Vec::new(),
        };
        proof {
            if vector_system is None {
                assert(icon_map_view(icon_to_vector_id@) =~= Seq::<
                    (CursorIcon, Seq<char>),
                >::empty());
            }
        }
        CursorManager {
            size,
            current_cursor: CursorStatus::Named(CursorIcon::Default),
            cursor_arena: Vec::new(),
            named_cursor_cache: Vec::new(),
            vector_system,
            icon_to_vector_id,
        }
    }

    /// Reloads the raster theme at a new size: the raster caches are
    /// cleared wholesale; the vector system is untouched.
    pub fn reload(&mut self, size: u8)
        ensures
            manager_wf(*final(self)),
            final(self).size == size,
            final(self).cursor_arena@.len() == 0,
            final(self).named_cursor_cache@.len() == 0,
            final(self).current_cursor == old(self).current_cursor,
            final(self).vector_system == old(self).vector_system,
            final(self).icon_to_vector_id == old(self).icon_to_vector_id,
    {
        self.size = size;
        self.named_cursor_cache.clear();
        self.cursor_arena.clear();
    }

    /// Drops a dead cursor surface: when the current selection is a
    /// surface that is no longer alive, fall back to the default named
    /// cursor.
    pub fn check_cursor_image_surface_alive(&mut self, alive: bool)
        ensures
            final(self).current_cursor == (if old(self).current_cursor matches
                CursorStatus::Surface { .. } && !alive {
                CursorStatus::Named(CursorIcon::Default)
            } else {
                old(self).current_cursor
            }),
            final(self).size == old(self).size,
            final(self).cursor_arena == old(self).cursor_arena,
            final(self).named_cursor_cache == old(self).named_cursor_cache,
            final(self).vector_system == old(self).vector_system,
            final(self).icon_to_vector_id == old(self).icon_to_vector_id,
    {
        match self.current_cursor {
            CursorStatus::Surface { .. } => {
                if !alive {
                    self.current_cursor = CursorStatus::Named(CursorIcon::Default);
                }
            },
            _ => {},
        }
    }

    /// The current cursor selection.
    pub fn cursor_image(&self) -> (r: &CursorStatus)
        ensures
            *r == self.current_cursor,
    {
        &self.current_cursor
    }

    /// Stores the new selection; a named icon with a vector mapping also
    /// advises the animator, which runs in parallel and never replaces
    /// the stored selection.
    pub fn set_cursor_image(&mut self, cursor: CursorStatus)
        ensures
            final(self).current_cursor == cursor,
            final(self).size == old(self).size,
            final(self).cursor_arena == old(self).cursor_arena,
            final(self).named_cursor_cache == old(self).named_cursor_cache,
            final(self).icon_to_vector_id == old(self).icon_to_vector_id,
            match old(self).vector_system {
                None => final(self).vector_system is None,
                Some(vs) => {
                    &&& final(self).vector_system matches Some(vs2)
                    &&& vs2.store == vs.store
                    &&& vs2.animator.config == vs.animator.config
                    &&& vs2.animator.base_size == vs.animator.base_size
                    &&& match cursor {
                        CursorStatus::Named(icon) => match vector_id_for(
                            icon_map_view(old(self).icon_to_vector_id@),
                            icon,
                        ) {
                            Some(id) => set_cursor_rel(
                                vs.animator.config,
                                vs.animator.current_state,
                                id,
                                vs2.animator.current_state,
                            ),
                            None => vs2.animator.current_state
                                == vs.animator.current_state,
                        },
                        _ => vs2.animator.current_state == vs.animator.current_state,
                    }
                },
            },
    {
        match &mut self.vector_system {
            Some(vs) => {
                match cursor {
                    CursorStatus::Named(icon) => {
                        match lookup_vector_id(&self.icon_to_vector_id, icon) {
                            Some(idx) => {
                                let id = self.icon_to_vector_id[idx].1.clone();
                                vs.animator.set_cursor(id.as_str());
                            },
                            None => {},
                        }
                    },
                    _ => {},
                }
            },
            None => {},
        }
        self.current_cursor = cursor;
    }

    /// Advances the animator by `elapsed_ms`; without a vector system
    /// this changes nothing.
    pub fn update(&mut self, elapsed_ms: u32)
        ensures
            final(self).current_cursor == old(self).current_cursor,
            final(self).size == old(self).size,
            final(self).cursor_arena == old(self).cursor_arena,
            final(self).named_cursor_cache == old(self).named_cursor_cache,
            final(self).icon_to_vector_id == old(self).icon_to_vector_id,
            match old(self).vector_system {
                None => final(self).vector_system is None,
                Some(vs) => {
                    &&& final(self).vector_system matches Some(vs2)
                    &&& vs2.store == vs.store
                    &&& vs2.animator.config == vs.animator.config
                    &&& vs2.animator.base_size == vs.animator.base_size
                    &&& crate::animator::update_rel(
                        vs.animator.config,
                        vs.animator.current_state,
                        elapsed_ms,
                        vs2.animator.current_state,
                    )
                },
            },
    {
        match &mut self.vector_system {
            Some(vs) => {
                vs.animator.update(elapsed_ms);
            },
            None => {},
        }
    }

    /// The vector source file the render path would need next: the
    /// active cursor id and its file, when the animator is active, the
    /// renderer is not cached yet and the theme defines the id.
    pub fn vector_source_needed(&self) -> (r: Option<(String, String)>)
        ensures
            match r {
                Some(p) => {
                    &&& self.vector_system matches Some(vs)
                    &&& vs.animator.current_state.spec_target() == Some(p.0@)
                    &&& cache_index(vs.store.renderers@, p.0@) < 0
                    &&& vs.store.config.spec_cursor(p.0@) matches Some(def) && def.file@
                        == p.1@
                },
                None => !(self.vector_system matches Some(vs)
                    && vs.animator.current_state.spec_target() matches Some(id)
                    && cache_index(vs.store.renderers@, id) < 0
                    && vs.store.config.spec_cursor(id) is Some),
            },
    {
        let vs = match &self.vector_system {
            Some(vs) => vs,
            None => {
                return None;
            },
        };
        let id: String = match vs.animator.current_state() {
            TransitionState::Static => {
                return None;
            },
            TransitionState::Animated { cursor_id, .. } => cursor_id.clone(),
            TransitionState::Transitioning { to_id, .. } => to_id.clone(),
        };
        if cached_renderer_index(&vs.store, id.as_str()).is_some() {
            return None;
        }
        match vs.store.config.get_cursor(id.as_str()) {
            Some(def) => {
                let file = def.file.clone();
                Some((id, file))
            },
            None => None,
        }
    }

    /// Looks up (and on a miss, resolves and caches) the raster cursor
    /// for an icon at a scale, from the supplied cursor-file bytes; see
    /// [`named_lookup_rel`].  In particular: an icon the theme has no
    /// data for resolves to `None` rather than failing, and the default
    /// icon never resolves to `None`.
    pub fn get_cursor_with_name(
        &mut self,
        icon: CursorIcon,
        scale: i32,
        source: Option<&Vec<u8>>,
    ) -> (r: Option<usize>)
        requires
            manager_wf(*old(self)),
        ensures
            manager_wf(*final(self)),
            named_lookup_rel(
                *old(self),
                icon,
                scale,
                match source {
                    Some(b) => Some(b@),
                    None => None,
                },
                *final(self),
                r,
            ),
            r matches Some(h) ==> h < final(self).cursor_arena@.len(),
            raster_cache_lookup(old(self).named_cursor_cache@, icon, scale) is None
                && source is None && icon != CursorIcon::Default ==> r is None,
            icon == CursorIcon::Default && raster_cache_lookup(
                old(self).named_cursor_cache@,
                icon,
                scale,
            ) != Some(Option::<usize>::None) ==> r is Some,
    {
        let n = self.named_cursor_cache.len();
        proof {
            assert(self.named_cursor_cache@.subrange(0, n as int)
                =~= self.named_cursor_cache@);
        }
        let mut i: usize = 0;
        while i < n
            invariant
                manager_wf(*self),
                self == old(self),
                n == self.named_cursor_cache@.len(),
                0 <= i <= n,
                raster_cache_lookup(self.named_cursor_cache@, icon, scale)
                    == raster_cache_lookup(
                    self.named_cursor_cache@.subrange(i as int, n as int),
                    icon,
                    scale,
                ),
            decreases n - i,
        {
            proof {
                let tail = self.named_cursor_cache@.subrange(i as int, n as int);
                assert(tail[0] == self.named_cursor_cache@[i as int]);
                assert(tail.drop_first() =~= self.named_cursor_cache@.subrange(
                    i + 1,
                    n as int,
                ));
            }
            let e = &self.named_cursor_cache[i];
            if e.0.0 == icon && e.0.1 == scale {
                return e.1;
            }
            i = i + 1;
        }
        proof {
            assert(self.named_cursor_cache@.subrange(n as int, n as int) =~= Seq::<
                ((CursorIcon, i32), Option<usize>),
            >::empty());
        }
        // miss: decode and select from the supplied bytes
        proof {
            assert(-0x100_0000_0000 <= (self.size as int) * (scale as int)
                <= 0x100_0000_0000) by (nonlinear_arith)
                requires
                    0 <= self.size as int <= 255,
                    -2147483648 <= scale as int <= 2147483647,
            ;
        }
        let prod: i64 = (self.size as i64) * (scale as i64);
        let size: i32 = if prod > 2147483647 {
            2147483647
        } else if prod < -2147483648 {
            -2147483648
        } else {
            prod as i32
        };
        let selected: Option<XCursor> = match source {
            Some(bytes) => match parse_xcursor_bytes(bytes.as_slice()) {
                Some(images) => select_cursor_frames(images, size),
                None => None,
            },
            None => None,
        };
        match selected {
            Some(cursor) => {
                let h = self.cursor_arena.len();
                self.cursor_arena.push(cursor);
                self.named_cursor_cache.push(((icon, scale), Some(h)));
                proof {
                    assert(self.cursor_arena@.subrange(
                        0,
                        old(self).cursor_arena@.len() as int,
                    ) =~= old(self).cursor_arena@);
                }
                Some(h)
            },
            None => {
                if matches!(icon, CursorIcon::Default) {
                    let h = self.cursor_arena.len();
                    self.cursor_arena.push(crate::raster::fallback_cursor());
                    self.named_cursor_cache.push(((icon, scale), Some(h)));
                    proof {
                        assert(self.cursor_arena@.subrange(
                            0,
                            old(self).cursor_arena@.len() as int,
                        ) =~= old(self).cursor_arena@);
                    }
                    Some(h)
                } else {
                    self.named_cursor_cache.push(((icon, scale), None));
                    None
                }
            },
        }
    }

    /// The default cursor, which always resolves: from the theme when it
    /// was cached, else the built-in glyph.
    pub fn get_default_cursor(&mut self, scale: i32) -> (r: usize)
        requires
            manager_wf(*old(self)),
            raster_cache_lookup(old(self).named_cursor_cache@, CursorIcon::Default, scale)
                != Some(Option::<usize>::None),
        ensures
            manager_wf(*final(self)),
            r < final(self).cursor_arena@.len(),
            named_lookup_rel(
                *old(self),
                CursorIcon::Default,
                scale,
                None,
                *final(self),
                Some(r),
            ),
    {
        match self.get_cursor_with_name(CursorIcon::Default, scale, None) {
            Some(h) => h,
            None => {
                proof {
                    assert(false);
                }
                0
            },
        }
    }

    /// A cursor handle's frame set.
    pub fn xcursor(&self, h: usize) -> (r: &XCursor)
        requires
            h < self.cursor_arena@.len(),
        ensures
            *r == self.cursor_arena@[h as int],
    {
        &self.cursor_arena[h]
    }

    /// Whether the active raster frame set has more than one frame; the
    /// vector animation state is not consulted.
    pub fn is_current_cursor_animated(&mut self, scale: i32) -> (r: bool)
        requires
            manager_wf(*old(self)),
            raster_cache_lookup(old(self).named_cursor_cache@, CursorIcon::Default, scale)
                != Some(Option::<usize>::None),
        ensures
            manager_wf(*final(self)),
            old(self).current_cursor is Hidden ==> r == false && *final(self) == *old(
                self,
            ),
            old(self).current_cursor matches CursorStatus::Surface { .. } ==> r == false
                && *final(self) == *old(self),
            old(self).current_cursor matches CursorStatus::Named(icon)
                ==> animated_lookup_rel(*old(self), icon, scale, *final(self), r),
    {
        let icon = match self.current_cursor {
            CursorStatus::Hidden => {
                return false;
            },
            CursorStatus::Surface { .. } => {
                return false;
            },
            CursorStatus::Named(icon) => icon,
        };
        let first = self.get_cursor_with_name(icon, scale, None);
        let ghost mid = *self;
        let ghost r1 = first;
        let h = match first {
            Some(h) => h,
            None => {
                proof {
                    assert(icon != CursorIcon::Default);
                    if raster_cache_lookup(
                        old(self).named_cursor_cache@,
                        icon,
                        scale,
                    ) is None {
                        lemma_raster_lookup_push(
                            old(self).named_cursor_cache@,
                            ((icon, scale), None),
                            CursorIcon::Default,
                            scale,
                        );
                    }
                }
                self.get_default_cursor(scale)
            },
        };
        let animated = self.cursor_arena[h].is_animated_cursor();
        proof {
            assert(named_lookup_rel(*old(self), icon, scale, None, mid, r1));
            if r1 is Some {
                assert(*self == mid);
            }
            assert(animated_lookup_rel(*old(self), icon, scale, *self, animated));
        }
        animated
    }

    /// The cursor prepared for this frame.  The vector system is tried
    /// first: when the animator is active, the active (or target)
    /// cursor's renderer is cached, and it renders at this scale, its
    /// frame is owed and returned with nothing else touched.  Frame zero
    /// is sampled even though the animator tracks a playhead; neither
    /// backend's pixel content depends on the frame index, so nothing is
    /// lost, but a richer wiring would divide the playhead by the frame
    /// duration here.  Anything less on the vector path falls through to
    /// the stored selection: hidden, the client surface, or the named
    /// raster cursor (with the default icon as last resort).  The
    /// current selection, the vector system and the mapping never
    /// change; only the raster caches may gain entries.
    pub fn get_render_cursor(&mut self, scale: i32) -> (r: RenderCursor)
        requires
            manager_wf(*old(self)),
            raster_cache_lookup(old(self).named_cursor_cache@, CursorIcon::Default, scale)
                != Some(Option::<usize>::None),
        ensures
            manager_wf(*final(self)),
            final(self).current_cursor == old(self).current_cursor,
            final(self).size == old(self).size,
            final(self).vector_system == old(self).vector_system,
            final(self).icon_to_vector_id == old(self).icon_to_vector_id,
            match old(self).vector_system {
                Some(vs) => match vs.animator.current_state.spec_target() {
                    Some(id) => {
                        let hit = cache_index(vs.store.renderers@, id);
                        if hit >= 0 && crate::store::render_succeeds(
                            vs.store.renderers@[hit].1,
                            scale as int,
                        ) {
                            &&& r matches RenderCursor::Vector { frame }
                            &&& crate::store::rendered_frame_ok(
                                vs.store.renderers@[hit].1,
                                scale as int,
                                frame,
                            )
                            &&& *final(self) == *old(self)
                        } else {
                            !(r is Vector)
                        }
                    },
                    None => !(r is Vector),
                },
                None => !(r is Vector),
            },
            !(r is Vector) ==> match old(self).current_cursor {
                CursorStatus::Hidden => r is Hidden && *final(self) == *old(self),
                CursorStatus::Surface { hotspot_x, hotspot_y } => r matches
                    RenderCursor::Surface { hotspot_x: hx, hotspot_y: hy } && hx == hotspot_x
                    && hy == hotspot_y && *final(self) == *old(self),
                CursorStatus::Named(icon) => named_render_rel(
                    *old(self),
                    icon,
                    scale,
                    *final(self),
                    r,
                ),
            },
    {
        let vector_frame: Option<RenderedFrame> = match &mut self.vector_system {
            Some(vs) => {
                let id_opt: Option<String> = match vs.animator.current_state() {
                    TransitionState::Static => None,
                    TransitionState::Animated { cursor_id, .. } => Some(cursor_id.clone()),
                    TransitionState::Transitioning { to_id, .. } => Some(to_id.clone()),
                };
                match id_opt {
                    Some(id) => match cached_renderer_index(&vs.store, id.as_str()) {
                        Some(h) => match vs.store.renderer(h).render_frame(0, scale) {
                            Ok(frame) => Some(frame),
                            Err(_) => None,
                        },
                        None => None,
                    },
                    None => None,
                }
            },
            None => None,
        };
        match vector_frame {
            Some(frame) => {
                return RenderCursor::Vector { frame };
            },
            None => {},
        }
        match self.current_cursor {
            CursorStatus::Hidden => RenderCursor::Hidden,
            CursorStatus::Surface { hotspot_x, hotspot_y } => RenderCursor::Surface {
                hotspot_x,
                hotspot_y,
            },
            CursorStatus::Named(icon) => {
                let first = self.get_cursor_with_name(icon, scale, None);
                let ghost mid = *self;
                let ghost r1 = first;
                let out = match first {
                    Some(h) => RenderCursor::Named { icon, scale, cursor: h },
                    None => {
                        proof {
                            assert(icon != CursorIcon::Default);
                            if raster_cache_lookup(
                                old(self).named_cursor_cache@,
                                icon,
                                scale,
                            ) is None {
                                lemma_raster_lookup_push(
                                    old(self).named_cursor_cache@,
                                    ((icon, scale), None),
                                    CursorIcon::Default,
                                    scale,
                                );
                            }
                        }
                        let h = self.get_default_cursor(scale);
                        RenderCursor::Named { icon: CursorIcon::Default, scale, cursor: h }
                    },
                };
                proof {
                    assert(named_lookup_rel(*old(self), icon, scale, None, mid, r1));
                    if r1 is Some {
                        assert(*self == mid);
                    }
                    assert(named_render_rel(*old(self), icon, scale, *self, out));
                }
                out
            },
        }
    }
}

proof fn lemma_raster_lookup_push(
    s: Seq<((CursorIcon, i32), Option<usize>)>,
    e: ((CursorIcon, i32), Option<usize>),
    icon: CursorIcon,
    scale: i32,
)
    requires
        !(e.0.0 == icon && e.0.1 == scale),
    ensures
        raster_cache_lookup(s.push(e), icon, scale) == raster_cache_lookup(s, icon, scale),
    decreases s.len(),
{
    if s.len() == 0 {
        assert(s.push(e)[0] == e);
        assert(s.push(e).drop_first() =~= Seq::<((CursorIcon, i32), Option<usize>)>::empty());
        assert(raster_cache_lookup(
            Seq::<((CursorIcon, i32), Option<usize>)>::empty(),
            icon,
            scale,
        ) is None);
    } else {
        assert(s.push(e)[0] == s[0]);
        assert(s.push(e).drop_first() =~= s.drop_first().push(e));
        lemma_raster_lookup_push(s.drop_first(), e, icon, scale);
    }
}

/// Index of the cached renderer for an id, if any, without changing the
/// store.
fn cached_renderer_index(store: &VectorCursorStore, cursor_id: &str) -> (r: Option<usize>)
    ensures
        match r {
            Some(h) => cache_index(store.renderers@, cursor_id@) == h && h
                < store.renderers@.len(),
            None => cache_index(store.renderers@, cursor_id@) < 0,
        },
{
    let n = store.renderers.len();
    let needle = cursor_id.to_owned();
    let mut i: usize = 0;
    proof {
        assert(store.renderers@.subrange(0, n as int) =~= store.renderers@);
    }
    while i < n
        invariant
            n == store.renderers@.len(),
            needle@ == cursor_id@,
            0 <= i <= n,
            cache_index(store.renderers@, cursor_id@) == (if cache_index(
                store.renderers@.subrange(i as int, n as int),
                cursor_id@,
            ) < 0 {
                -1int
            } else {
                i + cache_index(store.renderers@.subrange(i as int, n as int), cursor_id@)
            }),
        decreases n - i,
    {
        proof {
            let tail = store.renderers@.subrange(i as int, n as int);
            assert(tail[0] == store.renderers@[i as int]);
            assert(tail.drop_first() =~= store.renderers@.subrange(i + 1, n as int));
        }
        if store.renderers[i].0 == needle {
            return Some(i);
        }
        i = i + 1;
    }
    proof {
        assert(store.renderers@.subrange(n as int, n as int) =~= Seq::<
            (String, crate::store::Renderer),
        >::empty());
    }
    None
}

/// Builds the icon-to-vector-id mapping from the theme's cursors, in
/// document order; see [`icon_map_of`].
fn build_icon_map(config: &crate::config::CursorThemeConfig) -> (r: Vec<(CursorIcon, String)>)
    ensures
        icon_map_view(r@) == icon_map_of(config.cursors@),
{
    let mut out: Vec<(CursorIcon, String)> = Vec::new();
    let n = config.cursors.len();
    let mut i: usize = 0;
    proof {
        assert(config.cursors@.subrange(0, 0) =~= Seq::<
            (String, crate::config::CursorDefinition),
        >::empty());
        assert(icon_map_view(out@) =~= icon_map_of(config.cursors@.subrange(0, 0)));
    }
    while i < n
        invariant
            n == config.cursors@.len(),
            0 <= i <= n,
            icon_map_view(out@) == icon_map_of(config.cursors@.subrange(0, i as int)),
        decreases n - i,
    {
        proof {
            let pre = config.cursors@.subrange(0, i as int);
            let post = config.cursors@.subrange(0, i + 1);
            assert(post.drop_last() =~= pre);
            assert(post.last() == config.cursors@[i as int]);
        }
        let id = &config.cursors[i].0;
        let low = lowercase(id.as_str());
        match icon_for_name(low.as_str()) {
            Some(ic) => {
                out.push((ic, id.clone()));
                proof {
                    assert(icon_map_view(out@) =~= icon_map_of(
                        config.cursors@.subrange(0, i + 1),
                    ));
                }
            },
            None => {},
        }
        i = i + 1;
    }
    proof {
        assert(config.cursors@.subrange(0, n as int) =~= config.cursors@);
    }
    out
}

/// Index of the winning mapping entry for an icon: the last one.
fn lookup_vector_id(m: &Vec<(CursorIcon, String)>, icon: CursorIcon) -> (r: Option<usize>)
    ensures
        match r {
            Some(idx) => idx < m@.len() && m@[idx as int].0 == icon && vector_id_for(
                icon_map_view(m@),
                icon,
            ) == Some(m@[idx as int].1@),
            None => vector_id_for(icon_map_view(m@), icon) is None,
        },
{
    let n = m.len();
    let mut i: usize = n;
    proof {
        assert(icon_map_view(m@).subrange(0, n as int) =~= icon_map_view(m@));
        assert(vector_id_for(icon_map_view(m@), icon) == vector_id_for(
            icon_map_view(m@).subrange(0, n as int),
            icon,
        ));
    }
    while i > 0
        invariant
            n == m@.len(),
            0 <= i <= n,
            vector_id_for(icon_map_view(m@), icon) == vector_id_for(
                icon_map_view(m@).subrange(0, i as int),
                icon,
            ),
        decreases i,
    {
        i = i - 1;
        proof {
            let v = icon_map_view(m@);
            let pre = v.subrange(0, i + 1);
            assert(pre.drop_last() =~= v.subrange(0, i as int));
            assert(pre.last() == v[i as int]);
            assert(v[i as int] == (m@[i as int].0, m@[i as int].1@));
        }
        if m[i].0 == icon {
            return Some(i);
        }
    }
    proof {
        assert(icon_map_view(m@).subrange(0, 0) =~= Seq::<(CursorIcon, Seq<char>)>::empty());
    }
    None
}

/// Index of the first texture-cache entry for `(icon, scale)`, or `-1`.
pub open spec fn tex_lookup_idx(
    s: Seq<((CursorIcon, i32), Vec<RenderedFrame>)>,
    icon: CursorIcon,
    scale: i32,
) -> int
    decreases s.len(),
{
    if s.len() == 0 {
        -1
    } else if s[0].0.0 == icon && s[0].0.1 == scale {
        0
    } else {
        let t = tex_lookup_idx(s.drop_first(), icon, scale);
        if t < 0 {
            -1
        } else {
            1 + t
        }
    }
}

/// One cached texture per raster frame: same dimensions and bytes, the
/// hotspot carried alongside (saturated to the signed range).
pub open spec fn textures_match(frames: Seq<RenderedFrame>, images: Seq<CursorImage>) -> bool {
    &&& frames.len() == images.len()
    &&& forall|i: int| 0 <= i < frames.len() ==> {
        &&& (#[trigger] frames[i]).width == images[i].width
        &&& frames[i].height == images[i].height
        &&& frames[i].buffer@ == images[i].pixels_rgba@
        &&& frames[i].hotspot_x as int == crate::lottie::clamp_i32(images[i].xhot as int)
        &&& frames[i].hotspot_y as int == crate::lottie::clamp_i32(images[i].yhot as int)
    }
}

/// Memoizes the conversion of raster frames into renderable buffers per
/// icon and scale; entries live until `clear`.
#[derive(Debug)]
pub struct CursorTextureCache {
    pub cache: Vec<((CursorIcon, i32), Vec<RenderedFrame>)>,
}

impl Default for CursorTextureCache {
    /// An empty cache.
    fn default() -> (r: CursorTextureCache)
        ensures
            r.cache@.len() == 0,
    {
        CursorTextureCache { cache: Vec::new() }
    }
}

impl CursorTextureCache {
    /// Empties the cache wholesale.
    pub fn clear(&mut self)
        ensures
            final(self).cache@.len() == 0,
    {
        self.cache.clear();
    }

    /// The renderable buffer of frame `idx` of a cursor, converting and
    /// caching all of the cursor's frames on the first request for its
    /// key.  `None` when `idx` is outside the cached entry.
    pub fn get(&mut self, icon: CursorIcon, scale: i32, cursor: &XCursor, idx: usize) -> (r:
        Option<&RenderedFrame>)
        ensures
            ({
                let j0 = tex_lookup_idx(old(self).cache@, icon, scale);
                if j0 >= 0 {
                    &&& *final(self) == *old(self)
                    &&& match r {
                        Some(f) => idx < old(self).cache@[j0].1@.len()
                            && *f == old(self).cache@[j0].1@[idx as int],
                        None => idx >= old(self).cache@[j0].1@.len(),
                    }
                } else {
                    &&& final(self).cache@.len() == old(self).cache@.len() + 1
                    &&& final(self).cache@.subrange(
                        0,
                        old(self).cache@.len() as int,
                    ) == old(self).cache@
                    &&& final(self).cache@.last().0 == (icon, scale)
                    &&& textures_match(final(self).cache@.last().1@, cursor.images@)
                    &&& match r {
                        Some(f) => idx < cursor.images@.len()
                            && *f == final(self).cache@.last().1@[idx as int],
                        None => idx >= cursor.images@.len(),
                    }
                }
            }),
    {
        let n = self.cache.len();
        proof {
            assert(self.cache@.subrange(0, n as int) =~= self.cache@);
        }
        let mut i: usize = 0;
        while i < n
            invariant
                self == old(self),
                n == self.cache@.len(),
                0 <= i <= n,
                tex_lookup_idx(self.cache@, icon, scale) == (if tex_lookup_idx(
                    self.cache@.subrange(i as int, n as int),
                    icon,
                    scale,
                ) < 0 {
                    -1int
                } else {
                    i + tex_lookup_idx(self.cache@.subrange(i as int, n as int), icon, scale)
                }),
            decreases n - i,
        {
            proof {
                let tail = self.cache@.subrange(i as int, n as int);
                assert(tail[0] == self.cache@[i as int]);
                assert(tail.drop_first() =~= self.cache@.subrange(i + 1, n as int));
            }
            let hit = self.cache[i].0.0 == icon && self.cache[i].0.1 == scale;
            if hit {
                if idx < self.cache[i].1.len() {
                    return Some(&self.cache[i].1[idx]);
                } else {
                    return None;
                }
            }
            i = i + 1;
        }
        proof {
            assert(self.cache@.subrange(n as int, n as int) =~= Seq::<
                ((CursorIcon, i32), Vec<RenderedFrame>),
            >::empty());
        }
        let m = cursor.frames().len();
        let mut frames: Vec<RenderedFrame> = Vec::new();
        let mut k: usize = 0;
        while k < m
            invariant
                m == cursor.images@.len(),
                0 <= k <= m,
                textures_match(frames@, cursor.images@.subrange(0, k as int)),
            decreases m - k,
        {
            let img = &cursor.frames()[k];
            let buffer = copy_bytes(&img.pixels_rgba);
            let hx = crate::lottie::clamp_i32_exec(img.xhot as i64);
            let hy = crate::lottie::clamp_i32_exec(img.yhot as i64);
            frames.push(
                RenderedFrame {
                    width: img.width,
                    height: img.height,
                    buffer,
                    hotspot_x: hx,
                    hotspot_y: hy,
                },
            );
            k = k + 1;
            proof {
                assert(cursor.images@.subrange(0, k as int).drop_last()
                    =~= cursor.images@.subrange(0, k - 1));
                assert(forall|j: int|
                    0 <= j < k - 1 ==> cursor.images@.subrange(0, k as int)[j]
                        == #[trigger] cursor.images@.subrange(0, k - 1)[j]);
            }
        }
        proof {
            assert(cursor.images@.subrange(0, m as int) =~= cursor.images@);
        }
        let j = self.cache.len();
        self.cache.push(((icon, scale), frames));
        proof {
            assert(self.cache@.subrange(0, old(self).cache@.len() as int) =~= old(
                self,
            ).cache@);
        }
        if idx < self.cache[j].1.len() {
            Some(&self.cache[j].1[idx])
        } else {
            None
        }
    }
}

/// An exact copy of a byte vector.
fn copy_bytes(src: &Vec<u8>) -> (r: Vec<u8>)
    ensures
        r@ == src@,
{
    let n = src.len();
    let mut out: Vec<u8> = Vec::new();
    let mut i: usize = 0;
    while i < n
        invariant
            n == src@.len(),
            0 <= i <= n,
            out@ =~= src@.subrange(0, i as int),
        decreases n - i,
    {
        out.push(src[i]);
        i = i + 1;
        proof {
            assert(out@ =~= src@.subrange(0, i as int));
        }
    }
    proof {
        assert(src@.subrange(0, n as int) =~= src@);
    }
    out
}

} // verus!
