//! Per-cursor renderer store: lazily constructs one renderer per cursor
//! id from the theme configuration and caches it for the life of the
//! store.  The store does no file I/O itself: when a source file is
//! needed the caller is told which one, reads it, and calls again with
//! the contents.

use vstd::prelude::*;
use vstd::string::StringExecFns;

use crate::config::{CursorFormat, CursorThemeConfig};
use crate::lottie::LottieRenderer;
use crate::svg::SvgRenderer;
use crate::types::RenderedFrame;

verus! {

/// One constructed renderer: the closed set of the two backends.
#[derive(Debug)]
pub enum Renderer {
    Svg(SvgRenderer),
    Lottie(LottieRenderer),
}

/// Why the frame of a cached renderer could not be produced.
#[derive(Debug, Clone, Copy, PartialEq, Eq, Structural)]
pub enum VectorRenderError {
    BadScale,
    CanvasTooLarge,
}

/// Whether a renderer's scaled canvas fits the cap.
pub open spec fn canvas_fits(r: Renderer, scale: int) -> bool {
    match r {
        Renderer::Svg(s) => crate::svg::svg_size_of(s.tree).0 * scale <= 4096
            && crate::svg::svg_size_of(s.tree).1 * scale <= 4096,
        Renderer::Lottie(l) => crate::lottie::canvas_dim(l.width_micro as int, scale)
            <= 4096 && crate::lottie::canvas_dim(l.height_micro as int, scale) <= 4096,
    }
}

/// Exactly when rendering a frame of this renderer succeeds: an accepted
/// scale and a fitting canvas.
pub open spec fn render_succeeds(r: Renderer, scale: int) -> bool {
    1 <= scale <= 4096 && canvas_fits(r, scale)
}

/// The frame a renderer produces at a scale: dimensions, pixel content
/// and hotspot as each backend's own contract fixes them.
pub open spec fn rendered_frame_ok(r: Renderer, scale: int, f: RenderedFrame) -> bool {
    match r {
        Renderer::Svg(s) => {
            let w = crate::svg::svg_size_of(s.tree).0;
            let h = crate::svg::svg_size_of(s.tree).1;
            &&& f.width == w * scale
            &&& f.height == h * scale
            &&& f.buffer@ == crate::svg::swizzle(crate::svg::svg_raster_of(s.tree, scale))
            &&& f.hotspot_x as int == crate::lottie::clamp_i32(
                crate::lottie::hot_of(s.hotspot).0 * scale,
            )
            &&& f.hotspot_y as int == crate::lottie::clamp_i32(
                crate::lottie::hot_of(s.hotspot).1 * scale,
            )
        },
        Renderer::Lottie(l) => {
            let w = crate::lottie::canvas_dim(l.width_micro as int, scale);
            let h = crate::lottie::canvas_dim(l.height_micro as int, scale);
            &&& f.width == w
            &&& f.height == h
            &&& f.buffer@ == crate::lottie::prims_pass(
                Seq::new((4 * w * h) as nat, |i: int| 0u8),
                crate::lottie::prims_view(l.primitives@),
                w,
                h,
                scale,
            )
            &&& f.hotspot_x as int == crate::lottie::clamp_i32(
                crate::lottie::hot_of(l.hotspot).0 * scale,
            )
            &&& f.hotspot_y as int == crate::lottie::clamp_i32(
                crate::lottie::hot_of(l.hotspot).1 * scale,
            )
        },
    }
}

impl Renderer {
    /// Renders one frame through whichever backend the renderer is.
    /// Success is owed exactly on [`render_succeeds`], and the frame is
    /// then fixed by [`rendered_frame_ok`].
    pub fn render_frame(&self, frame: u32, scale: i32) -> (r: Result<
        RenderedFrame,
        VectorRenderError,
    >)
        ensures
            render_succeeds(*self, scale as int) <==> r is Ok,
            r matches Ok(f) ==> rendered_frame_ok(*self, scale as int, f),
            (scale < 1 || scale > 4096) <==> r == Err::<RenderedFrame, VectorRenderError>(
                VectorRenderError::BadScale,
            ),
            (1 <= scale <= 4096 && !canvas_fits(*self, scale as int)) <==> r == Err::<
                RenderedFrame,
                VectorRenderError,
            >(VectorRenderError::CanvasTooLarge),
    {
        match self {
            Renderer::Svg(s) => match s.render_frame(frame, scale) {
                Ok(f) => Ok(f),
                Err(crate::svg::SvgRenderError::BadScale) => Err(VectorRenderError::BadScale),
                Err(crate::svg::SvgRenderError::CanvasTooLarge) => Err(
                    VectorRenderError::CanvasTooLarge,
                ),
            },
            Renderer::Lottie(l) => match l.render_frame(frame, scale) {
                Ok(f) => Ok(f),
                Err(crate::lottie::RenderError::BadScale) => Err(VectorRenderError::BadScale),
                Err(crate::lottie::RenderError::CanvasTooLarge) => Err(
                    VectorRenderError::CanvasTooLarge,
                ),
            },
        }
    }

    /// Hotspot in logical pixels.
    pub fn hotspot(&self) -> (r: (i32, i32))
        ensures
            self matches Renderer::Svg(s) ==> (
                r.0 as int,
                r.1 as int,
            ) == crate::lottie::hot_of(s.hotspot),
            self matches Renderer::Lottie(l) ==> (
                r.0 as int,
                r.1 as int,
            ) == crate::lottie::hot_of(l.hotspot),
    {
        match self {
            Renderer::Svg(s) => s.hotspot(),
            Renderer::Lottie(l) => l.hotspot(),
        }
    }

    /// Total frame count: one for a static path scene, the document's
    /// out-point for a keyframed composition.
    pub fn total_frames(&self) -> (r: u32)
        ensures
            self matches Renderer::Svg(_) ==> r == 1u32,
            self matches Renderer::Lottie(l) ==> r == l.total_frames,
    {
        match self {
            Renderer::Svg(s) => s.total_frames(),
            Renderer::Lottie(l) => l.total_frames(),
        }
    }

    /// Duration of one frame in milliseconds, zero for a static scene.
    pub fn frame_duration_ms(&self) -> (r: u32)
        ensures
            self matches Renderer::Svg(_) ==> r == 0u32,
            self matches Renderer::Lottie(l) ==> {
                &&& l.frame_rate_micro > 0 ==> r as int == 1000000000int / (
                    l.frame_rate_micro as int
                )
                &&& l.frame_rate_micro <= 0 ==> r == 16u32
            },
    {
        match self {
            Renderer::Svg(s) => s.frame_duration_ms(),
            Renderer::Lottie(l) => l.frame_duration_ms(),
        }
    }
}

/// Why a renderer lookup failed.
#[derive(Debug)]
pub enum StoreError {
    /// The theme does not define the cursor id.
    NotFound,
    /// The renderer is not cached yet and no source text was supplied;
    /// `file` names the source file, relative to the theme directory.
    NeedsSource { file: String },
    /// The supplied source text could not be parsed.
    Parse,
}

/// Index of the first cache entry for `id`, `-1` when none is cached.
pub open spec fn cache_index(s: Seq<(String, Renderer)>, id: Seq<char>) -> int
    decreases s.len(),
{
    if s.len() == 0 {
        -1
    } else if s[0].0@ == id {
        0
    } else {
        let t = cache_index(s.drop_first(), id);
        if t < 0 {
            -1
        } else {
            1 + t
        }
    }
}

/// Store owning the theme configuration and one cached renderer per
/// cursor id, keyed by id, in construction order.
#[derive(Debug)]
pub struct VectorCursorStore {
    pub base_path: String,
    pub config: CursorThemeConfig,
    pub renderers: Vec<(String, Renderer)>,
    pub base_size: u8,
}

/// How `get_renderer` answers and changes the store: a cached id is
/// answered from the cache without change; an id the theme does not
/// define fails with `NotFound`; a defined, uncached id without source
/// text asks for the definition's file; with source text the renderer is
/// constructed by the definition's format and appended to the cache, or
/// `Parse` is returned and nothing changes.
pub open spec fn get_renderer_rel(
    pre: VectorCursorStore,
    id: Seq<char>,
    source: Option<Seq<char>>,
    post: VectorCursorStore,
    r: Result<usize, StoreError>,
) -> bool {
    let hit = cache_index(pre.renderers@, id);
    if hit >= 0 {
        &&& post == pre
        &&& r matches Ok(h) && h == hit
    } else {
        match pre.config.spec_cursor(id) {
            None => {
                &&& post == pre
                &&& r matches Err(e) && e is NotFound
            },
            Some(def) => match source {
                None => {
                    &&& post == pre
                    &&& r matches Err(e) && (e matches StoreError::NeedsSource { file }
                        && file@ == def.file@)
                },
                Some(text) => {
                    let ok = if def.format == CursorFormat::Svg {
                        crate::svg::svg_parse_ok(text)
                    } else {
                        crate::json::json_doc(text) is Some
                    };
                    if ok {
                        &&& post.base_path == pre.base_path
                        &&& post.config == pre.config
                        &&& post.base_size == pre.base_size
                        &&& post.renderers@.len() == pre.renderers@.len() + 1
                        &&& post.renderers@.subrange(
                            0,
                            pre.renderers@.len() as int,
                        ) == pre.renderers@
                        &&& post.renderers@.last().0@ == id
                        &&& (def.format == CursorFormat::Svg ==> (
                        match post.renderers@.last().1 {
                            Renderer::Svg(sr) => {
                                &&& sr.cursor_id@ == id
                                &&& sr.hotspot == def.hotspot
                                &&& sr.base_size == pre.base_size
                            },
                            _ => false,
                        }))
                        &&& (def.format == CursorFormat::Lottie ==> (
                        match (post.renderers@.last().1, crate::json::json_doc(text)) {
                            (Renderer::Lottie(l), Some(j)) => {
                                &&& l.cursor_id@ == id
                                &&& l.hotspot == def.hotspot
                                &&& l.base_size == pre.base_size
                                &&& l.width_micro as int == crate::lottie::field_micro_or(
                                    j,
                                    "w"@,
                                    24000000,
                                )
                                &&& l.height_micro as int == crate::lottie::field_micro_or(
                                    j,
                                    "h"@,
                                    24000000,
                                )
                                &&& l.frame_rate_micro as int
                                    == crate::lottie::field_micro_or(j, "fr"@, 60000000)
                                &&& l.total_frames == crate::lottie::frames_from_op(
                                    crate::lottie::field_micro_or(j, "op"@, 0),
                                )
                                &&& crate::lottie::prims_view(l.primitives@)
                                    == crate::lottie::doc_prims(j)
                            },
                            _ => false,
                        }))
                        &&& r matches Ok(h) && h == pre.renderers@.len()
                    } else {
                        &&& post == pre
                        &&& r matches Err(e) && e is Parse
                    }
                },
            },
        }
    }
}

impl VectorCursorStore {
    /// Creates an empty store over the given theme directory and
    /// configuration.
    pub fn new(base_path: String, config: CursorThemeConfig, base_size: u8) -> (r:
        VectorCursorStore)
        ensures
            r.base_path == base_path,
            r.config == config,
            r.base_size == base_size,
            r.renderers@.len() == 0,
    {
        VectorCursorStore { base_path, config, renderers: Vec::new(), base_size }
    }

    /// Looks the cursor's renderer up, constructing and caching it from
    /// the supplied source text on the first request; see
    /// [`get_renderer_rel`].  A second request for a cached id returns
    /// the same handle and changes nothing.
    pub fn get_renderer(&mut self, cursor_id: &str, source: Option<&str>) -> (r: Result<
        usize,
        StoreError,
    >)
        ensures
            get_renderer_rel(
                *old(self),
                cursor_id@,
                match source {
                    Some(t) => Some(t@),
                    None => None,
                },
                *final(self),
                r,
            ),
            r matches Ok(h) ==> h < final(self).renderers@.len() && cache_index(
                final(self).renderers@,
                cursor_id@,
            ) == h && final(self).renderers@[h as int].0@ == cursor_id@,
    {
        let n = self.renderers.len();
        let needle = cursor_id.to_owned();
        let mut i: usize = 0;
        proof {
            assert(self.renderers@.subrange(0, n as int) =~= self.renderers@);
        }
        while i < n
            invariant
                n == self.renderers@.len(),
                needle@ == cursor_id@,
                0 <= i <= n,
                cache_index(self.renderers@, cursor_id@) == (if cache_index(
                    self.renderers@.subrange(i as int, n as int),
                    cursor_id@,
                ) < 0 {
                    -1int
                } else {
                    i + cache_index(self.renderers@.subrange(i as int, n as int), cursor_id@)
                }),
                forall|j: int| 0 <= j < i ==> (#[trigger] self.renderers@[j]).0@
                    != cursor_id@,
            decreases n - i,
        {
            proof {
                let tail = self.renderers@.subrange(i as int, n as int);
                assert(tail[0] == self.renderers@[i as int]);
                assert(tail.drop_first() =~= self.renderers@.subrange(i + 1, n as int));
            }
            if self.renderers[i].0 == needle {
                return Ok(i);
            }
            i = i + 1;
        }
        proof {
            assert(self.renderers@.subrange(n as int, n as int) =~= Seq::<
                (String, Renderer),
            >::empty());
            assert(cache_index(self.renderers@, cursor_id@) < 0);
        }
        let def = match self.config.get_cursor(cursor_id) {
            Some(d) => d,
            None => {
                return Err(StoreError::NotFound);
            },
        };
        let format = def.format;
        let file = def.file.clone();
        let hotspot = def.hotspot;
        let text = match source {
            Some(t) => t,
            None => {
                return Err(StoreError::NeedsSource { file });
            },
        };
        let built: Renderer = match format {
            CursorFormat::Svg => {
                match SvgRenderer::new(
                    cursor_id.to_owned(),
                    text.to_owned(),
                    hotspot,
                    self.base_size,
                ) {
                    Ok(s) => Renderer::Svg(s),
                    Err(_) => {
                        return Err(StoreError::Parse);
                    },
                }
            },
            CursorFormat::Lottie => {
                match LottieRenderer::new(
                    cursor_id.to_owned(),
                    text.to_owned(),
                    hotspot,
                    self.base_size,
                ) {
                    Ok(l) => Renderer::Lottie(l),
                    Err(_) => {
                        return Err(StoreError::Parse);
                    },
                }
            },
        };
        let ghost pre = self.renderers@;
        self.renderers.push((cursor_id.to_owned(), built));
        proof {
            assert(self.renderers@.subrange(0, pre.len() as int) =~= pre);
            lemma_cache_index_append(pre, self.renderers@, cursor_id@);
        }
        Ok(n)
    }

    /// The cached renderer a handle refers to.
    pub fn renderer(&self, h: usize) -> (r: &Renderer)
        requires
            h < self.renderers@.len(),
        ensures
            *r == self.renderers@[h as int].1,
    {
        &self.renderers[h].1
    }

    /// Base (unscaled) cursor size of the theme.
    pub fn get_base_size(&self) -> (r: u8)
        ensures
            r == self.base_size,
    {
        self.base_size
    }

    /// The theme configuration the store was built over.
    pub fn get_config(&self) -> (r: &CursorThemeConfig)
        ensures
            *r == self.config,
    {
        &self.config
    }
}

proof fn lemma_cache_index_append(pre: Seq<(String, Renderer)>, post: Seq<(String, Renderer)>, id: Seq<char>)
    requires
        cache_index(pre, id) < 0,
        post.len() == pre.len() + 1,
        post.subrange(0, pre.len() as int) == pre,
        post.last().0@ == id,
    ensures
        cache_index(post, id) == pre.len(),
    decreases pre.len(),
{
    if pre.len() == 0 {
        assert(post[0] == post.last());
    } else {
        assert(post[0] == pre[0]);
        assert(pre[0].0@ != id);
        assert(pre.drop_first() =~= pre.subrange(1, pre.len() as int));
        assert(post.drop_first().subrange(0, pre.drop_first().len() as int) =~= pre.drop_first()) by {
            assert(forall|j: int| 0 <= j < pre.len() - 1 ==> post.drop_first()[j]
                == #[trigger] pre.drop_first()[j]);
        }
        assert(post.drop_first().last() == post.last());
        lemma_cache_index_append(pre.drop_first(), post.drop_first(), id);
    }
}

/// A renderer handle, once issued, stays valid and stable: a second
/// lookup of the same id, with or without source text, answers from the
/// cache with the same handle and changes the store in no way.
pub proof fn lemma_get_renderer_cached_twice(
    pre: VectorCursorStore,
    mid: VectorCursorStore,
    post: VectorCursorStore,
    id: Seq<char>,
    src1: Option<Seq<char>>,
    src2: Option<Seq<char>>,
    r1: Result<usize, StoreError>,
    r2: Result<usize, StoreError>,
    h: usize,
)
    requires
        get_renderer_rel(pre, id, src1, mid, r1),
        r1 matches Ok(h1) && h1 == h,
        cache_index(mid.renderers@, id) == h,
        get_renderer_rel(mid, id, src2, post, r2),
    ensures
        post == mid,
        r2 matches Ok(h2) && h2 == h,
{
}

} // verus!
