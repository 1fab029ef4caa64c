//! Path-scene renderer: the vector document is parsed and rasterized by
//! the SVG library as an opaque capability, drawn at the whole-number
//! device scale; this module fixes the canvas size, converts the result
//! into the compositor's channel order and scales the hotspot, all in
//! verified code.

use vstd::prelude::*;

use crate::animator::lemma_div_below;
use crate::types::RenderedFrame;

verus! {

#[verifier::external_type_specification]
#[verifier::external_body]
pub struct ExSvgTree(usvg::Tree);

/// Whether the text parses as a vector document; a function of the text
/// alone.
pub uninterp spec fn svg_parse_ok(text: Seq<char>) -> bool;

/// The native integer size of a parsed scene tree: its intrinsic size
/// rounded to whole pixels, at least one in each direction.
pub uninterp spec fn svg_size_of(t: usvg::Tree) -> (int, int);

/// The scene rendered at a whole-number scale: premultiplied RGBA bytes
/// on a canvas of the native size times the scale; a function of the
/// tree and the scale alone.
pub uninterp spec fn svg_raster_of(t: usvg::Tree, scale: int) -> Seq<u8>;

/// Relies on `usvg::Tree::from_str` with default options: parses a
/// vector document into a scene tree.
#[verifier::external_body]
pub(crate) fn svg_tree_parse(text: &str) -> (r: Option<usvg::Tree>)
    ensures
        r is Some <==> svg_parse_ok(text@),
{
    usvg::Tree::from_str(text, &usvg::Options::default()).ok()
}

/// Relies on `usvg::Tree::size` and `tiny_skia::Size::to_int_size`: the
/// scene's intrinsic size rounded to whole pixels, each dimension at
/// least one.
#[verifier::external_body]
pub(crate) fn svg_native_size(tree: &usvg::Tree) -> (r: (u32, u32))
    ensures
        (r.0 as int, r.1 as int) == svg_size_of(*tree),
        1 <= r.0,
        1 <= r.1,
{
    let size = tree.size().to_int_size();
    (size.width(), size.height())
}

/// Relies on `tiny_skia::Pixmap` and `resvg::render` with a whole-number
/// scale transform: rasterizes the scene at the device scale into the
/// canvas the caller fixed (the native size times the scale), four
/// premultiplied RGBA bytes per pixel.  At the admitted sizes the pixel
/// buffer's checked size computation cannot fail, so a buffer is always
/// produced.
#[verifier::external_body]
pub(crate) fn svg_rasterize(tree: &usvg::Tree, width_px: u32, height_px: u32, scale: i32) -> (r:
    Vec<u8>)
    requires
        1 <= scale <= 4096,
        1 <= width_px <= 4096,
        1 <= height_px <= 4096,
        width_px as int == svg_size_of(*tree).0 * scale,
        height_px as int == svg_size_of(*tree).1 * scale,
    ensures
        r@ == svg_raster_of(*tree, scale as int),
        r@.len() == 4 * width_px * height_px,
{
    let factor = (scale as u16).into();
    let transform = resvg::tiny_skia::Transform::from_scale(factor, factor);
    let mut pixmap = resvg::tiny_skia::Pixmap::new(width_px, height_px).unwrap();
    resvg::render(tree, transform, &mut pixmap.as_mut());
    pixmap.take()
}

/// Why a vector document was rejected at construction.
#[derive(Debug, Clone, Copy, PartialEq, Eq, Structural)]
pub enum SvgError {
    Parse,
}

/// Why one frame could not be produced.
#[derive(Debug, Clone, Copy, PartialEq, Eq, Structural)]
pub enum SvgRenderError {
    BadScale,
    CanvasTooLarge,
}

/// The raster in the compositor's channel order: every pixel keeps its
/// place, its first and third channels exchanged.
pub open spec fn swizzle(src: Seq<u8>) -> Seq<u8> {
    Seq::new(
        src.len(),
        |i: int|
            {
                let p = i / 4;
                let c = i % 4;
                let sc = if c == 0 {
                    2int
                } else if c == 2 {
                    0int
                } else {
                    c
                };
                src[4 * p + sc]
            },
    )
}

/// Renderer for one path-scene cursor: the parsed scene tree, the
/// declared hotspot and the base size.
#[derive(Debug)]
pub struct SvgRenderer {
    pub cursor_id: String,
    pub tree: usvg::Tree,
    pub hotspot: Option<(i32, i32)>,
    pub base_size: u8,
}

impl SvgRenderer {
    /// Parses the vector document; fails exactly when the text is not a
    /// well-formed document.
    pub fn new(
        cursor_id: String,
        svg_data: String,
        hotspot: Option<(i32, i32)>,
        base_size: u8,
    ) -> (r: Result<SvgRenderer, SvgError>)
        ensures
            match r {
                Ok(s) => {
                    &&& svg_parse_ok(svg_data@)
                    &&& s.hotspot == hotspot
                    &&& s.base_size == base_size
                    &&& s.cursor_id == cursor_id
                },
                Err(_) => !svg_parse_ok(svg_data@),
            },
    {
        let tree = match svg_tree_parse(svg_data.as_str()) {
            Some(t) => t,
            None => {
                return Err(SvgError::Parse);
            },
        };
        Ok(SvgRenderer { cursor_id, tree, hotspot, base_size })
    }

    /// Renders the single static frame (the frame index is ignored): the
    /// scene drawn at the device scale onto a canvas of its native size
    /// times the scale, in the compositor's channel order, with the
    /// hotspot scaled alongside.  Succeeds exactly when the scale is
    /// accepted and the scaled canvas fits the cap.
    pub fn render_frame(&self, frame: u32, scale: i32) -> (r: Result<
        RenderedFrame,
        SvgRenderError,
    >)
        ensures
            (scale < 1 || scale > 4096) <==> r == Err::<RenderedFrame, SvgRenderError>(
                SvgRenderError::BadScale,
            ),
            (1 <= scale <= 4096 && (svg_size_of(self.tree).0 * scale > 4096 || svg_size_of(
                self.tree,
            ).1 * scale > 4096)) <==> r == Err::<RenderedFrame, SvgRenderError>(
                SvgRenderError::CanvasTooLarge,
            ),
            r matches Ok(f) ==> {
                let w = svg_size_of(self.tree).0;
                let h = svg_size_of(self.tree).1;
                &&& f.width == w * scale
                &&& f.height == h * scale
                &&& f.buffer@ == swizzle(svg_raster_of(self.tree, scale as int))
                &&& f.hotspot_x as int == crate::lottie::clamp_i32(
                    crate::lottie::hot_of(self.hotspot).0 * scale,
                )
                &&& f.hotspot_y as int == crate::lottie::clamp_i32(
                    crate::lottie::hot_of(self.hotspot).1 * scale,
                )
            },
    {
        let _ = frame;
        if scale < 1 || scale > 4096 {
            return Err(SvgRenderError::BadScale);
        }
        let (w, h) = svg_native_size(&self.tree);
        proof {
            assert(0 <= (w as int) * (scale as int) <= 0x7_0000_0000_0000) by (nonlinear_arith)
                requires
                    0 <= w as int <= 0xffff_ffff,
                    1 <= scale as int <= 4096,
            ;
            assert(0 <= (h as int) * (scale as int) <= 0x7_0000_0000_0000) by (nonlinear_arith)
                requires
                    0 <= h as int <= 0xffff_ffff,
                    1 <= scale as int <= 4096,
            ;
        }
        let ow: u64 = (w as u64) * (scale as u64);
        let oh: u64 = (h as u64) * (scale as u64);
        proof {
            assert(ow as int == svg_size_of(self.tree).0 * (scale as int));
            assert(oh as int == svg_size_of(self.tree).1 * (scale as int));
            assert(1 <= ow as int && 1 <= oh as int) by (nonlinear_arith)
                requires
                    1 <= w as int,
                    1 <= h as int,
                    1 <= scale as int,
                    ow as int == (w as int) * (scale as int),
                    oh as int == (h as int) * (scale as int),
            ;
        }
        if ow > 4096 || oh > 4096 {
            return Err(SvgRenderError::CanvasTooLarge);
        }
        let src = svg_rasterize(&self.tree, ow as u32, oh as u32, scale);
        let ghost sview = src@;
        let total = src.len();
        proof {
            assert(4 * ((ow as int) * (oh as int)) == 4 * (ow as int) * (oh as int))
                by (nonlinear_arith);
            assert(0 <= (ow as int) * (oh as int) <= 4096 * 4096) by (nonlinear_arith)
                requires
                    1 <= ow as int <= 4096,
                    1 <= oh as int <= 4096,
            ;
        }
        let mut out: Vec<u8> = Vec::new();
        let mut i: usize = 0;
        while i < total
            invariant
                sview == src@,
                total == sview.len(),
                sview.len() == 4 * ((ow as int) * (oh as int)),
                0 <= i <= total,
                out@ =~= swizzle(sview).subrange(0, i as int),
            decreases total - i,
        {
            let p = i / 4;
            let c = i % 4;
            proof {
                lemma_div_below(i as int, 4, (ow as int) * (oh as int));
            }
            let sc: usize = if c == 0 {
                2
            } else if c == 2 {
                0
            } else {
                c
            };
            let b = src[4 * p + sc];
            out.push(b);
            i = i + 1;
            proof {
                assert(out@ =~= swizzle(sview).subrange(0, i as int));
            }
        }
        proof {
            assert(out@ =~= swizzle(sview));
        }
        let (hx, hy) = match self.hotspot {
            Some(ph) => ph,
            None => (0, 0),
        };
        proof {
            assert(-0x800_0000_0000 <= (hx as int) * (scale as int) <= 0x800_0000_0000)
                by (nonlinear_arith)
                requires
                    -2147483648 <= hx as int <= 2147483647,
                    1 <= scale as int <= 4096,
            ;
            assert(-0x800_0000_0000 <= (hy as int) * (scale as int) <= 0x800_0000_0000)
                by (nonlinear_arith)
                requires
                    -2147483648 <= hy as int <= 2147483647,
                    1 <= scale as int <= 4096,
            ;
        }
        let hotspot_x = crate::lottie::clamp_i32_exec((hx as i64) * (scale as i64));
        let hotspot_y = crate::lottie::clamp_i32_exec((hy as i64) * (scale as i64));
        Ok(
            RenderedFrame {
                width: ow as u32,
                height: oh as u32,
                buffer: out,
                hotspot_x,
                hotspot_y,
            },
        )
    }

    /// Hotspot in logical pixels, the origin when undeclared.
    pub fn hotspot(&self) -> (r: (i32, i32))
        ensures
            r.0 as int == crate::lottie::hot_of(self.hotspot).0,
            r.1 as int == crate::lottie::hot_of(self.hotspot).1,
    {
        match self.hotspot {
            Some(p) => p,
            None => (0, 0),
        }
    }

    /// A path scene is a single static frame.
    pub fn total_frames(&self) -> (r: u32)
        ensures
            r == 1u32,
    {
        1
    }

    /// A static frame has no duration.
    pub fn frame_duration_ms(&self) -> (r: u32)
        ensures
            r == 0u32,
    {
        0
    }
}

} // verus!
