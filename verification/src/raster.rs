//! Legacy raster cursor support: bitmap frame sequences decoded from
//! Xcursor-format icon files, frame selection by elapsed time, and the
//! built-in fallback glyph that guarantees the default cursor always
//! resolves.

use vstd::prelude::*;

verus! {

/// One decoded raster frame: nominal size, actual dimensions, hotspot,
/// per-frame delay in milliseconds and the RGBA pixel bytes.
#[derive(Debug, Clone)]
pub struct CursorImage {
    pub size: u32,
    pub width: u32,
    pub height: u32,
    pub xhot: u32,
    pub yhot: u32,
    pub delay: u32,
    pub pixels_rgba: Vec<u8>,
}

/// What `xcursor`'s file parser decodes a cursor file into, frame fields
/// carried over one for one; a function of the file bytes alone.
pub uninterp spec fn xcursor_frames_of(content: Seq<u8>) -> Option<Seq<CursorImage>>;

/// Relies on `xcursor::parser::parse_xcursor`: decodes an Xcursor file
/// into its image frames; `None` when the bytes are not a cursor file.
#[verifier::external_body]
pub(crate) fn parse_xcursor_bytes(content: &[u8]) -> (r: Option<Vec<CursorImage>>)
    ensures
        match r {
            Some(v) => xcursor_frames_of(content@) == Some(v@),
            None => xcursor_frames_of(content@) is None,
        },
{
    let convert = |i: xcursor::parser::Image| CursorImage {
        size: i.size, width: i.width, height: i.height,
        xhot: i.xhot, yhot: i.yhot, delay: i.delay,
        pixels_rgba: i.pixels_rgba,
    };
    xcursor::parser::parse_xcursor(content).map(|images| images.into_iter().map(convert).collect())
}

/// Total duration of a frame sequence: the sum of the per-frame delays.
pub open spec fn sum_delays(s: Seq<CursorImage>) -> int
    decreases s.len(),
{
    if s.len() == 0 {
        0
    } else {
        s[0].delay + sum_delays(s.drop_first())
    }
}

/// Index of the frame shown `millis` into one animation period: walk the
/// frames in order, consuming each frame's delay, until the remaining
/// time falls inside a frame.
pub open spec fn frame_walk(s: Seq<CursorImage>, millis: int) -> int
    decreases s.len(),
{
    if s.len() == 0 {
        0
    } else if millis < s[0].delay {
        0
    } else {
        1 + frame_walk(s.drop_first(), millis - s[0].delay)
    }
}

proof fn lemma_frame_walk_in_range(s: Seq<CursorImage>, millis: int)
    requires
        0 <= millis < sum_delays(s),
    ensures
        0 <= frame_walk(s, millis) < s.len(),
    decreases s.len(),
{
    if s.len() == 0 {
    } else if millis < s[0].delay {
    } else {
        lemma_frame_walk_in_range(s.drop_first(), millis - s[0].delay);
    }
}

/// An ordered raster frame sequence together with its total animation
/// duration.
#[derive(Debug)]
pub struct XCursor {
    pub images: Vec<CursorImage>,
    pub animation_duration: u32,
}

impl XCursor {
    /// At least one frame, and the stored duration is the sum of the
    /// frame delays.
    pub open spec fn wf(self) -> bool {
        &&& self.images@.len() >= 1
        &&& self.animation_duration == sum_delays(self.images@)
    }

    /// Frame index shown at `millis`: always frame zero when the total
    /// duration is zero, otherwise the walking position of
    /// `millis mod total`.
    pub open spec fn spec_frame_index(self, millis: int) -> int {
        if self.animation_duration == 0 {
            0
        } else {
            frame_walk(self.images@, millis % (self.animation_duration as int))
        }
    }

    /// Wraps a non-empty frame sequence, computing its total duration;
    /// `None` when the sequence is empty or its delays overflow the
    /// duration counter.
    pub fn new(images: Vec<CursorImage>) -> (r: Option<XCursor>)
        ensures
            match r {
                Some(c) => {
                    &&& c.wf()
                    &&& c.images == images
                },
                None => images@.len() == 0 || sum_delays(images@) > u32::MAX,
            },
    {
        if images.len() == 0 {
            return None;
        }
        let mut total: u64 = 0;
        let n = images.len();
        proof {
            assert(images@.subrange(0, 0) =~= Seq::<CursorImage>::empty());
        }
        let mut i: usize = 0;
        while i < n
            invariant
                n == images@.len(),
                0 <= i <= n,
                total <= sum_delays(images@.subrange(0, i as int)),
                total == sum_delays(images@.subrange(0, i as int)) || total == u64::MAX,
            decreases n - i,
        {
            proof {
                lemma_sum_delays_snoc(images@, i as int);
            }
            total = total.saturating_add(images[i].delay as u64);
            i = i + 1;
        }
        proof {
            assert(images@.subrange(0, n as int) =~= images@);
        }
        if total > 0xffff_ffff {
            return None;
        }
        Some(XCursor { images, animation_duration: total as u32 })
    }

    /// Given a time, the frame to show.  Time wraps: an animation lasting
    /// 100 ms shows the same frame at 5 ms and at 105 ms.
    pub fn frame(&self, millis: u32) -> (r: (usize, &CursorImage))
        requires
            self.wf(),
        ensures
            r.0 == self.spec_frame_index(millis as int),
            *r.1 == self.images@[r.0 as int],
    {
        if self.animation_duration == 0 {
            return (0, &self.images[0]);
        }
        let mut rest = millis % self.animation_duration;
        let ghost m0 = (millis as int) % (self.animation_duration as int);
        let n = self.images.len();
        proof {
            vstd::arithmetic::div_mod::lemma_mod_bound(
                millis as int,
                self.animation_duration as int,
            );
            assert(rest as int == m0);
            assert(self.images@.subrange(0, n as int) =~= self.images@);
            lemma_frame_walk_in_range(self.images@, m0);
        }
        let mut i: usize = 0;
        while i < n
            invariant
                self.wf(),
                self.animation_duration != 0,
                m0 == (millis as int) % (self.animation_duration as int),
                n == self.images@.len(),
                0 <= i <= n,
                0 <= rest,
                rest < sum_delays(self.images@.subrange(i as int, n as int)),
                frame_walk(self.images@, m0) == i + frame_walk(
                    self.images@.subrange(i as int, n as int),
                    rest as int,
                ),
            decreases n - i,
        {
            proof {
                lemma_tail_subrange(self.images@, i as int);
            }
            if rest < self.images[i].delay {
                return (i, &self.images[i]);
            }
            rest = rest - self.images[i].delay;
            i = i + 1;
        }
        proof {
            assert(self.images@.subrange(n as int, n as int) =~= Seq::<CursorImage>::empty());
            assert(false);
        }
        (0, &self.images[0])
    }

    /// The frames of the sequence.
    pub fn frames(&self) -> (r: &Vec<CursorImage>)
        ensures
            r == &self.images,
    {
        &self.images
    }

    /// Whether the cursor animates, that is, has more than one frame.
    pub fn is_animated_cursor(&self) -> (r: bool)
        ensures
            r == (self.images@.len() > 1),
    {
        self.images.len() > 1
    }

    /// Hotspot of one frame in device pixels.
    pub fn hotspot(image: &CursorImage) -> (r: (i32, i32))
        requires
            image.xhot <= i32::MAX,
            image.yhot <= i32::MAX,
        ensures
            r.0 == image.xhot as i32,
            r.1 == image.yhot as i32,
    {
        (image.xhot as i32, image.yhot as i32)
    }
}

proof fn lemma_sum_delays_snoc(s: Seq<CursorImage>, i: int)
    requires
        0 <= i < s.len(),
    ensures
        sum_delays(s.subrange(0, i + 1)) == sum_delays(s.subrange(0, i)) + s[i].delay,
    decreases i,
{
    let a = s.subrange(0, i + 1);
    let b = s.subrange(0, i);
    assert(a[0] == s[0]);
    if i == 0 {
        assert(a.drop_first() =~= Seq::<CursorImage>::empty());
        assert(b =~= Seq::<CursorImage>::empty());
    } else {
        assert(b[0] == s[0]);
        assert(a.drop_first() =~= s.subrange(1, s.len() as int).subrange(0, i));
        assert(b.drop_first() =~= s.subrange(1, s.len() as int).subrange(0, i - 1));
        lemma_sum_delays_snoc(s.subrange(1, s.len() as int), i - 1);
        assert(s.subrange(1, s.len() as int)[i - 1] == s[i]);
    }
}

proof fn lemma_tail_subrange(s: Seq<CursorImage>, i: int)
    requires
        0 <= i < s.len(),
    ensures
        s.subrange(i, s.len() as int).drop_first() =~= s.subrange(i + 1, s.len() as int),
        s.subrange(i, s.len() as int)[0] == s[i],
{
}

/// `frame` is periodic: for every `m`, the frame shown at `m` equals the
/// frame shown one whole animation later, and a cursor whose total
/// duration is zero always shows frame zero.
pub proof fn lemma_frame_periodic(x: XCursor, m: int)
    requires
        x.wf(),
        m >= 0,
    ensures
        x.spec_frame_index(m) == x.spec_frame_index(m + x.animation_duration),
        x.animation_duration == 0 ==> x.spec_frame_index(m) == 0,
{
    if x.animation_duration != 0 {
        let t = x.animation_duration as int;
        vstd::arithmetic::div_mod::lemma_mod_add_multiples_vanish(m, t);
        assert((m + t) % t == m % t);
    }
}

/// Absolute difference between the asked-for size and a frame's nominal
/// size.
pub open spec fn size_diff(target: int, img: CursorImage) -> int {
    let d = target - img.size;
    if d < 0 {
        -d
    } else {
        d
    }
}

/// Index of the first frame whose nominal size is closest to `target`.
pub open spec fn best_size_index(s: Seq<CursorImage>, target: int) -> int
    decreases s.len(),
{
    if s.len() <= 1 {
        0
    } else {
        let b = best_size_index(s.drop_last(), target);
        if size_diff(target, s.last()) < size_diff(target, s[b]) {
            s.len() - 1
        } else {
            b
        }
    }
}

proof fn lemma_best_size_index_in_range(s: Seq<CursorImage>, target: int)
    requires
        s.len() >= 1,
    ensures
        0 <= best_size_index(s, target) < s.len(),
    decreases s.len(),
{
    if s.len() > 1 {
        lemma_best_size_index_in_range(s.drop_last(), target);
    }
}

/// The frames of `s` whose actual dimensions are exactly `w` by `h`, in
/// order.
pub open spec fn matching_frames(s: Seq<CursorImage>, w: int, h: int) -> Seq<CursorImage>
    decreases s.len(),
{
    if s.len() == 0 {
        Seq::empty()
    } else {
        let rest = matching_frames(s.drop_last(), w, h);
        if s.last().width == w && s.last().height == h {
            rest.push(s.last())
        } else {
            rest
        }
    }
}

proof fn lemma_matching_nonempty(s: Seq<CursorImage>, w: int, h: int, i: int)
    requires
        0 <= i < s.len(),
        s[i].width == w,
        s[i].height == h,
    ensures
        matching_frames(s, w, h).len() >= 1,
    decreases s.len(),
{
    if i < s.len() - 1 {
        lemma_matching_nonempty(s.drop_last(), w, h, i);
    }
}

/// The dimensions shared by the frames this selection keeps: those of the
/// first frame whose nominal size is closest to `target`.
pub open spec fn selected_dims(s: Seq<CursorImage>, target: int) -> (int, int) {
    let b = best_size_index(s, target);
    (s[b].width as int, s[b].height as int)
}

/// Picks the closest frame set for the asked-for `size`: the frame whose
/// nominal size is nearest (first wins on ties) fixes the dimensions, and
/// every frame with those exact dimensions is kept, in order.  `None` when
/// there are no frames at all or the kept delays overflow the duration
/// counter.
pub fn select_cursor_frames(images: Vec<CursorImage>, size: i32) -> (r: Option<XCursor>)
    ensures
        match r {
            Some(c) => {
                &&& images@.len() >= 1
                &&& c.wf()
                &&& c.images@ == matching_frames(
                    images@,
                    selected_dims(images@, size as int).0,
                    selected_dims(images@, size as int).1,
                )
            },
            None => images@.len() == 0 || sum_delays(
                matching_frames(
                    images@,
                    selected_dims(images@, size as int).0,
                    selected_dims(images@, size as int).1,
                ),
            ) > u32::MAX,
        },
{
    let n = images.len();
    if n == 0 {
        return None;
    }
    let ghost all = images@;
    let mut best: usize = 0;
    let mut i: usize = 1;
    proof {
        assert(all.subrange(0, 1) =~= all.subrange(0, 1));
        assert(best_size_index(all.subrange(0, 1), size as int) == 0);
    }
    while i < n
        invariant
            n == all.len(),
            images@ == all,
            1 <= i <= n,
            0 <= best < i,
            best == best_size_index(all.subrange(0, i as int), size as int),
        decreases n - i,
    {
        proof {
            let pre = all.subrange(0, i as int);
            let post = all.subrange(0, i + 1);
            assert(post.drop_last() =~= pre);
            assert(post.last() == all[i as int]);
        }
        let da = abs_diff_i64(size as i64, images[i].size as i64);
        let db = abs_diff_i64(size as i64, images[best].size as i64);
        if da < db {
            best = i;
        }
        i = i + 1;
    }
    proof {
        assert(all.subrange(0, n as int) =~= all);
    }
    let w = images[best].width;
    let h = images[best].height;
    let ghost bspec = best_size_index(all, size as int);
    let mut rest = images;
    let mut keep: Vec<CursorImage> = Vec::new();
    let mut j: usize = 0;
    proof {
        assert(all.subrange(0, 0) =~= Seq::<CursorImage>::empty());
        assert(rest@.subrange(0, n as int) =~= all);
    }
    while rest.len() > 0
        invariant
            n == all.len(),
            0 <= j <= n,
            rest@ =~= all.subrange(j as int, n as int),
            keep@ == matching_frames(all.subrange(0, j as int), w as int, h as int),
            rest@.len() == n - j,
        decreases rest@.len(),
    {
        proof {
            let pre = all.subrange(0, j as int);
            let post = all.subrange(0, j + 1);
            assert(post.drop_last() =~= pre);
            assert(post.last() == all[j as int]);
            assert(rest@[0] == all[j as int]);
        }
        let img = rest.remove(0);
        if img.width == w && img.height == h {
            keep.push(img);
        }
        j = j + 1;
        proof {
            assert(rest@ =~= all.subrange(j as int, n as int));
        }
    }
    proof {
        assert(all.subrange(0, n as int) =~= all);
        lemma_best_size_index_in_range(all, size as int);
        lemma_matching_nonempty(all, w as int, h as int, bspec);
    }
    XCursor::new(keep)
}

/// Exact absolute difference of two sizes, computed without overflow.
fn abs_diff_i64(a: i64, b: i64) -> (r: i64)
    requires
        -0x7fff_ffff_ffff_ffff <= a - b <= 0x7fff_ffff_ffff_ffff,
    ensures
        r == if a - b < 0 {
            -(a - b)
        } else {
            a - b
        },
{
    if a < b {
        b - a
    } else {
        a - b
    }
}

/// One byte of the built-in fallback glyph's pixel buffer: a solid wedge
/// pointing at the hotspot, white and opaque inside, transparent outside.
pub open spec fn fallback_byte(i: int) -> u8 {
    let p = i / 4;
    let x = p % 64;
    let y = p / 64;
    if x <= y && x + y < 48 {
        255
    } else {
        0
    }
}

/// The guaranteed built-in cursor: a single static 64 by 64 frame with
/// hotspot (1, 1), used when the default icon cannot be resolved any
/// other way.
pub fn fallback_cursor() -> (r: XCursor)
    ensures
        r.wf(),
        r.images@.len() == 1,
        r.images@[0].size == 32,
        r.images@[0].width == 64,
        r.images@[0].height == 64,
        r.images@[0].xhot == 1,
        r.images@[0].yhot == 1,
        r.images@[0].delay == 0,
        r.animation_duration == 0,
        r.images@[0].pixels_rgba@ == Seq::new(16384, |i: int| fallback_byte(i)),
{
    let mut pixels: Vec<u8> = Vec::new();
    let mut i: usize = 0;
    while i < 16384
        invariant
            0 <= i <= 16384,
            pixels@ =~= Seq::new(i as nat, |j: int| fallback_byte(j)),
        decreases 16384 - i,
    {
        let p = i / 4;
        let x = p % 64;
        let y = p / 64;
        let b: u8 = if x <= y && x + y < 48 {
            255
        } else {
            0
        };
        pixels.push(b);
        i = i + 1;
        proof {
            assert(pixels@ =~= Seq::new(i as nat, |j: int| fallback_byte(j)));
        }
    }
    let img = CursorImage {
        size: 32,
        width: 64,
        height: 64,
        xhot: 1,
        yhot: 1,
        delay: 0,
        pixels_rgba: pixels,
    };
    let mut images: Vec<CursorImage> = Vec::new();
    images.push(img);
    proof {
        assert(images@.drop_first() =~= Seq::<CursorImage>::empty());
        assert(sum_delays(Seq::<CursorImage>::empty()) == 0);
        assert(images@[0].delay == 0);
    }
    XCursor { images, animation_duration: 0 }
}

} // verus!
