//! Keyframed-composition renderer: parses a JSON animation document once
//! at construction into simplified path primitives, and rasterizes them
//! with a hand-rolled integer scan converter.
//!
//! Coordinates, colors and rates are carried in exact fixed-point
//! millionths read from the document's decimal text, so extraction and
//! rasterization are fully verified integer computations.

use vstd::prelude::*;
use vstd::string::StringExecFns;

use crate::animator::lemma_div_at_most;
use crate::types::RenderedFrame;
use crate::json::{
    decimal_to_micro, jnode, json_as_array, json_as_str, json_doc, json_get,
    json_number_chars, json_parse, num_micro_or, obj_field, Jn,
};

verus! {

/// One simplified path primitive: four raw vertices in millionths of a
/// logical pixel, a fixed two-triangle index list, and the fill and
/// stroke set by later items of the same shape group.
#[derive(Debug)]
pub struct RenderPrimitive {
    pub vertices: Vec<(i64, i64)>,
    pub indices: Vec<u16>,
    pub fill: Option<(u8, u8, u8, u8)>,
    pub stroke: Option<(i64, (u8, u8, u8, u8))>,
}

/// Mathematical model of a primitive, coordinates as unbounded integers.
pub struct PrimModel {
    pub vertices: Seq<(int, int)>,
    pub indices: Seq<u16>,
    pub fill: Option<(u8, u8, u8, u8)>,
    pub stroke: Option<(int, (u8, u8, u8, u8))>,
}

impl View for RenderPrimitive {
    type V = PrimModel;

    open spec fn view(&self) -> PrimModel {
        PrimModel {
            vertices: self.vertices@.map_values(|p: (i64, i64)| (p.0 as int, p.1 as int)),
            indices: self.indices@,
            fill: self.fill,
            stroke: match self.stroke {
                Some((w, c)) => Some((w as int, c)),
                None => None,
            },
        }
    }
}

/// The models of a sequence of primitives.
pub open spec fn prims_view(s: Seq<RenderPrimitive>) -> Seq<PrimModel> {
    s.map_values(|p: RenderPrimitive| p@)
}

/// Millionths of an optional field, with a default for an absent field or
/// one that is not a plain decimal number.  A number whose normalized
/// decimal text uses exponent notation or more than twelve integer
/// digits also reads as absent: such magnitudes are far outside any
/// cursor geometry.
pub open spec fn field_micro_or(j: Jn, key: Seq<char>, default: int) -> int {
    match obj_field(j, key) {
        Some(f) => num_micro_or(f, default),
        None => default,
    }
}

/// Coordinate `i` of a shape-path value list; zero when absent or not a
/// number.
pub open spec fn coord_at(kv: Seq<Jn>, i: int) -> int {
    if 0 <= i < kv.len() {
        num_micro_or(kv[i], 0)
    } else {
        0
    }
}

/// A color channel value in millionths turned into a byte: scaled by 255
/// and saturated.
pub open spec fn channel_byte(v: int) -> u8 {
    let vc = if v < 0 {
        0
    } else if v > 1000000 {
        1000000
    } else {
        v
    };
    ((vc * 255) / 1000000) as u8
}

/// RGBA color of a `c` component list: present and at least four entries
/// long, each channel read as a number with default zero, alpha default
/// one.
pub open spec fn color_from(c: Jn) -> Option<(u8, u8, u8, u8)> {
    match c {
        Jn::Arr(comps) => if comps.len() >= 4 {
            Some(
                (
                    channel_byte(num_micro_or(comps[0], 0)),
                    channel_byte(num_micro_or(comps[1], 0)),
                    channel_byte(num_micro_or(comps[2], 0)),
                    channel_byte(num_micro_or(comps[3], 1000000)),
                ),
            )
        } else {
            None
        },
        _ => None,
    }
}

/// The string tag of an item's `ty` field, if it is a string.
pub open spec fn ty_of(item: Jn) -> Option<Seq<char>> {
    match obj_field(item, "ty"@) {
        Some(t) => match t {
            Jn::Str(s) => Some(s),
            _ => None,
        },
        None => None,
    }
}

/// What a shape-path item (`"sh"`) contributes: when its `ks` object has
/// an array `a` and a value list `k` whose first entry is an array of at
/// least six numbers, a single primitive whose four vertices are the
/// first eight coordinates (missing ones zero), with the fixed index
/// list and no fill or stroke yet.
pub open spec fn spec_shape_path(j: Jn) -> Option<PrimModel> {
    match obj_field(j, "ks"@) {
        Some(ks) => {
            if (obj_field(ks, "a"@) matches Some(a) && a is Arr) {
                match obj_field(ks, "k"@) {
                    Some(k) => match k {
                        Jn::Arr(values) => if values.len() >= 1 {
                            match values[0] {
                                Jn::Arr(kv) => if kv.len() >= 6 {
                                    Some(
                                        PrimModel {
                                            vertices: seq![
                                                (coord_at(kv, 0), coord_at(kv, 1)),
                                                (coord_at(kv, 2), coord_at(kv, 3)),
                                                (coord_at(kv, 4), coord_at(kv, 5)),
                                                (coord_at(kv, 6), coord_at(kv, 7)),
                                            ],
                                            indices: seq![0u16, 1u16, 2u16, 2u16, 1u16, 3u16],
                                            fill: None,
                                            stroke: None,
                                        },
                                    )
                                } else {
                                    None
                                },
                                _ => None,
                            }
                        } else {
                            None
                        },
                        _ => None,
                    },
                    None => None,
                }
            } else {
                None
            }
        },
        None => None,
    }
}

/// Index of the most recently produced primitive still without a fill,
/// `-1` when every one has one.
pub open spec fn last_fill_less(ps: Seq<PrimModel>) -> int
    decreases ps.len(),
{
    if ps.len() == 0 {
        -1
    } else if ps.last().fill is None {
        ps.len() - 1
    } else {
        last_fill_less(ps.drop_last())
    }
}

/// Index of the most recently produced primitive still without a stroke,
/// `-1` when every one has one.
pub open spec fn last_stroke_less(ps: Seq<PrimModel>) -> int
    decreases ps.len(),
{
    if ps.len() == 0 {
        -1
    } else if ps.last().stroke is None {
        ps.len() - 1
    } else {
        last_stroke_less(ps.drop_last())
    }
}

/// A fill item colors the most recently produced fill-less primitive of
/// the same group, if any.
pub open spec fn apply_fill(ps: Seq<PrimModel>, col: (u8, u8, u8, u8)) -> Seq<PrimModel> {
    let i = last_fill_less(ps);
    if i >= 0 {
        ps.update(i, PrimModel { fill: Some(col), ..ps[i] })
    } else {
        ps
    }
}

/// A stroke item sets width and color on the most recently produced
/// stroke-less primitive of the same group, if any.
pub open spec fn apply_stroke(ps: Seq<PrimModel>, w: int, col: (u8, u8, u8, u8)) -> Seq<
    PrimModel,
> {
    let i = last_stroke_less(ps);
    if i >= 0 {
        ps.update(i, PrimModel { stroke: Some((w, col)), ..ps[i] })
    } else {
        ps
    }
}

/// One item of a shape group applied to the primitives produced so far
/// within that group.
pub open spec fn group_step(acc: Seq<PrimModel>, item: Jn) -> Seq<PrimModel> {
    match ty_of(item) {
        Some(t) => if t == "sh"@ {
            match spec_shape_path(item) {
                Some(p) => acc.push(p),
                None => acc,
            }
        } else if t == "fl"@ {
            match obj_field(item, "c"@) {
                Some(c) => match color_from(c) {
                    Some(col) => apply_fill(acc, col),
                    None => acc,
                },
                None => acc,
            }
        } else if t == "st"@ {
            match obj_field(item, "c"@) {
                Some(c) => match color_from(c) {
                    Some(col) => apply_stroke(
                        acc,
                        field_micro_or(item, "w"@, 1000000),
                        col,
                    ),
                    None => acc,
                },
                None => acc,
            }
        } else {
            acc
        },
        None => acc,
    }
}

/// The items of one shape group, applied in order.
pub open spec fn group_fold(items: Seq<Jn>, acc: Seq<PrimModel>) -> Seq<PrimModel>
    decreases items.len(),
{
    if items.len() == 0 {
        acc
    } else {
        group_fold(items.drop_first(), group_step(acc, items[0]))
    }
}

/// What one shape contributes to a layer: only groups (`"gr"`) with an
/// item array produce primitives.
pub open spec fn shape_prims(shape: Jn) -> Seq<PrimModel> {
    if ty_of(shape) == Some("gr"@) {
        match obj_field(shape, "it"@) {
            Some(it) => match it {
                Jn::Arr(items) => group_fold(items, Seq::empty()),
                _ => Seq::empty(),
            },
            None => Seq::empty(),
        }
    } else {
        Seq::empty()
    }
}

/// The shapes of one layer, in order.
pub open spec fn shapes_fold(ss: Seq<Jn>) -> Seq<PrimModel>
    decreases ss.len(),
{
    if ss.len() == 0 {
        Seq::empty()
    } else {
        shapes_fold(ss.drop_last()) + shape_prims(ss.last())
    }
}

/// The primitives of one layer: its `shapes` array walked in order,
/// empty when there is none.
pub open spec fn spec_layer(j: Jn) -> Seq<PrimModel> {
    match obj_field(j, "shapes"@) {
        Some(s) => match s {
            Jn::Arr(ss) => shapes_fold(ss),
            _ => Seq::empty(),
        },
        None => Seq::empty(),
    }
}

/// The layers of the document, in order.
pub open spec fn layers_fold(ls: Seq<Jn>) -> Seq<PrimModel>
    decreases ls.len(),
{
    if ls.len() == 0 {
        Seq::empty()
    } else {
        layers_fold(ls.drop_last()) + spec_layer(ls.last())
    }
}

/// Every primitive of the document: its `layers` array walked in order,
/// empty when there is none.
pub open spec fn doc_prims(j: Jn) -> Seq<PrimModel> {
    match obj_field(j, "layers"@) {
        Some(l) => match l {
            Jn::Arr(ls) => layers_fold(ls),
            _ => Seq::empty(),
        },
        None => Seq::empty(),
    }
}

/// Whether two texts read the same.
fn str_is(a: &str, b: &str) -> (r: bool)
    ensures
        r == (a@ == b@),
{
    a.to_owned() == b.to_owned()
}

/// Millionths of the field `key` of `v`, with a default.
fn field_micro_exec(v: &serde_json::Value, key: &str, default: i64) -> (r: i64)
    ensures
        r as int == field_micro_or(jnode(*v), key@, default as int),
{
    match json_get(v, key) {
        Some(f) => match json_number_chars(f) {
            Some(cs) => match decimal_to_micro(&cs) {
                Some(x) => x,
                None => default,
            },
            None => default,
        },
        None => default,
    }
}

/// Coordinate `i` of a shape-path value list.
fn coord_exec(
    kv: &Vec<serde_json::Value>,
    i: usize,
    Ghost(kvm): Ghost<Seq<Jn>>,
) -> (r: i64)
    requires
        kvm.len() == kv@.len(),
        forall|j: int| 0 <= j < kvm.len() ==> kvm[j] == jnode(#[trigger] kv@[j]),
    ensures
        r as int == coord_at(kvm, i as int),
{
    if i < kv.len() {
        match json_number_chars(&kv[i]) {
            Some(cs) => match decimal_to_micro(&cs) {
                Some(x) => x,
                None => 0,
            },
            None => 0,
        }
    } else {
        0
    }
}

/// Color of a `c` component list held by `item`, if it is well formed.
fn color_exec(item: &serde_json::Value) -> (r: Option<(u8, u8, u8, u8)>)
    ensures
        match obj_field(jnode(*item), "c"@) {
            Some(c) => r == color_from(c),
            None => r is None,
        },
{
    let carr = match json_get(item, "c") {
        Some(c) => c,
        None => {
            return None;
        },
    };
    let comps = match json_as_array(carr) {
        Some(a) => a,
        None => {
            return None;
        },
    };
    if comps.len() < 4 {
        return None;
    }
    let c0 = channel_exec(comps, 0, 0);
    let c1 = channel_exec(comps, 1, 0);
    let c2 = channel_exec(comps, 2, 0);
    let c3 = channel_exec(comps, 3, 1000000);
    Some((c0, c1, c2, c3))
}

/// One channel of a component list turned into a byte.
fn channel_exec(comps: &Vec<serde_json::Value>, i: usize, default: i64) -> (r: u8)
    requires
        i < comps@.len(),
    ensures
        r == channel_byte(num_micro_or(jnode(comps@[i as int]), default as int)),
{
    let v: i64 = match json_number_chars(&comps[i]) {
        Some(cs) => match decimal_to_micro(&cs) {
            Some(x) => x,
            None => default,
        },
        None => default,
    };
    let vc: i64 = if v < 0 {
        0
    } else if v > 1000000 {
        1000000
    } else {
        v
    };
    ((vc * 255) / 1000000) as u8
}

/// Reads one shape-path item into a primitive, if it has the expected
/// structure; see [`spec_shape_path`].
pub fn parse_shape_path(item: &serde_json::Value) -> (r: Option<RenderPrimitive>)
    ensures
        match r {
            Some(p) => spec_shape_path(jnode(*item)) == Some(p@),
            None => spec_shape_path(jnode(*item)) is None,
        },
{
    let ks = match json_get(item, "ks") {
        Some(v) => v,
        None => {
            return None;
        },
    };
    let a_ok = match json_get(ks, "a") {
        Some(av) => json_as_array(av).is_some(),
        None => false,
    };
    if !a_ok {
        return None;
    }
    let kval = match json_get(ks, "k") {
        Some(v) => v,
        None => {
            return None;
        },
    };
    let values = match json_as_array(kval) {
        Some(a) => a,
        None => {
            return None;
        },
    };
    if values.len() < 1 {
        return None;
    }
    let kv = match json_as_array(&values[0]) {
        Some(a) => a,
        None => {
            return None;
        },
    };
    if kv.len() < 6 {
        return None;
    }
    let ghost kvm = (match jnode(values@[0]) {
        Jn::Arr(s) => s,
        _ => Seq::empty(),
    });
    let sx = coord_exec(kv, 0, Ghost(kvm));
    let sy = coord_exec(kv, 1, Ghost(kvm));
    let ex = coord_exec(kv, 2, Ghost(kvm));
    let ey = coord_exec(kv, 3, Ghost(kvm));
    let cx1 = coord_exec(kv, 4, Ghost(kvm));
    let cy1 = coord_exec(kv, 5, Ghost(kvm));
    let cx2 = coord_exec(kv, 6, Ghost(kvm));
    let cy2 = coord_exec(kv, 7, Ghost(kvm));
    let mut vertices: Vec<(i64, i64)> = Vec::new();
    vertices.push((sx, sy));
    vertices.push((ex, ey));
    vertices.push((cx1, cy1));
    vertices.push((cx2, cy2));
    let mut indices: Vec<u16> = Vec::new();
    indices.push(0);
    indices.push(1);
    indices.push(2);
    indices.push(2);
    indices.push(1);
    indices.push(3);
    let p = RenderPrimitive { vertices, indices, fill: None, stroke: None };
    proof {
        let m = spec_shape_path(jnode(*item))->0;
        assert(p@.vertices =~= m.vertices);
        assert(p@.indices =~= m.indices);
    }
    Some(p)
}

/// Sets the fill of the most recently produced fill-less primitive, if
/// any.
fn apply_fill_exec(group: &mut Vec<RenderPrimitive>, col: (u8, u8, u8, u8))
    ensures
        prims_view(final(group)@) == apply_fill(prims_view(old(group)@), col),
{
    let ghost ps = prims_view(group@);
    let n = group.len();
    proof {
        assert(ps.subrange(0, n as int) =~= ps);
    }
    let mut i: usize = n;
    while i > 0
        invariant
            0 <= i <= n == group@.len(),
            ps == prims_view(group@),
            ps == prims_view(old(group)@),
            last_fill_less(ps) == last_fill_less(ps.subrange(0, i as int)),
        decreases i,
    {
        i = i - 1;
        proof {
            let pre = ps.subrange(0, i + 1);
            assert(pre.drop_last() =~= ps.subrange(0, i as int));
            assert(pre.last() == ps[i as int]);
            assert(ps[i as int] == group@[i as int]@);
        }
        if group[i].fill.is_none() {
            proof {
                assert(last_fill_less(ps) == i as int);
            }
            let mut p = group.remove(i);
            p.fill = Some(col);
            group.insert(i, p);
            proof {
                assert(prims_view(group@) =~= apply_fill(ps, col));
            }
            return;
        }
    }
    proof {
        assert(ps.subrange(0, 0) =~= Seq::<PrimModel>::empty());
        assert(last_fill_less(ps) == -1);
        assert(prims_view(group@) =~= apply_fill(ps, col));
    }
}

/// Sets the stroke of the most recently produced stroke-less primitive,
/// if any.
fn apply_stroke_exec(group: &mut Vec<RenderPrimitive>, w: i64, col: (u8, u8, u8, u8))
    ensures
        prims_view(final(group)@) == apply_stroke(prims_view(old(group)@), w as int, col),
{
    let ghost ps = prims_view(group@);
    let n = group.len();
    proof {
        assert(ps.subrange(0, n as int) =~= ps);
    }
    let mut i: usize = n;
    while i > 0
        invariant
            0 <= i <= n == group@.len(),
            ps == prims_view(group@),
            ps == prims_view(old(group)@),
            last_stroke_less(ps) == last_stroke_less(ps.subrange(0, i as int)),
        decreases i,
    {
        i = i - 1;
        proof {
            let pre = ps.subrange(0, i + 1);
            assert(pre.drop_last() =~= ps.subrange(0, i as int));
            assert(pre.last() == ps[i as int]);
            assert(ps[i as int] == group@[i as int]@);
        }
        if group[i].stroke.is_none() {
            proof {
                assert(last_stroke_less(ps) == i as int);
            }
            let mut p = group.remove(i);
            p.stroke = Some((w, col));
            group.insert(i, p);
            proof {
                assert(prims_view(group@) =~= apply_stroke(ps, w as int, col));
            }
            return;
        }
    }
    proof {
        assert(ps.subrange(0, 0) =~= Seq::<PrimModel>::empty());
        assert(last_stroke_less(ps) == -1);
        assert(prims_view(group@) =~= apply_stroke(ps, w as int, col));
    }
}

/// Extracts the simplified primitives of one layer's shape groups, in
/// document order; see [`spec_layer`].
pub fn parse_layer(layer: &serde_json::Value) -> (r: Vec<RenderPrimitive>)
    ensures
        prims_view(r@) == spec_layer(jnode(*layer)),
{
    let mut out: Vec<RenderPrimitive> = Vec::new();
    let shapes_val = match json_get(layer, "shapes") {
        Some(v) => v,
        None => {
            proof {
                assert(prims_view(out@) =~= spec_layer(jnode(*layer)));
            }
            return out;
        },
    };
    let shapes = match json_as_array(shapes_val) {
        Some(a) => a,
        None => {
            proof {
                assert(prims_view(out@) =~= spec_layer(jnode(*layer)));
            }
            return out;
        },
    };
    let ghost sm = (match jnode(*shapes_val) {
        Jn::Arr(s) => s,
        _ => Seq::empty(),
    });
    let n = shapes.len();
    let mut i: usize = 0;
    proof {
        assert(sm.subrange(0, 0) =~= Seq::<Jn>::empty());
        assert(prims_view(out@) =~= shapes_fold(sm.subrange(0, 0)));
    }
    while i < n
        invariant
            n == shapes@.len(),
            sm.len() == n,
            forall|j: int| 0 <= j < n ==> sm[j] == jnode(#[trigger] shapes@[j]),
            0 <= i <= n,
            prims_view(out@) == shapes_fold(sm.subrange(0, i as int)),
        decreases n - i,
    {
        let mut group = shape_prims_exec(&shapes[i], Ghost(sm[i as int]));
        out.append(&mut group);
        proof {
            let pre = sm.subrange(0, i as int);
            let post = sm.subrange(0, i + 1);
            assert(post.drop_last() =~= pre);
            assert(post.last() == sm[i as int]);
            assert(prims_view(out@) =~= shapes_fold(pre) + shape_prims(sm[i as int]));
        }
        i = i + 1;
    }
    proof {
        assert(sm.subrange(0, n as int) =~= sm);
    }
    out
}

/// Extracts the primitives of one shape entry, empty unless it is a
/// group with an item array.
fn shape_prims_exec(shape: &serde_json::Value, Ghost(jm): Ghost<Jn>) -> (r: Vec<
    RenderPrimitive,
>)
    requires
        jm == jnode(*shape),
    ensures
        prims_view(r@) == shape_prims(jm),
{
    let out: Vec<RenderPrimitive> = Vec::new();
    let is_group = match json_get(shape, "ty") {
        Some(t) => match json_as_str(t) {
            Some(s) => str_is(s, "gr"),
            None => false,
        },
        None => false,
    };
    if !is_group {
        proof {
            assert(prims_view(out@) =~= Seq::<PrimModel>::empty());
        }
        return out;
    }
    let items_val = match json_get(shape, "it") {
        Some(v) => v,
        None => {
            proof {
                assert(prims_view(out@) =~= Seq::<PrimModel>::empty());
            }
            return out;
        },
    };
    let items = match json_as_array(items_val) {
        Some(a) => a,
        None => {
            proof {
                assert(prims_view(out@) =~= Seq::<PrimModel>::empty());
            }
            return out;
        },
    };
    let ghost im = (match jnode(*items_val) {
        Jn::Arr(s) => s,
        _ => Seq::empty(),
    });
    let mut acc: Vec<RenderPrimitive> = Vec::new();
    let n = items.len();
    let mut i: usize = 0;
    proof {
        assert(prims_view(acc@) =~= Seq::<PrimModel>::empty());
        assert(im.subrange(0, n as int) =~= im);
    }
    while i < n
        invariant
            n == items@.len(),
            im.len() == n,
            forall|j: int| 0 <= j < n ==> im[j] == jnode(#[trigger] items@[j]),
            0 <= i <= n,
            group_fold(im.subrange(i as int, n as int), prims_view(acc@)) == group_fold(
                im,
                Seq::empty(),
            ),
        decreases n - i,
    {
        proof {
            let tail = im.subrange(i as int, n as int);
            assert(tail[0] == im[i as int]);
            assert(tail.drop_first() =~= im.subrange(i + 1, n as int));
        }
        group_item_exec(&mut acc, &items[i], Ghost(im[i as int]));
        i = i + 1;
    }
    proof {
        assert(im.subrange(n as int, n as int) =~= Seq::<Jn>::empty());
    }
    acc
}

/// Applies one group item to the primitives produced so far in the same
/// group; see [`group_step`].
fn group_item_exec(
    acc: &mut Vec<RenderPrimitive>,
    item: &serde_json::Value,
    Ghost(jm): Ghost<Jn>,
)
    requires
        jm == jnode(*item),
    ensures
        prims_view(final(acc)@) == group_step(prims_view(old(acc)@), jm),
{
    let ty = match json_get(item, "ty") {
        Some(t) => match json_as_str(t) {
            Some(s) => Some(s),
            None => None,
        },
        None => None,
    };
    let t = match ty {
        Some(t) => t,
        None => {
            return;
        },
    };
    if str_is(t, "sh") {
        match parse_shape_path(item) {
            Some(p) => {
                acc.push(p);
                proof {
                    assert(prims_view(acc@) =~= prims_view(old(acc)@).push(
                        spec_shape_path(jm)->0,
                    ));
                }
            },
            None => {},
        }
    } else if str_is(t, "fl") {
        match color_exec(item) {
            Some(col) => {
                apply_fill_exec(acc, col);
            },
            None => {},
        }
    } else if str_is(t, "st") {
        match color_exec(item) {
            Some(col) => {
                let w = field_micro_exec(item, "w", 1000000);
                apply_stroke_exec(acc, w, col);
            },
            None => {},
        }
    }
}

/// Smallest of three.
pub open spec fn min3(a: int, b: int, c: int) -> int {
    if a <= b && a <= c {
        a
    } else if b <= c {
        b
    } else {
        c
    }
}

/// Largest of three.
pub open spec fn max3(a: int, b: int, c: int) -> int {
    if a >= b && a >= c {
        a
    } else if b >= c {
        b
    } else {
        c
    }
}

/// Channel `k` of an RGBA color.
pub open spec fn chan_of(col: (u8, u8, u8, u8), k: int) -> u8 {
    if k == 0 {
        col.0
    } else if k == 1 {
        col.1
    } else if k == 2 {
        col.2
    } else {
        col.3
    }
}

/// `v` saturated to the 32-bit signed range.
pub open spec fn clamp_i32(v: int) -> int {
    if v < -2147483648 {
        -2147483648
    } else if v > 2147483647 {
        2147483647
    } else {
        v
    }
}

/// A raw coordinate in millionths turned into a device coordinate:
/// saturated, multiplied by the scale, truncated toward zero, and kept
/// within one mega-pixel of the origin.
pub open spec fn scale_coord(c: int, scale: int) -> int {
    let p = clamp_i32(c) * scale;
    let t = if p >= 0 {
        p / 1000000
    } else {
        -((-p) / 1000000)
    };
    if t < -1048576 {
        -1048576
    } else if t > 1048576 {
        1048576
    } else {
        t
    }
}

/// Barycentric inside test with pure sign arithmetic: the point is inside
/// when all three signed sub-areas agree with the triangle's signed area.
/// A degenerate triangle covers nothing.
pub open spec fn point_in_tri(x: int, y: int, v0: (int, int), v1: (int, int), v2: (
    int,
    int,
)) -> bool {
    let det = (v1.1 - v2.1) * (v0.0 - v2.0) + (v2.0 - v1.0) * (v0.1 - v2.1);
    let n1 = (v1.1 - v2.1) * (x - v2.0) + (v2.0 - v1.0) * (y - v2.1);
    let n2 = (v2.1 - v0.1) * (x - v2.0) + (v0.0 - v2.0) * (y - v2.1);
    if det > 0 {
        n1 >= 0 && n2 >= 0 && det - n1 - n2 >= 0
    } else if det < 0 {
        n1 <= 0 && n2 <= 0 && det - n1 - n2 <= 0
    } else {
        false
    }
}

/// Whether the triangle's bounding-box scan paints the canvas pixel
/// `(x, y)`.
pub open spec fn tri_covers(
    width: int,
    height: int,
    v0: (int, int),
    v1: (int, int),
    v2: (int, int),
    x: int,
    y: int,
) -> bool {
    let minx = if min3(v0.0, v1.0, v2.0) < 0 { 0 } else { min3(v0.0, v1.0, v2.0) };
    let maxx = if max3(v0.0, v1.0, v2.0) > width - 1 { width - 1 } else { max3(v0.0, v1.0, v2.0) };
    let miny = if min3(v0.1, v1.1, v2.1) < 0 { 0 } else { min3(v0.1, v1.1, v2.1) };
    let maxy = if max3(v0.1, v1.1, v2.1) > height - 1 { height - 1 } else { max3(v0.1, v1.1, v2.1) };
    minx <= x <= maxx && miny <= y <= maxy && point_in_tri(x, y, v0, v1, v2)
}

/// The buffer after a scan with paint cursor at column `cx` of row
/// `cy`: every pixel the coverage predicate holds of that lies strictly
/// before the cursor in row-major order carries the color, everything
/// else is unchanged.  A write whose four bytes do not fit is dropped,
/// as the scans check.
pub open spec fn stamp_part(
    buf: Seq<u8>,
    width: int,
    cover: spec_fn(int, int) -> bool,
    col: (u8, u8, u8, u8),
    cx: int,
    cy: int,
) -> Seq<u8> {
    Seq::new(
        buf.len(),
        |i: int|
            {
                if width >= 1 {
                    let p = i / 4;
                    let x = p % width;
                    let y = p / width;
                    if cover(x, y) && (y < cy || (y == cy && x < cx)) && 4 * p + 4
                        <= buf.len() {
                        chan_of(col, i % 4)
                    } else {
                        buf[i]
                    }
                } else {
                    buf[i]
                }
            },
    )
}

/// Coverage predicate of a triangle's bounding-box scan.
pub open spec fn tri_cover_fn(
    width: int,
    height: int,
    v0: (int, int),
    v1: (int, int),
    v2: (int, int),
) -> spec_fn(int, int) -> bool {
    |x: int, y: int| tri_covers(width, height, v0, v1, v2, x, y)
}

/// The buffer after the whole triangle scan.
pub open spec fn tri_fill(
    buf: Seq<u8>,
    width: int,
    height: int,
    v0: (int, int),
    v1: (int, int),
    v2: (int, int),
    col: (u8, u8, u8, u8),
) -> Seq<u8> {
    stamp_part(buf, width, tri_cover_fn(width, height, v0, v1, v2), col, 0, height)
}

/// Whether the disc stamp of radius `r` at `(cx, cy)` paints the canvas
/// pixel `(x, y)`.
pub open spec fn disc_covers(
    width: int,
    height: int,
    cx: int,
    cy: int,
    r: int,
    x: int,
    y: int,
) -> bool {
    &&& r >= 0
    &&& 0 <= x < width
    &&& 0 <= y < height
    &&& -r <= x - cx <= r
    &&& -r <= y - cy <= r
    &&& (x - cx) * (x - cx) + (y - cy) * (y - cy) <= r * r
}

/// Coverage predicate of a disc stamp.
pub open spec fn disc_cover_fn(width: int, height: int, cx: int, cy: int, r: int) -> spec_fn(
    int,
    int,
) -> bool {
    |x: int, y: int| disc_covers(width, height, cx, cy, r, x, y)
}

/// The buffer after the whole disc stamp.
pub open spec fn disc_fill(
    buf: Seq<u8>,
    width: int,
    height: int,
    cx: int,
    cy: int,
    r: int,
    col: (u8, u8, u8, u8),
) -> Seq<u8> {
    stamp_part(buf, width, disc_cover_fn(width, height, cx, cy, r), col, cx + r + 1, cy + r)
}

/// A vertex scaled to device coordinates.
pub open spec fn scale_vertex(v: (int, int), scale: int) -> (int, int) {
    (scale_coord(v.0, scale), scale_coord(v.1, scale))
}

/// Triangle `t` of a primitive's index list, scaled; `None` when one of
/// its indices is out of range of the vertex list.
pub open spec fn tri_of(pm: PrimModel, t: int, scale: int) -> Option<
    ((int, int), (int, int), (int, int)),
> {
    let i0 = pm.indices[3 * t] as int;
    let i1 = pm.indices[3 * t + 1] as int;
    let i2 = pm.indices[3 * t + 2] as int;
    if 0 <= i0 < pm.vertices.len() && 0 <= i1 < pm.vertices.len() && 0 <= i2
        < pm.vertices.len() {
        Some(
            (
                scale_vertex(pm.vertices[i0], scale),
                scale_vertex(pm.vertices[i1], scale),
                scale_vertex(pm.vertices[i2], scale),
            ),
        )
    } else {
        None
    }
}

/// The buffer after the first `k` complete index triples of a filled
/// primitive are scan-converted in order.
pub open spec fn fill_tris(
    buf: Seq<u8>,
    pm: PrimModel,
    col: (u8, u8, u8, u8),
    width: int,
    height: int,
    scale: int,
    k: nat,
) -> Seq<u8>
    decreases k,
{
    if k == 0 {
        buf
    } else {
        let b = fill_tris(buf, pm, col, width, height, scale, (k - 1) as nat);
        match tri_of(pm, k - 1, scale) {
            Some(t) => tri_fill(b, width, height, t.0, t.1, t.2, col),
            None => b,
        }
    }
}

/// Radius of the stroke stamp: half the scaled stroke width, truncated.
pub open spec fn stroke_radius(w: int, scale: int) -> int {
    let p = clamp_i32(w) * scale;
    if p >= 0 {
        p / 2000000
    } else {
        -((-p) / 2000000)
    }
}

/// The buffer after discs are stamped at the first `k` vertices of a
/// stroked primitive, in order.
pub open spec fn stroke_verts(
    buf: Seq<u8>,
    pm: PrimModel,
    col: (u8, u8, u8, u8),
    r: int,
    width: int,
    height: int,
    scale: int,
    k: nat,
) -> Seq<u8>
    decreases k,
{
    if k == 0 {
        buf
    } else {
        let b = stroke_verts(buf, pm, col, r, width, height, scale, (k - 1) as nat);
        let c = scale_vertex(pm.vertices[k - 1], scale);
        disc_fill(b, width, height, c.0, c.1, r, col)
    }
}

/// The buffer after one primitive is rendered: its fill pass (all
/// complete triangles) followed by its stroke pass (a disc at every
/// vertex).
pub open spec fn prim_pass(
    buf: Seq<u8>,
    pm: PrimModel,
    width: int,
    height: int,
    scale: int,
) -> Seq<u8> {
    let after_fill = match pm.fill {
        Some(col) => fill_tris(
            buf,
            pm,
            col,
            width,
            height,
            scale,
            (pm.indices.len() / 3) as nat,
        ),
        None => buf,
    };
    match pm.stroke {
        Some((w, col)) => stroke_verts(
            after_fill,
            pm,
            col,
            stroke_radius(w, scale),
            width,
            height,
            scale,
            pm.vertices.len(),
        ),
        None => after_fill,
    }
}

/// The buffer after a sequence of primitives is rendered in order.
pub open spec fn prims_pass(
    buf: Seq<u8>,
    ps: Seq<PrimModel>,
    width: int,
    height: int,
    scale: int,
) -> Seq<u8>
    decreases ps.len(),
{
    if ps.len() == 0 {
        buf
    } else {
        prim_pass(
            prims_pass(buf, ps.drop_last(), width, height, scale),
            ps.last(),
            width,
            height,
            scale,
        )
    }
}

proof fn lemma_stamp_none(
    buf: Seq<u8>,
    width: int,
    cover: spec_fn(int, int) -> bool,
    col: (u8, u8, u8, u8),
    cx: int,
    cy: int,
)
    requires
        forall|x: int, y: int| #[trigger] cover(x, y) ==> !(y < cy || (y == cy && x < cx)),
    ensures
        stamp_part(buf, width, cover, col, cx, cy) == buf,
{
    assert(stamp_part(buf, width, cover, col, cx, cy) =~= buf);
}

proof fn lemma_stamp_eq(
    buf: Seq<u8>,
    width: int,
    cover: spec_fn(int, int) -> bool,
    col: (u8, u8, u8, u8),
    cx1: int,
    cy1: int,
    cx2: int,
    cy2: int,
)
    requires
        forall|x: int, y: int| #[trigger] cover(x, y) ==> ((y < cy1 || (y == cy1 && x < cx1))
            <==> (y < cy2 || (y == cy2 && x < cx2))),
    ensures
        stamp_part(buf, width, cover, col, cx1, cy1) == stamp_part(
            buf,
            width,
            cover,
            col,
            cx2,
            cy2,
        ),
{
    assert(stamp_part(buf, width, cover, col, cx1, cy1) =~= stamp_part(
        buf,
        width,
        cover,
        col,
        cx2,
        cy2,
    ));
}

proof fn lemma_stamp_write(
    prev: Seq<u8>,
    orig: Seq<u8>,
    width: int,
    cover: spec_fn(int, int) -> bool,
    col: (u8, u8, u8, u8),
    x: int,
    y: int,
)
    requires
        width >= 1,
        0 <= x < width,
        0 <= y,
        prev == stamp_part(orig, width, cover, col, x, y),
        cover(x, y),
        4 * (y * width + x) + 4 <= orig.len(),
    ensures
        stamp_part(orig, width, cover, col, x + 1, y) == prev.update(
            4 * (y * width + x),
            chan_of(col, 0),
        ).update(4 * (y * width + x) + 1, chan_of(col, 1)).update(
            4 * (y * width + x) + 2,
            chan_of(col, 2),
        ).update(4 * (y * width + x) + 3, chan_of(col, 3)),
{
    let off = 4 * (y * width + x);
    let next = stamp_part(orig, width, cover, col, x + 1, y);
    let written = prev.update(off, chan_of(col, 0)).update(off + 1, chan_of(col, 1)).update(
        off + 2,
        chan_of(col, 2),
    ).update(off + 3, chan_of(col, 3));
    assert(prev.len() == orig.len());
    broadcast use vstd::arithmetic::mul::lemma_mul_is_commutative;

    assert forall|i: int| 0 <= i < orig.len() implies next[i] == written[i] by {
        vstd::arithmetic::div_mod::lemma_fundamental_div_mod(i, 4);
        let p = i / 4;
        vstd::arithmetic::div_mod::lemma_fundamental_div_mod(p, width);
        if off <= i < off + 4 {
            vstd::arithmetic::div_mod::lemma_fundamental_div_mod_converse(
                i,
                4,
                y * width + x,
                i - off,
            );
            assert(p == y * width + x);
            vstd::arithmetic::div_mod::lemma_fundamental_div_mod_converse(p, width, y, x);
        } else {
            if p % width == x && p / width == y {
                assert(p == y * width + x);
                assert(off <= i < off + 4);
                assert(false);
            }
        }
    }
    assert(next =~= written);
}

proof fn lemma_stamp_skip(
    prev: Seq<u8>,
    orig: Seq<u8>,
    width: int,
    cover: spec_fn(int, int) -> bool,
    col: (u8, u8, u8, u8),
    x: int,
    y: int,
)
    requires
        width >= 1,
        prev == stamp_part(orig, width, cover, col, x, y),
        !(cover(x, y) && 4 * (y * width + x) + 4 <= orig.len()),
    ensures
        stamp_part(orig, width, cover, col, x + 1, y) == prev,
{
    let next = stamp_part(orig, width, cover, col, x + 1, y);
    broadcast use vstd::arithmetic::mul::lemma_mul_is_commutative;

    assert forall|i: int| 0 <= i < orig.len() implies next[i] == prev[i] by {
        vstd::arithmetic::div_mod::lemma_fundamental_div_mod(i, 4);
        let p = i / 4;
        vstd::arithmetic::div_mod::lemma_fundamental_div_mod(p, width);
        vstd::arithmetic::div_mod::lemma_mod_bound(p, width);
        assert(p >= 0 ==> p / width >= 0) by (nonlinear_arith)
            requires
                width >= 1,
                p == width * (p / width) + p % width,
                0 <= p % width < width,
        ;
        if p % width == x && p / width == y {
            assert(p == y * width + x);
        }
    }
    assert(next =~= prev);
}

/// Exact product of two bounded factors.
fn mul_bounded(a: i64, b: i64) -> (r: i64)
    requires
        -4194304 <= a <= 4194304,
        -4194304 <= b <= 4194304,
    ensures
        r == a * b,
        -0x10_0000_0000_0000 <= r <= 0x10_0000_0000_0000,
{
    proof {
        assert(-0x10_0000_0000_0000 <= a * b <= 0x10_0000_0000_0000) by (nonlinear_arith)
            requires
                -4194304 <= a <= 4194304,
                -4194304 <= b <= 4194304,
        ;
    }
    a * b
}

/// The barycentric inside test of the scan converter; see
/// [`point_in_tri`].
pub fn point_in_triangle(
    px: i64,
    py: i64,
    v0: (i64, i64),
    v1: (i64, i64),
    v2: (i64, i64),
) -> (r: bool)
    requires
        -1048576 <= px <= 1048576,
        -1048576 <= py <= 1048576,
        -1048576 <= v0.0 <= 1048576,
        -1048576 <= v0.1 <= 1048576,
        -1048576 <= v1.0 <= 1048576,
        -1048576 <= v1.1 <= 1048576,
        -1048576 <= v2.0 <= 1048576,
        -1048576 <= v2.1 <= 1048576,
    ensures
        r == point_in_tri(
            px as int,
            py as int,
            (v0.0 as int, v0.1 as int),
            (v1.0 as int, v1.1 as int),
            (v2.0 as int, v2.1 as int),
        ),
{
    let det = mul_bounded(v1.1 - v2.1, v0.0 - v2.0) + mul_bounded(v2.0 - v1.0, v0.1 - v2.1);
    let n1 = mul_bounded(v1.1 - v2.1, px - v2.0) + mul_bounded(v2.0 - v1.0, py - v2.1);
    let n2 = mul_bounded(v2.1 - v0.1, px - v2.0) + mul_bounded(v0.0 - v2.0, py - v2.1);
    if det > 0 {
        n1 >= 0 && n2 >= 0 && det - n1 - n2 >= 0
    } else if det < 0 {
        n1 <= 0 && n2 <= 0 && det - n1 - n2 <= 0
    } else {
        false
    }
}

/// Scan-converts one filled triangle: a bounding-box scan over the
/// canvas with the barycentric inside test, clipped to the canvas; see
/// [`tri_fill`].
pub fn rasterize_triangle(
    pixels: &mut Vec<u8>,
    width: i64,
    height: i64,
    v0: (i64, i64),
    v1: (i64, i64),
    v2: (i64, i64),
    col: (u8, u8, u8, u8),
)
    requires
        1 <= width <= 4096,
        1 <= height <= 4096,
        -1048576 <= v0.0 <= 1048576,
        -1048576 <= v0.1 <= 1048576,
        -1048576 <= v1.0 <= 1048576,
        -1048576 <= v1.1 <= 1048576,
        -1048576 <= v2.0 <= 1048576,
        -1048576 <= v2.1 <= 1048576,
    ensures
        final(pixels)@ == tri_fill(
            old(pixels)@,
            width as int,
            height as int,
            (v0.0 as int, v0.1 as int),
            (v1.0 as int, v1.1 as int),
            (v2.0 as int, v2.1 as int),
            col,
        ),
{
    let ghost orig = pixels@;
    let ghost s0 = (v0.0 as int, v0.1 as int);
    let ghost s1 = (v1.0 as int, v1.1 as int);
    let ghost s2 = (v2.0 as int, v2.1 as int);
    let ghost cover = tri_cover_fn(width as int, height as int, s0, s1, s2);
    let m_x = min3_exec(v0.0, v1.0, v2.0);
    let mm_x = max3_exec(v0.0, v1.0, v2.0);
    let m_y = min3_exec(v0.1, v1.1, v2.1);
    let mm_y = max3_exec(v0.1, v1.1, v2.1);
    let minx = if m_x < 0 { 0 } else { m_x };
    let maxx = if mm_x > width - 1 { width - 1 } else { mm_x };
    let miny = if m_y < 0 { 0 } else { m_y };
    let maxy = if mm_y > height - 1 { height - 1 } else { mm_y };
    if minx > maxx || miny > maxy {
        proof {
            lemma_stamp_none(orig, width as int, cover, col, 0, height as int);
        }
        return;
    }
    let mut y = miny;
    proof {
        lemma_stamp_none(orig, width as int, cover, col, minx as int, miny as int);
    }
    while y <= maxy
        invariant
            1 <= width <= 4096,
            1 <= height <= 4096,
            0 <= minx <= maxx <= width - 1,
            0 <= miny <= y <= maxy + 1,
            maxy <= height - 1,
            -1048576 <= v0.0 <= 1048576,
            -1048576 <= v0.1 <= 1048576,
            -1048576 <= v1.0 <= 1048576,
            -1048576 <= v1.1 <= 1048576,
            -1048576 <= v2.0 <= 1048576,
            -1048576 <= v2.1 <= 1048576,
            s0 == (v0.0 as int, v0.1 as int),
            s1 == (v1.0 as int, v1.1 as int),
            s2 == (v2.0 as int, v2.1 as int),
            cover == tri_cover_fn(width as int, height as int, s0, s1, s2),
            minx as int == if min3(s0.0, s1.0, s2.0) < 0 { 0int } else { min3(s0.0, s1.0, s2.0) },
            maxx as int == if max3(s0.0, s1.0, s2.0) > width - 1 { width - 1 } else { max3(s0.0, s1.0, s2.0) },
            miny as int == if min3(s0.1, s1.1, s2.1) < 0 { 0int } else { min3(s0.1, s1.1, s2.1) },
            maxy as int == if max3(s0.1, s1.1, s2.1) > height - 1 { height - 1 } else { max3(s0.1, s1.1, s2.1) },
            orig.len() == pixels@.len(),
            pixels@ == stamp_part(orig, width as int, cover, col, minx as int, y as int),
        decreases maxy + 1 - y,
    {
        let mut x = minx;
        while x <= maxx
            invariant
                1 <= width <= 4096,
                1 <= height <= 4096,
                0 <= minx <= maxx <= width - 1,
                0 <= miny <= y <= maxy,
                maxy <= height - 1,
                minx <= x <= maxx + 1,
                -1048576 <= v0.0 <= 1048576,
                -1048576 <= v0.1 <= 1048576,
                -1048576 <= v1.0 <= 1048576,
                -1048576 <= v1.1 <= 1048576,
                -1048576 <= v2.0 <= 1048576,
                -1048576 <= v2.1 <= 1048576,
                s0 == (v0.0 as int, v0.1 as int),
                s1 == (v1.0 as int, v1.1 as int),
                s2 == (v2.0 as int, v2.1 as int),
                cover == tri_cover_fn(width as int, height as int, s0, s1, s2),
                minx as int == if min3(s0.0, s1.0, s2.0) < 0 { 0int } else { min3(s0.0, s1.0, s2.0) },
                maxx as int == if max3(s0.0, s1.0, s2.0) > width - 1 { width - 1 } else { max3(s0.0, s1.0, s2.0) },
                orig.len() == pixels@.len(),
                miny as int == if min3(s0.1, s1.1, s2.1) < 0 { 0int } else { min3(s0.1, s1.1, s2.1) },
                maxy as int == if max3(s0.1, s1.1, s2.1) > height - 1 { height - 1 } else { max3(s0.1, s1.1, s2.1) },
                pixels@ == stamp_part(orig, width as int, cover, col, x as int, y as int),
            decreases maxx + 1 - x,
        {
            if point_in_triangle(x, y, v0, v1, v2) {
                proof {
                    assert(cover(x as int, y as int));
                    assert(0 <= y * width <= 4096 * 4096) by (nonlinear_arith)
                        requires
                            0 <= y <= 4096,
                            1 <= width <= 4096,
                    ;
                }
                let off = 4 * (y * width + x);
                proof {
                    assert(0 <= off <= 0x440_4000);
                }
                let o = off as usize;
                proof {
                    assert(o == off as int);
                }
                if o + 4 <= pixels.len() {
                    proof {
                        assert(4 * ((y as int) * (width as int) + (x as int)) + 4
                            <= orig.len());
                    }
                    pixels[o] = col.0;
                    pixels[o + 1] = col.1;
                    pixels[o + 2] = col.2;
                    pixels[o + 3] = col.3;
                    proof {
                        lemma_stamp_write(
                            stamp_part(orig, width as int, cover, col, x as int, y as int),
                            orig,
                            width as int,
                            cover,
                            col,
                            x as int,
                            y as int,
                        );
                    }
                } else {
                    proof {
                        assert(!(4 * ((y as int) * (width as int) + (x as int)) + 4
                            <= orig.len()));
                        lemma_stamp_skip(
                            pixels@,
                            orig,
                            width as int,
                            cover,
                            col,
                            x as int,
                            y as int,
                        );
                    }
                }
            } else {
                proof {
                    lemma_stamp_skip(
                        pixels@,
                        orig,
                        width as int,
                        cover,
                        col,
                        x as int,
                        y as int,
                    );
                }
            }
            x = x + 1;
        }
        proof {
            lemma_stamp_eq(
                orig,
                width as int,
                cover,
                col,
                maxx as int + 1,
                y as int,
                minx as int,
                y as int + 1,
            );
        }
        y = y + 1;
    }
    proof {
        lemma_stamp_eq(
            orig,
            width as int,
            cover,
            col,
            minx as int,
            maxy as int + 1,
            0,
            height as int,
        );
    }
}

/// Smallest of three, executable.
fn min3_exec(a: i64, b: i64, c: i64) -> (r: i64)
    ensures
        r == min3(a as int, b as int, c as int),
{
    if a <= b && a <= c {
        a
    } else if b <= c {
        b
    } else {
        c
    }
}

/// Largest of three, executable.
fn max3_exec(a: i64, b: i64, c: i64) -> (r: i64)
    ensures
        r == max3(a as int, b as int, c as int),
{
    if a >= b && a >= c {
        a
    } else if b >= c {
        b
    } else {
        c
    }
}

/// Stamps one filled disc: every canvas pixel within `r` of the centre
/// by squared distance takes the stroke color; see [`disc_fill`].
pub fn stamp_disc(
    pixels: &mut Vec<u8>,
    width: i64,
    height: i64,
    cx: i64,
    cy: i64,
    r: i64,
    col: (u8, u8, u8, u8),
)
    requires
        1 <= width <= 4096,
        1 <= height <= 4096,
        -1048576 <= cx <= 1048576,
        -1048576 <= cy <= 1048576,
        -5000000 <= r <= 5000000,
    ensures
        final(pixels)@ == disc_fill(
            old(pixels)@,
            width as int,
            height as int,
            cx as int,
            cy as int,
            r as int,
            col,
        ),
{
    let ghost orig = pixels@;
    let ghost cover = disc_cover_fn(width as int, height as int, cx as int, cy as int, r as int);
    if r < 0 {
        proof {
            lemma_stamp_none(orig, width as int, cover, col, cx as int + r as int + 1, cy as int + r as int);
        }
        return;
    }
    proof {
        lemma_stamp_none(orig, width as int, cover, col, cx as int - r as int, cy as int - r as int);
    }
    let mut y = cy - r;
    while y <= cy + r
        invariant
            1 <= width <= 4096,
            1 <= height <= 4096,
            -1048576 <= cx <= 1048576,
            -1048576 <= cy <= 1048576,
            0 <= r <= 5000000,
            cy - r <= y <= cy + r + 1,
            cover == disc_cover_fn(width as int, height as int, cx as int, cy as int, r as int),
            orig.len() == pixels@.len(),
            pixels@ == stamp_part(orig, width as int, cover, col, cx as int - r as int, y as int),
        decreases cy + r + 1 - y,
    {
        let mut x = cx - r;
        while x <= cx + r
            invariant
                1 <= width <= 4096,
                1 <= height <= 4096,
                -1048576 <= cx <= 1048576,
                -1048576 <= cy <= 1048576,
                0 <= r <= 5000000,
                cy - r <= y <= cy + r,
                cx - r <= x <= cx + r + 1,
                cover == disc_cover_fn(width as int, height as int, cx as int, cy as int, r as int),
                orig.len() == pixels@.len(),
                pixels@ == stamp_part(orig, width as int, cover, col, x as int, y as int),
            decreases cx + r + 1 - x,
        {
            let dx = x - cx;
            let dy = y - cy;
            proof {
                assert(0 <= dx * dx <= 25000000000000) by (nonlinear_arith)
                    requires
                        -5000000 <= dx <= 5000000,
                ;
                assert(0 <= dy * dy <= 25000000000000) by (nonlinear_arith)
                    requires
                        -5000000 <= dy <= 5000000,
                ;
                assert(0 <= r * r <= 25000000000000) by (nonlinear_arith)
                    requires
                        0 <= r <= 5000000,
                ;
            }
            if dx * dx + dy * dy <= r * r && x >= 0 && x < width && y >= 0 && y < height {
                proof {
                    assert(cover(x as int, y as int));
                    assert(0 <= y * width <= 4096 * 4096) by (nonlinear_arith)
                        requires
                            0 <= y <= 4096,
                            1 <= width <= 4096,
                    ;
                }
                let off = 4 * (y * width + x);
                proof {
                    assert(0 <= off <= 0x440_4000);
                }
                let o = off as usize;
                proof {
                    assert(o == off as int);
                }
                if o + 4 <= pixels.len() {
                    proof {
                        assert(4 * ((y as int) * (width as int) + (x as int)) + 4
                            <= orig.len());
                    }
                    pixels[o] = col.0;
                    pixels[o + 1] = col.1;
                    pixels[o + 2] = col.2;
                    pixels[o + 3] = col.3;
                    proof {
                        lemma_stamp_write(
                            stamp_part(orig, width as int, cover, col, x as int, y as int),
                            orig,
                            width as int,
                            cover,
                            col,
                            x as int,
                            y as int,
                        );
                    }
                } else {
                    proof {
                        assert(!(4 * ((y as int) * (width as int) + (x as int)) + 4
                            <= orig.len()));
                        lemma_stamp_skip(
                            pixels@,
                            orig,
                            width as int,
                            cover,
                            col,
                            x as int,
                            y as int,
                        );
                    }
                }
            } else {
                proof {
                    assert(!cover(x as int, y as int));
                    lemma_stamp_skip(
                        pixels@,
                        orig,
                        width as int,
                        cover,
                        col,
                        x as int,
                        y as int,
                    );
                }
            }
            x = x + 1;
        }
        proof {
            lemma_stamp_eq(
                orig,
                width as int,
                cover,
                col,
                cx as int + r as int + 1,
                y as int,
                cx as int - r as int,
                y as int + 1,
            );
        }
        y = y + 1;
    }
}

/// A raw millionth coordinate turned into a device coordinate; see
/// [`scale_coord`].
fn scale_coord_exec(c: i64, scale: i64) -> (r: i64)
    requires
        1 <= scale <= 4096,
    ensures
        r == scale_coord(c as int, scale as int),
        -1048576 <= r <= 1048576,
{
    let cc: i64 = if c < -2147483648 {
        -2147483648
    } else if c > 2147483647 {
        2147483647
    } else {
        c
    };
    proof {
        assert(-0x800_0000_0000 <= cc * scale <= 0x800_0000_0000) by (nonlinear_arith)
            requires
                -2147483648 <= cc <= 2147483647,
                1 <= scale <= 4096,
        ;
    }
    let p = cc * scale;
    let t: i64 = if p >= 0 {
        p / 1000000
    } else {
        -((-p) / 1000000)
    };
    if t < -1048576 {
        -1048576
    } else if t > 1048576 {
        1048576
    } else {
        t
    }
}

/// Half the scaled stroke width, truncated; see [`stroke_radius`].
fn stroke_radius_exec(w: i64, scale: i64) -> (r: i64)
    requires
        1 <= scale <= 4096,
    ensures
        r == stroke_radius(w as int, scale as int),
        -5000000 <= r <= 5000000,
{
    let cc: i64 = if w < -2147483648 {
        -2147483648
    } else if w > 2147483647 {
        2147483647
    } else {
        w
    };
    proof {
        assert(-0x800_0000_0000 <= cc * scale <= 0x800_0000_0000) by (nonlinear_arith)
            requires
                -2147483648 <= cc <= 2147483647,
                1 <= scale <= 4096,
        ;
    }
    let p = cc * scale;
    proof {
        if p >= 0 {
            lemma_div_at_most(p as int, 2000000, 5000000);
        } else {
            lemma_div_at_most(-(p as int), 2000000, 5000000);
        }
    }
    let r: i64 = if p >= 0 {
        p / 2000000
    } else {
        -((-p) / 2000000)
    };
    r
}

/// Renders one primitive onto the canvas: the fill pass scan-converts
/// every complete index triple, then the stroke pass stamps a disc at
/// every vertex; see [`prim_pass`].
pub fn render_primitive(
    prim: &RenderPrimitive,
    pixels: &mut Vec<u8>,
    width: i64,
    height: i64,
    scale: i64,
)
    requires
        1 <= width <= 4096,
        1 <= height <= 4096,
        1 <= scale <= 4096,
    ensures
        final(pixels)@ == prim_pass(
            old(pixels)@,
            prim@,
            width as int,
            height as int,
            scale as int,
        ),
{
    let ghost orig = pixels@;
    let ghost pm = prim@;
    match prim.fill {
        Some(col) => {
            let ilen = prim.indices.len();
            let nt = ilen / 3;
            proof {
                vstd::arithmetic::div_mod::lemma_fundamental_div_mod(ilen as int, 3);
                vstd::arithmetic::div_mod::lemma_mod_bound(ilen as int, 3);
            }
            let mut t: usize = 0;
            while t < nt
                invariant
                    1 <= width <= 4096,
                    1 <= height <= 4096,
                    1 <= scale <= 4096,
                    pm == prim@,
                    prim.fill == Some(col),
                    ilen == prim.indices@.len(),
                    nt == prim.indices@.len() / 3,
                    3 * (nt as int) <= ilen as int,
                    0 <= t <= nt,
                    orig.len() == pixels@.len(),
                    pixels@ == fill_tris(
                        orig,
                        pm,
                        col,
                        width as int,
                        height as int,
                        scale as int,
                        t as nat,
                    ),
                decreases nt - t,
            {
                proof {
                    assert(3 * (t as int) + 2 < prim.indices@.len());
                }
                let i0 = prim.indices[3 * t];
                let i1 = prim.indices[3 * t + 1];
                let i2 = prim.indices[3 * t + 2];
                if (i0 as usize) < prim.vertices.len() && (i1 as usize) < prim.vertices.len()
                    && (i2 as usize) < prim.vertices.len() {
                    let p0 = prim.vertices[i0 as usize];
                    let p1 = prim.vertices[i1 as usize];
                    let p2 = prim.vertices[i2 as usize];
                    let a = (scale_coord_exec(p0.0, scale), scale_coord_exec(p0.1, scale));
                    let b = (scale_coord_exec(p1.0, scale), scale_coord_exec(p1.1, scale));
                    let c = (scale_coord_exec(p2.0, scale), scale_coord_exec(p2.1, scale));
                    rasterize_triangle(pixels, width, height, a, b, c, col);
                    proof {
                        let tr = tri_of(pm, t as int, scale as int);
                        assert(pm.vertices[i0 as int] == (p0.0 as int, p0.1 as int));
                        assert(pm.vertices[i1 as int] == (p1.0 as int, p1.1 as int));
                        assert(pm.vertices[i2 as int] == (p2.0 as int, p2.1 as int));
                        assert(tr == Some(
                            ((a.0 as int, a.1 as int), (b.0 as int, b.1 as int), (
                                c.0 as int,
                                c.1 as int,
                            )),
                        ));
                    }
                } else {
                    proof {
                        assert(tri_of(pm, t as int, scale as int) is None);
                    }
                }
                t = t + 1;
            }
        },
        None => {},
    }
    let ghost after_fill = pixels@;
    proof {
        assert(after_fill == (match pm.fill {
            Some(col) => fill_tris(
                orig,
                pm,
                col,
                width as int,
                height as int,
                scale as int,
                (pm.indices.len() / 3) as nat,
            ),
            None => orig,
        }));
    }
    match prim.stroke {
        Some((w, col)) => {
            let radius = stroke_radius_exec(w, scale);
            let nv = prim.vertices.len();
            let mut v: usize = 0;
            while v < nv
                invariant
                    1 <= width <= 4096,
                    1 <= height <= 4096,
                    1 <= scale <= 4096,
                    pm == prim@,
                    prim.stroke == Some((w, col)),
                    radius == stroke_radius(w as int, scale as int),
                    -5000000 <= radius <= 5000000,
                    nv == prim.vertices@.len(),
                    0 <= v <= nv,
                    after_fill.len() == pixels@.len(),
                    pixels@ == stroke_verts(
                        after_fill,
                        pm,
                        col,
                        radius as int,
                        width as int,
                        height as int,
                        scale as int,
                        v as nat,
                    ),
                decreases nv - v,
            {
                let p0 = prim.vertices[v];
                let sx = scale_coord_exec(p0.0, scale);
                let sy = scale_coord_exec(p0.1, scale);
                stamp_disc(pixels, width, height, sx, sy, radius, col);
                proof {
                    assert(pm.vertices[v as int] == (p0.0 as int, p0.1 as int));
                    assert(scale_vertex(pm.vertices[v as int], scale as int) == (
                        sx as int,
                        sy as int,
                    ));
                }
                v = v + 1;
            }
        },
        None => {},
    }
}

proof fn lemma_stamp_id(
    buf: Seq<u8>,
    width: int,
    cover: spec_fn(int, int) -> bool,
    col: (u8, u8, u8, u8),
    cx: int,
    cy: int,
)
    requires
        buf.len() == 0 || width <= 0,
    ensures
        stamp_part(buf, width, cover, col, cx, cy) == buf,
{
    assert(stamp_part(buf, width, cover, col, cx, cy) =~= buf);
}

proof fn lemma_fill_tris_id(
    buf: Seq<u8>,
    pm: PrimModel,
    col: (u8, u8, u8, u8),
    width: int,
    height: int,
    scale: int,
    k: nat,
)
    requires
        buf.len() == 0 || width <= 0,
    ensures
        fill_tris(buf, pm, col, width, height, scale, k) == buf,
    decreases k,
{
    if k > 0 {
        lemma_fill_tris_id(buf, pm, col, width, height, scale, (k - 1) as nat);
        match tri_of(pm, k as int - 1, scale) {
            Some(t) => {
                lemma_stamp_id(
                    buf,
                    width,
                    tri_cover_fn(width, height, t.0, t.1, t.2),
                    col,
                    0,
                    height,
                );
            },
            None => {},
        }
    }
}

proof fn lemma_stroke_verts_id(
    buf: Seq<u8>,
    pm: PrimModel,
    col: (u8, u8, u8, u8),
    r: int,
    width: int,
    height: int,
    scale: int,
    k: nat,
)
    requires
        buf.len() == 0 || width <= 0,
    ensures
        stroke_verts(buf, pm, col, r, width, height, scale, k) == buf,
    decreases k,
{
    if k > 0 {
        lemma_stroke_verts_id(buf, pm, col, r, width, height, scale, (k - 1) as nat);
        let c = scale_vertex(pm.vertices[k - 1], scale);
        lemma_stamp_id(
            buf,
            width,
            disc_cover_fn(width, height, c.0, c.1, r),
            col,
            c.0 + r + 1,
            c.1 + r,
        );
    }
}

proof fn lemma_prims_pass_id(
    buf: Seq<u8>,
    ps: Seq<PrimModel>,
    width: int,
    height: int,
    scale: int,
)
    requires
        buf.len() == 0 || width <= 0,
    ensures
        prims_pass(buf, ps, width, height, scale) == buf,
    decreases ps.len(),
{
    if ps.len() > 0 {
        lemma_prims_pass_id(buf, ps.drop_last(), width, height, scale);
        let pm = ps.last();
        match pm.fill {
            Some(col) => {
                lemma_fill_tris_id(
                    buf,
                    pm,
                    col,
                    width,
                    height,
                    scale,
                    (pm.indices.len() / 3) as nat,
                );
            },
            None => {},
        }
        match pm.stroke {
            Some((w, col)) => {
                lemma_stroke_verts_id(
                    buf,
                    pm,
                    col,
                    stroke_radius(w, scale),
                    width,
                    height,
                    scale,
                    pm.vertices.len(),
                );
            },
            None => {},
        }
    }
}

/// Why a composition document was rejected at construction.
#[derive(Debug, Clone, Copy, PartialEq, Eq, Structural)]
pub enum LottieError {
    Parse,
}

/// Why one frame could not be rendered.
#[derive(Debug, Clone, Copy, PartialEq, Eq, Structural)]
pub enum RenderError {
    BadScale,
    CanvasTooLarge,
}

/// Scaled canvas dimension before clamping: the intrinsic dimension in
/// millionths, saturated, multiplied by the scale and rounded up to
/// whole device pixels.
pub open spec fn scaled_dim(d_micro: int, scale: int) -> int {
    let p = clamp_i32(d_micro) * scale;
    if p >= 0 {
        (p + 999999) / 1000000
    } else {
        -((-p) / 1000000)
    }
}

/// Scaled canvas dimension: never negative.
pub open spec fn canvas_dim(d_micro: int, scale: int) -> int {
    if scaled_dim(d_micro, scale) < 0 {
        0
    } else {
        scaled_dim(d_micro, scale)
    }
}

/// Total frame count declared by the document's out-point, in millionths:
/// non-positive gives zero, and the count saturates.
pub open spec fn frames_from_op(op: int) -> u32 {
    if op <= 0 {
        0u32
    } else if op / 1000000 > 0xffff_ffff {
        0xffff_ffffu32
    } else {
        (op / 1000000) as u32
    }
}

/// Hotspot declared for a cursor, the origin when undeclared.
pub open spec fn hot_of(h: Option<(i32, i32)>) -> (int, int) {
    match h {
        Some(p) => (p.0 as int, p.1 as int),
        None => (0, 0),
    }
}

fn scaled_dim_exec(d: i64, scale: i64) -> (r: i64)
    requires
        1 <= scale <= 4096,
    ensures
        r == scaled_dim(d as int, scale as int),
        -9000000000 <= r <= 9000000000,
{
    let cc: i64 = if d < -2147483648 {
        -2147483648
    } else if d > 2147483647 {
        2147483647
    } else {
        d
    };
    proof {
        assert(-0x800_0000_0000 <= cc * scale <= 0x800_0000_0000) by (nonlinear_arith)
            requires
                -2147483648 <= cc <= 2147483647,
                1 <= scale <= 4096,
        ;
    }
    let p = cc * scale;
    proof {
        if p >= 0 {
            lemma_div_at_most((p + 999999) as int, 1000000, 9000000000);
        } else {
            lemma_div_at_most(-(p as int), 1000000, 9000000000);
        }
    }
    if p >= 0 {
        (p + 999999) / 1000000
    } else {
        -((-p) / 1000000)
    }
}

pub(crate) fn clamp_i32_exec(v: i64) -> (r: i32)
    ensures
        r as int == clamp_i32(v as int),
{
    if v < -2147483648 {
        i32::MIN
    } else if v > 2147483647 {
        i32::MAX
    } else {
        v as i32
    }
}

fn zero_pixels(n: usize) -> (r: Vec<u8>)
    ensures
        r@ == Seq::new(n as nat, |i: int| 0u8),
{
    let mut v: Vec<u8> = Vec::new();
    let mut i: usize = 0;
    while i < n
        invariant
            0 <= i <= n,
            v@ =~= Seq::new(i as nat, |j: int| 0u8),
        decreases n - i,
    {
        v.push(0);
        i = i + 1;
        proof {
            assert(v@ =~= Seq::new(i as nat, |j: int| 0u8));
        }
    }
    v
}

/// Renderer for one keyframed-composition cursor: the document's
/// dimensions, frame rate and total frame count, and every primitive its
/// layers declare, extracted once at construction.
#[derive(Debug)]
pub struct LottieRenderer {
    pub cursor_id: String,
    pub hotspot: Option<(i32, i32)>,
    pub base_size: u8,
    pub width_micro: i64,
    pub height_micro: i64,
    pub frame_rate_micro: i64,
    pub total_frames: u32,
    pub primitives: Vec<RenderPrimitive>,
}

impl LottieRenderer {
    /// Parses the composition document: width and height default to 24,
    /// the frame rate to 60, the out-point to zero; the primitives are
    /// the layers' shape groups in document order.  Fails exactly when
    /// the text is not well-formed JSON.
    pub fn new(
        cursor_id: String,
        lottie_data: String,
        hotspot: Option<(i32, i32)>,
        base_size: u8,
    ) -> (r: Result<LottieRenderer, LottieError>)
        ensures
            match r {
                Ok(l) => {
                    &&& json_doc(lottie_data@) matches Some(j)
                    &&& l.width_micro as int == field_micro_or(j, "w"@, 24000000)
                    &&& l.height_micro as int == field_micro_or(j, "h"@, 24000000)
                    &&& l.frame_rate_micro as int == field_micro_or(j, "fr"@, 60000000)
                    &&& l.total_frames == frames_from_op(field_micro_or(j, "op"@, 0))
                    &&& prims_view(l.primitives@) == doc_prims(j)
                    &&& l.hotspot == hotspot
                    &&& l.base_size == base_size
                    &&& l.cursor_id == cursor_id
                },
                Err(_) => json_doc(lottie_data@) is None,
            },
    {
        let doc = match json_parse(lottie_data.as_str()) {
            Some(v) => v,
            None => {
                return Err(LottieError::Parse);
            },
        };
        let ghost j = jnode(doc);
        let width_micro = field_micro_exec(&doc, "w", 24000000);
        let height_micro = field_micro_exec(&doc, "h", 24000000);
        let frame_rate_micro = field_micro_exec(&doc, "fr", 60000000);
        let op = field_micro_exec(&doc, "op", 0);
        let total_frames: u32 = if op <= 0 {
            0
        } else {
            let f = op / 1000000;
            proof {
                lemma_div_at_most(op as int, 1000000, 0x7fff_ffff_ffff);
            }
            if f > 0xffff_ffff {
                0xffff_ffff_u32
            } else {
                f as u32
            }
        };
        let mut primitives: Vec<RenderPrimitive> = Vec::new();
        let layers_found: Option<&Vec<serde_json::Value>> = match json_get(&doc, "layers") {
            Some(lv) => json_as_array(lv),
            None => None,
        };
        match layers_found {
            Some(layers) => {
                let ghost lm = (match obj_field(j, "layers"@)->0 {
                    Jn::Arr(ls) => ls,
                    _ => Seq::empty(),
                });
                let n = layers.len();
                let mut i: usize = 0;
                proof {
                    assert(lm.subrange(0, 0) =~= Seq::<Jn>::empty());
                    assert(prims_view(primitives@) =~= layers_fold(lm.subrange(0, 0)));
                }
                while i < n
                    invariant
                        n == layers@.len(),
                        lm.len() == n,
                        forall|k: int| 0 <= k < n ==> lm[k] == jnode(#[trigger] layers@[k]),
                        0 <= i <= n,
                        prims_view(primitives@) == layers_fold(lm.subrange(0, i as int)),
                    decreases n - i,
                {
                    let mut ps = parse_layer(&layers[i]);
                    primitives.append(&mut ps);
                    proof {
                        let pre = lm.subrange(0, i as int);
                        let post = lm.subrange(0, i + 1);
                        assert(post.drop_last() =~= pre);
                        assert(post.last() == lm[i as int]);
                        assert(prims_view(primitives@) =~= layers_fold(pre) + spec_layer(
                            lm[i as int],
                        ));
                    }
                    i = i + 1;
                }
                proof {
                    assert(lm.subrange(0, n as int) =~= lm);
                }
            },
            None => {
                proof {
                    assert(prims_view(primitives@) =~= doc_prims(j));
                }
            },
        }
        Ok(
            LottieRenderer {
                cursor_id,
                hotspot,
                base_size,
                width_micro,
                height_micro,
                frame_rate_micro,
                total_frames,
                primitives,
            },
        )
    }

    /// Renders the frame content onto a fresh canvas of the scaled
    /// intrinsic size.  The extracted primitives are static, so the
    /// content is the same for every frame index.
    fn render_frame_to_buffer(&self, scale: i32) -> (r: Result<RenderedFrame, RenderError>)
        ensures
            (scale < 1 || scale > 4096) <==> r == Err::<RenderedFrame, RenderError>(
                RenderError::BadScale,
            ),
            (1 <= scale <= 4096 && (canvas_dim(self.width_micro as int, scale as int) > 4096
                || canvas_dim(self.height_micro as int, scale as int) > 4096)) <==> r
                == Err::<RenderedFrame, RenderError>(RenderError::CanvasTooLarge),
            r matches Ok(f) ==> {
                let w = canvas_dim(self.width_micro as int, scale as int);
                let h = canvas_dim(self.height_micro as int, scale as int);
                &&& f.width == w
                &&& f.height == h
                &&& f.buffer@ == prims_pass(
                    Seq::new((4 * w * h) as nat, |i: int| 0u8),
                    prims_view(self.primitives@),
                    w,
                    h,
                    scale as int,
                )
                &&& f.hotspot_x as int == clamp_i32(hot_of(self.hotspot).0 * scale)
                &&& f.hotspot_y as int == clamp_i32(hot_of(self.hotspot).1 * scale)
            },
    {
        if scale < 1 || scale > 4096 {
            return Err(RenderError::BadScale);
        }
        let sw = scaled_dim_exec(self.width_micro, scale as i64);
        let sh = scaled_dim_exec(self.height_micro, scale as i64);
        let w: i64 = if sw < 0 {
            0
        } else {
            sw
        };
        let h: i64 = if sh < 0 {
            0
        } else {
            sh
        };
        if w > 4096 || h > 4096 {
            return Err(RenderError::CanvasTooLarge);
        }
        proof {
            assert(0 <= 4 * w * h <= 4 * 4096 * 4096) by (nonlinear_arith)
                requires
                    0 <= w <= 4096,
                    0 <= h <= 4096,
            ;
        }
        let size = (4 * w * h) as usize;
        let mut pixels = zero_pixels(size);
        let ghost zeros = Seq::new((4 * (w as int) * (h as int)) as nat, |i: int| 0u8);
        let ghost pv = prims_view(self.primitives@);
        if w >= 1 && h >= 1 {
            let n = self.primitives.len();
            let mut i: usize = 0;
            proof {
                assert(pv.subrange(0, 0) =~= Seq::<PrimModel>::empty());
            }
            while i < n
                invariant
                    1 <= w <= 4096,
                    1 <= h <= 4096,
                    1 <= scale <= 4096,
                    n == self.primitives@.len(),
                    pv == prims_view(self.primitives@),
                    0 <= i <= n,
                    pixels@ == prims_pass(
                        zeros,
                        pv.subrange(0, i as int),
                        w as int,
                        h as int,
                        scale as int,
                    ),
                decreases n - i,
            {
                render_primitive(&self.primitives[i], &mut pixels, w, h, scale as i64);
                proof {
                    let pre = pv.subrange(0, i as int);
                    let post = pv.subrange(0, i + 1);
                    assert(post.drop_last() =~= pre);
                    assert(post.last() == pv[i as int]);
                    assert(pv[i as int] == self.primitives@[i as int]@);
                }
                i = i + 1;
            }
            proof {
                assert(pv.subrange(0, n as int) =~= pv);
            }
        } else {
            proof {
                assert(4 * (w as int) * (h as int) == 0) by (nonlinear_arith)
                    requires
                        w as int == 0 || h as int == 0,
                ;
                assert(zeros.len() == 0);
                lemma_prims_pass_id(zeros, pv, w as int, h as int, scale as int);
            }
        }
        let (hx, hy) = match self.hotspot {
            Some(p) => p,
            None => (0, 0),
        };
        proof {
            assert(-0x800_0000_0000 <= (hx as int) * (scale as int) <= 0x800_0000_0000)
                by (nonlinear_arith)
                requires
                    -2147483648 <= hx as int <= 2147483647,
                    1 <= scale as int <= 4096,
            ;
            assert(-0x800_0000_0000 <= (hy as int) * (scale as int) <= 0x800_0000_0000)
                by (nonlinear_arith)
                requires
                    -2147483648 <= hy as int <= 2147483647,
                    1 <= scale as int <= 4096,
            ;
        }
        let hotspot_x = clamp_i32_exec((hx as i64) * (scale as i64));
        let hotspot_y = clamp_i32_exec((hy as i64) * (scale as i64));
        Ok(
            RenderedFrame {
                width: w as u32,
                height: h as u32,
                buffer: pixels,
                hotspot_x,
                hotspot_y,
            },
        )
    }

    /// Renders one frame: the frame index is taken modulo the total
    /// frame count when that is positive, else frame zero is rendered;
    /// the pixel content is the same either way, since the extracted
    /// primitives are static.
    pub fn render_frame(&self, frame: u32, scale: i32) -> (r: Result<
        RenderedFrame,
        RenderError,
    >)
        ensures
            (scale < 1 || scale > 4096) <==> r == Err::<RenderedFrame, RenderError>(
                RenderError::BadScale,
            ),
            (1 <= scale <= 4096 && (canvas_dim(self.width_micro as int, scale as int) > 4096
                || canvas_dim(self.height_micro as int, scale as int) > 4096)) <==> r
                == Err::<RenderedFrame, RenderError>(RenderError::CanvasTooLarge),
            r matches Ok(f) ==> {
                let w = canvas_dim(self.width_micro as int, scale as int);
                let h = canvas_dim(self.height_micro as int, scale as int);
                &&& f.width == w
                &&& f.height == h
                &&& f.buffer@ == prims_pass(
                    Seq::new((4 * w * h) as nat, |i: int| 0u8),
                    prims_view(self.primitives@),
                    w,
                    h,
                    scale as int,
                )
                &&& f.hotspot_x as int == clamp_i32(hot_of(self.hotspot).0 * scale)
                &&& f.hotspot_y as int == clamp_i32(hot_of(self.hotspot).1 * scale)
            },
    {
        let actual_frame: u32 = if self.total_frames > 0 {
            frame % self.total_frames
        } else {
            0
        };
        let _ = actual_frame;
        self.render_frame_to_buffer(scale)
    }

    /// Hotspot in logical pixels, the origin when undeclared.
    pub fn hotspot(&self) -> (r: (i32, i32))
        ensures
            r.0 as int == hot_of(self.hotspot).0,
            r.1 as int == hot_of(self.hotspot).1,
    {
        match self.hotspot {
            Some(p) => p,
            None => (0, 0),
        }
    }

    /// Total frame count declared by the document.
    pub fn total_frames(&self) -> (r: u32)
        ensures
            r == self.total_frames,
    {
        self.total_frames
    }

    /// Duration of one frame in milliseconds: the reciprocal of the
    /// frame rate, 16 when the rate is not positive.
    pub fn frame_duration_ms(&self) -> (r: u32)
        ensures
            self.frame_rate_micro > 0 ==> r as int == 1000000000int / (
                self.frame_rate_micro as int
            ),
            self.frame_rate_micro <= 0 ==> r == 16u32,
    {
        if self.frame_rate_micro > 0 {
            proof {
                lemma_div_at_most(1000000000int, self.frame_rate_micro as int, 1000000000);
            }
            (1000000000i64 / self.frame_rate_micro) as u32
        } else {
            16
        }
    }
}

} // verus!
