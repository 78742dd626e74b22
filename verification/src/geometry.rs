//! Frame geometry: bounding regions, the resize decision before detection,
//! coordinate rescaling between detection space and frame space, and the
//! layout of annotation labels.
//!
//! Coordinates and dimensions are integer pixel values; ratios are applied as
//! multiply-then-divide with truncation toward zero, mirroring the float
//! multiply-then-truncate of typical image pipelines.

use vstd::arithmetic::div_mod::{
    lemma_div_is_ordered,
    lemma_div_multiples_vanish,
    lemma_div_nonincreasing,
    lemma_fundamental_div_mod,
};
use vstd::arithmetic::mul::lemma_mul_inequality;
use vstd::prelude::*;

verus! {

/// A frame size in pixels.
#[derive(Clone, Copy, PartialEq, Eq, Structural, Debug)]
pub struct Dims {
    pub width: i64,
    pub height: i64,
}

/// A bounding region in some frame's coordinate space.
#[derive(Clone, Copy, PartialEq, Eq, Structural, Debug)]
pub struct FaceBox {
    pub x: i64,
    pub y: i64,
    pub width: i64,
    pub height: i64,
}

/// The bound within which pixel coordinates and dimensions are accepted, so
/// that a product of two of them fits a machine word.
pub const COORD_BOUND: i64 = 0x8000_0000;

/// One coordinate scaled from `source` space to `target` space: multiplied by
/// the ratio, truncated toward zero.
pub open spec fn scale_coord_spec(v: int, target: int, source: int) -> int {
    if v >= 0 {
        (v * target) / source
    } else {
        -((-v * target) / source)
    }
}

/// Half of a value, truncated toward zero.
pub open spec fn half_toward_zero(d: int) -> int {
    if d >= 0 {
        d / 2
    } else {
        -((-d) / 2)
    }
}

/// The larger of two values.
pub open spec fn max_spec(a: int, b: int) -> int {
    if a >= b {
        a
    } else {
        b
    }
}

/// A value clamped to an inclusive range.
pub open spec fn clamp_spec(v: int, lo: int, hi: int) -> int {
    if v < lo {
        lo
    } else if v > hi {
        hi
    } else {
        v
    }
}

/// Scales one coordinate from `source` space to `target` space.
pub fn scale_coord(v: i64, target: i64, source: i64) -> (r: i64)
    requires
        0 < source,
        0 < target <= COORD_BOUND,
        -COORD_BOUND <= v <= COORD_BOUND,
    ensures
        r == scale_coord_spec(v as int, target as int, source as int),
{
    let neg = v < 0;
    let mag: u64 = if neg {
        (-v) as u64
    } else {
        v as u64
    };
    proof {
        assert(mag * target <= COORD_BOUND * COORD_BOUND) by (nonlinear_arith)
            requires
                mag <= COORD_BOUND,
                0 < target <= COORD_BOUND,
        ;
    }
    let num: u64 = mag * (target as u64);
    let q: u64 = num / (source as u64);
    proof {
        lemma_div_nonincreasing(num as int, source as int);
    }
    if neg {
        -(q as i64)
    } else {
        q as i64
    }
}

/// The decision whether, and to what size, a frame is resized before
/// detection: no resize when no cap is configured or the frame already fits;
/// otherwise the larger dimension is brought to the cap, the other following
/// the aspect ratio. Without aspect preservation the frame goes straight to
/// cap-by-cap.
pub open spec fn resize_spec(cols: int, rows: int, max_size: int, keep_aspect: bool) -> Option<
    (int, int),
> {
    if max_size <= 0 {
        None
    } else if !keep_aspect {
        Some((max_size, max_size))
    } else if cols > max_size || rows > max_size {
        let md = max_spec(cols, rows);
        Some(((cols * max_size) / md, (rows * max_size) / md))
    } else {
        None
    }
}

/// Computes the resize decision for a frame of `cols` by `rows` pixels.
pub fn resize_target(cols: i64, rows: i64, max_size: i64, keep_aspect_ratio: bool) -> (r: Option<
    Dims,
>)
    requires
        0 < cols <= COORD_BOUND,
        0 < rows <= COORD_BOUND,
        max_size <= COORD_BOUND,
    ensures
        match r {
            Some(d) => resize_spec(cols as int, rows as int, max_size as int, keep_aspect_ratio)
                == Some((d.width as int, d.height as int)),
            None => resize_spec(
                cols as int,
                rows as int,
                max_size as int,
                keep_aspect_ratio,
            ) is None,
        },
{
    if max_size <= 0 {
        return None;
    }
    if !keep_aspect_ratio {
        return Some(Dims { width: max_size, height: max_size });
    }
    if cols <= max_size && rows <= max_size {
        return None;
    }
    let md: u64 = if cols >= rows {
        cols as u64
    } else {
        rows as u64
    };
    proof {
        assert(cols * max_size <= COORD_BOUND * COORD_BOUND) by (nonlinear_arith)
            requires
                0 < cols <= COORD_BOUND,
                0 < max_size <= COORD_BOUND,
        ;
        assert(rows * max_size <= COORD_BOUND * COORD_BOUND) by (nonlinear_arith)
            requires
                0 < rows <= COORD_BOUND,
                0 < max_size <= COORD_BOUND,
        ;
    }
    let w: u64 = (cols as u64) * (max_size as u64) / md;
    let h: u64 = (rows as u64) * (max_size as u64) / md;
    proof {
        lemma_resize_dims_bounded(cols as int, rows as int, max_size as int);
    }
    Some(Dims { width: w as i64, height: h as i64 })
}

/// A resize that preserves aspect ratio never exceeds the cap, and brings
/// the larger dimension to exactly the cap.
pub proof fn lemma_resize_dims_bounded(cols: int, rows: int, max_size: int)
    requires
        0 < cols,
        0 < rows,
        0 < max_size,
    ensures
        (cols * max_size) / max_spec(cols, rows) <= max_size,
        (rows * max_size) / max_spec(cols, rows) <= max_size,
        max_spec(
            (cols * max_size) / max_spec(cols, rows),
            (rows * max_size) / max_spec(cols, rows),
        ) == max_size,
        0 <= (cols * max_size) / max_spec(cols, rows),
        0 <= (rows * max_size) / max_spec(cols, rows),
{
    let md = max_spec(cols, rows);
    lemma_mul_inequality(cols, md, max_size);
    lemma_mul_inequality(rows, md, max_size);
    lemma_div_is_ordered(cols * max_size, md * max_size, md);
    lemma_div_is_ordered(rows * max_size, md * max_size, md);
    lemma_div_multiples_vanish(max_size, md);
    if cols >= rows {
        assert((cols * max_size) / md == max_size);
    } else {
        assert((rows * max_size) / md == max_size);
    }
    assert(0 <= cols * max_size) by (nonlinear_arith)
        requires
            0 < cols && 0 < max_size,
    ;
    assert(0 <= rows * max_size) by (nonlinear_arith)
        requires
            0 < rows && 0 < max_size,
    ;
    lemma_div_is_ordered(0, cols * max_size, md);
    lemma_div_is_ordered(0, rows * max_size, md);
}

/// Rescaling round trip: a nonnegative coordinate scaled from `source` space
/// to `target` space and back lands at or just below where it started; the
/// shortfall, multiplied by `target`, is below `source + target`. In
/// particular, scaling back up to a space at least as fine (`target >=
/// source`) loses at most one pixel.
pub proof fn lemma_rescale_round_trip(v: int, target: int, source: int)
    requires
        v >= 0,
        0 < target,
        0 < source,
    ensures
        scale_coord_spec(scale_coord_spec(v, target, source), source, target) <= v,
        target * (v - scale_coord_spec(scale_coord_spec(v, target, source), source, target))
            <= source + target - 2,
        target >= source ==> v - scale_coord_spec(
            scale_coord_spec(v, target, source),
            source,
            target,
        ) <= 1,
{
    let y = (v * target) / source;
    lemma_fundamental_div_mod(v * target, source);
    let r1 = (v * target) % source;
    assert(0 <= v * target) by (nonlinear_arith)
        requires
            v >= 0 && target > 0,
    ;
    lemma_div_is_ordered(0, v * target, source);
    assert(y >= 0);
    assert(scale_coord_spec(v, target, source) == y);
    let z = (y * source) / target;
    lemma_fundamental_div_mod(y * source, target);
    let r2 = (y * source) % target;
    assert(0 <= y * source) by (nonlinear_arith)
        requires
            y >= 0 && source > 0,
    ;
    lemma_div_is_ordered(0, y * source, target);
    assert(z >= 0);
    assert(scale_coord_spec(y, source, target) == z);
    assert(y * source == source * y) by (nonlinear_arith);
    assert(v * target == target * v) by (nonlinear_arith);
    assert(y * source == v * target - r1);
    assert(target * z == y * source - r2);
    assert(target * z == target * v - r1 - r2);
    assert(target * (v - z) == r1 + r2) by (nonlinear_arith)
        requires
            target * z == target * v - r1 - r2,
    ;
    assert(r1 + r2 <= source + target - 2);
    assert(z <= v) by (nonlinear_arith)
        requires
            target * (v - z) == r1 + r2,
            r1 >= 0,
            r2 >= 0,
            target > 0,
    ;
    if target >= source {
        assert(v - z <= 1) by (nonlinear_arith)
            requires
                target * (v - z) <= source + target - 2,
                target >= source,
                target > 0,
                z <= v,
        ;
    }
}

/// Halves a value, truncating toward zero.
pub fn half(d: i64) -> (r: i64)
    requires
        -0x4000_0000_0000_0000 <= d <= 0x4000_0000_0000_0000,
    ensures
        r == half_toward_zero(d as int),
{
    let neg = d < 0;
    let mag: u64 = if neg {
        (-d) as u64
    } else {
        d as u64
    };
    let q = mag / 2;
    proof {
        lemma_div_nonincreasing(mag as int, 2);
    }
    if neg {
        -(q as i64)
    } else {
        q as i64
    }
}

/// Where an annotation label and its background panel go, relative to a
/// bounding region: the text is centred over the region and sits just above
/// it, never above the frame's top edge; the panel pads the text by two
/// pixels on each side.
pub struct LabelLayout {
    pub text_x: i64,
    pub text_y: i64,
    pub baseline_y: i64,
    pub background: FaceBox,
}

/// Computes the label layout for a bounding region and a measured text size.
pub fn label_layout(bbox: FaceBox, text_width: i64, text_height: i64) -> (r: LabelLayout)
    requires
        -COORD_BOUND <= bbox.x <= COORD_BOUND,
        -COORD_BOUND <= bbox.y <= COORD_BOUND,
        -COORD_BOUND <= bbox.width <= COORD_BOUND,
        0 <= text_width <= COORD_BOUND,
        0 <= text_height <= COORD_BOUND,
    ensures
        r.text_x == bbox.x + half_toward_zero(bbox.width - text_width),
        r.text_y == max_spec(bbox.y - text_height - 5, 0),
        r.baseline_y == r.text_y + text_height,
        r.background.x == r.text_x - 2,
        r.background.y == r.text_y - 2,
        r.background.width == text_width + 4,
        r.background.height == text_height + 4,
{
    let centered = half(bbox.width - text_width);
    let text_x = bbox.x + centered;
    let above = bbox.y - text_height - 5;
    let text_y = if above >= 0 {
        above
    } else {
        0
    };
    LabelLayout {
        text_x,
        text_y,
        baseline_y: text_y + text_height,
        background: FaceBox {
            x: text_x - 2,
            y: text_y - 2,
            width: text_width + 4,
            height: text_height + 4,
        },
    }
}

/// The annotation sizing for a frame: the font ratio (in thousandths,
/// clamped between one half and three) and the stroke thickness (clamped
/// between one and four), both growing with the frame width against a
/// reference width of 800 pixels.
pub fn annotation_scale(cols: i64) -> (r: (i64, i64))
    requires
        0 <= cols <= COORD_BOUND,
    ensures
        r.0 == clamp_spec((cols * 1000) / 800, 500, 3000),
        r.1 == clamp_spec(cols / 800, 1, 4),
{
    let ratio: u64 = (cols as u64) * 1000 / 800;
    let font_milli: i64 = if ratio < 500 {
        500
    } else if ratio > 3000 {
        3000
    } else {
        proof {
            lemma_div_nonincreasing((cols * 1000) as int, 800);
        }
        ratio as i64
    };
    let th: u64 = (cols as u64) / 800;
    let thickness: i64 = if th < 1 {
        1
    } else if th > 4 {
        4
    } else {
        th as i64
    };
    (font_milli, thickness)
}

} // verus!
