//! The color model: palette entries, color classes, and the distance and
//! rating operations the mapping strategies are built on.

use vstd::prelude::*;

verus! {

/// Semantic color bucket used as a classification label and as a grouping key
/// for nearest-in-class search.
#[derive(Debug, Clone, Copy, PartialEq, Eq, Hash, PartialOrd, Ord, Structural)]
pub enum ColorClass {
    Blues,
    Whites,
    Greys,
    Red,
    Purple,
    Green,
    Yellow,
    Orange,
}

/// Per-class weight added to vote counts during classification. The weights
/// are an adjustable tie-breaking hook; all of them are currently zero, so
/// voting is unweighted.
pub open spec fn class_weight(c: ColorClass) -> int {
    match c {
        ColorClass::Blues => 0,
        ColorClass::Whites => 0,
        ColorClass::Greys => 0,
        ColorClass::Red => 0,
        ColorClass::Purple => 0,
        ColorClass::Green => 0,
        ColorClass::Yellow => 0,
        ColorClass::Orange => 0,
    }
}

impl ColorClass {
    pub fn weight(&self) -> (w: usize)
        ensures
            w == class_weight(*self),
    {
        match self {
            Self::Blues => 0,
            Self::Whites => 0,
            Self::Greys => 0,
            Self::Red => 0,
            Self::Purple => 0,
            Self::Green => 0,
            Self::Yellow => 0,
            Self::Orange => 0,
        }
    }
}

/// A palette entry: an RGB triple plus the class assigned to it at
/// construction. The class is never recomputed from the channels; palettes
/// hand-assign it to control classification independently of literal hue.
#[derive(Debug, PartialEq, Eq, PartialOrd, Clone, Copy, Structural)]
pub struct Rgbx(pub u8, pub u8, pub u8, pub ColorClass);

/// Absolute difference of two integers.
pub open spec fn abs_diff_int(a: int, b: int) -> int {
    if a >= b {
        a - b
    } else {
        b - a
    }
}

/// Manhattan distance between a palette entry and a raw pixel: the sum of the
/// absolute per-channel differences over red, green and blue. Alpha is
/// ignored.
pub open spec fn man_dist(c: Rgbx, px: Seq<u8>) -> int {
    abs_diff_int(c.0 as int, px[0] as int) + abs_diff_int(c.1 as int, px[1] as int) + abs_diff_int(
        c.2 as int,
        px[2] as int,
    )
}

/// Squared Euclidean distance between a palette entry and a raw pixel over
/// red, green and blue. The square root is never taken: every use of the
/// Euclidean distance only compares distances, and squaring is monotonic.
pub open spec fn euclid_dist2(c: Rgbx, px: Seq<u8>) -> int {
    abs_diff_int(c.0 as int, px[0] as int) * abs_diff_int(c.0 as int, px[0] as int) + abs_diff_int(
        c.1 as int,
        px[1] as int,
    ) * abs_diff_int(c.1 as int, px[1] as int) + abs_diff_int(c.2 as int, px[2] as int)
        * abs_diff_int(c.2 as int, px[2] as int)
}

/// The blue term of the directional rating: the blue-channel difference,
/// divided by three with truncation toward zero.
pub open spec fn blue_term(c: Rgbx, px: Seq<u8>) -> int {
    if c.2 >= px[2] {
        (c.2 - px[2]) / 3
    } else {
        -((px[2] - c.2) / 3)
    }
}

/// Signed, non-symmetric "directional" rating of a palette entry against a
/// pixel: `(R_c - R_px) + (G_c - G_px) + (B_c - B_px)/3`, the division
/// truncating toward zero and binding only to the blue term. Near zero means
/// the channels are linearly balanced relative to the input; large magnitude
/// means the entry is strongly brighter (positive) or darker (negative).
pub open spec fn diff_rating_spec(c: Rgbx, px: Seq<u8>) -> int {
    (c.0 - px[0]) + (c.1 - px[1]) + blue_term(c, px)
}

/// The RGBA bytes a palette entry emits: its channels with a fixed opaque
/// alpha.
pub open spec fn rgba_seq(c: Rgbx) -> Seq<u8> {
    seq![c.0, c.1, c.2, 255u8]
}

/// One saturating step of a single channel toward a target value.
pub open spec fn step_val(orig: u8, target: u8, step: u8) -> u8 {
    if orig == target {
        orig
    } else if orig > target {
        if orig - step < target {
            target
        } else {
            (orig - step) as u8
        }
    } else {
        if orig + step > target {
            target
        } else {
            (orig + step) as u8
        }
    }
}

impl Rgbx {
    pub fn new(red: u8, green: u8, blue: u8, class: ColorClass) -> (c: Rgbx)
        ensures
            c == Rgbx(red, green, blue, class),
    {
        Rgbx(red, green, blue, class)
    }

    /// Move one channel value toward a target by at most `step`, saturating
    /// at the target.
    fn step_towards_val(orig: u8, target: u8, step: u8) -> (r: u8)
        ensures
            r == step_val(orig, target, step),
    {
        if orig == target {
            orig
        } else if orig > target {
            let x = if orig >= step {
                orig - step
            } else {
                0
            };
            if x < target {
                target
            } else {
                x
            }
        } else {
            let x = if orig <= 255 - step {
                orig + step
            } else {
                255
            };
            if x > target {
                target
            } else {
                x
            }
        }
    }

    /// The directional rating of this entry against a pixel; the closer to
    /// zero, the closer the entry is to the pixel in the channel-weighted
    /// sense.
    pub fn diff_rating(&self, rgb_val: &[u8; 4]) -> (d: i16)
        ensures
            d == diff_rating_spec(*self, rgb_val@),
    {
        let r: i16 = self.0 as i16 - rgb_val[0] as i16;
        let g: i16 = self.1 as i16 - rgb_val[1] as i16;
        let b: i16 = if self.2 >= rgb_val[2] {
            ((self.2 - rgb_val[2]) / 3) as i16
        } else {
            -(((rgb_val[2] - self.2) / 3) as i16)
        };
        r + g + b
    }

    /// Manhattan distance between this entry and a pixel. Alpha is ignored.
    pub fn manhattan_dist(&self, rgb_val: &[u8; 4]) -> (d: u16)
        ensures
            d == man_dist(*self, rgb_val@),
    {
        let r: u16 = if self.0 >= rgb_val[0] {
            (self.0 - rgb_val[0]) as u16
        } else {
            (rgb_val[0] - self.0) as u16
        };
        let g: u16 = if self.1 >= rgb_val[1] {
            (self.1 - rgb_val[1]) as u16
        } else {
            (rgb_val[1] - self.1) as u16
        };
        let b: u16 = if self.2 >= rgb_val[2] {
            (self.2 - rgb_val[2]) as u16
        } else {
            (rgb_val[2] - self.2) as u16
        };
        r + g + b
    }

    /// Squared Euclidean distance between this entry and a pixel. Distances
    /// are only ever compared, and squaring preserves the ordering the exact
    /// Euclidean distance would give.
    pub fn euclid_dist_sq(&self, rgb_val: &[u8; 4]) -> (d: u32)
        ensures
            d == euclid_dist2(*self, rgb_val@),
    {
        let r: u32 = if self.0 >= rgb_val[0] {
            (self.0 - rgb_val[0]) as u32
        } else {
            (rgb_val[0] - self.0) as u32
        };
        let g: u32 = if self.1 >= rgb_val[1] {
            (self.1 - rgb_val[1]) as u32
        } else {
            (rgb_val[1] - self.1) as u32
        };
        let b: u32 = if self.2 >= rgb_val[2] {
            (self.2 - rgb_val[2]) as u32
        } else {
            (rgb_val[2] - self.2) as u32
        };
        proof {
            assert(r * r <= 65025 && g * g <= 65025 && b * b <= 65025) by (nonlinear_arith)
                requires
                    r <= 255,
                    g <= 255,
                    b <= 255,
            ;
        }
        r * r + g * g + b * b
    }

    /// The RGBA byte array for this entry: the immutable channels plus a
    /// fixed opaque alpha of 255.
    pub fn rgba_array(&self) -> (a: [u8; 4])
        ensures
            a@ == rgba_seq(*self),
    {
        let out: [u8; 4] = [self.0, self.1, self.2, 255];
        proof {
            assert(out@ =~= rgba_seq(*self));
        }
        out
    }

    /// The class assigned to this entry at construction.
    pub fn group(&self) -> (g: ColorClass)
        ensures
            g == self.3,
    {
        self.3
    }

    /// A new entry one saturating step closer to `other` on every channel,
    /// carrying `other`'s class.
    pub fn step_towards(&self, other: &Rgbx, step: u8) -> (c: Rgbx)
        ensures
            c == Rgbx(
                step_val(self.0, other.0, step),
                step_val(self.1, other.1, step),
                step_val(self.2, other.2, step),
                other.3,
            ),
    {
        let r = Self::step_towards_val(self.0, other.0, step);
        let g = Self::step_towards_val(self.1, other.1, step);
        let b = Self::step_towards_val(self.2, other.2, step);
        Rgbx(r, g, b, other.group())
    }
}


/// Manhattan-style distance between the channels of two palette entries.
pub open spec fn rgbx_dist(a: Rgbx, b: Rgbx) -> int {
    abs_diff_int(a.0 as int, b.0 as int) + abs_diff_int(a.1 as int, b.1 as int) + abs_diff_int(
        a.2 as int,
        b.2 as int,
    )
}

/// Zero when two entries carry the same class, one otherwise. Used only as
/// a termination measure: a step lands on the target's class even when the
/// channels already agree.
pub open spec fn class_sep(a: Rgbx, b: Rgbx) -> int {
    if a.3 == b.3 {
        0
    } else {
        1
    }
}

/// One whole-entry saturating step toward `end`, carrying `end`'s class.
pub open spec fn step_rgbx(c: Rgbx, end: Rgbx, step: u8) -> Rgbx {
    Rgbx(
        step_val(c.0, end.0, step),
        step_val(c.1, end.1, step),
        step_val(c.2, end.2, step),
        end.3,
    )
}

/// A positive step strictly shrinks the channel distance to the target.
proof fn lemma_step_closer(c: Rgbx, end: Rgbx, step: u8)
    requires
        step >= 1,
        rgbx_dist(c, end) > 0,
    ensures
        rgbx_dist(step_rgbx(c, end, step), end) < rgbx_dist(c, end),
{
}

/// The chain of colors visited when stepping from `c` until `end` is
/// reached: `c` itself, then the chain from one step onward. A zero step
/// cannot converge and yields only the starting color.
pub open spec fn grad_walk(c: Rgbx, end: Rgbx, step: u8) -> Seq<Rgbx>
    decreases rgbx_dist(c, end), class_sep(c, end),
    via grad_walk_decreases
{
    if c == end || step == 0 {
        seq![c]
    } else {
        seq![c] + grad_walk(step_rgbx(c, end, step), end, step)
    }
}

#[via_fn]
proof fn grad_walk_decreases(c: Rgbx, end: Rgbx, step: u8) {
    if !(c == end || step == 0) {
        if rgbx_dist(c, end) > 0 {
            lemma_step_closer(c, end, step);
        }
    }
}

/// The full gradient from `start` to `end`: the starting color, then every
/// color one saturating step apart, ending with `end` itself.
pub open spec fn gradient_seq(start: Rgbx, end: Rgbx, step: u8) -> Seq<Rgbx> {
    seq![start] + grad_walk(step_rgbx(start, end, step), end, step)
}

impl Rgbx {
    /// The ordered chain of colors from this entry toward `end_point`,
    /// moving every channel by at most `distance` per hop; the last element
    /// reaches `end_point` exactly. A positive step is required: a zero
    /// step on bounded channels would never converge.
    pub fn gradient(&self, end_point: &Rgbx, distance: u8) -> (r: Vec<Rgbx>)
        requires
            distance >= 1,
        ensures
            r@ == gradient_seq(*self, *end_point, distance),
            r@.len() >= 2,
    {
        let mut vals: Vec<Rgbx> = Vec::new();
        vals.push(*self);
        let mut cur: Rgbx = *self;
        loop
            invariant_except_break
                distance >= 1,
                vals@.len() >= 1,
                gradient_seq(*self, *end_point, distance) == vals@ + grad_walk(
                    step_rgbx(cur, *end_point, distance),
                    *end_point,
                    distance,
                ),
            ensures
                vals@ == gradient_seq(*self, *end_point, distance),
                vals@.len() >= 2,
            decreases rgbx_dist(cur, *end_point), class_sep(cur, *end_point),
        {
            let next = cur.step_towards(end_point, distance);
            vals.push(next);
            if next == *end_point {
                proof {
                    assert(grad_walk(next, *end_point, distance) =~= seq![next]);
                    assert(vals@ =~= gradient_seq(*self, *end_point, distance));
                }
                break;
            }
            proof {
                assert(grad_walk(step_rgbx(cur, *end_point, distance), *end_point, distance)
                    =~= seq![next] + grad_walk(
                    step_rgbx(next, *end_point, distance),
                    *end_point,
                    distance,
                ));
                assert(gradient_seq(*self, *end_point, distance) =~= vals@ + grad_walk(
                    step_rgbx(next, *end_point, distance),
                    *end_point,
                    distance,
                ));
                if rgbx_dist(cur, *end_point) > 0 {
                    lemma_step_closer(cur, *end_point, distance);
                }
            }
            cur = next;
        }
        vals
    }
}

/// The built-in hand-curated output palette.
pub open spec fn nord_seq() -> Seq<Rgbx> {
    seq![
        Rgbx(216, 222, 233, ColorClass::Whites),
        Rgbx(229, 233, 240, ColorClass::Whites),
        Rgbx(236, 239, 244, ColorClass::Whites),
        Rgbx(143, 188, 187, ColorClass::Blues),
        Rgbx(136, 192, 208, ColorClass::Blues),
        Rgbx(129, 161, 193, ColorClass::Blues),
        Rgbx(94, 129, 172, ColorClass::Blues),
        Rgbx(191, 97, 106, ColorClass::Red),
        Rgbx(208, 135, 112, ColorClass::Orange),
        Rgbx(235, 203, 139, ColorClass::Yellow),
        Rgbx(163, 190, 140, ColorClass::Green),
        Rgbx(180, 142, 173, ColorClass::Purple),
        Rgbx(46, 52, 64, ColorClass::Greys),
        Rgbx(59, 66, 82, ColorClass::Greys),
        Rgbx(67, 76, 94, ColorClass::Greys),
        Rgbx(76, 86, 106, ColorClass::Greys)
    ]
}

/// The built-in hand-curated output palette, sixteen entries spanning every
/// color class.
pub fn nord() -> (r: Vec<Rgbx>)
    ensures
        r@ == nord_seq(),
{
    let mut v: Vec<Rgbx> = Vec::new();
    v.push(Rgbx(216, 222, 233, ColorClass::Whites));
    v.push(Rgbx(229, 233, 240, ColorClass::Whites));
    v.push(Rgbx(236, 239, 244, ColorClass::Whites));
    v.push(Rgbx(143, 188, 187, ColorClass::Blues));
    v.push(Rgbx(136, 192, 208, ColorClass::Blues));
    v.push(Rgbx(129, 161, 193, ColorClass::Blues));
    v.push(Rgbx(94, 129, 172, ColorClass::Blues));
    v.push(Rgbx(191, 97, 106, ColorClass::Red));
    v.push(Rgbx(208, 135, 112, ColorClass::Orange));
    v.push(Rgbx(235, 203, 139, ColorClass::Yellow));
    v.push(Rgbx(163, 190, 140, ColorClass::Green));
    v.push(Rgbx(180, 142, 173, ColorClass::Purple));
    v.push(Rgbx(46, 52, 64, ColorClass::Greys));
    v.push(Rgbx(59, 66, 82, ColorClass::Greys));
    v.push(Rgbx(67, 76, 94, ColorClass::Greys));
    v.push(Rgbx(76, 86, 106, ColorClass::Greys));
    proof {
        assert(v@ =~= nord_seq());
    }
    v
}

/// The curated reference color table: a wide spread of hand-labeled colors
/// across every class. The double-pass nearest strategy quantizes against
/// this curated table as its coarse base-color reference. The table is
/// written down in sections to keep each piece readable.
pub open spec fn data_set_seq() -> Seq<Rgbx> {
    data_set_seq_0() + data_set_seq_1() + data_set_seq_2() + data_set_seq_3() + data_set_seq_4() + data_set_seq_5() + data_set_seq_6()
}

/// Section 0 of the curated reference color table.
pub open spec fn data_set_seq_0() -> Seq<Rgbx> {
    seq![
        Rgbx(255, 255, 255, ColorClass::Whites),
        Rgbx(224, 224, 224, ColorClass::Whites),
        Rgbx(192, 192, 192, ColorClass::Whites),
        Rgbx(236, 239, 244, ColorClass::Whites),
        Rgbx(216, 222, 233, ColorClass::Whites),
        Rgbx(229, 233, 240, ColorClass::Whites),
        Rgbx(0, 0, 0, ColorClass::Greys),
        Rgbx(8, 9, 4, ColorClass::Greys),
        Rgbx(21, 20, 13, ColorClass::Greys),
        Rgbx(32, 32, 32, ColorClass::Greys),
        Rgbx(64, 64, 64, ColorClass::Greys),
        Rgbx(96, 96, 96, ColorClass::Greys),
        Rgbx(76, 86, 106, ColorClass::Greys),
        Rgbx(46, 52, 64, ColorClass::Greys),
        Rgbx(59, 66, 82, ColorClass::Greys),
        Rgbx(67, 76, 94, ColorClass::Greys),
    ]
}

fn data_set_part_0() -> (r: Vec<Rgbx>)
    ensures
        r@ == data_set_seq_0(),
{
    let mut v: Vec<Rgbx> = Vec::new();
    v.push(Rgbx(255, 255, 255, ColorClass::Whites));
    v.push(Rgbx(224, 224, 224, ColorClass::Whites));
    v.push(Rgbx(192, 192, 192, ColorClass::Whites));
    v.push(Rgbx(236, 239, 244, ColorClass::Whites));
    v.push(Rgbx(216, 222, 233, ColorClass::Whites));
    v.push(Rgbx(229, 233, 240, ColorClass::Whites));
    v.push(Rgbx(0, 0, 0, ColorClass::Greys));
    v.push(Rgbx(8, 9, 4, ColorClass::Greys));
    v.push(Rgbx(21, 20, 13, ColorClass::Greys));
    v.push(Rgbx(32, 32, 32, ColorClass::Greys));
    v.push(Rgbx(64, 64, 64, ColorClass::Greys));
    v.push(Rgbx(96, 96, 96, ColorClass::Greys));
    v.push(Rgbx(76, 86, 106, ColorClass::Greys));
    v.push(Rgbx(46, 52, 64, ColorClass::Greys));
    v.push(Rgbx(59, 66, 82, ColorClass::Greys));
    v.push(Rgbx(67, 76, 94, ColorClass::Greys));
    proof {
        assert(v@ =~= data_set_seq_0());
    }
    v
}

/// Section 1 of the curated reference color table.
pub open spec fn data_set_seq_1() -> Seq<Rgbx> {
    seq![
        Rgbx(19, 22, 16, ColorClass::Greys),
        Rgbx(17, 3, 0, ColorClass::Greys),
        Rgbx(255, 0, 0, ColorClass::Red),
        Rgbx(255, 51, 51, ColorClass::Red),
        Rgbx(255, 102, 102, ColorClass::Red),
        Rgbx(255, 102, 102, ColorClass::Red),
        Rgbx(255, 153, 153, ColorClass::Red),
        Rgbx(204, 0, 0, ColorClass::Red),
        Rgbx(153, 0, 0, ColorClass::Red),
        Rgbx(102, 0, 0, ColorClass::Red),
        Rgbx(191, 97, 106, ColorClass::Red),
        Rgbx(128, 0, 0, ColorClass::Red),
        Rgbx(220, 20, 60, ColorClass::Red),
        Rgbx(178, 34, 34, ColorClass::Red),
        Rgbx(99, 17, 48, ColorClass::Red),
        Rgbx(73, 19, 51, ColorClass::Red),
    ]
}

fn data_set_part_1() -> (r: Vec<Rgbx>)
    ensures
        r@ == data_set_seq_1(),
{
    let mut v: Vec<Rgbx> = Vec::new();
    v.push(Rgbx(19, 22, 16, ColorClass::Greys));
    v.push(Rgbx(17, 3, 0, ColorClass::Greys));
    v.push(Rgbx(255, 0, 0, ColorClass::Red));
    v.push(Rgbx(255, 51, 51, ColorClass::Red));
    v.push(Rgbx(255, 102, 102, ColorClass::Red));
    v.push(Rgbx(255, 102, 102, ColorClass::Red));
    v.push(Rgbx(255, 153, 153, ColorClass::Red));
    v.push(Rgbx(204, 0, 0, ColorClass::Red));
    v.push(Rgbx(153, 0, 0, ColorClass::Red));
    v.push(Rgbx(102, 0, 0, ColorClass::Red));
    v.push(Rgbx(191, 97, 106, ColorClass::Red));
    v.push(Rgbx(128, 0, 0, ColorClass::Red));
    v.push(Rgbx(220, 20, 60, ColorClass::Red));
    v.push(Rgbx(178, 34, 34, ColorClass::Red));
    v.push(Rgbx(99, 17, 48, ColorClass::Red));
    v.push(Rgbx(73, 19, 51, ColorClass::Red));
    proof {
        assert(v@ =~= data_set_seq_1());
    }
    v
}

/// Section 2 of the curated reference color table.
pub open spec fn data_set_seq_2() -> Seq<Rgbx> {
    seq![
        Rgbx(49, 16, 48, ColorClass::Red),
        Rgbx(255, 128, 0, ColorClass::Orange),
        Rgbx(255, 153, 51, ColorClass::Orange),
        Rgbx(255, 178, 102, ColorClass::Orange),
        Rgbx(204, 102, 0, ColorClass::Orange),
        Rgbx(153, 76, 0, ColorClass::Orange),
        Rgbx(102, 51, 0, ColorClass::Orange),
        Rgbx(208, 135, 112, ColorClass::Orange),
        Rgbx(232, 134, 61, ColorClass::Orange),
        Rgbx(224, 95, 11, ColorClass::Orange),
        Rgbx(255, 255, 0, ColorClass::Yellow),
        Rgbx(255, 255, 51, ColorClass::Yellow),
        Rgbx(255, 255, 102, ColorClass::Yellow),
        Rgbx(255, 255, 153, ColorClass::Yellow),
        Rgbx(255, 255, 204, ColorClass::Yellow),
        Rgbx(255, 254, 114, ColorClass::Yellow),
    ]
}

fn data_set_part_2() -> (r: Vec<Rgbx>)
    ensures
        r@ == data_set_seq_2(),
{
    let mut v: Vec<Rgbx> = Vec::new();
    v.push(Rgbx(49, 16, 48, ColorClass::Red));
    v.push(Rgbx(255, 128, 0, ColorClass::Orange));
    v.push(Rgbx(255, 153, 51, ColorClass::Orange));
    v.push(Rgbx(255, 178, 102, ColorClass::Orange));
    v.push(Rgbx(204, 102, 0, ColorClass::Orange));
    v.push(Rgbx(153, 76, 0, ColorClass::Orange));
    v.push(Rgbx(102, 51, 0, ColorClass::Orange));
    v.push(Rgbx(208, 135, 112, ColorClass::Orange));
    v.push(Rgbx(232, 134, 61, ColorClass::Orange));
    v.push(Rgbx(224, 95, 11, ColorClass::Orange));
    v.push(Rgbx(255, 255, 0, ColorClass::Yellow));
    v.push(Rgbx(255, 255, 51, ColorClass::Yellow));
    v.push(Rgbx(255, 255, 102, ColorClass::Yellow));
    v.push(Rgbx(255, 255, 153, ColorClass::Yellow));
    v.push(Rgbx(255, 255, 204, ColorClass::Yellow));
    v.push(Rgbx(255, 254, 114, ColorClass::Yellow));
    proof {
        assert(v@ =~= data_set_seq_2());
    }
    v
}

/// Section 3 of the curated reference color table.
pub open spec fn data_set_seq_3() -> Seq<Rgbx> {
    seq![
        Rgbx(204, 204, 0, ColorClass::Yellow),
        Rgbx(153, 153, 0, ColorClass::Yellow),
        Rgbx(102, 102, 0, ColorClass::Yellow),
        Rgbx(51, 51, 0, ColorClass::Yellow),
        Rgbx(235, 203, 139, ColorClass::Yellow),
        Rgbx(255, 255, 204, ColorClass::Yellow),
        Rgbx(255, 204, 153, ColorClass::Yellow),
        Rgbx(0, 255, 0, ColorClass::Green),
        Rgbx(51, 255, 51, ColorClass::Green),
        Rgbx(102, 255, 102, ColorClass::Green),
        Rgbx(153, 255, 153, ColorClass::Green),
        Rgbx(204, 255, 204, ColorClass::Green),
        Rgbx(0, 204, 0, ColorClass::Green),
        Rgbx(0, 153, 0, ColorClass::Green),
        Rgbx(0, 102, 0, ColorClass::Green),
        Rgbx(128, 255, 0, ColorClass::Green),
    ]
}

fn data_set_part_3() -> (r: Vec<Rgbx>)
    ensures
        r@ == data_set_seq_3(),
{
    let mut v: Vec<Rgbx> = Vec::new();
    v.push(Rgbx(204, 204, 0, ColorClass::Yellow));
    v.push(Rgbx(153, 153, 0, ColorClass::Yellow));
    v.push(Rgbx(102, 102, 0, ColorClass::Yellow));
    v.push(Rgbx(51, 51, 0, ColorClass::Yellow));
    v.push(Rgbx(235, 203, 139, ColorClass::Yellow));
    v.push(Rgbx(255, 255, 204, ColorClass::Yellow));
    v.push(Rgbx(255, 204, 153, ColorClass::Yellow));
    v.push(Rgbx(0, 255, 0, ColorClass::Green));
    v.push(Rgbx(51, 255, 51, ColorClass::Green));
    v.push(Rgbx(102, 255, 102, ColorClass::Green));
    v.push(Rgbx(153, 255, 153, ColorClass::Green));
    v.push(Rgbx(204, 255, 204, ColorClass::Green));
    v.push(Rgbx(0, 204, 0, ColorClass::Green));
    v.push(Rgbx(0, 153, 0, ColorClass::Green));
    v.push(Rgbx(0, 102, 0, ColorClass::Green));
    v.push(Rgbx(128, 255, 0, ColorClass::Green));
    proof {
        assert(v@ =~= data_set_seq_3());
    }
    v
}

/// Section 4 of the curated reference color table.
pub open spec fn data_set_seq_4() -> Seq<Rgbx> {
    seq![
        Rgbx(153, 255, 51, ColorClass::Green),
        Rgbx(178, 255, 102, ColorClass::Green),
        Rgbx(204, 255, 153, ColorClass::Green),
        Rgbx(229, 255, 204, ColorClass::Green),
        Rgbx(102, 204, 0, ColorClass::Green),
        Rgbx(76, 153, 0, ColorClass::Green),
        Rgbx(0, 255, 128, ColorClass::Green),
        Rgbx(51, 255, 153, ColorClass::Green),
        Rgbx(102, 255, 178, ColorClass::Green),
        Rgbx(0, 204, 102, ColorClass::Green),
        Rgbx(0, 153, 76, ColorClass::Green),
        Rgbx(255, 0, 255, ColorClass::Purple),
        Rgbx(127, 0, 255, ColorClass::Purple),
        Rgbx(153, 51, 255, ColorClass::Purple),
        Rgbx(178, 102, 255, ColorClass::Purple),
        Rgbx(204, 153, 255, ColorClass::Purple),
    ]
}

fn data_set_part_4() -> (r: Vec<Rgbx>)
    ensures
        r@ == data_set_seq_4(),
{
    let mut v: Vec<Rgbx> = Vec::new();
    v.push(Rgbx(153, 255, 51, ColorClass::Green));
    v.push(Rgbx(178, 255, 102, ColorClass::Green));
    v.push(Rgbx(204, 255, 153, ColorClass::Green));
    v.push(Rgbx(229, 255, 204, ColorClass::Green));
    v.push(Rgbx(102, 204, 0, ColorClass::Green));
    v.push(Rgbx(76, 153, 0, ColorClass::Green));
    v.push(Rgbx(0, 255, 128, ColorClass::Green));
    v.push(Rgbx(51, 255, 153, ColorClass::Green));
    v.push(Rgbx(102, 255, 178, ColorClass::Green));
    v.push(Rgbx(0, 204, 102, ColorClass::Green));
    v.push(Rgbx(0, 153, 76, ColorClass::Green));
    v.push(Rgbx(255, 0, 255, ColorClass::Purple));
    v.push(Rgbx(127, 0, 255, ColorClass::Purple));
    v.push(Rgbx(153, 51, 255, ColorClass::Purple));
    v.push(Rgbx(178, 102, 255, ColorClass::Purple));
    v.push(Rgbx(204, 153, 255, ColorClass::Purple));
    proof {
        assert(v@ =~= data_set_seq_4());
    }
    v
}

/// Section 5 of the curated reference color table.
pub open spec fn data_set_seq_5() -> Seq<Rgbx> {
    seq![
        Rgbx(102, 0, 204, ColorClass::Purple),
        Rgbx(76, 0, 153, ColorClass::Purple),
        Rgbx(255, 51, 255, ColorClass::Purple),
        Rgbx(255, 102, 255, ColorClass::Purple),
        Rgbx(255, 153, 255, ColorClass::Purple),
        Rgbx(204, 0, 204, ColorClass::Purple),
        Rgbx(153, 0, 153, ColorClass::Purple),
        Rgbx(255, 0, 127, ColorClass::Purple),
        Rgbx(255, 51, 153, ColorClass::Purple),
        Rgbx(204, 0, 102, ColorClass::Purple),
        Rgbx(180, 142, 173, ColorClass::Purple),
        Rgbx(0, 0, 255, ColorClass::Blues),
        Rgbx(51, 51, 255, ColorClass::Blues),
        Rgbx(102, 102, 255, ColorClass::Blues),
        Rgbx(153, 153, 255, ColorClass::Blues),
        Rgbx(204, 204, 255, ColorClass::Blues),
    ]
}

fn data_set_part_5() -> (r: Vec<Rgbx>)
    ensures
        r@ == data_set_seq_5(),
{
    let mut v: Vec<Rgbx> = Vec::new();
    v.push(Rgbx(102, 0, 204, ColorClass::Purple));
    v.push(Rgbx(76, 0, 153, ColorClass::Purple));
    v.push(Rgbx(255, 51, 255, ColorClass::Purple));
    v.push(Rgbx(255, 102, 255, ColorClass::Purple));
    v.push(Rgbx(255, 153, 255, ColorClass::Purple));
    v.push(Rgbx(204, 0, 204, ColorClass::Purple));
    v.push(Rgbx(153, 0, 153, ColorClass::Purple));
    v.push(Rgbx(255, 0, 127, ColorClass::Purple));
    v.push(Rgbx(255, 51, 153, ColorClass::Purple));
    v.push(Rgbx(204, 0, 102, ColorClass::Purple));
    v.push(Rgbx(180, 142, 173, ColorClass::Purple));
    v.push(Rgbx(0, 0, 255, ColorClass::Blues));
    v.push(Rgbx(51, 51, 255, ColorClass::Blues));
    v.push(Rgbx(102, 102, 255, ColorClass::Blues));
    v.push(Rgbx(153, 153, 255, ColorClass::Blues));
    v.push(Rgbx(204, 204, 255, ColorClass::Blues));
    proof {
        assert(v@ =~= data_set_seq_5());
    }
    v
}

/// Section 6 of the curated reference color table.
pub open spec fn data_set_seq_6() -> Seq<Rgbx> {
    seq![
        Rgbx(0, 0, 204, ColorClass::Blues),
        Rgbx(0, 0, 153, ColorClass::Blues),
        Rgbx(0, 0, 102, ColorClass::Blues),
        Rgbx(0, 128, 255, ColorClass::Blues),
        Rgbx(0, 153, 153, ColorClass::Blues),
        Rgbx(0, 204, 204, ColorClass::Blues),
        Rgbx(51, 153, 255, ColorClass::Blues),
        Rgbx(102, 178, 255, ColorClass::Blues),
        Rgbx(153, 204, 255, ColorClass::Blues),
        Rgbx(204, 229, 255, ColorClass::Blues),
        Rgbx(0, 102, 204, ColorClass::Blues),
        Rgbx(0, 76, 153, ColorClass::Blues),
        Rgbx(0, 255, 255, ColorClass::Blues),
        Rgbx(51, 255, 255, ColorClass::Blues),
        Rgbx(102, 255, 255, ColorClass::Blues),
        Rgbx(153, 255, 255, ColorClass::Blues),
    ]
}

fn data_set_part_6() -> (r: Vec<Rgbx>)
    ensures
        r@ == data_set_seq_6(),
{
    let mut v: Vec<Rgbx> = Vec::new();
    v.push(Rgbx(0, 0, 204, ColorClass::Blues));
    v.push(Rgbx(0, 0, 153, ColorClass::Blues));
    v.push(Rgbx(0, 0, 102, ColorClass::Blues));
    v.push(Rgbx(0, 128, 255, ColorClass::Blues));
    v.push(Rgbx(0, 153, 153, ColorClass::Blues));
    v.push(Rgbx(0, 204, 204, ColorClass::Blues));
    v.push(Rgbx(51, 153, 255, ColorClass::Blues));
    v.push(Rgbx(102, 178, 255, ColorClass::Blues));
    v.push(Rgbx(153, 204, 255, ColorClass::Blues));
    v.push(Rgbx(204, 229, 255, ColorClass::Blues));
    v.push(Rgbx(0, 102, 204, ColorClass::Blues));
    v.push(Rgbx(0, 76, 153, ColorClass::Blues));
    v.push(Rgbx(0, 255, 255, ColorClass::Blues));
    v.push(Rgbx(51, 255, 255, ColorClass::Blues));
    v.push(Rgbx(102, 255, 255, ColorClass::Blues));
    v.push(Rgbx(153, 255, 255, ColorClass::Blues));
    proof {
        assert(v@ =~= data_set_seq_6());
    }
    v
}

/// The curated reference color table as a vector.
pub fn data_set() -> (r: Vec<Rgbx>)
    ensures
        r@ == data_set_seq(),
{
    let mut v: Vec<Rgbx> = Vec::new();
    let mut p0 = data_set_part_0();
    v.append(&mut p0);
    let mut p1 = data_set_part_1();
    v.append(&mut p1);
    let mut p2 = data_set_part_2();
    v.append(&mut p2);
    let mut p3 = data_set_part_3();
    v.append(&mut p3);
    let mut p4 = data_set_part_4();
    v.append(&mut p4);
    let mut p5 = data_set_part_5();
    v.append(&mut p5);
    let mut p6 = data_set_part_6();
    v.append(&mut p6);
    v
}

/// The coarse base-color table as raw RGBA values: the curated reference
/// colors with an opaque alpha.
pub fn base_colors() -> (r: Vec<[u8; 4]>)
    ensures
        r@.len() == data_set_seq().len(),
        forall|i: int| 0 <= i < r@.len() ==> r@[i]@ == rgba_seq(data_set_seq()[i]),
{
    let ds = data_set();
    let mut v: Vec<[u8; 4]> = Vec::new();
    let n = ds.len();
    let mut i: usize = 0;
    while i < n
        invariant
            n == ds@.len(),
            ds@ == data_set_seq(),
            i <= n,
            v@.len() == i,
            forall|t: int| 0 <= t < i ==> v@[t]@ == rgba_seq(data_set_seq()[t]),
        decreases n - i,
    {
        v.push(ds[i].rgba_array());
        i += 1;
    }
    v
}

/// The anchor color pairs whose gradients make up the synthetic training
/// corpus.
pub open spec fn anchor_pairs() -> Seq<(Rgbx, Rgbx)> {
    seq![
        (Rgbx(153, 0, 0, ColorClass::Red), Rgbx(255, 0, 0, ColorClass::Red)),
        (Rgbx(255, 0, 0, ColorClass::Red), Rgbx(255, 153, 153, ColorClass::Red)),
        (Rgbx(255, 0, 127, ColorClass::Red), Rgbx(153, 0, 76, ColorClass::Red)),
        (Rgbx(255, 0, 127, ColorClass::Red), Rgbx(255, 153, 204, ColorClass::Red)),
        (Rgbx(0, 0, 255, ColorClass::Blues), Rgbx(0, 0, 153, ColorClass::Blues)),
        (Rgbx(0, 0, 255, ColorClass::Blues), Rgbx(153, 153, 255, ColorClass::Blues)),
        (Rgbx(0, 128, 255, ColorClass::Blues), Rgbx(0, 76, 153, ColorClass::Blues)),
        (Rgbx(0, 128, 255, ColorClass::Blues), Rgbx(153, 204, 255, ColorClass::Blues)),
        (Rgbx(0, 255, 255, ColorClass::Blues), Rgbx(0, 153, 153, ColorClass::Blues)),
        (Rgbx(0, 255, 255, ColorClass::Blues), Rgbx(153, 255, 255, ColorClass::Blues)),
        (Rgbx(255, 0, 255, ColorClass::Purple), Rgbx(153, 0, 153, ColorClass::Purple)),
        (Rgbx(255, 0, 255, ColorClass::Purple), Rgbx(255, 153, 255, ColorClass::Purple)),
        (Rgbx(0, 255, 0, ColorClass::Green), Rgbx(0, 153, 0, ColorClass::Green)),
        (Rgbx(0, 255, 0, ColorClass::Green), Rgbx(153, 255, 153, ColorClass::Green)),
        (Rgbx(128, 255, 0, ColorClass::Green), Rgbx(76, 153, 0, ColorClass::Green)),
        (Rgbx(128, 255, 0, ColorClass::Green), Rgbx(204, 255, 153, ColorClass::Green)),
        (Rgbx(0, 255, 128, ColorClass::Green), Rgbx(0, 153, 76, ColorClass::Green)),
        (Rgbx(0, 255, 128, ColorClass::Green), Rgbx(153, 255, 204, ColorClass::Green)),
        (Rgbx(255, 255, 0, ColorClass::Yellow), Rgbx(153, 153, 0, ColorClass::Yellow)),
        (Rgbx(255, 255, 0, ColorClass::Yellow), Rgbx(255, 255, 153, ColorClass::Yellow)),
        (Rgbx(255, 128, 0, ColorClass::Orange), Rgbx(153, 76, 0, ColorClass::Orange)),
        (Rgbx(255, 128, 0, ColorClass::Orange), Rgbx(255, 204, 153, ColorClass::Orange)),
        (Rgbx(255, 255, 255, ColorClass::Whites), Rgbx(192, 192, 192, ColorClass::Whites)),
        (Rgbx(255, 255, 255, ColorClass::Whites), Rgbx(204, 229, 255, ColorClass::Whites)),
        (Rgbx(255, 255, 255, ColorClass::Whites), Rgbx(229, 255, 204, ColorClass::Whites)),
        (Rgbx(255, 255, 255, ColorClass::Whites), Rgbx(255, 204, 204, ColorClass::Whites)),
        (Rgbx(0, 0, 0, ColorClass::Greys), Rgbx(128, 128, 128, ColorClass::Greys))
    ]
}

/// The concatenation of the gradients of the first `n` anchor pairs.
pub open spec fn syn_data_prefix(n: int) -> Seq<Rgbx>
    decreases n,
{
    if n <= 0 {
        Seq::empty()
    } else {
        syn_data_prefix(n - 1) + gradient_seq(
            anchor_pairs()[n - 1].0,
            anchor_pairs()[n - 1].1,
            5,
        )
    }
}

/// The synthetic training corpus: for every anchor pair, the gradient from
/// its first color to its second, stepped by five per channel.
pub open spec fn syn_data_seq() -> Seq<Rgbx> {
    syn_data_prefix(anchor_pairs().len() as int)
}

/// Build the synthetic training corpus used by the k-nearest-neighbor
/// classifier. It is generated, never hand-maintained: interpolating
/// between hand-picked class anchor colors, five units per channel per hop.
pub fn syn_data_set() -> (r: Vec<Rgbx>)
    ensures
        r@ == syn_data_seq(),
{
    let mut anchors: Vec<(Rgbx, Rgbx)> = Vec::new();
    anchors.push((Rgbx(153, 0, 0, ColorClass::Red), Rgbx(255, 0, 0, ColorClass::Red)));
    anchors.push((Rgbx(255, 0, 0, ColorClass::Red), Rgbx(255, 153, 153, ColorClass::Red)));
    anchors.push((Rgbx(255, 0, 127, ColorClass::Red), Rgbx(153, 0, 76, ColorClass::Red)));
    anchors.push((Rgbx(255, 0, 127, ColorClass::Red), Rgbx(255, 153, 204, ColorClass::Red)));
    anchors.push((Rgbx(0, 0, 255, ColorClass::Blues), Rgbx(0, 0, 153, ColorClass::Blues)));
    anchors.push((Rgbx(0, 0, 255, ColorClass::Blues), Rgbx(153, 153, 255, ColorClass::Blues)));
    anchors.push((Rgbx(0, 128, 255, ColorClass::Blues), Rgbx(0, 76, 153, ColorClass::Blues)));
    anchors.push((Rgbx(0, 128, 255, ColorClass::Blues), Rgbx(153, 204, 255, ColorClass::Blues)));
    anchors.push((Rgbx(0, 255, 255, ColorClass::Blues), Rgbx(0, 153, 153, ColorClass::Blues)));
    anchors.push((Rgbx(0, 255, 255, ColorClass::Blues), Rgbx(153, 255, 255, ColorClass::Blues)));
    anchors.push((Rgbx(255, 0, 255, ColorClass::Purple), Rgbx(153, 0, 153, ColorClass::Purple)));
    anchors.push((Rgbx(255, 0, 255, ColorClass::Purple), Rgbx(255, 153, 255, ColorClass::Purple)));
    anchors.push((Rgbx(0, 255, 0, ColorClass::Green), Rgbx(0, 153, 0, ColorClass::Green)));
    anchors.push((Rgbx(0, 255, 0, ColorClass::Green), Rgbx(153, 255, 153, ColorClass::Green)));
    anchors.push((Rgbx(128, 255, 0, ColorClass::Green), Rgbx(76, 153, 0, ColorClass::Green)));
    anchors.push((Rgbx(128, 255, 0, ColorClass::Green), Rgbx(204, 255, 153, ColorClass::Green)));
    anchors.push((Rgbx(0, 255, 128, ColorClass::Green), Rgbx(0, 153, 76, ColorClass::Green)));
    anchors.push((Rgbx(0, 255, 128, ColorClass::Green), Rgbx(153, 255, 204, ColorClass::Green)));
    anchors.push((Rgbx(255, 255, 0, ColorClass::Yellow), Rgbx(153, 153, 0, ColorClass::Yellow)));
    anchors.push((Rgbx(255, 255, 0, ColorClass::Yellow), Rgbx(255, 255, 153, ColorClass::Yellow)));
    anchors.push((Rgbx(255, 128, 0, ColorClass::Orange), Rgbx(153, 76, 0, ColorClass::Orange)));
    anchors.push((Rgbx(255, 128, 0, ColorClass::Orange), Rgbx(255, 204, 153, ColorClass::Orange)));
    anchors.push((Rgbx(255, 255, 255, ColorClass::Whites), Rgbx(192, 192, 192, ColorClass::Whites)));
    anchors.push((Rgbx(255, 255, 255, ColorClass::Whites), Rgbx(204, 229, 255, ColorClass::Whites)));
    anchors.push((Rgbx(255, 255, 255, ColorClass::Whites), Rgbx(229, 255, 204, ColorClass::Whites)));
    anchors.push((Rgbx(255, 255, 255, ColorClass::Whites), Rgbx(255, 204, 204, ColorClass::Whites)));
    anchors.push((Rgbx(0, 0, 0, ColorClass::Greys), Rgbx(128, 128, 128, ColorClass::Greys)));
    proof {
        assert(anchors@ =~= anchor_pairs());
    }
    let mut v: Vec<Rgbx> = Vec::new();
    let n = anchors.len();
    let mut i: usize = 0;
    while i < n
        invariant
            anchors@ == anchor_pairs(),
            n == anchor_pairs().len(),
            i <= n,
            v@ == syn_data_prefix(i as int),
        decreases n - i,
    {
        let (s, e) = anchors[i];
        let mut g = s.gradient(&e, 5);
        v.append(&mut g);
        i += 1;
    }
    v
}

/// Manhattan distance between two raw pixels over red, green and blue.
pub open spec fn man_dist_px(a: Seq<u8>, px: Seq<u8>) -> int {
    abs_diff_int(a[0] as int, px[0] as int) + abs_diff_int(a[1] as int, px[1] as int) + abs_diff_int(
        a[2] as int,
        px[2] as int,
    )
}

/// Index `i` is the first entry of the color table at minimum Manhattan
/// distance from the pixel.
pub open spec fn first_min_px_at(clrs: Seq<[u8; 4]>, px: Seq<u8>, i: int) -> bool {
    &&& 0 <= i < clrs.len()
    &&& forall|j: int|
        0 <= j < clrs.len() ==> man_dist_px(clrs[i]@, px) <= man_dist_px(#[trigger] clrs[j]@, px)
    &&& forall|j: int| 0 <= j < i ==> man_dist_px(#[trigger] clrs[j]@, px) > man_dist_px(clrs[i]@, px)
}

/// Manhattan distance between two raw pixels; alpha is ignored.
fn px_dist(a: &[u8; 4], b: &[u8; 4]) -> (d: u16)
    ensures
        d == man_dist_px(a@, b@),
{
    let r: u16 = if a[0] >= b[0] {
        (a[0] - b[0]) as u16
    } else {
        (b[0] - a[0]) as u16
    };
    let g: u16 = if a[1] >= b[1] {
        (a[1] - b[1]) as u16
    } else {
        (b[1] - a[1]) as u16
    };
    let bl: u16 = if a[2] >= b[2] {
        (a[2] - b[2]) as u16
    } else {
        (b[2] - a[2]) as u16
    };
    r + g + bl
}

/// The first color of the table at minimum Manhattan distance from `clr`,
/// ties broken by table order.
pub fn find_closest(clrs: &[[u8; 4]], clr: &[u8; 4]) -> (r: [u8; 4])
    requires
        clrs@.len() >= 1,
    ensures
        exists|i: int| #[trigger] first_min_px_at(clrs@, clr@, i) && r == clrs@[i],
{
    let mut best: usize = 0;
    let mut bestd: u16 = px_dist(&clrs[0], clr);
    let n = clrs.len();
    let mut j: usize = 1;
    while j < n
        invariant
            1 <= j <= n == clrs@.len(),
            best < j,
            bestd == man_dist_px(clrs@[best as int]@, clr@),
            forall|t: int| 0 <= t < j ==> bestd <= man_dist_px(#[trigger] clrs@[t]@, clr@),
            forall|t: int| 0 <= t < best ==> man_dist_px(#[trigger] clrs@[t]@, clr@) > bestd,
        decreases n - j,
    {
        let d = px_dist(&clrs[j], clr);
        if d < bestd {
            best = j;
            bestd = d;
        }
        j += 1;
    }
    proof {
        assert(first_min_px_at(clrs@, clr@, best as int));
    }
    clrs[best]
}

} // verus!
