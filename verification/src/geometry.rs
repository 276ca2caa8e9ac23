//! Bounding boxes in sixteenths of a pixel, and how much two of them overlap.

use vstd::prelude::*;

verus! {

/// Coordinate units in one pixel.
pub const SUBPIXEL: i32 = 16;

/// The largest magnitude a box coordinate can have: 65 536 pixels.
pub const MAX_COORD: i32 = 1_048_576;

/// The overlap ratio of two boxes that coincide, in millionths.
pub const IOU_ONE: u32 = 1_000_000;

/// Whether `v` lies within the coordinate range of a box.
pub open spec fn coordinate_fits(v: int) -> bool {
    -(MAX_COORD as int) <= v <= MAX_COORD as int
}

/// The length that the intervals `[lo_a, hi_a]` and `[lo_b, hi_b]` share, and
/// zero where they share none, also where one of them is reversed.
pub open spec fn overlap(lo_a: int, hi_a: int, lo_b: int, hi_b: int) -> int {
    let lo = if lo_a >= lo_b { lo_a } else { lo_b };
    let hi = if hi_a <= hi_b { hi_a } else { hi_b };
    if hi > lo { hi - lo } else { 0 }
}

/// A rectangle by two corners, over the mathematical integers.
pub struct Rect {
    pub x1: int,
    pub y1: int,
    pub x2: int,
    pub y2: int,
}

impl Rect {
    /// All four coordinates lie within the coordinate range.
    pub open spec fn fits(self) -> bool {
        &&& coordinate_fits(self.x1)
        &&& coordinate_fits(self.y1)
        &&& coordinate_fits(self.x2)
        &&& coordinate_fits(self.y2)
    }

    /// Both sides have positive length.
    pub open spec fn is_proper(self) -> bool {
        self.x1 < self.x2 && self.y1 < self.y2
    }

    /// Signed area: negative when exactly one side is reversed.
    pub open spec fn area(self) -> int {
        (self.x2 - self.x1) * (self.y2 - self.y1)
    }

    /// Area common to both rectangles, each axis clamped at zero.
    pub open spec fn intersection(self, other: Rect) -> int {
        overlap(self.x1, self.x2, other.x1, other.x2) * overlap(
            self.y1,
            self.y2,
            other.y1,
            other.y2,
        )
    }

    /// Area covered by either rectangle.
    pub open spec fn union(self, other: Rect) -> int {
        self.area() + other.area() - self.intersection(other)
    }

    /// Intersection over union in millionths, rounded down; zero where the
    /// rectangles share no area.
    pub open spec fn iou(self, other: Rect) -> int {
        if self.intersection(other) == 0 {
            0
        } else {
            self.intersection(other) * (IOU_ONE as int) / self.union(other)
        }
    }
}

/// A detection's box: corners `(x1, y1)` and `(x2, y2)` in sixteenths of a
/// pixel of the captured image. Every coordinate lies within `MAX_COORD` of
/// zero; nothing orders `x1` against `x2` or `y1` against `y2`.
#[derive(Clone, Copy, Debug, PartialEq, Eq, Structural)]
pub struct BoundingBox {
    x1: i32,
    y1: i32,
    x2: i32,
    y2: i32,
}

impl View for BoundingBox {
    type V = Rect;

    closed spec fn view(&self) -> Rect {
        Rect { x1: self.x1 as int, y1: self.y1 as int, x2: self.x2 as int, y2: self.y2 as int }
    }
}

impl BoundingBox {
    #[verifier::type_invariant]
    spec fn in_range(self) -> bool {
        self@.fits()
    }

    /// The box whose view is `r`, for an `r` that fits.
    pub closed spec fn of(r: Rect) -> BoundingBox {
        BoundingBox { x1: r.x1 as i32, y1: r.y1 as i32, x2: r.x2 as i32, y2: r.y2 as i32 }
    }

    /// A box is determined by its view.
    pub broadcast proof fn lemma_of_view(self)
        ensures
            #[trigger] BoundingBox::of(self@) == self,
    {
    }

    /// Every rectangle that fits is the view of a box.
    pub broadcast proof fn lemma_view_of(r: Rect)
        requires
            r.fits(),
        ensures
            #[trigger] BoundingBox::of(r)@ == r,
    {
    }

    /// The box with the given corners, if every coordinate is in range.
    pub fn new(x1: i32, y1: i32, x2: i32, y2: i32) -> (r: Option<BoundingBox>)
        ensures
            r is Some <==> (Rect { x1: x1 as int, y1: y1 as int, x2: x2 as int, y2: y2 as int }).fits(),
            r matches Some(b) ==> b@ == (Rect {
                x1: x1 as int,
                y1: y1 as int,
                x2: x2 as int,
                y2: y2 as int,
            }),
    {
        if -MAX_COORD <= x1 && x1 <= MAX_COORD && -MAX_COORD <= y1 && y1 <= MAX_COORD && -MAX_COORD
            <= x2 && x2 <= MAX_COORD && -MAX_COORD <= y2 && y2 <= MAX_COORD {
            Some(BoundingBox { x1, y1, x2, y2 })
        } else {
            None
        }
    }

    /// The box whose four coordinates are zero.
    pub fn zero() -> (b: BoundingBox)
        ensures
            b@ == (Rect { x1: 0, y1: 0, x2: 0, y2: 0 }),
    {
        BoundingBox { x1: 0, y1: 0, x2: 0, y2: 0 }
    }

    pub fn x1(&self) -> (v: i32)
        ensures
            v == self@.x1,
            self@.fits(),
    {
        proof {
            use_type_invariant(self);
        }
        self.x1
    }

    pub fn y1(&self) -> (v: i32)
        ensures
            v == self@.y1,
            self@.fits(),
    {
        proof {
            use_type_invariant(self);
        }
        self.y1
    }

    pub fn x2(&self) -> (v: i32)
        ensures
            v == self@.x2,
            self@.fits(),
    {
        proof {
            use_type_invariant(self);
        }
        self.x2
    }

    pub fn y2(&self) -> (v: i32)
        ensures
            v == self@.y2,
            self@.fits(),
    {
        proof {
            use_type_invariant(self);
        }
        self.y2
    }

    /// `x2 - x1`, negative where the box is reversed.
    pub fn width(&self) -> (v: i32)
        ensures
            v == self@.x2 - self@.x1,
            self@.fits(),
    {
        proof {
            use_type_invariant(self);
        }
        self.x2 - self.x1
    }

    /// `y2 - y1`, negative where the box is reversed.
    pub fn height(&self) -> (v: i32)
        ensures
            v == self@.y2 - self@.y1,
            self@.fits(),
    {
        proof {
            use_type_invariant(self);
        }
        self.y2 - self.y1
    }

    /// Whether the two boxes have the same corners.
    pub fn same_as(&self, other: &BoundingBox) -> (r: bool)
        ensures
            r == (self@ == other@),
    {
        self.x1 == other.x1 && self.y1 == other.y1 && self.x2 == other.x2 && self.y2 == other.y2
    }
}

fn overlap_len(lo_a: i32, hi_a: i32, lo_b: i32, hi_b: i32) -> (r: i64)
    requires
        coordinate_fits(lo_a as int),
        coordinate_fits(hi_a as int),
        coordinate_fits(lo_b as int),
        coordinate_fits(hi_b as int),
    ensures
        r == overlap(lo_a as int, hi_a as int, lo_b as int, hi_b as int),
        0 <= r <= 2 * MAX_COORD,
{
    let lo: i32 = if lo_a >= lo_b { lo_a } else { lo_b };
    let hi: i32 = if hi_a <= hi_b { hi_a } else { hi_b };
    if hi > lo { (hi - lo) as i64 } else { 0 }
}

/// Area common to both boxes, in squared coordinate units.
pub fn intersection(a: &BoundingBox, b: &BoundingBox) -> (r: i64)
    ensures
        r == a@.intersection(b@),
        0 <= r <= 4 * MAX_COORD * MAX_COORD,
{
    proof {
        use_type_invariant(a);
        use_type_invariant(b);
    }
    let w: i64 = overlap_len(a.x1, a.x2, b.x1, b.x2);
    let h: i64 = overlap_len(a.y1, a.y2, b.y1, b.y2);
    assert(0 <= w * h <= 4 * 1_048_576 * 1_048_576) by (nonlinear_arith)
        requires
            0 <= w <= 2 * 1_048_576,
            0 <= h <= 2 * 1_048_576,
    ;
    w * h
}

fn area_of(a: &BoundingBox) -> (r: i64)
    ensures
        r == a@.area(),
        -4 * 1_048_576 * 1_048_576 <= r <= 4 * 1_048_576 * 1_048_576,
{
    proof {
        use_type_invariant(a);
    }
    let w: i64 = (a.x2 - a.x1) as i64;
    let h: i64 = (a.y2 - a.y1) as i64;
    assert(-4 * 1_048_576 * 1_048_576 <= w * h <= 4 * 1_048_576 * 1_048_576) by (nonlinear_arith)
        requires
            -2 * 1_048_576 <= w <= 2 * 1_048_576,
            -2 * 1_048_576 <= h <= 2 * 1_048_576,
    ;
    w * h
}

/// Area covered by either box, in squared coordinate units.
pub fn union(a: &BoundingBox, b: &BoundingBox) -> (r: i64)
    ensures
        r == a@.union(b@),
{
    let both: i64 = intersection(a, b);
    area_of(a) + area_of(b) - both
}

/// Intersection over union of the two boxes, in millionths.
pub fn iou(a: &BoundingBox, b: &BoundingBox) -> (r: u32)
    ensures
        r == a@.iou(b@),
        r <= IOU_ONE,
{
    let both: i64 = intersection(a, b);
    if both == 0 {
        return 0;
    }
    let either: i64 = union(a, b);
    proof {
        lemma_intersection_bounds(a@, b@);
        lemma_iou_range(a@, b@);
    }
    let scaled: i64 = both * 1_000_000;
    (scaled / either) as u32
}

/// An overlap is never negative and never longer than either interval.
pub proof fn lemma_overlap_bounds(lo_a: int, hi_a: int, lo_b: int, hi_b: int)
    ensures
        overlap(lo_a, hi_a, lo_b, hi_b) >= 0,
        overlap(lo_a, hi_a, lo_b, hi_b) == overlap(lo_b, hi_b, lo_a, hi_a),
        overlap(lo_a, hi_a, lo_b, hi_b) > 0 ==> overlap(lo_a, hi_a, lo_b, hi_b) <= hi_a - lo_a
            && overlap(lo_a, hi_a, lo_b, hi_b) <= hi_b - lo_b,
        coordinate_fits(lo_a) && coordinate_fits(hi_a) && coordinate_fits(lo_b) && coordinate_fits(
            hi_b,
        ) ==> overlap(lo_a, hi_a, lo_b, hi_b) <= 2 * MAX_COORD,
{
}

/// The intersection is never negative, and where it is positive both
/// rectangles are proper and the union is at least as large.
pub proof fn lemma_intersection_bounds(a: Rect, b: Rect)
    ensures
        a.intersection(b) >= 0,
        a.intersection(b) > 0 ==> a.is_proper() && b.is_proper() && a.intersection(b) <= a.area()
            && a.intersection(b) <= b.area() && a.intersection(b) <= a.union(b),
{
    let w = overlap(a.x1, a.x2, b.x1, b.x2);
    let h = overlap(a.y1, a.y2, b.y1, b.y2);
    lemma_overlap_bounds(a.x1, a.x2, b.x1, b.x2);
    lemma_overlap_bounds(a.y1, a.y2, b.y1, b.y2);
    assert(w * h >= 0) by (nonlinear_arith)
        requires
            w >= 0,
            h >= 0,
    ;
    if w * h > 0 {
        assert(w > 0 && h > 0) by (nonlinear_arith)
            requires
                w >= 0,
                h >= 0,
                w * h > 0,
        ;
        let wa = a.x2 - a.x1;
        let ha = a.y2 - a.y1;
        let wb = b.x2 - b.x1;
        let hb = b.y2 - b.y1;
        assert(w * h <= wa * ha) by (nonlinear_arith)
            requires
                0 < w <= wa,
                0 < h <= ha,
        ;
        assert(w * h <= wb * hb) by (nonlinear_arith)
            requires
                0 < w <= wb,
                0 < h <= hb,
        ;
    }
}

/// The overlap ratio lies between zero and one.
pub proof fn lemma_iou_range(a: Rect, b: Rect)
    ensures
        0 <= a.iou(b) <= IOU_ONE,
{
    lemma_intersection_bounds(a, b);
    let i = a.intersection(b);
    let u = a.union(b);
    if i != 0 {
        assert(0 <= i * 1_000_000 / u <= 1_000_000) by (nonlinear_arith)
            requires
                0 < i <= u,
        ;
    }
}

/// The overlap ratio does not depend on the order of the two rectangles.
pub proof fn lemma_iou_symmetric(a: Rect, b: Rect)
    ensures
        a.intersection(b) == b.intersection(a),
        a.union(b) == b.union(a),
        a.iou(b) == b.iou(a),
{
    lemma_overlap_bounds(a.x1, a.x2, b.x1, b.x2);
    lemma_overlap_bounds(a.y1, a.y2, b.y1, b.y2);
}

/// A rectangle with positive sides overlaps itself entirely.
pub proof fn lemma_iou_of_itself(a: Rect)
    requires
        a.is_proper(),
    ensures
        a.intersection(a) == a.area(),
        a.union(a) == a.area(),
        a.iou(a) == IOU_ONE,
{
    let w = a.x2 - a.x1;
    let h = a.y2 - a.y1;
    assert(overlap(a.x1, a.x2, a.x1, a.x2) == w);
    assert(overlap(a.y1, a.y2, a.y1, a.y2) == h);
    let s = w * h;
    assert(s > 0) by (nonlinear_arith)
        requires
            w > 0,
            h > 0,
            s == w * h,
    ;
    assert(s * 1_000_000 / s == 1_000_000) by (nonlinear_arith)
        requires
            s > 0,
    ;
}

/// Rectangles that share no length on some axis have overlap ratio zero,
/// however far apart they lie.
pub proof fn lemma_iou_of_disjoint(a: Rect, b: Rect)
    requires
        overlap(a.x1, a.x2, b.x1, b.x2) == 0 || overlap(a.y1, a.y2, b.y1, b.y2) == 0,
    ensures
        a.intersection(b) == 0,
        a.iou(b) == 0,
{
    let w = overlap(a.x1, a.x2, b.x1, b.x2);
    let h = overlap(a.y1, a.y2, b.y1, b.y2);
    assert(w * h == 0) by (nonlinear_arith)
        requires
            w == 0 || h == 0,
    ;
}

/// Rounding the ratio down does not move it across a threshold: the ratio
/// reaches `t` millionths exactly when the exact quotient does.
pub proof fn lemma_iou_reaches(a: Rect, b: Rect, t: int)
    requires
        0 < t,
    ensures
        a.iou(b) >= t <==> a.intersection(b) > 0 && a.intersection(b) * IOU_ONE >= t * a.union(b),
{
    lemma_intersection_bounds(a, b);
    let i = a.intersection(b);
    let u = a.union(b);
    if i > 0 {
        let x = i * 1_000_000;
        assert((x / u >= t) <==> (x >= t * u)) by (nonlinear_arith)
            requires
                u > 0,
                x >= 0,
                t > 0,
        ;
    }
}

} // verus!
