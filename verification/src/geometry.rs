//! Normalized 2D geometry: coordinates live in the unit interval [0, 1],
//! always relative to the immediate parent's resolved rectangle.
//!
//! Components are stored in fixed point: a value `c` stands for the fraction
//! `c / UNIT`, so `UNIT` itself is 1.0 and every representable component is
//! exact. All arithmetic re-validates the unit-interval bound.

use vstd::prelude::*;
use vstd::arithmetic::div_mod::{
    lemma_div_is_ordered, lemma_div_by_multiple, lemma_fundamental_div_mod, lemma_div_pos_is_pos,
};
use vstd::arithmetic::mul::{lemma_mul_inequality, lemma_mul_is_distributive_add_other_way};

verus! {

/// The fixed-point denominator: a component `c` stands for `c / UNIT`.
pub const UNIT: u32 = 1_000_000;

/// A component is valid when it lies in the unit interval.
pub open spec fn in_unit_interval(c: u32) -> bool {
    c <= UNIT
}

/// A 0-1 normalized fixed-point vec2.
#[derive(Copy, Clone)]
pub struct Vec2f {
    x: u32,
    y: u32,
}

impl Vec2f {
    pub closed spec fn spec_x(self) -> u32 {
        self.x
    }

    pub closed spec fn spec_y(self) -> u32 {
        self.y
    }

    /// Both components valid.
    pub open spec fn valid(self) -> bool {
        in_unit_interval(self.spec_x()) && in_unit_interval(self.spec_y())
    }

    pub fn new_from_one(f: u32) -> (v: Self)
        requires
            in_unit_interval(f),
        ensures
            v.spec_x() == f,
            v.spec_y() == f,
            v.valid(),
    {
        Self { x: f, y: f }
    }

    pub fn new(x: u32, y: u32) -> (v: Self)
        requires
            in_unit_interval(x),
            in_unit_interval(y),
        ensures
            v.spec_x() == x,
            v.spec_y() == y,
            v.valid(),
    {
        Self { x, y }
    }

    pub fn zero() -> (v: Self)
        ensures
            v.spec_x() == 0,
            v.spec_y() == 0,
            v.valid(),
    {
        Self { x: 0, y: 0 }
    }

    pub fn one() -> (v: Self)
        ensures
            v.spec_x() == UNIT,
            v.spec_y() == UNIT,
            v.valid(),
    {
        Self { x: UNIT, y: UNIT }
    }

    pub fn x(&self) -> (r: u32)
        ensures
            r == self.spec_x(),
    {
        self.x
    }

    pub fn y(&self) -> (r: u32)
        ensures
            r == self.spec_y(),
    {
        self.y
    }

    pub fn translate_x(&self, x: u32) -> (v: Self)
        requires
            self.spec_x() + x <= UNIT,
            self.valid(),
        ensures
            v.spec_x() == self.spec_x() + x,
            v.spec_y() == self.spec_y(),
            v.valid(),
    {
        Self { x: self.x + x, y: self.y }
    }

    pub fn translate_y(&self, y: u32) -> (v: Self)
        requires
            self.spec_y() + y <= UNIT,
            self.valid(),
        ensures
            v.spec_x() == self.spec_x(),
            v.spec_y() == self.spec_y() + y,
            v.valid(),
    {
        Self { x: self.x, y: self.y + y }
    }

    /// Component-wise sum; the result must stay in the unit interval.
    pub fn plus(&self, other: &Self) -> (v: Self)
        requires
            self.valid(),
            other.valid(),
            self.spec_x() + other.spec_x() <= UNIT,
            self.spec_y() + other.spec_y() <= UNIT,
        ensures
            v.spec_x() == self.spec_x() + other.spec_x(),
            v.spec_y() == self.spec_y() + other.spec_y(),
            v.valid(),
    {
        Self { x: self.x + other.x, y: self.y + other.y }
    }

    /// Component-wise product: the fraction of a fraction, floored to fixed
    /// point. Stays in the unit interval by construction.
    pub fn scaled_by(&self, other: &Self) -> (v: Self)
        requires
            self.valid(),
            other.valid(),
        ensures
            v.spec_x() == self.spec_x() * other.spec_x() / (UNIT as int),
            v.spec_y() == self.spec_y() * other.spec_y() / (UNIT as int),
            v.valid(),
    {
        proof {
            lemma_scaled_le(self.spec_x() as int, other.spec_x() as int, UNIT as int);
            lemma_scaled_le(self.spec_y() as int, other.spec_y() as int, UNIT as int);
            lemma_div_pos_is_pos(self.spec_x() * other.spec_x(), UNIT as int);
            lemma_div_pos_is_pos(self.spec_y() * other.spec_y(), UNIT as int);
        }
        let x = ((self.x as u64) * (other.x as u64) / (UNIT as u64)) as u32;
        let y = ((self.y as u64) * (other.y as u64) / (UNIT as u64)) as u32;
        Self { x, y }
    }

    /// Component-wise difference; each component of `other` must not exceed ours.
    pub fn minus(&self, other: &Self) -> (v: Self)
        requires
            self.valid(),
            other.valid(),
            other.spec_x() <= self.spec_x(),
            other.spec_y() <= self.spec_y(),
        ensures
            v.spec_x() == self.spec_x() - other.spec_x(),
            v.spec_y() == self.spec_y() - other.spec_y(),
            v.valid(),
    {
        Self { x: self.x - other.x, y: self.y - other.y }
    }
}

/// `frac / UNIT` of `extent`, floored: how many pixels of `extent` a
/// normalized component `frac` selects.
pub open spec fn scaled(frac: u32, extent: u32) -> int {
    frac * extent / (UNIT as int)
}

/// For a fraction `a <= u`, the scaled value stays within the extent.
pub(crate) proof fn lemma_scaled_le(a: int, w: int, u: int)
    requires
        0 <= a <= u,
        0 <= w,
        0 < u,
    ensures
        0 <= a * w / u <= w,
{
    lemma_div_pos_is_pos(a * w, u);
    lemma_mul_inequality(a, u, w);
    lemma_div_is_ordered(a * w, u * w, u);
    vstd::arithmetic::mul::lemma_mul_is_commutative(u, w);
    lemma_div_by_multiple(w, u);
}

/// Two scaled fractions whose sum is at most one cannot together exceed the
/// extent they scale.
pub(crate) proof fn lemma_scaled_sum_le(a: int, b: int, w: int, u: int)
    requires
        0 <= a,
        0 <= b,
        a + b <= u,
        0 <= w,
        0 < u,
    ensures
        a * w / u + b * w / u <= w,
{
    let q1 = a * w / u;
    let q2 = b * w / u;
    lemma_div_pos_is_pos(a * w, u);
    lemma_div_pos_is_pos(b * w, u);
    lemma_fundamental_div_mod(a * w, u);
    lemma_fundamental_div_mod(b * w, u);
    lemma_mul_is_distributive_add_other_way(w, a, b);
    assert(u * (q1 + q2) <= (a + b) * w) by {
        vstd::arithmetic::mul::lemma_mul_is_distributive_add(u, q1, q2);
    };
    lemma_mul_inequality(a + b, u, w);
    assert((q1 + q2) * u <= u * w) by {
        vstd::arithmetic::mul::lemma_mul_is_commutative(u, q1 + q2);
    };
    lemma_div_is_ordered((q1 + q2) * u, u * w, u);
    lemma_div_by_multiple(q1 + q2, u);
    vstd::arithmetic::mul::lemma_mul_is_commutative(u, w);
    lemma_div_by_multiple(w, u);
}

/// An axis-aligned rectangle in output pixels.
#[derive(Copy, Clone, PartialEq, Eq, Structural, Debug)]
pub struct PixelRect {
    pub x: u32,
    pub y: u32,
    pub w: u32,
    pub h: u32,
}

impl PixelRect {
    /// The rectangle's extent does not run past the representable range.
    pub open spec fn valid(self) -> bool {
        self.x + self.w <= u32::MAX && self.y + self.h <= u32::MAX
    }

    pub fn new(x: u32, y: u32, w: u32, h: u32) -> (r: Self)
        requires
            x + w <= u32::MAX,
            y + h <= u32::MAX,
        ensures
            r == (PixelRect { x, y, w, h }),
            r.valid(),
    {
        Self { x, y, w, h }
    }
}

/// The resolved rectangle, at the specification level.
pub open spec fn spec_resolved_rect(parent: PixelRect, top_left: Vec2f, size: Vec2f) -> PixelRect {
    PixelRect {
        x: (parent.x + scaled(top_left.spec_x(), parent.w)) as u32,
        y: (parent.y + scaled(top_left.spec_y(), parent.h)) as u32,
        w: scaled(size.spec_x(), parent.w) as u32,
        h: scaled(size.spec_y(), parent.h) as u32,
    }
}

/// `inner` lies fully within `outer`.
pub open spec fn rect_contains(outer: PixelRect, inner: PixelRect) -> bool {
    &&& outer.x <= inner.x
    &&& inner.x + inner.w <= outer.x + outer.w
    &&& outer.y <= inner.y
    &&& inner.y + inner.h <= outer.y + outer.h
}

/// Resolve a node's pixel rectangle: the parent's pixel rectangle transformed
/// by the node's normalized top-left and size. The result is always fully
/// contained in the parent's rectangle.
pub fn resolve_child_rect(parent: &PixelRect, top_left: &Vec2f, size: &Vec2f) -> (r: PixelRect)
    requires
        parent.valid(),
        top_left.valid(),
        size.valid(),
        top_left.spec_x() + size.spec_x() <= UNIT,
        top_left.spec_y() + size.spec_y() <= UNIT,
    ensures
        r.x == parent.x + scaled(top_left.spec_x(), parent.w),
        r.y == parent.y + scaled(top_left.spec_y(), parent.h),
        r.w == scaled(size.spec_x(), parent.w),
        r.h == scaled(size.spec_y(), parent.h),
        parent.x <= r.x && r.x + r.w <= parent.x + parent.w,
        parent.y <= r.y && r.y + r.h <= parent.y + parent.h,
        r.valid(),
        r == spec_resolved_rect(*parent, *top_left, *size),
{
    proof {
        lemma_resolved_child_rect_contained(*parent, *top_left, *size);
    }
    let x_off = ((top_left.x as u64) * (parent.w as u64) / (UNIT as u64)) as u32;
    let y_off = ((top_left.y as u64) * (parent.h as u64) / (UNIT as u64)) as u32;
    let w = ((size.x as u64) * (parent.w as u64) / (UNIT as u64)) as u32;
    let h = ((size.y as u64) * (parent.h as u64) / (UNIT as u64)) as u32;
    PixelRect { x: parent.x + x_off, y: parent.y + y_off, w, h }
}

/// LAW: for all valid parent-relative coordinates with components in [0, 1]
/// and `top_left + size <= 1` per axis, the resolved child rectangle is fully
/// contained in the parent's resolved rectangle.
pub proof fn lemma_resolved_child_rect_contained(parent: PixelRect, top_left: Vec2f, size: Vec2f)
    requires
        parent.valid(),
        top_left.valid(),
        size.valid(),
        top_left.spec_x() + size.spec_x() <= UNIT,
        top_left.spec_y() + size.spec_y() <= UNIT,
    ensures
        0 <= scaled(top_left.spec_x(), parent.w),
        0 <= scaled(top_left.spec_y(), parent.h),
        scaled(top_left.spec_x(), parent.w) + scaled(size.spec_x(), parent.w) <= parent.w,
        scaled(top_left.spec_y(), parent.h) + scaled(size.spec_y(), parent.h) <= parent.h,
        0 <= scaled(size.spec_x(), parent.w) <= parent.w,
        0 <= scaled(size.spec_y(), parent.h) <= parent.h,
{
    lemma_scaled_le(top_left.spec_x() as int, parent.w as int, UNIT as int);
    lemma_scaled_le(top_left.spec_y() as int, parent.h as int, UNIT as int);
    lemma_scaled_le(size.spec_x() as int, parent.w as int, UNIT as int);
    lemma_scaled_le(size.spec_y() as int, parent.h as int, UNIT as int);
    lemma_scaled_sum_le(
        top_left.spec_x() as int,
        size.spec_x() as int,
        parent.w as int,
        UNIT as int,
    );
    lemma_scaled_sum_le(
        top_left.spec_y() as int,
        size.spec_y() as int,
        parent.h as int,
        UNIT as int,
    );
}

/// Map the unit rectangle onto a physical output, letterboxed so that the
/// mapped region keeps a square aspect ratio and is centered along the longer
/// axis. Returns the root node's normalized top-left and size.
pub fn letterboxed_root(output_w: u32, output_h: u32) -> (r: (Vec2f, Vec2f))
    requires
        1 <= output_w,
        1 <= output_h,
    ensures
        r.0.valid(),
        r.1.valid(),
        r.0.spec_x() + r.1.spec_x() <= UNIT,
        r.0.spec_y() + r.1.spec_y() <= UNIT,
        output_w < output_h ==> {
            &&& r.1.spec_x() == UNIT
            &&& r.1.spec_y() == output_w * UNIT / (output_h as int)
            &&& r.0.spec_x() == 0
            &&& r.0.spec_y() == (UNIT - r.1.spec_y()) / 2
        },
        output_w >= output_h ==> {
            &&& r.1.spec_x() == output_h * UNIT / (output_w as int)
            &&& r.1.spec_y() == UNIT
            &&& r.0.spec_x() == (UNIT - r.1.spec_x()) / 2
            &&& r.0.spec_y() == 0
        },
{
    if output_w < output_h {
        proof {
            lemma_scaled_le(output_w as int, UNIT as int, output_h as int);
        }
        let size_y = ((output_w as u64) * (UNIT as u64) / (output_h as u64)) as u32;
        let tl_y = (UNIT - size_y) / 2;
        proof {
            lemma_div_is_ordered((UNIT - size_y) as int, 2 * (UNIT - size_y) as int, 2);
            lemma_div_by_multiple((UNIT - size_y) as int, 2);
            vstd::arithmetic::mul::lemma_mul_is_commutative(2, (UNIT - size_y) as int);
        }
        (Vec2f { x: 0, y: tl_y }, Vec2f { x: UNIT, y: size_y })
    } else {
        proof {
            lemma_scaled_le(output_h as int, UNIT as int, output_w as int);
        }
        let size_x = ((output_h as u64) * (UNIT as u64) / (output_w as u64)) as u32;
        let tl_x = (UNIT - size_x) / 2;
        proof {
            lemma_div_is_ordered((UNIT - size_x) as int, 2 * (UNIT - size_x) as int, 2);
            lemma_div_by_multiple((UNIT - size_x) as int, 2);
            vstd::arithmetic::mul::lemma_mul_is_commutative(2, (UNIT - size_x) as int);
        }
        (Vec2f { x: tl_x, y: 0 }, Vec2f { x: size_x, y: UNIT })
    }
}

} // verus!
