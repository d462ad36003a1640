//! Two-component vectors of fixed-point scalars.
use vstd::prelude::*;
use crate::fixed::{saturate, Fixed};
use crate::sqrt::{floor_sqrt, isqrt, lemma_floor_sqrt_below, lemma_floor_sqrt_exists, lemma_floor_sqrt_is};

verus! {

/// A point or displacement in the plane.
#[derive(Clone, Copy, Debug, PartialEq, Eq, Structural)]
pub struct Vector {
    pub x: Fixed,
    pub y: Fixed,
}

/// The square of the Euclidean distance between `a` and `b`, in squared raw
/// units. It is exact: no rounding and no saturation.
pub open spec fn dist_sq(a: Vector, b: Vector) -> int {
    (a.x@ - b.x@) * (a.x@ - b.x@) + (a.y@ - b.y@) * (a.y@ - b.y@)
}

/// The Euclidean distance between `a` and `b` in raw units: the square root
/// of `dist_sq`, rounded down and saturated.
pub open spec fn distance(a: Vector, b: Vector) -> int {
    saturate(floor_sqrt(dist_sq(a, b)))
}

impl Vector {
    /// What `+` means: the componentwise sum.
    pub open spec fn spec_add(self, other: Vector) -> Vector {
        Vector { x: self.x + other.x, y: self.y + other.y }
    }

    /// What `-` means: the componentwise difference.
    pub open spec fn spec_sub(self, other: Vector) -> Vector {
        Vector { x: self.x - other.x, y: self.y - other.y }
    }

    /// What `*` means: both components multiplied by the scalar.
    pub open spec fn spec_mul(self, other: Fixed) -> Vector {
        Vector { x: self.x * other, y: self.y * other }
    }

    /// The vector with the given components.
    pub fn new_with_data(x: Fixed, y: Fixed) -> (r: Vector)
        ensures
            r == (Vector { x, y }),
    {
        Vector { x, y }
    }

    /// The first component.
    pub fn x(&self) -> (r: Fixed)
        ensures
            r == self.x,
    {
        self.x
    }

    /// The second component.
    pub fn y(&self) -> (r: Fixed)
        ensures
            r == self.y,
    {
        self.y
    }

    /// Replaces the first component and leaves the second.
    pub fn set_x(&mut self, x: Fixed)
        ensures
            *final(self) == (Vector { x, y: old(self).y }),
    {
        self.x = x;
    }

    /// Replaces the second component and leaves the first.
    pub fn set_y(&mut self, y: Fixed)
        ensures
            *final(self) == (Vector { x: old(self).x, y }),
    {
        self.y = y;
    }

    /// The Euclidean distance to `other`, rounded down to a multiple of
    /// 1/65536 and saturated. It is never negative, and zero only between
    /// equal vectors.
    pub fn distance_to(&self, other: Vector) -> (r: Fixed)
        ensures
            r@ == distance(*self, other),
            r@ >= 0,
            r@ == 0 <==> *self == other,
    {
        let dx: i128 = self.x.raw as i128 - other.x.raw as i128;
        let dy: i128 = self.y.raw as i128 - other.y.raw as i128;
        proof {
            lemma_square_bounds(dx as int);
            lemma_square_bounds(dy as int);
        }
        let sum: i128 = dx * dx + dy * dy;
        let root: u64 = isqrt(sum as u128);
        proof {
            assert(sum == dist_sq(*self, other));
            lemma_square_zero(dx as int);
            lemma_square_zero(dy as int);
            if sum == 0 {
                lemma_floor_sqrt_is(0, 0);
            }
        }
        if root > i32::MAX as u64 {
            Fixed { raw: i32::MAX }
        } else {
            Fixed { raw: root as i32 }
        }
    }
}

impl core::ops::Add for Vector {
    type Output = Vector;

    /// Componentwise saturating sum.
    fn add(self, other: Vector) -> (r: Vector)
        ensures
            r == self + other,
    {
        Vector { x: self.x + other.x, y: self.y + other.y }
    }
}

impl vstd::std_specs::ops::AddSpecImpl for Vector {
    open spec fn obeys_add_spec() -> bool {
        true
    }

    open spec fn add_req(self, other: Vector) -> bool {
        true
    }

    open spec fn add_spec(self, other: Vector) -> Vector {
        self + other
    }
}

impl core::ops::Sub for Vector {
    type Output = Vector;

    /// Componentwise saturating difference.
    fn sub(self, other: Vector) -> (r: Vector)
        ensures
            r == self - other,
    {
        Vector { x: self.x - other.x, y: self.y - other.y }
    }
}

impl vstd::std_specs::ops::SubSpecImpl for Vector {
    open spec fn obeys_sub_spec() -> bool {
        true
    }

    open spec fn sub_req(self, other: Vector) -> bool {
        true
    }

    open spec fn sub_spec(self, other: Vector) -> Vector {
        self - other
    }
}

impl core::ops::Mul<Fixed> for Vector {
    type Output = Vector;

    /// Both components multiplied by the scalar `other`.
    fn mul(self, other: Fixed) -> (r: Vector)
        ensures
            r == self * other,
    {
        Vector { x: self.x * other, y: self.y * other }
    }
}

impl vstd::std_specs::ops::MulSpecImpl<Fixed> for Vector {
    open spec fn obeys_mul_spec() -> bool {
        true
    }

    open spec fn mul_req(self, other: Fixed) -> bool {
        true
    }

    open spec fn mul_spec(self, other: Fixed) -> Vector {
        self * other
    }
}

/// The distance from `a` to `b` is the distance from `b` to `a`.
pub proof fn lemma_distance_symmetric(a: Vector, b: Vector)
    ensures
        dist_sq(a, b) == dist_sq(b, a),
        distance(a, b) == distance(b, a),
{
    assert(dist_sq(a, b) == dist_sq(b, a)) by (nonlinear_arith);
}

/// The distance lies below a threshold exactly when the threshold is positive
/// and the exact squared distance lies below the threshold's square: rounding
/// the root down and saturating it lose nothing in the comparison.
pub proof fn lemma_distance_below(a: Vector, b: Vector, threshold: Fixed)
    ensures
        distance(a, b) < threshold@ <==> threshold@ > 0 && dist_sq(a, b) < threshold@ * threshold@,
{
    let n = dist_sq(a, b);
    lemma_square_zero(a.x@ - b.x@);
    lemma_square_zero(a.y@ - b.y@);
    lemma_floor_sqrt_exists(n);
    if threshold@ > 0 {
        lemma_floor_sqrt_below(n, threshold@);
    }
}

/// A difference of two raw values has a square below 2^64.
proof fn lemma_square_bounds(d: int)
    by (nonlinear_arith)
    requires
        -0xffff_ffff <= d <= 0xffff_ffff,
    ensures
        0 <= d * d <= 0xffff_ffff * 0xffff_ffff,
{
}

/// A square is zero only for zero, and otherwise at least one.
proof fn lemma_square_zero(d: int)
    by (nonlinear_arith)
    ensures
        d * d >= 0,
        d * d == 0 <==> d == 0,
{
}

} // verus!
