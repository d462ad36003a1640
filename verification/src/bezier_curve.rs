//! Control points of a Bézier curve, its evaluation and hit-testing.
use vstd::prelude::*;
use crate::fixed::{lemma_blend_between, Fixed, SCALE};
use crate::vec::{dist_sq, lemma_distance_below, Vector};

verus! {

/// The raw value of the threshold that `intersect_with_control_point` uses:
/// ten units.
pub const HIT_THRESHOLD: i32 = 655360;

/// The number of segments that the polyline of a curve has for each control
/// point.
pub const SEGMENTS_PER_POINT: usize = 10;

/// Why an operation on a curve was refused.
#[derive(Clone, Copy, Debug, PartialEq, Eq, Structural)]
pub enum CurveError {
    /// The index names no control point.
    IndexOutOfRange,
    /// The curve has no control point to evaluate.
    EmptyCurve,
}

/// The point that divides the segment from `a` to `b` in the ratio `t`:
/// `a * (1 - t) + b * t`, each operation rounding and saturating as the
/// scalar arithmetic does.
pub open spec fn lerp(a: Vector, b: Vector, t: Fixed) -> Vector {
    a * (Fixed::one() - t) + b * t
}

/// The De Casteljau triangle: entry `i` of row `level`. Row zero holds the
/// control points; each further entry blends the two entries above it.
pub open spec fn de_casteljau(points: Seq<Vector>, t: Fixed, level: nat, i: int) -> Vector
    decreases level,
{
    if level == 0 {
        points[i]
    } else {
        lerp(
            de_casteljau(points, t, (level - 1) as nat, i),
            de_casteljau(points, t, (level - 1) as nat, i + 1),
            t,
        )
    }
}

/// The point of the curve at parameter `t`: the apex of the triangle.
pub open spec fn curve_point(points: Seq<Vector>, t: Fixed) -> Vector
    recommends
        points.len() > 0,
{
    de_casteljau(points, t, (points.len() - 1) as nat, 0)
}

/// The parameter of vertex `k` on a polyline of `m` segments: `k / m`,
/// rounded down to a multiple of 1/65536.
pub open spec fn vertex_parameter(k: int, m: int) -> Fixed
    recommends
        0 <= k <= m,
        0 < m,
{
    Fixed { raw: ((k * SCALE) / m) as i32 }
}

/// The polyline that traces a curve: with fewer than two control points,
/// nothing; else the points of the curve at the parameters `0/m, 1/m, ..,
/// m/m`, where `m` is `SEGMENTS_PER_POINT` times the number of control points.
pub open spec fn polyline_of(points: Seq<Vector>) -> Seq<Vector> {
    if points.len() < 2 {
        Seq::empty()
    } else {
        let m = SEGMENTS_PER_POINT * points.len();
        Seq::new((m + 1) as nat, |k: int| curve_point(points, vertex_parameter(k, m)))
    }
}

/// The Euclidean distance between `p` and `target` is strictly less than
/// `threshold`. Stated on the exact squared distance, so no rounding enters.
pub open spec fn within(p: Vector, target: Vector, threshold: Fixed) -> bool {
    threshold@ > 0 && dist_sq(p, target) < threshold@ * threshold@
}

/// `found` is the answer of a hit test: the first index, in insertion order,
/// whose point lies within the threshold of `target`, or nothing when no point
/// does.
pub open spec fn is_first_within(
    found: Option<usize>,
    points: Seq<Vector>,
    target: Vector,
    threshold: Fixed,
) -> bool {
    match found {
        Some(i) => {
            &&& i < points.len()
            &&& within(points[i as int], target, threshold)
            &&& forall|j: int| 0 <= j < i ==> !within(#[trigger] points[j], target, threshold)
        },
        None => forall|j: int|
            0 <= j < points.len() ==> !within(#[trigger] points[j], target, threshold),
    }
}

/// The answer of a hit test on `points`.
pub open spec fn first_within(points: Seq<Vector>, target: Vector, threshold: Fixed) -> Option<
    usize,
> {
    choose|found: Option<usize>| is_first_within(found, points, target, threshold)
}

/// A hit test has one answer only, and `first_within` names it.
pub proof fn lemma_first_within_is(
    found: Option<usize>,
    points: Seq<Vector>,
    target: Vector,
    threshold: Fixed,
)
    requires
        is_first_within(found, points, target, threshold),
    ensures
        first_within(points, target, threshold) == found,
{
    let other = first_within(points, target, threshold);
    assert(is_first_within(other, points, target, threshold));
    match (found, other) {
        (Some(i), Some(j)) => {
            assert(within(points[i as int], target, threshold));
            assert(within(points[j as int], target, threshold));
        },
        (Some(i), None) => {
            assert(within(points[i as int], target, threshold));
        },
        (None, Some(j)) => {
            assert(within(points[j as int], target, threshold));
        },
        (None, None) => {},
    }
}

/// Every hit test has an answer, as long as the points can be counted by a
/// `usize`.
pub proof fn lemma_first_within_exists(points: Seq<Vector>, target: Vector, threshold: Fixed)
    requires
        points.len() <= usize::MAX,
    ensures
        is_first_within(first_within(points, target, threshold), points, target, threshold),
{
    lemma_prefix_answer(points, target, threshold, points.len());
    let found = choose|found: Option<usize>|
        is_first_within(found, points.take(points.len() as int), target, threshold);
    assert(points.take(points.len() as int) =~= points);
    assert(is_first_within(found, points, target, threshold));
}

/// The hit test on the first `n` points has an answer.
proof fn lemma_prefix_answer(points: Seq<Vector>, target: Vector, threshold: Fixed, n: nat)
    requires
        n <= points.len() <= usize::MAX,
    ensures
        exists|found: Option<usize>|
            is_first_within(found, points.take(n as int), target, threshold),
    decreases n,
{
    let prefix = points.take(n as int);
    if n == 0 {
        assert(is_first_within(None, prefix, target, threshold));
    } else {
        lemma_prefix_answer(points, target, threshold, (n - 1) as nat);
        let shorter = points.take(n - 1);
        let before = choose|found: Option<usize>|
            is_first_within(found, shorter, target, threshold);
        assert forall|j: int| 0 <= j < n - 1 implies shorter[j] == prefix[j] by {}
        match before {
            Some(i) => {
                assert(is_first_within(Some(i), prefix, target, threshold));
            },
            None => {
                if within(prefix[n - 1], target, threshold) {
                    assert(is_first_within(Some((n - 1) as usize), prefix, target, threshold));
                } else {
                    assert(is_first_within(None, prefix, target, threshold));
                }
            },
        }
    }
}

/// At parameter zero every entry of the triangle is the control point below
/// its left end.
pub proof fn lemma_de_casteljau_at_zero(points: Seq<Vector>, level: nat, i: int)
    ensures
        de_casteljau(points, Fixed::zero(), level, i) == points[i],
    decreases level,
{
    if level > 0 {
        lemma_de_casteljau_at_zero(points, (level - 1) as nat, i);
        lemma_de_casteljau_at_zero(points, (level - 1) as nat, i + 1);
        lemma_lerp_ends(points[i], points[i + 1]);
    }
}

/// At parameter one every entry of the triangle is the control point below
/// its right end.
pub proof fn lemma_de_casteljau_at_one(points: Seq<Vector>, level: nat, i: int)
    ensures
        de_casteljau(points, Fixed::one(), level, i) == points[i + level],
    decreases level,
{
    if level > 0 {
        lemma_de_casteljau_at_one(points, (level - 1) as nat, i);
        lemma_de_casteljau_at_one(points, (level - 1) as nat, i + 1);
        lemma_lerp_ends(points[i + level - 1], points[i + level]);
    }
}

/// Blending with ratio zero gives the first point, with ratio one the second.
pub proof fn lemma_lerp_ends(a: Vector, b: Vector)
    ensures
        lerp(a, b, Fixed::zero()) == a,
        lerp(a, b, Fixed::one()) == b,
{
    lemma_mul_identities(a.x);
    lemma_mul_identities(a.y);
    lemma_mul_identities(b.x);
    lemma_mul_identities(b.y);
}

/// `p` lies in the box spanned by the corners `lo` and `hi`, widened by
/// `slack` raw units on every side.
pub open spec fn in_box(p: Vector, lo: Vector, hi: Vector, slack: int) -> bool {
    &&& lo.x@ - slack <= p.x@ <= hi.x@ + slack
    &&& lo.y@ - slack <= p.y@ <= hi.y@ + slack
}

/// For a parameter from zero to one, an entry of the triangle lies in every
/// box that holds the control points below it, give or take one raw unit for
/// each row of rounding. The box has to leave that much room to the ends of
/// the scalar range.
pub proof fn lemma_de_casteljau_in_box(
    points: Seq<Vector>,
    t: Fixed,
    level: nat,
    i: int,
    lo: Vector,
    hi: Vector,
)
    requires
        0 <= t@ <= SCALE,
        forall|j: int| i <= j <= i + level ==> in_box(#[trigger] points[j], lo, hi, 0),
        i32::MIN + level <= lo.x@,
        i32::MIN + level <= lo.y@,
        hi.x@ + level <= i32::MAX,
        hi.y@ + level <= i32::MAX,
    ensures
        in_box(de_casteljau(points, t, level, i), lo, hi, level as int),
    decreases level,
{
    if level == 0 {
        assert(in_box(points[i], lo, hi, 0));
    } else {
        let above = (level - 1) as nat;
        lemma_de_casteljau_in_box(points, t, above, i, lo, hi);
        assert forall|j: int| i + 1 <= j <= i + 1 + above implies in_box(
            #[trigger] points[j],
            lo,
            hi,
            0,
        ) by {}
        lemma_de_casteljau_in_box(points, t, above, i + 1, lo, hi);
        let a = de_casteljau(points, t, above, i);
        let b = de_casteljau(points, t, above, i + 1);
        lemma_blend_between(a.x, b.x, t, lo.x@ - above, hi.x@ + above);
        lemma_blend_between(a.y, b.y, t, lo.y@ - above, hi.y@ + above);
    }
}

/// For a parameter from zero to one, the point of the curve lies in every
/// box that holds the control points, give or take one raw unit for each
/// control point after the first.
pub proof fn lemma_curve_point_in_box(points: Seq<Vector>, t: Fixed, lo: Vector, hi: Vector)
    requires
        points.len() > 0,
        0 <= t@ <= SCALE,
        forall|j: int| 0 <= j < points.len() ==> in_box(#[trigger] points[j], lo, hi, 0),
        i32::MIN + points.len() - 1 <= lo.x@,
        i32::MIN + points.len() - 1 <= lo.y@,
        hi.x@ + points.len() - 1 <= i32::MAX,
        hi.y@ + points.len() - 1 <= i32::MAX,
    ensures
        in_box(curve_point(points, t), lo, hi, points.len() - 1),
{
    lemma_de_casteljau_in_box(points, t, (points.len() - 1) as nat, 0, lo, hi);
}

/// Replacing the point at a valid index and then reading the points gives
/// the new point at that index and every other point as it was.
pub proof fn lemma_set_point_then_points(before: Seq<Vector>, index: int, point: Vector)
    requires
        0 <= index < before.len(),
    ensures
        before.update(index, point).len() == before.len(),
        before.update(index, point)[index] == point,
        forall|j: int|
            0 <= j < before.len() && j != index ==> before.update(index, point)[j] == before[j],
{
}

/// A ratio `k / m` of at most one, scaled by 65536 and rounded down, lies
/// between zero and 65536, and is 65536 when `k` is `m`.
proof fn lemma_ratio_bounds(k: int, m: int)
    by (nonlinear_arith)
    requires
        0 <= k <= m,
        0 < m,
    ensures
        0 <= (k * 65536) / m <= 65536,
        k == m ==> (k * 65536) / m == 65536,
{
}

/// Multiplying by one keeps a scalar; multiplying by zero gives zero.
proof fn lemma_mul_identities(a: Fixed)
    ensures
        a * Fixed::one() == a,
        a * Fixed::zero() == Fixed::zero(),
{
}

/// The ordered control points of one Bézier curve. Points are only ever
/// appended or replaced in place; the degree of the curve is their number
/// less one.
pub struct BezierCurve {
    points: Vec<Vector>,
}

impl View for BezierCurve {
    type V = Seq<Vector>;

    /// The control points, in insertion order.
    closed spec fn view(&self) -> Seq<Vector> {
        self.points@
    }
}

impl BezierCurve {
    /// The control points of a curve can be counted by a `usize`.
    pub proof fn lemma_len_fits(&self)
        ensures
            self@.len() <= usize::MAX,
    {
        assert(self.points.len() == self.points@.len());
    }

    /// A curve without control points.
    pub fn new() -> (r: BezierCurve)
        ensures
            r@ == Seq::<Vector>::empty(),
    {
        BezierCurve { points: Vec::new() }
    }

    /// Appends `point` as the new last control point.
    pub fn add_point(&mut self, point: Vector)
        ensures
            final(self)@ == old(self)@.push(point),
    {
        self.points.push(point);
    }

    /// The point of the curve at parameter `t`, by the De Casteljau
    /// construction. The parameter is not clamped. An empty curve has no
    /// point.
    pub fn calculate_point(&self, t: Fixed) -> (r: Result<Vector, CurveError>)
        ensures
            self@.len() == 0 ==> r == Err::<Vector, CurveError>(CurveError::EmptyCurve),
            self@.len() > 0 ==> r == Ok::<Vector, CurveError>(curve_point(self@, t)),
            self@.len() > 0 && t == Fixed::zero() ==> r == Ok::<Vector, CurveError>(self@[0]),
            self@.len() > 0 && t == Fixed::one() ==> r == Ok::<Vector, CurveError>(self@.last()),
            self@.len() == 1 ==> r == Ok::<Vector, CurveError>(self@[0]),
            self@.len() == 2 ==> r == Ok::<Vector, CurveError>(lerp(self@[0], self@[1], t)),
    {
        let len = self.points.len();
        if len == 0 {
            return Err(CurveError::EmptyCurve);
        }
        let mut tmp = self.points.clone();
        let mut n: usize = len - 1;
        let rest = Fixed::one() - t;
        while n > 0
            invariant
                len == self.points@.len(),
                tmp@.len() == len,
                n < len,
                rest == Fixed::one() - t,
                forall|j: int|
                    0 <= j <= n ==> tmp@[j] == de_casteljau(
                        self.points@,
                        t,
                        (len - 1 - n) as nat,
                        j,
                    ),
            decreases n,
        {
            let ghost level = (len - 1 - n) as nat;
            for i in 0..n
                invariant
                    0 < n < len,
                    tmp@.len() == len,
                    len == self.points@.len(),
                    level == len - 1 - n,
                    rest == Fixed::one() - t,
                    forall|j: int|
                        0 <= j < i ==> tmp@[j] == de_casteljau(self.points@, t, level + 1, j),
                    forall|j: int|
                        i <= j <= n ==> tmp@[j] == de_casteljau(self.points@, t, level, j),
            {
                tmp[i] = tmp[i] * rest + tmp[i + 1] * t;
            }
            n -= 1;
        }
        proof {
            lemma_de_casteljau_at_zero(self.points@, (len - 1) as nat, 0);
            lemma_de_casteljau_at_one(self.points@, (len - 1) as nat, 0);
            reveal_with_fuel(de_casteljau, 2);
        }
        Ok(tmp[0])
    }

    /// The polyline that traces the curve, for drawing. It starts at the
    /// first control point and ends at the last.
    pub fn polyline(&self) -> (r: Vec<Vector>)
        ensures
            r@ == polyline_of(self@),
            self@.len() >= 2 ==> r@.len() == SEGMENTS_PER_POINT * self@.len() + 1,
            self@.len() >= 2 ==> r@[0] == self@[0] && r@.last() == self@.last(),
    {
        let mut line: Vec<Vector> = Vec::new();
        let len = self.points.len();
        if len < 2 {
            return line;
        }
        let m: u128 = (len as u128) * (SEGMENTS_PER_POINT as u128);
        proof {
            lemma_de_casteljau_at_zero(self.points@, (len - 1) as nat, 0);
            assert(vertex_parameter(0, m as int) == Fixed::zero());
        }
        line.push(self.points[0]);
        let mut k: u128 = 1;
        while k <= m
            invariant
                len == self.points@.len(),
                len >= 2,
                m == SEGMENTS_PER_POINT * len,
                1 <= k <= m + 1,
                line@.len() == k,
                forall|j: int|
                    0 <= j < k ==> line@[j] == curve_point(
                        self.points@,
                        vertex_parameter(j, m as int),
                    ),
            decreases m + 1 - k,
        {
            proof {
                lemma_ratio_bounds(k as int, m as int);
            }
            let t = Fixed { raw: ((k * 65536) / m) as i32 };
            let at = self.calculate_point(t);
            line.push(at.unwrap());
            k += 1;
        }
        proof {
            lemma_ratio_bounds(m as int, m as int);
            assert(vertex_parameter(m as int, m as int) == Fixed::one());
            lemma_de_casteljau_at_one(self.points@, (len - 1) as nat, 0);
            assert(line@[m as int] == self.points@[len - 1]);
            assert(line@ =~= polyline_of(self.points@));
        }
        line
    }

    /// The control points, in insertion order.
    pub fn points(&self) -> (r: &Vec<Vector>)
        ensures
            r@ == self@,
    {
        &self.points
    }

    /// The first control point, in insertion order, that lies within ten
    /// units of `point`.
    pub fn intersect_with_control_point(&self, point: Vector) -> (r: Option<usize>)
        ensures
            r == first_within(self@, point, Fixed { raw: HIT_THRESHOLD }),
            is_first_within(r, self@, point, Fixed { raw: HIT_THRESHOLD }),
    {
        self.find_nearest_control_point(point, Fixed { raw: HIT_THRESHOLD })
    }

    /// The first control point, in insertion order, whose distance to
    /// `target` is strictly less than `threshold`. The first match wins, not
    /// the nearest. A threshold of zero or less matches nothing.
    pub fn find_nearest_control_point(&self, target: Vector, threshold: Fixed) -> (r: Option<
        usize,
    >)
        ensures
            r == first_within(self@, target, threshold),
            is_first_within(r, self@, target, threshold),
    {
        let mut i: usize = 0;
        while i < self.points.len()
            invariant
                i <= self.points@.len(),
                forall|j: int| 0 <= j < i ==> !within(#[trigger] self.points@[j], target, threshold),
            decreases self.points@.len() - i,
        {
            let d = self.points[i].distance_to(target);
            proof {
                lemma_distance_below(self.points@[i as int], target, threshold);
            }
            if d.raw < threshold.raw {
                proof {
                    lemma_first_within_is(Some(i), self.points@, target, threshold);
                }
                return Some(i);
            }
            i += 1;
        }
        proof {
            lemma_first_within_is(None, self.points@, target, threshold);
        }
        None
    }

    /// Replaces the control point at `index` and leaves the others. An index
    /// that names no point is refused, and the curve stays as it was.
    pub fn set_point(&mut self, index: usize, point: Vector) -> (r: Result<(), CurveError>)
        ensures
            index < old(self)@.len() ==> r == Ok::<(), CurveError>(()),
            index >= old(self)@.len() ==> r == Err::<(), CurveError>(CurveError::IndexOutOfRange),
            r is Ok ==> final(self)@ == old(self)@.update(index as int, point),
            r is Ok ==> final(self)@[index as int] == point,
            r is Ok ==> forall|j: int|
                0 <= j < old(self)@.len() && j != index ==> final(self)@[j] == old(self)@[j],
            r is Err ==> final(self)@ == old(self)@,
    {
        if index >= self.points.len() {
            return Err(CurveError::IndexOutOfRange);
        }
        self.points[index] = point;
        Ok(())
    }
}

} // verus!
