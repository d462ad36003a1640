//! Saturating fixed-point scalars with sixteen fractional bits.
use vstd::prelude::*;

verus! {

/// The raw value that stands for the number one.
pub const SCALE: i32 = 65536;

/// The integer nearest to `v` that a raw value can hold.
pub open spec fn saturate(v: int) -> int {
    if v < i32::MIN {
        i32::MIN as int
    } else if v > i32::MAX {
        i32::MAX as int
    } else {
        v
    }
}

/// The quotient of `n` by a positive `d`, rounded toward zero.
pub open spec fn quotient_toward_zero(n: int, d: int) -> int
    recommends
        d > 0,
{
    if n >= 0 {
        n / d
    } else {
        -((-n) / d)
    }
}

/// A number `raw / 65536`: sixteen integer bits (with sign) and sixteen
/// fractional bits. Arithmetic saturates at the ends of the range instead of
/// wrapping, so every operation is total.
#[derive(Clone, Copy, Debug, PartialEq, Eq, Structural, PartialOrd, Ord)]
pub struct Fixed {
    pub raw: i32,
}

impl View for Fixed {
    type V = int;

    /// The raw value, in units of 1/65536.
    open spec fn view(&self) -> int {
        self.raw as int
    }
}

impl Fixed {
    /// The scalar whose raw value is `v`, saturated to the representable range.
    pub open spec fn saturating(v: int) -> Fixed {
        Fixed { raw: saturate(v) as i32 }
    }

    /// What `+` means: the sum, saturated.
    pub open spec fn spec_add(self, rhs: Fixed) -> Fixed {
        Fixed::saturating(self@ + rhs@)
    }

    /// What `-` means: the difference, saturated.
    pub open spec fn spec_sub(self, rhs: Fixed) -> Fixed {
        Fixed::saturating(self@ - rhs@)
    }

    /// What `*` means: the product, rounded toward zero to a multiple of
    /// 1/65536 and then saturated.
    pub open spec fn spec_mul(self, rhs: Fixed) -> Fixed {
        Fixed::saturating(quotient_toward_zero(self@ * rhs@, SCALE as int))
    }

    /// Zero, for use in contracts.
    pub open spec fn spec_zero() -> Fixed {
        Fixed { raw: 0 }
    }

    /// Zero.
    #[verifier::when_used_as_spec(spec_zero)]
    pub fn zero() -> (r: Fixed)
        ensures
            r == Fixed::spec_zero(),
    {
        Fixed { raw: 0 }
    }

    /// One, for use in contracts.
    pub open spec fn spec_one() -> Fixed {
        Fixed { raw: SCALE }
    }

    /// One.
    #[verifier::when_used_as_spec(spec_one)]
    pub fn one() -> (r: Fixed)
        ensures
            r == Fixed::spec_one(),
    {
        Fixed { raw: SCALE }
    }

    /// The whole number `n`, saturated to the representable range
    /// (whole numbers from -32768 to 32767 are exact).
    pub fn from_int(n: i32) -> (r: Fixed)
        ensures
            r == Fixed::saturating(n * SCALE),
            -32768 <= n <= 32767 ==> r@ == n * SCALE,
    {
        let wide: i64 = (n as i64) * 65536;
        assert(wide == n * SCALE);
        Fixed { raw: clamp(wide) }
    }
}

/// Brings a wide intermediate result back into the raw range.
fn clamp(v: i64) -> (r: i32)
    ensures
        r == saturate(v as int),
{
    if v < i32::MIN as i64 {
        i32::MIN
    } else if v > i32::MAX as i64 {
        i32::MAX
    } else {
        v as i32
    }
}

impl core::ops::Add for Fixed {
    type Output = Fixed;

    /// Saturating sum.
    fn add(self, rhs: Fixed) -> (r: Fixed)
        ensures
            r == self + rhs,
    {
        Fixed { raw: clamp(self.raw as i64 + rhs.raw as i64) }
    }
}

impl vstd::std_specs::ops::AddSpecImpl for Fixed {
    open spec fn obeys_add_spec() -> bool {
        true
    }

    open spec fn add_req(self, rhs: Fixed) -> bool {
        true
    }

    open spec fn add_spec(self, rhs: Fixed) -> Fixed {
        self + rhs
    }
}

impl core::ops::Sub for Fixed {
    type Output = Fixed;

    /// Saturating difference.
    fn sub(self, rhs: Fixed) -> (r: Fixed)
        ensures
            r == self - rhs,
    {
        Fixed { raw: clamp(self.raw as i64 - rhs.raw as i64) }
    }
}

impl vstd::std_specs::ops::SubSpecImpl for Fixed {
    open spec fn obeys_sub_spec() -> bool {
        true
    }

    open spec fn sub_req(self, rhs: Fixed) -> bool {
        true
    }

    open spec fn sub_spec(self, rhs: Fixed) -> Fixed {
        self - rhs
    }
}

impl core::ops::Mul for Fixed {
    type Output = Fixed;

    /// Saturating product; the exact product is rounded toward zero to a
    /// multiple of 1/65536 first.
    fn mul(self, rhs: Fixed) -> (r: Fixed)
        ensures
            r == self * rhs,
    {
        proof {
            lemma_product_bounds(self.raw, rhs.raw);
        }
        let wide: i64 = (self.raw as i64) * (rhs.raw as i64);
        Fixed { raw: clamp(wide / (SCALE as i64)) }
    }
}

impl vstd::std_specs::ops::MulSpecImpl for Fixed {
    open spec fn obeys_mul_spec() -> bool {
        true
    }

    open spec fn mul_req(self, rhs: Fixed) -> bool {
        true
    }

    open spec fn mul_spec(self, rhs: Fixed) -> Fixed {
        self * rhs
    }
}

/// Blending two scalars with a weight from zero to one lands between them,
/// give or take one raw unit for the rounding of the two products. Nothing
/// saturates on the way.
pub proof fn lemma_blend_between(a: Fixed, b: Fixed, t: Fixed, lo: int, hi: int)
    requires
        0 <= t@ <= SCALE,
        lo <= a@ <= hi,
        lo <= b@ <= hi,
        i32::MIN < lo,
        hi < i32::MAX,
    ensures
        lo - 1 <= (a * (Fixed::one() - t) + b * t)@ <= hi + 1,
        (a * (Fixed::one() - t) + b * t)@ == quotient_toward_zero(a@ * (SCALE - t@), SCALE as int)
            + quotient_toward_zero(b@ * t@, SCALE as int),
{
    let u = SCALE - t@;
    assert((Fixed::one() - t)@ == u);
    let au = a@ * u;
    let bt = b@ * t@;
    assert(lo * u <= au <= hi * u) by (nonlinear_arith)
        requires
            lo <= a@ <= hi,
            0 <= u,
            au == a@ * u,
    ;
    assert(lo * t@ <= bt <= hi * t@) by (nonlinear_arith)
        requires
            lo <= b@ <= hi,
            0 <= t@,
            bt == b@ * t@,
    ;
    assert(lo * u + lo * t@ == lo * 65536 && hi * u + hi * t@ == hi * 65536) by (nonlinear_arith)
        requires
            u + t@ == 65536,
    ;
    lemma_scaled_product_bounds(a@, u);
    lemma_scaled_product_bounds(b@, t@);
}

/// A product with a weight from zero to one, divided by the scale and
/// rounded toward zero, lies between zero and the other factor, and within
/// one scale of the exact product once scaled back.
proof fn lemma_scaled_product_bounds(a: int, w: int)
    requires
        0 <= w <= 65536,
    ensures
        a >= 0 ==> 0 <= quotient_toward_zero(a * w, 65536) <= a,
        a <= 0 ==> a <= quotient_toward_zero(a * w, 65536) <= 0,
        a * w - 65536 < 65536 * quotient_toward_zero(a * w, 65536) < a * w + 65536,
{
    let p = a * w;
    assert(a >= 0 ==> 0 <= p <= a * 65536) by (nonlinear_arith)
        requires
            0 <= w <= 65536,
            p == a * w,
    ;
    assert(a <= 0 ==> a * 65536 <= p <= 0) by (nonlinear_arith)
        requires
            0 <= w <= 65536,
            p == a * w,
    ;
}

/// The product of two raw values fits in sixty-four bits with room to spare.
proof fn lemma_product_bounds(a: i32, b: i32)
    by (nonlinear_arith)
    ensures
        -0x4000_0000_0000_0000 <= a * b <= 0x4000_0000_0000_0000,
{
}

} // verus!
