//! Fixed-point scalars.
//!
//! Every fractional quantity in this crate (coordinates, depths, normals,
//! interpolation weights, noise samples) is a [`Fixed`]: a signed 32-bit
//! integer counting units of 1/65536. Intermediate results are computed in
//! wider integers and brought back with [`saturate`], so no operation wraps.

use vstd::prelude::*;

verus! {

/// A signed fixed-point number with sixteen fractional bits.
pub type Fixed = i32;

/// The fixed-point representation of 1.
pub const ONE: i32 = 65536;

/// The fixed-point representation of 1/2.
pub const HALF: i32 = 32768;

/// The nearest value in the range of `Fixed`.
pub open spec fn saturate(v: int) -> int {
    if v < -2147483648 {
        -2147483648
    } else if v > 2147483647 {
        2147483647
    } else {
        v
    }
}

/// The value clamped to the interval `[lo, hi]`.
pub open spec fn clamp_int(v: int, lo: int, hi: int) -> int {
    if v < lo {
        lo
    } else if v > hi {
        hi
    } else {
        v
    }
}

/// The quotient rounded towards negative infinity, for a non-zero divisor.
pub open spec fn floor_div(a: int, b: int) -> int {
    if b > 0 {
        a / b
    } else {
        (-a) / (-b)
    }
}

/// The fixed-point product: the exact product, rounded down, saturated.
pub open spec fn mul_spec(a: int, b: int) -> int {
    saturate((a * b) / 65536)
}

/// The fixed-point quotient: the exact quotient, rounded down, saturated.
pub open spec fn div_spec(a: int, b: int) -> int {
    saturate(floor_div(a * 65536, b))
}

/// `r` is the integer square root of `n`: the largest integer whose square is at most `n`.
pub open spec fn is_floor_sqrt(n: int, r: int) -> bool {
    0 <= r && r * r <= n && n < (r + 1) * (r + 1)
}

/// The integer square root of a non-negative `n`.
pub open spec fn floor_sqrt(n: int) -> int {
    choose|r: int| is_floor_sqrt(n, r)
}

/// The smallest non-negative integer whose square is at least `n`.
pub open spec fn ceil_sqrt(n: int) -> int {
    let r = floor_sqrt(n);
    if r * r == n {
        r
    } else {
        r + 1
    }
}

/// Squaring is monotonic on non-negative integers.
pub proof fn lemma_square_monotonic(a: int, b: int)
    by (nonlinear_arith)
    requires
        0 <= a <= b,
    ensures
        a * a <= b * b,
{
}

/// The integer square root is unique.
pub proof fn lemma_floor_sqrt_unique(n: int, r: int)
    requires
        is_floor_sqrt(n, r),
    ensures
        floor_sqrt(n) == r,
{
    let s = floor_sqrt(n);
    assert(is_floor_sqrt(n, s));
    if s < r {
        lemma_square_monotonic(s + 1, r);
    } else if r < s {
        lemma_square_monotonic(r + 1, s);
    }
}

/// A product of two bounded factors is bounded by the product of the bounds.
pub proof fn lemma_mul_bounded(a: int, b: int, m: int, n: int)
    by (nonlinear_arith)
    requires
        -m <= a <= m,
        -n <= b <= n,
    ensures
        -(m * n) <= a * b <= m * n,
{
}

/// Brings a wide integer into the range of `Fixed`.
pub fn saturate_fixed(v: i128) -> (r: Fixed)
    ensures
        r == saturate(v as int),
{
    if v < -2147483648 {
        -2147483648
    } else if v > 2147483647 {
        2147483647
    } else {
        v as i32
    }
}

/// Clamps a fixed-point value to `[lo, hi]`.
pub fn clamp_fixed(v: Fixed, lo: Fixed, hi: Fixed) -> (r: Fixed)
    ensures
        r == clamp_int(v as int, lo as int, hi as int),
{
    if v < lo {
        lo
    } else if v > hi {
        hi
    } else {
        v
    }
}

/// Division rounding towards negative infinity, for a positive divisor.
pub fn div_floor(a: i128, b: i128) -> (r: i128)
    requires
        b > 0,
    ensures
        r == a as int / b as int,
{
    if a >= 0 {
        a / b
    } else if a == i128::MIN {
        // -2^127 = b * q + m with 0 <= m < b
        let q: i128 = (a + b) / b;
        let m: i128 = (a + b) % b;
        proof {
            lemma_floor_from_trunc(a as int + b as int, b as int);
            lemma_div_shift(a as int, b as int);
        }
        if m == 0 {
            q - 1
        } else {
            q - 2
        }
    } else {
        let q: i128 = a / b;
        let m: i128 = a % b;
        proof {
            lemma_floor_from_trunc(a as int, b as int);
        }
        if m == 0 {
            q
        } else {
            q - 1
        }
    }
}

/// Relates the quotient that rounds towards zero to the one that rounds down,
/// for a negative dividend.
proof fn lemma_floor_from_trunc(a: int, b: int)
    by (nonlinear_arith)
    requires
        a < 0,
        b > 0,
    ensures
        -((-a) / b) * b - ((-a) % b) == a,
        (-a) % b == 0 ==> a / b == -((-a) / b),
        (-a) % b != 0 ==> a / b == -((-a) / b) - 1,
        -((-a) / b) <= 0,
        -((-a) / b) >= a,
{
    let q = (-a) / b;
    let m = (-a) % b;
    assert(-a == b * q + m && 0 <= m < b);
    if m == 0 {
        assert(a == b * (-q));
        assert(a / b == -q) by {
            lemma_div_unique(a, b, -q, 0);
        }
    } else {
        assert(a == b * (-q - 1) + (b - m));
        assert(a / b == -q - 1) by {
            lemma_div_unique(a, b, -q - 1, b - m);
        }
    }
}

/// A quotient and remainder are determined by the division identity.
pub proof fn lemma_div_unique(a: int, b: int, q: int, m: int)
    by (nonlinear_arith)
    requires
        b > 0,
        a == b * q + m,
        0 <= m < b,
    ensures
        a / b == q,
        a % b == m,
{
    let q0 = a / b;
    let m0 = a % b;
    assert(a == b * q0 + m0 && 0 <= m0 < b);
    assert(b * (q - q0) == m0 - m);
    if q > q0 {
        assert(b * (q - q0) >= b);
    } else if q < q0 {
        assert(b * (q - q0) <= -b);
    }
}

proof fn lemma_div_shift(a: int, b: int)
    by (nonlinear_arith)
    requires
        b > 0,
    ensures
        (a + b) / b == a / b + 1,
{
    let q = a / b;
    let m = a % b;
    assert(a == b * q + m && 0 <= m < b);
    lemma_div_unique(a + b, b, q + 1, m);
}

/// Fixed-point multiplication.
pub fn fixed_mul(a: Fixed, b: Fixed) -> (r: Fixed)
    ensures
        r == mul_spec(a as int, b as int),
{
    proof {
        lemma_mul_bounded(a as int, b as int, 2147483648, 2147483648);
    }
    let p: i128 = (a as i128) * (b as i128);
    saturate_fixed(div_floor(p, 65536))
}

/// Fixed-point division; `None` exactly when the divisor is zero.
pub fn fixed_div(a: Fixed, b: Fixed) -> (r: Option<Fixed>)
    ensures
        b == 0 <==> r.is_none(),
        b != 0 ==> r == Some(div_spec(a as int, b as int) as i32),
{
    if b == 0 {
        None
    } else {
        let n: i128 = (a as i128) * 65536;
        let q: i128 = if b > 0 {
            div_floor(n, b as i128)
        } else {
            div_floor(-n, -(b as i128))
        };
        Some(saturate_fixed(q))
    }
}

/// The saturated sum.
pub open spec fn add_spec(a: int, b: int) -> int {
    saturate(a + b)
}

/// The saturated difference.
pub open spec fn sub_spec(a: int, b: int) -> int {
    saturate(a - b)
}

/// Saturating fixed-point addition.
pub fn fixed_add(a: Fixed, b: Fixed) -> (r: Fixed)
    ensures
        r == add_spec(a as int, b as int),
{
    saturate_fixed(a as i128 + b as i128)
}

/// Saturating fixed-point subtraction.
pub fn fixed_sub(a: Fixed, b: Fixed) -> (r: Fixed)
    ensures
        r == sub_spec(a as int, b as int),
{
    saturate_fixed(a as i128 - b as i128)
}

/// The larger of a value and zero.
pub open spec fn positive_part(v: int) -> int {
    if v < 0 {
        0
    } else {
        v
    }
}

/// The absolute value, saturated.
pub open spec fn abs_spec(v: int) -> int {
    if v < 0 {
        saturate(-v)
    } else {
        v
    }
}

/// The saturating absolute value.
pub fn fixed_abs(v: Fixed) -> (r: Fixed)
    ensures
        r == abs_spec(v as int),
{
    if v < 0 {
        saturate_fixed(-(v as i128))
    } else {
        v
    }
}

/// Fixed-point division by a divisor known to be non-zero.
pub fn fixed_ratio(a: Fixed, b: Fixed) -> (r: Fixed)
    requires
        b != 0,
    ensures
        r == div_spec(a as int, b as int),
{
    let n: i128 = (a as i128) * 65536;
    let q: i128 = if b > 0 {
        div_floor(n, b as i128)
    } else {
        div_floor(-n, -(b as i128))
    };
    saturate_fixed(q)
}

/// The integer square root.
pub fn isqrt(n: u64) -> (r: u64)
    ensures
        is_floor_sqrt(n as int, r as int),
        r == floor_sqrt(n as int),
        r <= 0xFFFF_FFFF,
{
    let mut lo: u64 = 0;
    let mut hi: u64 = 0x1_0000_0000;
    while hi - lo > 1
        invariant
            lo < hi <= 0x1_0000_0000,
            lo * lo <= n,
            n < hi * hi,
        decreases hi - lo,
    {
        let mid: u64 = lo + (hi - lo) / 2;
        proof {
            lemma_square_monotonic(mid as int, 0xFFFF_FFFF);
        }
        if mid * mid <= n {
            lo = mid;
        } else {
            hi = mid;
        }
    }
    proof {
        lemma_floor_sqrt_unique(n as int, lo as int);
    }
    lo
}

/// The integer square root of a wide number below 2^96.
pub fn isqrt_wide(n: u128) -> (r: u128)
    requires
        n < 0x1_0000_0000_0000_0000_0000_0000,
    ensures
        is_floor_sqrt(n as int, r as int),
        r == floor_sqrt(n as int),
        r < 0x1_0000_0000_0000,
{
    let mut lo: u128 = 0;
    let mut hi: u128 = 0x1_0000_0000_0000;
    while hi - lo > 1
        invariant
            lo < hi <= 0x1_0000_0000_0000,
            lo * lo <= n,
            n < hi * hi,
        decreases hi - lo,
    {
        let mid: u128 = lo + (hi - lo) / 2;
        proof {
            lemma_square_monotonic(mid as int, 0xFFFF_FFFF_FFFF);
        }
        if mid * mid <= n {
            lo = mid;
        } else {
            hi = mid;
        }
    }
    proof {
        lemma_floor_sqrt_unique(n as int, lo as int);
    }
    lo
}

/// The smallest integer whose square is at least `n`.
pub fn isqrt_ceil(n: u64) -> (r: u64)
    ensures
        r == ceil_sqrt(n as int),
        r <= 0x1_0000_0000,
{
    let f: u64 = isqrt(n);
    proof {
        lemma_square_monotonic(f as int, 0xFFFF_FFFF);
    }
    if f * f == n {
        f
    } else {
        f + 1
    }
}

} // verus!
