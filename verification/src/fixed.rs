//! Fixed-point arithmetic groundwork: the global scale, world bounds, a
//! truncating division, a saturating narrowing, and an integer square root,
//! together with the facts about them that the engines need.

use vstd::prelude::*;

verus! {

/// Number of fixed-point sub-units per world unit.  A length of one world
/// unit is stored as `SCALE`; a mass of one unit likewise.
pub const SCALE: i64 = 1000;

/// Largest magnitude of a position component the engines accept.
pub const MAX_COORD: i64 = 1_000_000_000;

/// Largest magnitude of a velocity component the engines accept.
pub const MAX_SPEED: i64 = 1_000_000_000;

/// Largest mass the engines accept.
pub const MAX_MASS: i64 = 100_000_000;

/// Largest collider radius the engines accept.
pub const MAX_RADIUS: i64 = 1_000_000_000;

/// Largest frame time step the engines accept.
pub const MAX_DT: i64 = 1_000_000;

/// Largest number of entities a single pass accepts.
pub const MAX_BODIES: usize = 1_000_000;

/// Largest absolute simulation time (milliseconds since startup) the
/// engines accept; adding a cooldown duration to it cannot overflow.
pub const MAX_TIME: i64 = 4_000_000_000_000;

/// A wide intermediate vector used while per-entity velocity deltas are
/// being accumulated, before the final clip to `i64` components.
#[derive(Clone, Copy)]
pub(crate) struct Wide3 {
    pub(crate) x: i128,
    pub(crate) y: i128,
    pub(crate) z: i128,
}

/// Magnitude of an integer.
pub open spec fn iabs(a: int) -> int {
    if a >= 0 {
        a
    } else {
        -a
    }
}

/// Quotient of `a` by a positive `b`, rounded toward zero.  In
/// specifications `/` rounds toward negative infinity when the dividend is
/// negative, which is not what the machine division below computes.
pub open spec fn div_tz(a: int, b: int) -> int {
    if a >= 0 {
        a / b
    } else {
        -((-a) / b)
    }
}

/// `x` clipped to the range of an `i64`.
pub open spec fn sat64(x: int) -> int {
    if x < i64::MIN {
        i64::MIN as int
    } else if x > i64::MAX {
        i64::MAX as int
    } else {
        x
    }
}

/// `r` is the integer square root of `n`.
pub open spec fn is_isqrt(n: int, r: int) -> bool {
    0 <= r && r * r <= n && n < (r + 1) * (r + 1)
}

/// The integer square root of a non-negative `n`.
pub open spec fn isqrt(n: int) -> int {
    choose|r: int| is_isqrt(n, r)
}

/// Truncating quotient by a positive divisor.
pub fn div_q(a: i128, b: i128) -> (r: i128)
    requires
        1 <= b,
    ensures
        r as int == div_tz(a as int, b as int),
{
    a / b
}

/// Narrow a wide intermediate to an `i64`, clipping at the extremes.
pub fn sat_narrow(x: i128) -> (r: i64)
    ensures
        r as int == sat64(x as int),
{
    if x < i64::MIN as i128 {
        i64::MIN
    } else if x > i64::MAX as i128 {
        i64::MAX
    } else {
        x as i64
    }
}

/// A product of bounded factors is bounded.
pub proof fn lemma_mul_bound(a: int, aa: int, b: int, bb: int)
    by (nonlinear_arith)
    requires
        iabs(a) <= aa,
        iabs(b) <= bb,
    ensures
        iabs(a * b) <= aa * bb,
{
}

/// Negating the dividend negates the truncating quotient.
pub proof fn lemma_div_tz_neg(a: int, b: int)
    requires
        1 <= b,
    ensures
        div_tz(-a, b) == -div_tz(a, b),
{
    if a == 0 {
        assert(0int / b == 0) by (nonlinear_arith)
            requires
                1 <= b,
        ;
    }
}

/// The truncating quotient keeps the sign of the dividend and its
/// magnitude is the floor of the magnitudes' quotient; the latter never
/// exceeds any bound `c` on the dividend's magnitude, nor `c / b`.
pub proof fn lemma_div_tz_le(a: int, b: int, c: int)
    requires
        1 <= b,
        iabs(a) <= c,
    ensures
        iabs(div_tz(a, b)) <= c / b,
        c / b <= c,
        a >= 0 ==> div_tz(a, b) >= 0,
        a <= 0 ==> div_tz(a, b) <= 0,
{
    let m = iabs(a);
    assert(0 <= m / b && m / b <= c / b && c / b <= c) by (nonlinear_arith)
        requires
            0 <= m <= c,
            1 <= b,
    ;
    if a >= 0 {
        assert(div_tz(a, b) == m / b);
    } else {
        assert(div_tz(a, b) == -(m / b));
    }
}

/// Dividing a product by one of its positive factors recovers the other.
pub proof fn lemma_div_tz_mul_cancel(c: int, d: int)
    requires
        1 <= d,
    ensures
        div_tz(c * d, d) == c,
{
    if c >= 0 {
        assert(c * d >= 0 && (c * d) / d == c) by (nonlinear_arith)
            requires
                c >= 0,
                1 <= d,
        ;
    } else {
        assert(c * d < 0 && -(c * d) == (-c) * d && ((-c) * d) / d == -c) by (nonlinear_arith)
            requires
                c < 0,
                1 <= d,
        ;
    }
}

/// Quotient-remainder decomposition of the truncating division: the
/// remainder has magnitude below the divisor and the sign of the dividend.
pub proof fn lemma_div_tz_rem(a: int, b: int)
    requires
        1 <= b,
    ensures
        iabs(a - b * div_tz(a, b)) < b,
        a >= 0 ==> 0 <= a - b * div_tz(a, b),
        a <= 0 ==> a - b * div_tz(a, b) <= 0,
{
    if a >= 0 {
        assert(a == b * (a / b) + a % b && 0 <= a % b < b) by (nonlinear_arith)
            requires
                0 <= a,
                1 <= b,
        ;
    } else {
        let m = -a;
        assert(m == b * (m / b) + m % b && 0 <= m % b < b) by (nonlinear_arith)
            requires
                0 <= m,
                1 <= b,
        ;
        assert(a - b * div_tz(a, b) == -(m - b * (m / b))) by {
            assert(b * -(m / b) == -(b * (m / b))) by (nonlinear_arith);
        }
    }
}

/// The integer square root is unique.
pub proof fn lemma_isqrt_unique(n: int, a: int, b: int)
    requires
        is_isqrt(n, a),
        is_isqrt(n, b),
    ensures
        a == b,
{
    if a < b {
        assert((a + 1) * (a + 1) <= b * b) by (nonlinear_arith)
            requires
                0 <= a,
                a < b,
        ;
    }
    if b < a {
        assert((b + 1) * (b + 1) <= a * a) by (nonlinear_arith)
            requires
                0 <= b,
                b < a,
        ;
    }
}

/// An integer square root exists for every non-negative argument.
pub proof fn lemma_isqrt_exists(n: int) -> (r: int)
    requires
        0 <= n,
    ensures
        is_isqrt(n, r),
    decreases n,
{
    if n == 0 {
        assert(is_isqrt(0, 0)) by (nonlinear_arith);
        0
    } else {
        let p = lemma_isqrt_exists(n - 1);
        if (p + 1) * (p + 1) <= n {
            assert(is_isqrt(n, p + 1)) by (nonlinear_arith)
                requires
                    0 <= p,
                    n - 1 < (p + 1) * (p + 1),
                    (p + 1) * (p + 1) <= n,
            ;
            p + 1
        } else {
            assert(is_isqrt(n, p)) by (nonlinear_arith)
                requires
                    0 <= p,
                    p * p <= n - 1,
                    !((p + 1) * (p + 1) <= n),
            ;
            p
        }
    }
}

/// `isqrt(n)` itself satisfies the square-root property.
pub proof fn lemma_isqrt(n: int)
    requires
        0 <= n,
    ensures
        is_isqrt(n, isqrt(n)),
{
    let w = lemma_isqrt_exists(n);
}

/// Integer square root of `n`.
pub fn isqrt_u(n: u128) -> (r: u128)
    requires
        n < 0x4000_0000_0000_0000_0000_0000_0000_0000,
    ensures
        r as int == isqrt(n as int),
        is_isqrt(n as int, r as int),
        r <= 0x8000_0000_0000_0000,
{
    let mut lo: u128 = 0;
    let mut hi: u128 = 0x8000_0000_0000_0000;
    proof {
        assert((hi + 1) * (hi + 1) > n) by (nonlinear_arith)
            requires
                n < 0x4000_0000_0000_0000_0000_0000_0000_0000,
                hi == 0x8000_0000_0000_0000int,
        ;
    }
    while lo < hi
        invariant
            0 <= lo <= hi <= 0x8000_0000_0000_0000,
            lo * lo <= n,
            n < (hi + 1) * (hi + 1),
        decreases hi - lo,
    {
        let mid: u128 = lo + (hi - lo + 1) / 2;
        assert(lo < mid <= hi);
        assert(mid * mid <= 0x8000_0000_0000_0000 * 0x8000_0000_0000_0000) by (nonlinear_arith)
            requires
                0 < mid <= 0x8000_0000_0000_0000int,
        ;
        if mid * mid <= n {
            lo = mid;
        } else {
            hi = mid - 1;
        }
    }
    proof {
        lemma_isqrt(n as int);
        lemma_isqrt_unique(n as int, lo as int, isqrt(n as int));
    }
    lo
}

} // verus!
