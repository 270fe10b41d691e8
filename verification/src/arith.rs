//! The evaluator's integer arithmetic. Addition, subtraction,
//! multiplication and exponentiation wrap around the 32-bit signed range;
//! division and remainder truncate toward zero; square root and logarithms
//! round their mathematical value down to a whole number.

use vstd::prelude::*;
use vstd::arithmetic::div_mod::{
    lemma_fundamental_div_mod,
    lemma_div_nonincreasing,
    lemma_div_is_ordered_by_denominator,
    lemma_div_is_ordered,
    lemma_div_pos_is_pos,
    lemma_div_is_strictly_smaller,
};

verus! {

/// The absolute value of an integer.
pub open spec fn abs_int(a: int) -> int {
    if a < 0 {
        -a
    } else {
        a
    }
}

/// Division truncated toward zero, as the `/` of a systems language.
pub open spec fn tdiv(a: int, b: int) -> int
    recommends
        b != 0,
{
    let q = abs_int(a) / abs_int(b);
    if (a < 0) != (b < 0) {
        -q
    } else {
        q
    }
}

/// Remainder of truncating division: it takes the sign of the dividend.
pub open spec fn tmod(a: int, b: int) -> int
    recommends
        b != 0,
{
    a - b * tdiv(a, b)
}

/// The absolute value of a 32-bit integer, which always fits in `u32`.
fn abs_u32(a: i32) -> (r: u32)
    ensures
        r as int == abs_int(a as int),
{
    if a >= 0 {
        a as u32
    } else {
        (-(a as i64)) as u32
    }
}

/// Truncating 32-bit division. The one overflowing quotient, that of the
/// smallest integer by minus one, wraps back to the smallest integer.
pub fn div_trunc(a: i32, b: i32) -> (r: i32)
    requires
        b != 0,
    ensures
        r as int == (if a == i32::MIN && b == -1 {
            i32::MIN as int
        } else {
            tdiv(a as int, b as int)
        }),
{
    if a == i32::MIN && b == -1 {
        return i32::MIN;
    }
    let ua = abs_u32(a);
    let ub = abs_u32(b);
    let q: u32 = ua / ub;
    proof {
        lemma_div_nonincreasing(ua as int, ub as int);
        lemma_div_pos_is_pos(ua as int, ub as int);
    }
    if (a < 0) != (b < 0) {
        if q == 0x8000_0000u32 {
            i32::MIN
        } else {
            -(q as i32)
        }
    } else {
        proof {
            if a < 0 && b < 0 {
                if b == -1 {
                    assert(ua < 0x8000_0000);
                } else {
                    lemma_div_is_ordered_by_denominator(ua as int, 2, ub as int);
                    lemma_div_is_ordered(ua as int, 0x8000_0000, 2);
                }
            }
        }
        q as i32
    }
}

/// Remainder of truncating 32-bit division; never overflows.
pub fn mod_trunc(a: i32, b: i32) -> (r: i32)
    requires
        b != 0,
    ensures
        r as int == tmod(a as int, b as int),
{
    let ua = abs_u32(a);
    let ub = abs_u32(b);
    let m: u32 = ua % ub;
    proof {
        lemma_fundamental_div_mod(ua as int, ub as int);
        let q = abs_int(a as int) / abs_int(b as int);
        assert(ua as int == ub as int * q + m as int);
        if ((a as int) < 0) != ((b as int) < 0) {
            assert(tdiv(a as int, b as int) == -q);
            assert((a as int) - (b as int) * (-q) == (if a < 0 {
                -(m as int)
            } else {
                m as int
            })) by (nonlinear_arith)
                requires
                    a as int == (if (a as int) < 0 { -(ua as int) } else { ua as int }),
                    b as int == (if (b as int) < 0 { -(ub as int) } else { ub as int }),
                    ua as int == ub as int * q + m as int,
                    ((a as int) < 0) != (((b as int)) < 0),
            ;
        } else {
            assert(tdiv(a as int, b as int) == q);
            assert((a as int) - (b as int) * q == (if a < 0 {
                -(m as int)
            } else {
                m as int
            })) by (nonlinear_arith)
                requires
                    a as int == (if (a as int) < 0 { -(ua as int) } else { ua as int }),
                    b as int == (if (b as int) < 0 { -(ub as int) } else { ub as int }),
                    ua as int == ub as int * q + m as int,
                    ((a as int) < 0) == (((b as int)) < 0),
            ;
        }
    }
    if a < 0 {
        if m == 0 {
            0
        } else {
            -(m as i32)
        }
    } else {
        m as i32
    }
}

/// Exponentiation by iterated wrapping multiplication.
pub open spec fn pow_wrap_spec(b: i32, e: nat) -> i32
    decreases e,
{
    if e == 0 {
        1
    } else {
        vstd::wrapping::i32_specs::wrapping_mul(pow_wrap_spec(b, (e - 1) as nat), b)
    }
}

/// Raises `base` to a non-negative power with wrapping multiplication.
pub fn pow_wrap(base: i32, exp: i32) -> (r: i32)
    requires
        exp >= 0,
    ensures
        r == pow_wrap_spec(base, exp as nat),
{
    let mut r: i32 = 1;
    let mut i: i32 = 0;
    while i < exp
        invariant
            0 <= i <= exp,
            r == pow_wrap_spec(base, i as nat),
        decreases exp - i,
    {
        r = r.wrapping_mul(base);
        i = i + 1;
    }
    r
}

/// The whole part of the square root: zero below one, else the largest
/// number whose square does not exceed `n`.
pub open spec fn sqrt_floor(n: int) -> int
    decreases n,
{
    if n < 1 {
        0
    } else {
        let s = sqrt_floor(n - 1);
        if (s + 1) * (s + 1) <= n {
            s + 1
        } else {
            s
        }
    }
}

pub proof fn lemma_sqrt_floor_props(n: int)
    requires
        n >= 0,
    ensures
        sqrt_floor(n) >= 0,
        sqrt_floor(n) * sqrt_floor(n) <= n,
        (sqrt_floor(n) + 1) * (sqrt_floor(n) + 1) > n,
    decreases n,
{
    if n < 1 {
    } else {
        lemma_sqrt_floor_props(n - 1);
        let s = sqrt_floor(n - 1);
        if (s + 1) * (s + 1) <= n {
            assert((s + 2) * (s + 2) > n) by (nonlinear_arith)
                requires
                    s >= 0,
                    (s + 1) * (s + 1) > n - 1,
            ;
        }
    }
}

pub proof fn lemma_sqrt_floor_unique(n: int, r: int)
    requires
        n >= 0,
        r >= 0,
        r * r <= n,
        (r + 1) * (r + 1) > n,
    ensures
        r == sqrt_floor(n),
{
    lemma_sqrt_floor_props(n);
    let s = sqrt_floor(n);
    if r < s {
        assert((r + 1) * (r + 1) <= s * s) by (nonlinear_arith)
            requires
                0 <= r,
                r + 1 <= s,
        ;
    }
    if s < r {
        assert((s + 1) * (s + 1) <= r * r) by (nonlinear_arith)
            requires
                0 <= s,
                s + 1 <= r,
        ;
    }
}

/// The whole part of the square root of a non-negative 32-bit integer.
pub fn isqrt(n: i32) -> (r: i32)
    requires
        n >= 0,
    ensures
        r as int == sqrt_floor(n as int),
{
    let mut r: i32 = 0;
    loop
        invariant
            0 <= r <= 46340,
            n >= 0,
            (r as int) * (r as int) <= n as int,
        ensures
            0 <= r,
            (r as int) * (r as int) <= n as int,
            ((r as int) + 1) * ((r as int) + 1) > n as int,
        decreases n as int - (r as int) * (r as int),
    {
        proof {
            assert(0 <= (r as int + 1) * (r as int + 1) <= 0x1_0000_0000_0000)
                by (nonlinear_arith)
                requires
                    0 <= r <= 46340,
            ;
        }
        let next: i64 = (r as i64 + 1) * (r as i64 + 1);
        if next > n as i64 {
            break;
        }
        proof {
            assert(r <= 46339) by (nonlinear_arith)
                requires
                    0 <= r,
                    ((r as int) + 1) * ((r as int) + 1) <= n as int,
                    n <= 0x7fff_ffff,
            ;
            assert((r as int) * (r as int) < ((r as int) + 1) * ((r as int) + 1))
                by (nonlinear_arith)
                requires
                    r >= 0,
            ;
        }
        r = r + 1;
    }
    proof {
        lemma_sqrt_floor_unique(n as int, r as int);
    }
    r
}

/// Repeated multiplication: `b` to the power `e`.
pub open spec fn pow_nat(b: int, e: nat) -> int
    decreases e,
{
    if e == 0 {
        1
    } else {
        b * pow_nat(b, (e - 1) as nat)
    }
}

pub proof fn lemma_pow_nat_pos(b: int, e: nat)
    requires
        b >= 1,
    ensures
        pow_nat(b, e) >= 1,
    decreases e,
{
    if e > 0 {
        lemma_pow_nat_pos(b, (e - 1) as nat);
        assert(b * pow_nat(b, (e - 1) as nat) >= 1) by (nonlinear_arith)
            requires
                b >= 1,
                pow_nat(b, (e - 1) as nat) >= 1,
        ;
    }
}

pub proof fn lemma_pow_nat_monotone(b: int, e1: nat, e2: nat)
    requires
        b >= 1,
        e1 <= e2,
    ensures
        pow_nat(b, e1) <= pow_nat(b, e2),
    decreases e2,
{
    if e1 < e2 {
        lemma_pow_nat_monotone(b, e1, (e2 - 1) as nat);
        lemma_pow_nat_pos(b, (e2 - 1) as nat);
        assert(pow_nat(b, (e2 - 1) as nat) <= b * pow_nat(b, (e2 - 1) as nat))
            by (nonlinear_arith)
            requires
                b >= 1,
                pow_nat(b, (e2 - 1) as nat) >= 1,
        ;
    }
}

/// With a base of at least two, the power dominates its exponent.
pub proof fn lemma_pow_nat_lower(b: int, e: nat)
    requires
        b >= 2,
    ensures
        pow_nat(b, e) >= e + 1,
    decreases e,
{
    if e > 0 {
        lemma_pow_nat_lower(b, (e - 1) as nat);
        assert(b * pow_nat(b, (e - 1) as nat) >= e + 1) by (nonlinear_arith)
            requires
                b >= 2,
                pow_nat(b, (e - 1) as nat) >= e,
                e >= 1,
        ;
    }
}

/// The whole part of the base-`b` logarithm: the largest exponent whose
/// power does not exceed `n`.
pub open spec fn log_floor(b: int, n: int) -> int
    recommends
        b >= 2,
        n >= 1,
    decreases n,
    via log_floor_decreases
{
    if b < 2 || n < b {
        0
    } else {
        1 + log_floor(b, n / b)
    }
}

#[via_fn]
proof fn log_floor_decreases(b: int, n: int) {
    if !(b < 2 || n < b) {
        lemma_div_pos_is_pos(n, b);
        lemma_div_is_strictly_smaller(n, b);
    }
}

pub proof fn lemma_log_floor_props(b: int, n: int)
    requires
        b >= 2,
        n >= 1,
    ensures
        log_floor(b, n) >= 0,
        pow_nat(b, log_floor(b, n) as nat) <= n,
        pow_nat(b, (log_floor(b, n) + 1) as nat) > n,
    decreases n,
{
    if n < b {
        assert(pow_nat(b, 0) == 1);
        assert(pow_nat(b, 1) == b * pow_nat(b, 0));
    } else {
        let q = n / b;
        lemma_div_pos_is_pos(n, b);
        lemma_fundamental_div_mod(n, b);
        assert(q >= 1) by (nonlinear_arith)
            requires
                n == b * q + n % b,
                0 <= n % b < b,
                n >= b,
                b >= 2,
                q >= 0,
        ;
        lemma_div_is_strictly_smaller(n, b);
        lemma_log_floor_props(b, q);
        let e = log_floor(b, q);
        assert(log_floor(b, n) == 1 + e);
        assert(pow_nat(b, (1 + e) as nat) == b * pow_nat(b, e as nat));
        assert(pow_nat(b, (2 + e) as nat) == b * pow_nat(b, (1 + e) as nat));
        assert(b * pow_nat(b, e as nat) <= n) by (nonlinear_arith)
            requires
                pow_nat(b, e as nat) <= q,
                n == b * q + n % b,
                0 <= n % b,
                b >= 2,
        ;
        assert(b * pow_nat(b, (1 + e) as nat) > n) by (nonlinear_arith)
            requires
                pow_nat(b, (1 + e) as nat) >= q + 1,
                n == b * q + n % b,
                n % b < b,
                b >= 2,
        ;
    }
}

pub proof fn lemma_log_floor_unique(b: int, n: int, r: int)
    requires
        b >= 2,
        n >= 1,
        r >= 0,
        pow_nat(b, r as nat) <= n,
        pow_nat(b, (r + 1) as nat) > n,
    ensures
        r == log_floor(b, n),
{
    lemma_log_floor_props(b, n);
    let e = log_floor(b, n);
    if r < e {
        lemma_pow_nat_monotone(b, (r + 1) as nat, e as nat);
    }
    if e < r {
        lemma_pow_nat_monotone(b, (e + 1) as nat, r as nat);
    }
}

/// The whole part of the base-`base` logarithm of `num`.
pub fn ilog(num: i32, base: i32) -> (r: i32)
    requires
        num >= 1,
        base >= 2,
    ensures
        r as int == log_floor(base as int, num as int),
{
    let mut r: i32 = 0;
    let mut p: i64 = base as i64;
    proof {
        assert(pow_nat(base as int, 1) == base as int * pow_nat(base as int, 0));
    }
    while p <= num as i64
        invariant
            num >= 1,
            base >= 2,
            0 <= r < num,
            p as int == pow_nat(base as int, (r + 1) as nat),
            pow_nat(base as int, r as nat) <= num as int,
            1 <= p <= 0x4000_0000_0000_0000,
        decreases num - r,
    {
        let ghost oldp = p as int;
        let ghost oldr = r as int;
        proof {
            lemma_pow_nat_lower(base as int, (oldr + 1) as nat);
            assert(1 <= p as int * base as int <= 0x4000_0000_0000_0000
                && p as int * base as int >= p as int + 1) by (nonlinear_arith)
                requires
                    1 <= p as int <= 0x7fff_ffff,
                    2 <= base as int <= 0x7fff_ffff,
            ;
        }
        p = p * (base as i64);
        r = r + 1;
        proof {
            assert(pow_nat(base as int, (oldr + 2) as nat) == base as int * pow_nat(
                base as int,
                (oldr + 1) as nat,
            ));
            assert(oldp * base as int == base as int * oldp) by (nonlinear_arith);
            assert(p as int == pow_nat(base as int, (r + 1) as nat));
        }
    }
    proof {
        lemma_log_floor_unique(base as int, num as int, r as int);
    }
    r
}

/// The whole part of the natural logarithm of a positive 32-bit integer.
/// Each bound below is the least whole number not less than the
/// corresponding power of the natural base, so `ln_floor(n) == k` exactly
/// when `n` lies between the `k`-th and the `(k+1)`-th power.
pub open spec fn ln_floor(n: int) -> int
    recommends
        n >= 1,
{
    if n >= 1318815735 {
        21
    } else if n >= 485165196 {
        20
    } else if n >= 178482301 {
        19
    } else if n >= 65659970 {
        18
    } else if n >= 24154953 {
        17
    } else if n >= 8886111 {
        16
    } else if n >= 3269018 {
        15
    } else if n >= 1202605 {
        14
    } else if n >= 442414 {
        13
    } else if n >= 162755 {
        12
    } else if n >= 59875 {
        11
    } else if n >= 22027 {
        10
    } else if n >= 8104 {
        9
    } else if n >= 2981 {
        8
    } else if n >= 1097 {
        7
    } else if n >= 404 {
        6
    } else if n >= 149 {
        5
    } else if n >= 55 {
        4
    } else if n >= 21 {
        3
    } else if n >= 8 {
        2
    } else if n >= 3 {
        1
    } else {
        0
    }
}

/// Executable counterpart of [`ln_floor`].
pub fn iln(n: i32) -> (r: i32)
    requires
        n >= 1,
    ensures
        r as int == ln_floor(n as int),
{
    if n >= 1318815735 {
        21
    } else if n >= 485165196 {
        20
    } else if n >= 178482301 {
        19
    } else if n >= 65659970 {
        18
    } else if n >= 24154953 {
        17
    } else if n >= 8886111 {
        16
    } else if n >= 3269018 {
        15
    } else if n >= 1202605 {
        14
    } else if n >= 442414 {
        13
    } else if n >= 162755 {
        12
    } else if n >= 59875 {
        11
    } else if n >= 22027 {
        10
    } else if n >= 8104 {
        9
    } else if n >= 2981 {
        8
    } else if n >= 1097 {
        7
    } else if n >= 404 {
        6
    } else if n >= 149 {
        5
    } else if n >= 55 {
        4
    } else if n >= 21 {
        3
    } else if n >= 8 {
        2
    } else if n >= 3 {
        1
    } else {
        0
    }
}

} // verus!
