//! Exact arithmetic on 128-bit unsigned integers whose intermediate
//! results need 256 bits: full multiplication, comparison of wide
//! values and division of a wide value by a 128-bit divisor.
use vstd::arithmetic::power2::{lemma2_to64, lemma2_to64_rest, lemma_pow2_adds, lemma_pow2_unfold, pow2};
use vstd::prelude::*;

verus! {

/// 2^64.
pub open spec fn base64() -> int {
    0x1_0000_0000_0000_0000int
}

/// 2^128.
pub open spec fn base128() -> int {
    0x1_0000_0000_0000_0000_0000_0000_0000_0000int
}

/// The value of the 256-bit number whose high and low 128-bit halves
/// are `hi` and `lo`.
pub open spec fn wide(hi: u128, lo: u128) -> int {
    hi * base128() + lo
}

proof fn lemma_expand(a0: int, a1: int, b0: int, b1: int)
    ensures
        (a1 * base64() + a0) * (b1 * base64() + b0) == (a1 * b1) * base128() + (a0 * b1
            + a1 * b0) * base64() + a0 * b0,
{
    assert((a1 * 0x1_0000_0000_0000_0000int + a0) * (b1 * 0x1_0000_0000_0000_0000int + b0) == (a1
        * b1) * 0x1_0000_0000_0000_0000_0000_0000_0000_0000int + (a0 * b1 + a1 * b0)
        * 0x1_0000_0000_0000_0000int + a0 * b0) by (nonlinear_arith);
}

proof fn lemma_digit_product(x: int, y: int)
    requires
        0 <= x < base64(),
        0 <= y < base64(),
    ensures
        0 <= x * y <= 0xFFFF_FFFF_FFFF_FFFE_0000_0000_0000_0001int,
{
    assert(0 <= x * y <= (0x1_0000_0000_0000_0000int - 1) * (0x1_0000_0000_0000_0000int - 1))
        by (nonlinear_arith)
        requires
            0 <= x < 0x1_0000_0000_0000_0000int,
            0 <= y < 0x1_0000_0000_0000_0000int,
    ;
}

proof fn lemma_product_bound(a: int, b: int)
    requires
        0 <= a < base128(),
        0 <= b < base128(),
    ensures
        0 <= a * b < base128() * base128(),
{
    assert(0 <= a * b < 0x1_0000_0000_0000_0000_0000_0000_0000_0000int
        * 0x1_0000_0000_0000_0000_0000_0000_0000_0000int) by (nonlinear_arith)
        requires
            0 <= a < 0x1_0000_0000_0000_0000_0000_0000_0000_0000int,
            0 <= b < 0x1_0000_0000_0000_0000_0000_0000_0000_0000int,
    ;
}

/// The full 256-bit product of two 128-bit numbers, as its high and
/// low halves.
pub fn mul_wide(a: u128, b: u128) -> (res: (u128, u128))
    ensures
        wide(res.0, res.1) == a * b,
{
    let bb: u128 = 0x1_0000_0000_0000_0000;
    let a0 = a % bb;
    let a1 = a / bb;
    let b0 = b % bb;
    let b1 = b / bb;
    proof {
        lemma_digit_product(a0 as int, b0 as int);
        lemma_digit_product(a0 as int, b1 as int);
        lemma_digit_product(a1 as int, b0 as int);
        lemma_digit_product(a1 as int, b1 as int);
    }
    let p00 = a0 * b0;
    let p01 = a0 * b1;
    let p10 = a1 * b0;
    let p11 = a1 * b1;
    let mid = p00 / bb + p01 % bb + p10 % bb;
    let lo = (mid % bb) * bb + p00 % bb;
    let ghost hi_int: int = p11 + p01 / bb + p10 / bb + mid / bb;
    proof {
        lemma_expand(a0 as int, a1 as int, b0 as int, b1 as int);
        assert(a == a1 * base64() + a0);
        assert(b == b1 * base64() + b0);
        assert(a * b == hi_int * base128() + lo);
        lemma_product_bound(a as int, b as int);
        assert(hi_int < base128());
    }
    let hi = p11 + p01 / bb + p10 / bb + mid / bb;
    (hi, lo)
}

/// Whether the first wide value is strictly below the second.
pub fn wide_lt(x: (u128, u128), y: (u128, u128)) -> (res: bool)
    ensures
        res == (wide(x.0, x.1) < wide(y.0, y.1)),
{
    if x.0 < y.0 {
        true
    } else if x.0 == y.0 {
        x.1 < y.1
    } else {
        false
    }
}

/// Adds a 128-bit number to a wide value that is known not to
/// overflow 256 bits.
pub fn wide_add(x: (u128, u128), c: u128) -> (res: (u128, u128))
    requires
        wide(x.0, x.1) + c < base128() * base128(),
    ensures
        wide(res.0, res.1) == wide(x.0, x.1) + c,
{
    if x.1 <= u128::MAX - c {
        (x.0, x.1 + c)
    } else {
        let lo = c - (u128::MAX - x.1) - 1;
        proof {
            assert(x.0 + 1 < base128()) by (nonlinear_arith)
                requires
                    x.0 * 0x1_0000_0000_0000_0000_0000_0000_0000_0000int + x.1 + c
                        < 0x1_0000_0000_0000_0000_0000_0000_0000_0000int
                        * 0x1_0000_0000_0000_0000_0000_0000_0000_0000int,
                    x.1 + c >= 0x1_0000_0000_0000_0000_0000_0000_0000_0000int,
            ;
        }
        (x.0 + 1, lo)
    }
}

proof fn lemma_div_step(
    n: int,
    q: int,
    r: int,
    d: int,
    p: int,
    half: int,
    rem: int,
    bit: int,
    rem2: int,
    c: int,
    r2: int,
)
    requires
        n == (q * d + r) * p + rem,
        p == 2 * half,
        rem == bit * half + rem2,
        2 * r + bit == c * d + r2,
    ensures
        n == ((2 * q + c) * d + r2) * half + rem2,
{
    assert(n == ((2 * q + c) * d + r2) * half + rem2) by (nonlinear_arith)
        requires
            n == (q * d + r) * p + rem,
            p == 2 * half,
            rem == bit * half + rem2,
            2 * r + bit == c * d + r2,
    ;
}

proof fn lemma_quotient_fits(n: int, q: int, d: int, r: int, half: int, rem: int)
    requires
        n == (q * d + r) * half + rem,
        0 <= q,
        0 <= r,
        0 <= rem,
        1 <= d,
        1 <= half,
        n < d * base128(),
    ensures
        q < base128(),
{
    assert(q < 0x1_0000_0000_0000_0000_0000_0000_0000_0000int) by (nonlinear_arith)
        requires
            n == (q * d + r) * half + rem,
            0 <= q,
            0 <= r,
            0 <= rem,
            1 <= d,
            1 <= half,
            n < d * 0x1_0000_0000_0000_0000_0000_0000_0000_0000int,
    ;
}

proof fn lemma_high_below_divisor(hi: int, lo: int, d: int)
    requires
        0 <= hi < d,
        0 <= lo < base128(),
    ensures
        hi * base128() + lo < d * base128(),
{
    assert(hi * 0x1_0000_0000_0000_0000_0000_0000_0000_0000int + lo < d
        * 0x1_0000_0000_0000_0000_0000_0000_0000_0000int) by (nonlinear_arith)
        requires
            0 <= hi < d,
            0 <= lo < 0x1_0000_0000_0000_0000_0000_0000_0000_0000int,
    ;
}

/// Divides the wide value `x` by `d`, giving quotient and remainder.
/// The quotient fits in 128 bits because the high half is below `d`.
pub fn div_wide(x: (u128, u128), d: u128) -> (res: (u128, u128))
    requires
        d > 0,
        x.0 < d,
    ensures
        res.0 == wide(x.0, x.1) / (d as int),
        res.1 == wide(x.0, x.1) % (d as int),
{
    let ghost n: int = wide(x.0, x.1);
    let mut q: u128 = 0;
    let mut r: u128 = x.0;
    let mut rem: u128 = x.1;
    let mut half: u128 = 0x8000_0000_0000_0000_0000_0000_0000_0000;
    let ghost mut p: int = base128();
    let ghost mut k: nat = 127;
    proof {
        lemma_high_below_divisor(x.0 as int, x.1 as int, d as int);
        lemma2_to64_rest();
        lemma_pow2_adds(64, 63);
    }
    while half > 0
        invariant
            n == wide(x.0, x.1),
            n < d * base128(),
            d > 0,
            n == (q * d + r) * p + rem,
            r < d,
            rem < p,
            half > 0 ==> p == 2 * half,
            half == 0 ==> p == 1,
            half > 0 ==> half == pow2(k),
        decreases half,
    {
        let bit: u128 = if rem >= half {
            1
        } else {
            0
        };
        let rem2: u128 = if rem >= half {
            rem - half
        } else {
            rem
        };
        let c: u128;
        let r2: u128;
        if r >= d - r {
            c = 1;
            r2 = r - (d - r) + bit;
        } else if 2 * r + bit >= d {
            c = 1;
            r2 = 2 * r + bit - d;
        } else {
            c = 0;
            r2 = 2 * r + bit;
        }
        proof {
            lemma_div_step(
                n,
                q as int,
                r as int,
                d as int,
                p,
                half as int,
                rem as int,
                bit as int,
                rem2 as int,
                c as int,
                r2 as int,
            );
            lemma_quotient_fits(n, 2 * q + c, d as int, r2 as int, half as int, rem2 as int);
        }
        q = 2 * q + c;
        r = r2;
        rem = rem2;
        proof {
            p = half as int;
        }
        proof {
            if k > 0 {
                lemma_pow2_unfold(k);
            } else {
                lemma2_to64();
            }
        }
        half = half / 2;
        proof {
            if k > 0 {
                k = (k - 1) as nat;
            }
        }
    }
    proof {
        assert(rem == 0);
        assert(n == q * d + r);
        vstd::arithmetic::div_mod::lemma_fundamental_div_mod_converse(n, d as int, q as int, r as int);
    }
    (q, r)
}

} // verus!
