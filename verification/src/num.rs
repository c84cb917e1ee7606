//! The numeric domain of the language: fixed-point values with three
//! decimal digits of fraction, stored in an `i64`.
//!
//! A script literal `1.5` becomes `1500`; arithmetic follows the usual
//! rules with truncation toward zero, and every operation reports overflow
//! instead of wrapping.

use vstd::prelude::*;

verus! {

/// One unit of the numeric domain: `1` in a script is stored as `1000`.
pub const UNIT: i64 = 1000;

/// Absolute value, as a mathematical integer.
pub open spec fn abs_i(a: int) -> int {
    if a < 0 {
        -a
    } else {
        a
    }
}

/// Division truncating toward zero, as Rust's `/` does.
pub open spec fn trunc_div(a: int, b: int) -> int
    recommends
        b != 0,
{
    let q = abs_i(a) / abs_i(b);
    if (a < 0) != (b < 0) {
        -q
    } else {
        q
    }
}

/// Does a mathematical integer fit the `i64` carrier?
pub open spec fn fits_i64(v: int) -> bool {
    i64::MIN <= v <= i64::MAX
}

/// Fixed-point addition: the exact sum, or `None` on overflow.
pub open spec fn fx_add(a: int, b: int) -> Option<int> {
    if fits_i64(a + b) {
        Some(a + b)
    } else {
        None
    }
}

/// Fixed-point subtraction: the exact difference, or `None` on overflow.
pub open spec fn fx_sub(a: int, b: int) -> Option<int> {
    if fits_i64(a - b) {
        Some(a - b)
    } else {
        None
    }
}

/// Fixed-point multiplication: `a * b` rescaled, truncating toward zero.
pub open spec fn fx_mul(a: int, b: int) -> Option<int> {
    let r = trunc_div(a * b, UNIT as int);
    if fits_i64(r) {
        Some(r)
    } else {
        None
    }
}

/// Fixed-point division: `a / b` rescaled, truncating toward zero.
pub open spec fn fx_div(a: int, b: int) -> Option<int>
    recommends
        b != 0,
{
    let r = trunc_div(a * (UNIT as int), b);
    if fits_i64(r) {
        Some(r)
    } else {
        None
    }
}

/// Magnitude of an `i64`, computed without overflow.
pub fn abs_u128(a: i64) -> (r: u128)
    ensures
        r == abs_i(a as int),
{
    if a >= 0 {
        a as u128
    } else {
        (-(a as i128)) as u128
    }
}

/// Rebuild a signed value from a magnitude and a sign, reporting overflow.
fn apply_sign(mag: u128, neg: bool) -> (r: Option<i64>)
    ensures
        ({
            let v = if neg {
                -(mag as int)
            } else {
                mag as int
            };
            match r {
                Some(x) => fits_i64(v) && x == v,
                None => !fits_i64(v),
            }
        }),
{
    if neg {
        if mag <= 0x7fff_ffff_ffff_ffffu128 {
            Some(-(mag as i64))
        } else if mag == 0x8000_0000_0000_0000u128 {
            Some(i64::MIN)
        } else {
            None
        }
    } else {
        if mag <= 0x7fff_ffff_ffff_ffffu128 {
            Some(mag as i64)
        } else {
            None
        }
    }
}

/// Checked fixed-point addition.
pub fn add_fx(a: i64, b: i64) -> (r: Option<i64>)
    ensures
        match r {
            Some(v) => fx_add(a as int, b as int) == Some(v as int),
            None => fx_add(a as int, b as int) is None,
        },
{
    if b >= 0 {
        if a <= i64::MAX - b {
            Some(a + b)
        } else {
            None
        }
    } else {
        if a >= i64::MIN - b {
            Some(a + b)
        } else {
            None
        }
    }
}

/// Checked fixed-point subtraction.
pub fn sub_fx(a: i64, b: i64) -> (r: Option<i64>)
    ensures
        match r {
            Some(v) => fx_sub(a as int, b as int) == Some(v as int),
            None => fx_sub(a as int, b as int) is None,
        },
{
    if b >= 0 {
        if a >= i64::MIN + b {
            Some(a - b)
        } else {
            None
        }
    } else {
        if a <= i64::MAX + b {
            Some(a - b)
        } else {
            None
        }
    }
}

/// Checked fixed-point multiplication, truncating toward zero.
pub fn mul_fx(a: i64, b: i64) -> (r: Option<i64>)
    ensures
        match r {
            Some(v) => fx_mul(a as int, b as int) == Some(v as int),
            None => fx_mul(a as int, b as int) is None,
        },
{
    let ma = abs_u128(a);
    let mb = abs_u128(b);
    assert(ma * mb == abs_i((a as int) * (b as int)) && ma * mb <= 0xffff_ffff_ffff_ffff_ffff_ffff_ffff_ffffu128)
        by (nonlinear_arith)
        requires
            ma == abs_i(a as int),
            mb == abs_i(b as int),
            abs_i(a as int) < 0x1_0000_0000_0000_0000,
            abs_i(b as int) < 0x1_0000_0000_0000_0000,
    ;
    let prod = ma * mb;
    let q = prod / 1000;
    let neg = (a < 0) != (b < 0);
    proof {
        assert(q == abs_i((a as int) * (b as int)) / 1000);
        assert(trunc_div((a as int) * (b as int), UNIT as int) == if ((a as int) * (b as int) < 0) {
            -(q as int)
        } else {
            q as int
        }) by (nonlinear_arith)
            requires
                q == abs_i((a as int) * (b as int)) / 1000,
        ;
        if a != 0 && b != 0 {
            assert(((a as int) * (b as int) < 0) == ((a < 0) != (b < 0))) by (nonlinear_arith)
                requires
                    a != 0,
                    b != 0,
            ;
        }
    }
    if a == 0 || b == 0 {
        return Some(0);
    }
    apply_sign(q, neg)
}

/// Checked fixed-point division, truncating toward zero.
pub fn div_fx(a: i64, b: i64) -> (r: Option<i64>)
    requires
        b != 0,
    ensures
        match r {
            Some(v) => fx_div(a as int, b as int) == Some(v as int),
            None => fx_div(a as int, b as int) is None,
        },
{
    let ma = abs_u128(a);
    let mb = abs_u128(b);
    let num = ma * 1000;
    assert(num == abs_i((a as int) * (UNIT as int))) by (nonlinear_arith)
        requires
            num == ma * 1000,
            ma == abs_i(a as int),
            UNIT == 1000,
    ;
    let q = num / mb;
    let neg = (a < 0) != (b < 0);
    proof {
        assert(q == abs_i((a as int) * (UNIT as int)) / abs_i(b as int));
        assert(trunc_div((a as int) * (UNIT as int), b as int) == if (((a as int) * (UNIT as int) < 0)
            != ((b as int) < 0)) {
            -(q as int)
        } else {
            q as int
        }) by (nonlinear_arith)
            requires
                q == abs_i((a as int) * (UNIT as int)) / abs_i(b as int),
                b != 0,
        ;
        if a != 0 {
            assert((((a as int) * (UNIT as int) < 0) != ((b as int) < 0)) == ((a < 0) != (b < 0)))
                by (nonlinear_arith)
                requires
                    b != 0,
                    UNIT == 1000,
            ;
        }
    }
    if a == 0 {
        return Some(0);
    }
    apply_sign(q, neg)
}

} // verus!
