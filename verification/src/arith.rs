//! The integer arithmetic of damage and block modifiers.
//!
//! A modifier multiplies an amount by a fraction and drops the part after the point,
//! toward zero; a result beyond the range of `i32` is held at its nearest end.

use vstd::prelude::*;

verus! {

/// `a / d` rounded toward zero, for a positive divisor.
pub open spec fn div_toward_zero(a: int, d: int) -> int
    recommends
        d > 0,
{
    if a >= 0 {
        a / d
    } else {
        -((-a) / d)
    }
}

/// `v` held within the range of `i32`.
pub open spec fn clamp_i32(v: int) -> int {
    if v > i32::MAX {
        i32::MAX as int
    } else if v < i32::MIN {
        i32::MIN as int
    } else {
        v
    }
}

/// `x * num / den`, rounded toward zero and held within `i32`.
pub open spec fn scaled(x: int, num: int, den: int) -> int {
    clamp_i32(div_toward_zero(x * num, den))
}

/// Computes `x * num / den`, rounded toward zero and held within the range of `i32`.
pub fn scale(x: i32, num: i32, den: i32) -> (r: i32)
    requires
        den > 0,
    ensures
        r == scaled(x as int, num as int, den as int),
{
    proof {
        lemma_product_bound(x as int, num as int);
    }
    let p: i64 = (x as i64) * (num as i64);
    let d: i64 = den as i64;
    let q: i64 = if p >= 0 {
        p / d
    } else {
        let n: i64 = -p;
        -(n / d)
    };
    if q > i32::MAX as i64 {
        i32::MAX
    } else if q < i32::MIN as i64 {
        i32::MIN
    } else {
        q as i32
    }
}

proof fn lemma_product_bound(x: int, y: int)
    requires
        i32::MIN <= x <= i32::MAX,
        i32::MIN <= y <= i32::MAX,
    ensures
        -0x4000_0000_0000_0000 <= x * y <= 0x4000_0000_0000_0000,
{
    assert(-0x4000_0000_0000_0000 <= x * y <= 0x4000_0000_0000_0000) by (nonlinear_arith)
        requires
            -0x8000_0000 <= x <= 0x8000_0000,
            -0x8000_0000 <= y <= 0x8000_0000,
    ;
}

} // verus!
