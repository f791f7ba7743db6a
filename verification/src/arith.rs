//! Arithmetic on the 32-bit values of the data stack.
//!
//! Sums, differences and products wrap around on overflow. Division rounds
//! toward zero; dividing by zero is the only case with no result.

use vstd::prelude::*;

verus! {

/// The 32-bit two's complement value that an integer wraps to.
pub open spec fn wrap32(x: int) -> i32 {
    let m = x % 0x1_0000_0000;
    if m > i32::MAX {
        (m - 0x1_0000_0000) as i32
    } else {
        m as i32
    }
}

/// The 8-bit two's complement value that an integer wraps to.
pub open spec fn wrap8(x: int) -> i8 {
    ((x + 128) % 256 - 128) as i8
}

/// The quotient of `x` by `d`, rounded toward zero; `d` is not zero.
pub open spec fn quot(x: int, d: int) -> int {
    if x >= 0 && d > 0 {
        x / d
    } else if x < 0 && d < 0 {
        (-x) / (-d)
    } else if x < 0 {
        -((-x) / d)
    } else {
        -(x / (-d))
    }
}

/// A value of the target width wraps to itself.
pub proof fn lemma_wrap_in_range(x: int)
    ensures
        i32::MIN <= x <= i32::MAX ==> wrap32(x) == x,
        i8::MIN <= x <= i8::MAX ==> wrap8(x) == x,
{
}

/// `b + a`, wrapped.
pub fn wrapping_sum(b: i32, a: i32) -> (r: i32)
    ensures
        r == wrap32(b + a),
{
    b.wrapping_add(a)
}

/// `b - a`, wrapped.
pub fn wrapping_difference(b: i32, a: i32) -> (r: i32)
    ensures
        r == wrap32(b - a),
{
    b.wrapping_sub(a)
}

/// `b * a`, wrapped.
pub fn wrapping_product(b: i32, a: i32) -> (r: i32)
    ensures
        r == wrap32(b * a),
{
    b.wrapping_mul(a)
}

/// `b / a` rounded toward zero, wrapped; `None` exactly when `a` is zero.
pub fn wrapping_quotient(b: i32, a: i32) -> (r: Option<i32>)
    ensures
        a == 0 ==> r is None,
        a != 0 ==> r == Some(wrap32(quot(b as int, a as int))),
{
    if a == 0 {
        return None;
    }
    let x: i64 = if b < 0 {
        -(b as i64)
    } else {
        b as i64
    };
    let d: i64 = if a < 0 {
        -(a as i64)
    } else {
        a as i64
    };
    let magnitude: i64 = x / d;
    proof {
        vstd::arithmetic::div_mod::lemma_div_pos_is_pos(x as int, d as int);
        vstd::arithmetic::div_mod::lemma_div_nonincreasing(x as int, d as int);
    }
    let q: i64 = if (b < 0) == (a < 0) {
        magnitude
    } else {
        -magnitude
    };
    assert(q == quot(b as int, a as int));
    if q > 0x7fff_ffff {
        Some(-0x8000_0000)
    } else {
        Some(q as i32)
    }
}

/// The low eight bits of a value, read as a signed byte.
pub fn low_byte(v: i32) -> (r: i8)
    ensures
        r == wrap8(v as int),
{
    let shifted: i64 = v as i64 + 0x8000_0000 + 128;
    let low: i64 = shifted % 256;
    assert(low == (v + 128) % 256) by {
        vstd::arithmetic::div_mod::lemma_mod_multiples_vanish(0x80_0000, v + 128, 256);
    }
    (low - 128) as i8
}

} // verus!
