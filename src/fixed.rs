use vstd::prelude::*;

verus! {

/// The raw value that stands for 1.0 in Q16.16.
pub const ONE: i32 = 65536;

/// Division that rounds toward zero, as Rust's integer division does.
pub open spec fn trunc_div(n: int, d: int) -> int {
    if n >= 0 {
        n / d
    } else {
        -((-n) / d)
    }
}

/// Clamps a mathematical integer into the range of `i32`.
pub open spec fn saturate(v: int) -> int {
    if v < i32::MIN {
        i32::MIN as int
    } else if v > i32::MAX {
        i32::MAX as int
    } else {
        v
    }
}

/// The fixed-point product of two raw values, rounded toward zero.
pub open spec fn fx_mul(a: int, b: int) -> int {
    trunc_div(a * b, ONE as int)
}

/// The fixed-point product, saturated into the sample range.
pub open spec fn scaled(a: int, b: int) -> int {
    saturate(fx_mul(a, b))
}

/// The magnitude of an integer.
pub open spec fn abs(a: int) -> int {
    if a < 0 {
        -a
    } else {
        a
    }
}

/// Saturates a wide intermediate value into a sample.
pub fn saturate_i128(v: i128) -> (r: i32)
    ensures
        r == saturate(v as int),
{
    if v < i32::MIN as i128 {
        i32::MIN
    } else if v > i32::MAX as i128 {
        i32::MAX
    } else {
        v as i32
    }
}

/// Multiplies two fixed-point values, rounding toward zero and saturating.
pub fn mul_fx(a: i64, b: i64) -> (r: i32)
    requires
        abs(a as int) <= 0x1_0000_0000,
        abs(b as int) <= 0x1_0000_0000,
    ensures
        r == scaled(a as int, b as int),
{
    proof {
        assert(abs(a * b) <= 0x1_0000_0000 * 0x1_0000_0000) by (nonlinear_arith)
            requires
                abs(a as int) <= 0x1_0000_0000,
                abs(b as int) <= 0x1_0000_0000,
        ;
    }
    let p: i128 = (a as i128) * (b as i128);
    let q: i128 = if p >= 0 {
        p / (ONE as i128)
    } else {
        -((-p) / (ONE as i128))
    };
    saturate_i128(q)
}

/// The magnitude of a sample, widened so that it cannot overflow.
pub fn magnitude(x: i32) -> (r: u32)
    ensures
        r == abs(x as int),
{
    if x < 0 {
        (-(x as i64)) as u32
    } else {
        x as u32
    }
}

/// Integer division rounding toward zero, for a positive divisor.
pub fn div_toward_zero(n: i128, d: i128) -> (r: i128)
    requires
        d > 0,
        n > i128::MIN,
    ensures
        r == trunc_div(n as int, d as int),
{
    if n >= 0 {
        n / d
    } else {
        -((-n) / d)
    }
}

/// Taking the fraction `i / n` (at most one) of `x`, rounded toward zero,
/// gives a value between zero and `x`.
pub proof fn lemma_fraction_between(x: int, i: int, n: int)
    requires
        0 <= i <= n,
        n > 0,
    ensures
        x >= 0 ==> 0 <= trunc_div(x * i, n) <= x,
        x < 0 ==> x <= trunc_div(x * i, n) <= 0,
{
    if x >= 0 {
        assert(0 <= x * i <= x * n) by (nonlinear_arith)
            requires
                0 <= i <= n,
                x >= 0,
        ;
        assert(0 <= (x * i) / n <= x) by (nonlinear_arith)
            requires
                0 <= x * i <= x * n,
                n > 0,
        ;
    } else {
        let y = -x;
        assert(0 <= y * i <= y * n) by (nonlinear_arith)
            requires
                0 <= i <= n,
                y >= 0,
        ;
        assert(0 <= (y * i) / n <= y) by (nonlinear_arith)
            requires
                0 <= y * i <= y * n,
                n > 0,
        ;
        assert(x * i == -(y * i)) by (nonlinear_arith)
            requires
                y == -x,
        ;
    }
}

} // verus!
