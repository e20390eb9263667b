//! The arithmetic of the instruction set on integers, and what can be
//! said of floating-point values from their bit patterns alone.
use vstd::prelude::*;

verus! {

/// The quotient of `a` by `b`, rounded towards zero.
pub open spec fn truncated_quotient(a: int, b: int) -> int {
    if a >= 0 && b > 0 {
        a / b
    } else if a < 0 && b > 0 {
        -((-a) / b)
    } else if a >= 0 && b < 0 {
        -(a / (-b))
    } else {
        (-a) / (-b)
    }
}

/// The remainder that goes with `truncated_quotient`: it has the sign of
/// `a`.
pub open spec fn truncated_remainder(a: int, b: int) -> int {
    a - b * truncated_quotient(a, b)
}

/// The operations on two integers.
#[derive(Debug, Clone, Copy, PartialEq, Eq, Structural)]
pub enum IntOp {
    Add,
    Sub,
    Mul,
    Div,
    Rem,
    And,
    Or,
    Xor,
    Shl,
    Shr,
    Ushr,
}

/// The result of a 32-bit operation, or `None` for a division by zero.
/// Sums, differences and products wrap around. The quotient of the
/// smallest integer by -1 is the smallest integer, and the remainder is 0.
/// Shifts use the low five bits of the count.
pub open spec fn int_result(op: IntOp, a: i32, b: i32) -> Option<i32> {
    match op {
        IntOp::Add => Some(vstd::wrapping::i32_specs::wrapping_add(a, b)),
        IntOp::Sub => Some(vstd::wrapping::i32_specs::wrapping_sub(a, b)),
        IntOp::Mul => Some(vstd::wrapping::i32_specs::wrapping_mul(a, b)),
        IntOp::Div => if b == 0 {
            None
        } else if a == i32::MIN && b == -1 {
            Some(i32::MIN)
        } else {
            Some(truncated_quotient(a as int, b as int) as i32)
        },
        IntOp::Rem => if b == 0 {
            None
        } else if a == i32::MIN && b == -1 {
            Some(0)
        } else {
            Some(truncated_remainder(a as int, b as int) as i32)
        },
        IntOp::And => Some(a & b),
        IntOp::Or => Some(a | b),
        IntOp::Xor => Some(a ^ b),
        IntOp::Shl => Some(a << ((b as u32) & 31)),
        IntOp::Shr => Some(a >> ((b as u32) & 31)),
        IntOp::Ushr => Some(((a as u32) >> ((b as u32) & 31)) as i32),
    }
}

/// The result of a 64-bit operation, or `None` for a division by zero.
/// The second operand of a shift is a 32-bit count, of which the low six
/// bits are used; it is passed as `b` widened to 64 bits.
pub open spec fn long_result(op: IntOp, a: i64, b: i64) -> Option<i64> {
    match op {
        IntOp::Add => Some(vstd::wrapping::i64_specs::wrapping_add(a, b)),
        IntOp::Sub => Some(vstd::wrapping::i64_specs::wrapping_sub(a, b)),
        IntOp::Mul => Some(vstd::wrapping::i64_specs::wrapping_mul(a, b)),
        IntOp::Div => if b == 0 {
            None
        } else if a == i64::MIN && b == -1 {
            Some(i64::MIN)
        } else {
            Some(truncated_quotient(a as int, b as int) as i64)
        },
        IntOp::Rem => if b == 0 {
            None
        } else if a == i64::MIN && b == -1 {
            Some(0)
        } else {
            Some(truncated_remainder(a as int, b as int) as i64)
        },
        IntOp::And => Some(a & b),
        IntOp::Or => Some(a | b),
        IntOp::Xor => Some(a ^ b),
        IntOp::Shl => Some(a << ((b as u64) & 63)),
        IntOp::Shr => Some(a >> ((b as u64) & 63)),
        IntOp::Ushr => Some(((a as u64) >> ((b as u64) & 63)) as i64),
    }
}

fn divide(a: i64, b: i64) -> (r: (i64, i64))
    requires
        b != 0,
        i32::MIN <= a <= i32::MAX,
        i32::MIN <= b <= i32::MAX,
    ensures
        r.0 == truncated_quotient(a as int, b as int),
        r.1 == truncated_remainder(a as int, b as int),
        -0x8000_0000 <= r.0 <= 0x8000_0000,
        -0x8000_0000 < r.1 < 0x8000_0000,
{
    let q: i64 = if a >= 0 && b > 0 {
        a / b
    } else if a < 0 && b > 0 {
        -((-a) / b)
    } else if a >= 0 && b < 0 {
        -(a / (-b))
    } else {
        (-a) / (-b)
    };
    assert(-0x8000_0000 <= q <= 0x8000_0000 && -0x8000_0000 < a - b * q < 0x8000_0000) by (nonlinear_arith)
        requires
            b != 0,
            -0x8000_0000 <= a <= 0x7fff_ffff,
            -0x8000_0000 <= b <= 0x7fff_ffff,
            q == truncated_quotient(a as int, b as int),
    ;
    (q, a - b * q)
}

fn divide_long(a: i128, b: i128) -> (r: (i128, i128))
    requires
        b != 0,
        i64::MIN <= a <= i64::MAX,
        i64::MIN <= b <= i64::MAX,
    ensures
        r.0 == truncated_quotient(a as int, b as int),
        r.1 == truncated_remainder(a as int, b as int),
        -0x8000_0000_0000_0000 <= r.0 <= 0x8000_0000_0000_0000,
        -0x8000_0000_0000_0000 < r.1 < 0x8000_0000_0000_0000,
{
    let q: i128 = if a >= 0 && b > 0 {
        a / b
    } else if a < 0 && b > 0 {
        -((-a) / b)
    } else if a >= 0 && b < 0 {
        -(a / (-b))
    } else {
        (-a) / (-b)
    };
    assert(-0x8000_0000_0000_0000 <= q <= 0x8000_0000_0000_0000 && -0x8000_0000_0000_0000 < a - b
        * q < 0x8000_0000_0000_0000) by (nonlinear_arith)
        requires
            b != 0,
            -0x8000_0000_0000_0000 <= a <= 0x7fff_ffff_ffff_ffff,
            -0x8000_0000_0000_0000 <= b <= 0x7fff_ffff_ffff_ffff,
            q == truncated_quotient(a as int, b as int),
    ;
    (q, a - b * q)
}

/// Computes a 32-bit operation.
pub fn int_math(op: IntOp, a: i32, b: i32) -> (r: Option<i32>)
    ensures
        r == int_result(op, a, b),
{
    let count: u32 = (#[verifier::truncate] (b as u32)) & 31;
    assert(count < 32) by (bit_vector)
        requires
            count == (#[verifier::truncate] (b as u32)) & 31,
    ;
    match op {
        IntOp::Add => Some(a.wrapping_add(b)),
        IntOp::Sub => Some(a.wrapping_sub(b)),
        IntOp::Mul => Some(a.wrapping_mul(b)),
        IntOp::Div => if b == 0 {
            None
        } else if a == i32::MIN && b == -1 {
            Some(i32::MIN)
        } else {
            let (q, _) = divide(a as i64, b as i64);
            assert(q != 0x8000_0000) by (nonlinear_arith)
                requires
                    q == truncated_quotient(a as int, b as int),
                    b != 0,
                    !(a == -0x8000_0000 && b == -1),
                    -0x8000_0000 <= a <= 0x7fff_ffff,
                    -0x8000_0000 <= b <= 0x7fff_ffff,
            ;
            Some(q as i32)
        },
        IntOp::Rem => if b == 0 {
            None
        } else if a == i32::MIN && b == -1 {
            Some(0)
        } else {
            let (_, m) = divide(a as i64, b as i64);
            Some(m as i32)
        },
        IntOp::And => Some(a & b),
        IntOp::Or => Some(a | b),
        IntOp::Xor => Some(a ^ b),
        IntOp::Shl => Some(a << count),
        IntOp::Shr => Some(a >> count),
        IntOp::Ushr => Some(
            #[verifier::truncate] (((#[verifier::truncate] (a as u32)) >> count) as i32),
        ),
    }
}

/// Computes a 64-bit operation.
pub fn long_math(op: IntOp, a: i64, b: i64) -> (r: Option<i64>)
    ensures
        r == long_result(op, a, b),
{
    let count: u64 = (#[verifier::truncate] (b as u64)) & 63;
    assert(count < 64) by (bit_vector)
        requires
            count == (#[verifier::truncate] (b as u64)) & 63,
    ;
    match op {
        IntOp::Add => Some(a.wrapping_add(b)),
        IntOp::Sub => Some(a.wrapping_sub(b)),
        IntOp::Mul => Some(a.wrapping_mul(b)),
        IntOp::Div => if b == 0 {
            None
        } else if a == i64::MIN && b == -1 {
            Some(i64::MIN)
        } else {
            let (q, _) = divide_long(a as i128, b as i128);
            assert(q != 0x8000_0000_0000_0000) by (nonlinear_arith)
                requires
                    q == truncated_quotient(a as int, b as int),
                    b != 0,
                    !(a == -0x8000_0000_0000_0000 && b == -1),
                    -0x8000_0000_0000_0000 <= a <= 0x7fff_ffff_ffff_ffff,
                    -0x8000_0000_0000_0000 <= b <= 0x7fff_ffff_ffff_ffff,
            ;
            Some(q as i64)
        },
        IntOp::Rem => if b == 0 {
            None
        } else if a == i64::MIN && b == -1 {
            Some(0)
        } else {
            let (_, m) = divide_long(a as i128, b as i128);
            Some(m as i64)
        },
        IntOp::And => Some(a & b),
        IntOp::Or => Some(a | b),
        IntOp::Xor => Some(a ^ b),
        IntOp::Shl => Some(a << count),
        IntOp::Shr => Some(a >> count),
        IntOp::Ushr => Some(
            #[verifier::truncate] (((#[verifier::truncate] (a as u64)) >> count) as i64),
        ),
    }
}

/// Division by zero never yields a result, and no other operation fails.
pub proof fn lemma_only_division_by_zero_fails(op: IntOp, a: i32, b: i32)
    ensures
        int_result(op, a, b) is None <==> (op is Div || op is Rem) && b == 0,
{
}

/// Division by zero never yields a result, and no other operation fails.
pub proof fn lemma_only_long_division_by_zero_fails(op: IntOp, a: i64, b: i64)
    ensures
        long_result(op, a, b) is None <==> (op is Div || op is Rem) && b == 0,
{
}

/// The sign of the comparison of two integers: -1, 0 or 1.
pub open spec fn sign_of_comparison(a: int, b: int) -> i32 {
    if a < b {
        -1i32
    } else if a > b {
        1i32
    } else {
        0i32
    }
}

/// The sign of the comparison of two longs.
pub open spec fn long_comparison(a: i64, b: i64) -> i32 {
    sign_of_comparison(a as int, b as int)
}

pub fn compare_longs(a: i64, b: i64) -> (r: i32)
    ensures
        r == long_comparison(a, b),
{
    if a < b {
        -1
    } else if a > b {
        1
    } else {
        0
    }
}

/// The bit pattern of the canonical single-precision NaN.
pub const SINGLE_NAN: u32 = 0x7fc0_0000;
/// The bit pattern of the canonical double-precision NaN.
pub const DOUBLE_NAN: u64 = 0x7ff8_0000_0000_0000;
/// The bit pattern of the single-precision 1.
pub const SINGLE_ONE: u32 = 0x3f80_0000;
/// The bit pattern of the single-precision 2.
pub const SINGLE_TWO: u32 = 0x4000_0000;
/// The bit pattern of the double-precision 1.
pub const DOUBLE_ONE: u64 = 0x3ff0_0000_0000_0000;

/// Whether a single-precision pattern is a NaN: all exponent bits set
/// and a fraction that is not zero.
pub open spec fn single_is_nan(bits: u32) -> bool {
    (bits & 0x7f80_0000) == 0x7f80_0000 && (bits & 0x007f_ffff) != 0
}

/// Whether a single-precision pattern is an infinity.
pub open spec fn single_is_infinite(bits: u32) -> bool {
    (bits & 0x7fff_ffff) == 0x7f80_0000
}

/// Whether a single-precision pattern is a zero of either sign.
pub open spec fn single_is_zero(bits: u32) -> bool {
    (bits & 0x7fff_ffff) == 0
}

/// Whether a double-precision pattern is a NaN.
pub open spec fn double_is_nan(bits: u64) -> bool {
    (bits & 0x7ff0_0000_0000_0000) == 0x7ff0_0000_0000_0000 && (bits & 0x000f_ffff_ffff_ffff) != 0
}

/// Whether a double-precision pattern is an infinity.
pub open spec fn double_is_infinite(bits: u64) -> bool {
    (bits & 0x7fff_ffff_ffff_ffff) == 0x7ff0_0000_0000_0000
}

/// Whether a double-precision pattern is a zero of either sign.
pub open spec fn double_is_zero(bits: u64) -> bool {
    (bits & 0x7fff_ffff_ffff_ffff) == 0
}

/// Whether a single-precision division or remainder is decided without
/// dividing: the result is NaN where an operand is NaN, where both are
/// infinite and where both are zero.
pub open spec fn single_division_is_nan(a: u32, b: u32) -> bool {
    single_is_nan(a) || single_is_nan(b) || (single_is_infinite(a) && single_is_infinite(b)) || (
    single_is_zero(a) && single_is_zero(b))
}

/// The same for double precision.
pub open spec fn double_division_is_nan(a: u64, b: u64) -> bool {
    double_is_nan(a) || double_is_nan(b) || (double_is_infinite(a) && double_is_infinite(b)) || (
    double_is_zero(a) && double_is_zero(b))
}

pub fn is_single_division_returning_nan(a: u32, b: u32) -> (r: bool)
    ensures
        r == single_division_is_nan(a, b),
{
    let a_nan = (a & 0x7f80_0000) == 0x7f80_0000 && (a & 0x007f_ffff) != 0;
    let b_nan = (b & 0x7f80_0000) == 0x7f80_0000 && (b & 0x007f_ffff) != 0;
    let a_inf = (a & 0x7fff_ffff) == 0x7f80_0000;
    let b_inf = (b & 0x7fff_ffff) == 0x7f80_0000;
    let a_zero = (a & 0x7fff_ffff) == 0;
    let b_zero = (b & 0x7fff_ffff) == 0;
    a_nan || b_nan || (a_inf && b_inf) || (a_zero && b_zero)
}

pub fn is_double_division_returning_nan(a: u64, b: u64) -> (r: bool)
    ensures
        r == double_division_is_nan(a, b),
{
    let a_nan = (a & 0x7ff0_0000_0000_0000) == 0x7ff0_0000_0000_0000 && (a
        & 0x000f_ffff_ffff_ffff) != 0;
    let b_nan = (b & 0x7ff0_0000_0000_0000) == 0x7ff0_0000_0000_0000 && (b
        & 0x000f_ffff_ffff_ffff) != 0;
    let a_inf = (a & 0x7fff_ffff_ffff_ffff) == 0x7ff0_0000_0000_0000;
    let b_inf = (b & 0x7fff_ffff_ffff_ffff) == 0x7ff0_0000_0000_0000;
    let a_zero = (a & 0x7fff_ffff_ffff_ffff) == 0;
    let b_zero = (b & 0x7fff_ffff_ffff_ffff) == 0;
    a_nan || b_nan || (a_inf && b_inf) || (a_zero && b_zero)
}

/// The place of a single-precision pattern that is not a NaN in the
/// order of the values: the magnitude bits, negated under a set sign bit.
/// Both zeros have the place 0.
pub open spec fn single_rank(bits: u32) -> int {
    if (bits & 0x8000_0000) != 0 {
        -((bits & 0x7fff_ffff) as int)
    } else {
        (bits & 0x7fff_ffff) as int
    }
}

/// The same for double precision.
pub open spec fn double_rank(bits: u64) -> int {
    if (bits & 0x8000_0000_0000_0000) != 0 {
        -((bits & 0x7fff_ffff_ffff_ffff) as int)
    } else {
        (bits & 0x7fff_ffff_ffff_ffff) as int
    }
}

/// The result of comparing two single-precision values: `on_nan` where
/// one of them is a NaN, else the sign of the comparison.
pub open spec fn single_comparison(a: u32, b: u32, on_nan: i32) -> i32 {
    if single_is_nan(a) || single_is_nan(b) {
        on_nan
    } else {
        sign_of_comparison(single_rank(a), single_rank(b))
    }
}

/// The same for double precision.
pub open spec fn double_comparison(a: u64, b: u64, on_nan: i32) -> i32 {
    if double_is_nan(a) || double_is_nan(b) {
        on_nan
    } else {
        sign_of_comparison(double_rank(a), double_rank(b))
    }
}

pub fn compare_singles(a: u32, b: u32, on_nan: i32) -> (r: i32)
    ensures
        r == single_comparison(a, b, on_nan),
{
    let a_nan = (a & 0x7f80_0000) == 0x7f80_0000 && (a & 0x007f_ffff) != 0;
    let b_nan = (b & 0x7f80_0000) == 0x7f80_0000 && (b & 0x007f_ffff) != 0;
    if a_nan || b_nan {
        return on_nan;
    }
    let a_rank: i64 = if (a & 0x8000_0000) != 0 {
        -((a & 0x7fff_ffff) as i64)
    } else {
        (a & 0x7fff_ffff) as i64
    };
    let b_rank: i64 = if (b & 0x8000_0000) != 0 {
        -((b & 0x7fff_ffff) as i64)
    } else {
        (b & 0x7fff_ffff) as i64
    };
    compare_longs(a_rank, b_rank)
}

pub fn compare_doubles(a: u64, b: u64, on_nan: i32) -> (r: i32)
    ensures
        r == double_comparison(a, b, on_nan),
{
    let a_nan = (a & 0x7ff0_0000_0000_0000) == 0x7ff0_0000_0000_0000 && (a
        & 0x000f_ffff_ffff_ffff) != 0;
    let b_nan = (b & 0x7ff0_0000_0000_0000) == 0x7ff0_0000_0000_0000 && (b
        & 0x000f_ffff_ffff_ffff) != 0;
    if a_nan || b_nan {
        return on_nan;
    }
    let a_magnitude: u64 = a & 0x7fff_ffff_ffff_ffff;
    let b_magnitude: u64 = b & 0x7fff_ffff_ffff_ffff;
    assert(a_magnitude <= 0x7fff_ffff_ffff_ffff) by (bit_vector)
        requires
            a_magnitude == a & 0x7fff_ffff_ffff_ffff,
    ;
    assert(b_magnitude <= 0x7fff_ffff_ffff_ffff) by (bit_vector)
        requires
            b_magnitude == b & 0x7fff_ffff_ffff_ffff,
    ;
    let a_rank: i128 = if (a & 0x8000_0000_0000_0000) != 0 {
        -(a_magnitude as i128)
    } else {
        a_magnitude as i128
    };
    let b_rank: i128 = if (b & 0x8000_0000_0000_0000) != 0 {
        -(b_magnitude as i128)
    } else {
        b_magnitude as i128
    };
    if a_rank < b_rank {
        -1
    } else if a_rank > b_rank {
        1
    } else {
        0
    }
}

} // verus!
