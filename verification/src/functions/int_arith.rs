//! Integer arithmetic, cell by cell.
//!
//! Addition, subtraction and multiplication wrap around on overflow, as two's
//! complement arithmetic does. Division truncates toward zero and wraps in
//! the one case that overflows, the least value divided by minus one.
//! Division and remainder by zero are errors.

use vstd::prelude::*;

use crate::arrays::physical_type::PhysicalType;
use crate::error::RayexecError;

verus! {

/// The five arithmetic operators.
#[derive(Debug, Clone, Copy, PartialEq, Eq, Hash, Structural)]
pub enum ArithOp {
    Add,
    Sub,
    Mul,
    Div,
    Rem,
}

/// The integer of the range of `pt` that is congruent to `v` modulo the size
/// of that range.
pub open spec fn wrap_to(pt: PhysicalType, v: int) -> int
    recommends
        pt.spec_is_integer(),
{
    let range = pt.spec_max() - pt.spec_min() + 1;
    let m = v % range;
    if m > pt.spec_max() {
        m - range
    } else {
        m
    }
}

/// The quotient of `x` by `d`, rounded toward zero.
pub open spec fn trunc_div(x: int, d: int) -> int
    recommends
        d != 0,
{
    if x == 0 {
        0
    } else if x > 0 && d > 0 {
        x / d
    } else if x < 0 && d < 0 {
        (x * -1) / (d * -1)
    } else if x < 0 {
        ((x * -1) / d) * -1
    } else {
        (x / (d * -1)) * -1
    }
}

/// The remainder of `x` by `d` that goes with [`trunc_div`]: it has the sign
/// of `x`.
pub open spec fn trunc_rem(x: int, d: int) -> int
    recommends
        d != 0,
{
    if x == 0 {
        0
    } else if x > 0 && d > 0 {
        x % d
    } else if x < 0 && d < 0 {
        ((x * -1) % (d * -1)) * -1
    } else if x < 0 {
        ((x * -1) % d) * -1
    } else {
        x % (d * -1)
    }
}

/// The result of `x op y` on integers of physical type `pt`, or `None` when
/// `op` divides by zero.
pub open spec fn int_arith(op: ArithOp, pt: PhysicalType, x: int, y: int) -> Option<int>
    recommends
        pt.spec_is_integer(),
{
    match op {
        ArithOp::Add => Some(wrap_to(pt, x + y)),
        ArithOp::Sub => Some(wrap_to(pt, x - y)),
        ArithOp::Mul => Some(wrap_to(pt, x * y)),
        ArithOp::Div => if y == 0 {
            None
        } else {
            Some(wrap_to(pt, trunc_div(x, y)))
        },
        ArithOp::Rem => if y == 0 {
            None
        } else {
            Some(trunc_rem(x, y))
        },
    }
}

/// Whether `v` is a value of the integer type `pt`.
pub open spec fn fits(pt: PhysicalType, v: int) -> bool {
    pt.spec_min() <= v <= pt.spec_max()
}

/// A quotient of non-negative integers is no larger than the dividend, and
/// the remainder is smaller than the divisor.
pub proof fn lemma_div_rem_bounds(x: int, d: int)
    requires
        x >= 0,
        d > 0,
    ensures
        0 <= x / d <= x,
        0 <= x % d < d,
        x % d <= x,
{
    assert(0 <= x / d <= x) by (nonlinear_arith)
        requires
            x >= 0,
            d > 0,
    ;
    assert(0 <= x % d < d) by (nonlinear_arith)
        requires
            x >= 0,
            d > 0,
    ;
    assert(x % d <= x) by (nonlinear_arith)
        requires
            x >= 0,
            d > 0,
    ;
}

/// A truncated quotient is no larger in magnitude than the dividend, and a
/// truncated remainder no larger in magnitude than the dividend either.
pub proof fn lemma_trunc_bounds(x: int, d: int)
    requires
        d != 0,
    ensures
        x >= 0 ==> -x <= trunc_div(x, d) <= x,
        x < 0 ==> x <= trunc_div(x, d) <= -x,
        x >= 0 ==> 0 <= trunc_rem(x, d) <= x,
        x < 0 ==> x <= trunc_rem(x, d) <= 0,
        d == -1 ==> trunc_rem(x, d) == 0 && trunc_div(x, d) == -x,
        x < 0 && d < -1 ==> trunc_div(x, d) < -x,
{
    if x < 0 && d < -1 {
        let a = x * -1;
        let b = d * -1;
        assert(a / b < a) by (nonlinear_arith)
            requires
                a > 0,
                b >= 2,
        ;
    }
    if x > 0 && d > 0 {
        lemma_div_rem_bounds(x, d);
    } else if x < 0 && d < 0 {
        lemma_div_rem_bounds(x * -1, d * -1);
    } else if x < 0 {
        lemma_div_rem_bounds(x * -1, d);
    } else if x > 0 {
        lemma_div_rem_bounds(x, d * -1);
    }
    if d == -1 {
        if x > 0 {
            assert(x / 1 == x && x % 1 == 0);
        } else if x < 0 {
            assert((x * -1) / 1 == x * -1 && (x * -1) % 1 == 0);
        }
    }
}

/// A value of the type is what it wraps to.
pub proof fn lemma_wrap_identity(pt: PhysicalType, v: int)
    requires
        pt.spec_is_integer(),
        fits(pt, v),
    ensures
        wrap_to(pt, v) == v,
{
    let range = pt.spec_max() - pt.spec_min() + 1;
    if v >= 0 {
        assert(v % range == v) by {
            vstd::arithmetic::div_mod::lemma_small_mod(v as nat, range as nat);
        }
    } else {
        assert(v % range == v + range) by {
            vstd::arithmetic::div_mod::lemma_small_mod((v + range) as nat, range as nat);
            vstd::arithmetic::div_mod::lemma_mod_add_multiples_vanish(v, range);
        }
    }
}

/// Whatever is wrapped is a value of the type.
pub proof fn lemma_wrap_fits(pt: PhysicalType, v: int)
    requires
        pt.spec_is_integer(),
    ensures
        fits(pt, wrap_to(pt, v)),
{
    let range = pt.spec_max() - pt.spec_min() + 1;
    vstd::arithmetic::div_mod::lemma_mod_bound(v, range);
}

/// A value at most one range away from the type wraps by one range.
pub proof fn lemma_wrap_step(pt: PhysicalType, v: int)
    requires
        pt.spec_is_integer(),
    ensures
        ({
            let range = pt.spec_max() - pt.spec_min() + 1;
            &&& fits(pt, v) ==> wrap_to(pt, v) == v
            &&& fits(pt, v - range) ==> wrap_to(pt, v) == v - range
            &&& fits(pt, v + range) ==> wrap_to(pt, v) == v + range
        }),
{
    let range = pt.spec_max() - pt.spec_min() + 1;
    if fits(pt, v) {
        lemma_wrap_identity(pt, v);
    }
    if fits(pt, v - range) {
        lemma_wrap_identity(pt, v - range);
        vstd::arithmetic::div_mod::lemma_mod_sub_multiples_vanish(v, range);
    }
    if fits(pt, v + range) {
        lemma_wrap_identity(pt, v + range);
        vstd::arithmetic::div_mod::lemma_mod_add_multiples_vanish(v, range);
    }
}

/// Where the exact result is a value of the type, arithmetic gives the
/// exact result: the sum, the difference, the product, and for a divisor
/// other than zero the truncated quotient and its remainder.
pub proof fn lemma_arith_exact(op: ArithOp, pt: PhysicalType, x: int, y: int)
    requires
        pt.spec_is_integer(),
        fits(pt, x),
        fits(pt, y),
    ensures
        op == ArithOp::Add && fits(pt, x + y) ==> int_arith(op, pt, x, y) == Some(x + y),
        op == ArithOp::Sub && fits(pt, x - y) ==> int_arith(op, pt, x, y) == Some(x - y),
        op == ArithOp::Mul && fits(pt, x * y) ==> int_arith(op, pt, x, y) == Some(x * y),
        op == ArithOp::Div && y != 0 && fits(pt, trunc_div(x, y)) ==> int_arith(op, pt, x, y)
            == Some(trunc_div(x, y)),
        op == ArithOp::Rem && y != 0 ==> int_arith(op, pt, x, y) == Some(trunc_rem(x, y)),
        (op == ArithOp::Div || op == ArithOp::Rem) && y == 0 ==> int_arith(op, pt, x, y) is None,
{
    match op {
        ArithOp::Add => if fits(pt, x + y) {
            lemma_wrap_identity(pt, x + y);
        },
        ArithOp::Sub => if fits(pt, x - y) {
            lemma_wrap_identity(pt, x - y);
        },
        ArithOp::Mul => if fits(pt, x * y) {
            lemma_wrap_identity(pt, x * y);
        },
        ArithOp::Div => if y != 0 && fits(pt, trunc_div(x, y)) {
            lemma_wrap_identity(pt, trunc_div(x, y));
        },
        ArithOp::Rem => {},
    }
}

/// Adding zero and multiplying by one change nothing.
pub proof fn lemma_arith_identities(pt: PhysicalType, x: int)
    requires
        pt.spec_is_integer(),
        fits(pt, x),
    ensures
        int_arith(ArithOp::Add, pt, x, 0) == Some(x),
        int_arith(ArithOp::Add, pt, 0, x) == Some(x),
        int_arith(ArithOp::Sub, pt, x, 0) == Some(x),
        int_arith(ArithOp::Mul, pt, x, 1) == Some(x),
        int_arith(ArithOp::Mul, pt, 1, x) == Some(x),
        int_arith(ArithOp::Div, pt, x, 1) == Some(x),
{
    lemma_wrap_identity(pt, x);
    assert(x * 1 == x && 1 * x == x);
    if x > 0 {
        assert(x / 1 == x);
    } else if x < 0 {
        assert((x * -1) / 1 == x * -1);
    }
}

/// What [`arith_i8`] returns.
pub open spec fn spec_arith_i8(op: ArithOp, x: i8, y: i8) -> Result<i8, RayexecError> {
    match int_arith(op, PhysicalType::Int8, x as int, y as int) {
        Some(v) => Ok(v as i8),
        None => Err(RayexecError::DivideByZero),
    }
}

/// `x op y` on `i8`.
pub fn arith_i8(op: ArithOp, x: i8, y: i8) -> (r: Result<i8, RayexecError>)
    ensures
        r == spec_arith_i8(op, x, y),
        int_arith(op, PhysicalType::Int8, x as int, y as int) matches Some(v) ==> fits(
            PhysicalType::Int8,
            v,
        ),
{
    match op {
        ArithOp::Add => {
            proof {
                lemma_wrap_step(PhysicalType::Int8, x + y);
            }
            Ok(x.wrapping_add(y))
        },
        ArithOp::Sub => {
            proof {
                lemma_wrap_step(PhysicalType::Int8, x - y);
            }
            Ok(x.wrapping_sub(y))
        },
        ArithOp::Mul => {
            proof {
                lemma_wrap_fits(PhysicalType::Int8, x * y);
            }
            Ok(x.wrapping_mul(y))
        },
        ArithOp::Div => {
            if y == 0 {
                return Err(RayexecError::DivideByZero);
            }
            proof {
                lemma_trunc_bounds(x as int, y as int);
            }
            if x == i8::MIN && y == -1 {
                proof {
                    lemma_wrap_step(PhysicalType::Int8, -(x as int));
                }
                return Ok(i8::MIN);
            }
            match x.checked_div(y) {
                Some(v) => {
                    proof {
                        lemma_wrap_identity(PhysicalType::Int8, v as int);
                    }
                    Ok(v)
                },
                None => Ok(0),
            }
        },
        ArithOp::Rem => {
            if y == 0 {
                return Err(RayexecError::DivideByZero);
            }
            proof {
                lemma_trunc_bounds(x as int, y as int);
            }
            match x.checked_rem(y) {
                Some(v) => Ok(v),
                None => Ok(0),
            }
        },
    }
}

/// What [`arith_i16`] returns.
pub open spec fn spec_arith_i16(op: ArithOp, x: i16, y: i16) -> Result<i16, RayexecError> {
    match int_arith(op, PhysicalType::Int16, x as int, y as int) {
        Some(v) => Ok(v as i16),
        None => Err(RayexecError::DivideByZero),
    }
}

/// `x op y` on `i16`.
pub fn arith_i16(op: ArithOp, x: i16, y: i16) -> (r: Result<i16, RayexecError>)
    ensures
        r == spec_arith_i16(op, x, y),
        int_arith(op, PhysicalType::Int16, x as int, y as int) matches Some(v) ==> fits(
            PhysicalType::Int16,
            v,
        ),
{
    match op {
        ArithOp::Add => {
            proof {
                lemma_wrap_step(PhysicalType::Int16, x + y);
            }
            Ok(x.wrapping_add(y))
        },
        ArithOp::Sub => {
            proof {
                lemma_wrap_step(PhysicalType::Int16, x - y);
            }
            Ok(x.wrapping_sub(y))
        },
        ArithOp::Mul => {
            proof {
                lemma_wrap_fits(PhysicalType::Int16, x * y);
            }
            Ok(x.wrapping_mul(y))
        },
        ArithOp::Div => {
            if y == 0 {
                return Err(RayexecError::DivideByZero);
            }
            proof {
                lemma_trunc_bounds(x as int, y as int);
            }
            if x == i16::MIN && y == -1 {
                proof {
                    lemma_wrap_step(PhysicalType::Int16, -(x as int));
                }
                return Ok(i16::MIN);
            }
            match x.checked_div(y) {
                Some(v) => {
                    proof {
                        lemma_wrap_identity(PhysicalType::Int16, v as int);
                    }
                    Ok(v)
                },
                None => Ok(0),
            }
        },
        ArithOp::Rem => {
            if y == 0 {
                return Err(RayexecError::DivideByZero);
            }
            proof {
                lemma_trunc_bounds(x as int, y as int);
            }
            match x.checked_rem(y) {
                Some(v) => Ok(v),
                None => Ok(0),
            }
        },
    }
}

/// What [`arith_i32`] returns.
pub open spec fn spec_arith_i32(op: ArithOp, x: i32, y: i32) -> Result<i32, RayexecError> {
    match int_arith(op, PhysicalType::Int32, x as int, y as int) {
        Some(v) => Ok(v as i32),
        None => Err(RayexecError::DivideByZero),
    }
}

/// `x op y` on `i32`.
pub fn arith_i32(op: ArithOp, x: i32, y: i32) -> (r: Result<i32, RayexecError>)
    ensures
        r == spec_arith_i32(op, x, y),
        int_arith(op, PhysicalType::Int32, x as int, y as int) matches Some(v) ==> fits(
            PhysicalType::Int32,
            v,
        ),
{
    match op {
        ArithOp::Add => {
            proof {
                lemma_wrap_step(PhysicalType::Int32, x + y);
            }
            Ok(x.wrapping_add(y))
        },
        ArithOp::Sub => {
            proof {
                lemma_wrap_step(PhysicalType::Int32, x - y);
            }
            Ok(x.wrapping_sub(y))
        },
        ArithOp::Mul => {
            proof {
                lemma_wrap_fits(PhysicalType::Int32, x * y);
            }
            Ok(x.wrapping_mul(y))
        },
        ArithOp::Div => {
            if y == 0 {
                return Err(RayexecError::DivideByZero);
            }
            proof {
                lemma_trunc_bounds(x as int, y as int);
            }
            if x == i32::MIN && y == -1 {
                proof {
                    lemma_wrap_step(PhysicalType::Int32, -(x as int));
                }
                return Ok(i32::MIN);
            }
            match x.checked_div(y) {
                Some(v) => {
                    proof {
                        lemma_wrap_identity(PhysicalType::Int32, v as int);
                    }
                    Ok(v)
                },
                None => Ok(0),
            }
        },
        ArithOp::Rem => {
            if y == 0 {
                return Err(RayexecError::DivideByZero);
            }
            proof {
                lemma_trunc_bounds(x as int, y as int);
            }
            match x.checked_rem(y) {
                Some(v) => Ok(v),
                None => Ok(0),
            }
        },
    }
}

/// What [`arith_i64`] returns.
pub open spec fn spec_arith_i64(op: ArithOp, x: i64, y: i64) -> Result<i64, RayexecError> {
    match int_arith(op, PhysicalType::Int64, x as int, y as int) {
        Some(v) => Ok(v as i64),
        None => Err(RayexecError::DivideByZero),
    }
}

/// `x op y` on `i64`.
pub fn arith_i64(op: ArithOp, x: i64, y: i64) -> (r: Result<i64, RayexecError>)
    ensures
        r == spec_arith_i64(op, x, y),
        int_arith(op, PhysicalType::Int64, x as int, y as int) matches Some(v) ==> fits(
            PhysicalType::Int64,
            v,
        ),
{
    match op {
        ArithOp::Add => {
            proof {
                lemma_wrap_step(PhysicalType::Int64, x + y);
            }
            Ok(x.wrapping_add(y))
        },
        ArithOp::Sub => {
            proof {
                lemma_wrap_step(PhysicalType::Int64, x - y);
            }
            Ok(x.wrapping_sub(y))
        },
        ArithOp::Mul => {
            proof {
                lemma_wrap_fits(PhysicalType::Int64, x * y);
            }
            Ok(x.wrapping_mul(y))
        },
        ArithOp::Div => {
            if y == 0 {
                return Err(RayexecError::DivideByZero);
            }
            proof {
                lemma_trunc_bounds(x as int, y as int);
            }
            if x == i64::MIN && y == -1 {
                proof {
                    lemma_wrap_step(PhysicalType::Int64, -(x as int));
                }
                return Ok(i64::MIN);
            }
            match x.checked_div(y) {
                Some(v) => {
                    proof {
                        lemma_wrap_identity(PhysicalType::Int64, v as int);
                    }
                    Ok(v)
                },
                None => Ok(0),
            }
        },
        ArithOp::Rem => {
            if y == 0 {
                return Err(RayexecError::DivideByZero);
            }
            proof {
                lemma_trunc_bounds(x as int, y as int);
            }
            match x.checked_rem(y) {
                Some(v) => Ok(v),
                None => Ok(0),
            }
        },
    }
}

/// What [`arith_i128`] returns.
pub open spec fn spec_arith_i128(op: ArithOp, x: i128, y: i128) -> Result<i128, RayexecError> {
    match int_arith(op, PhysicalType::Int128, x as int, y as int) {
        Some(v) => Ok(v as i128),
        None => Err(RayexecError::DivideByZero),
    }
}

/// `x op y` on `i128`.
pub fn arith_i128(op: ArithOp, x: i128, y: i128) -> (r: Result<i128, RayexecError>)
    ensures
        r == spec_arith_i128(op, x, y),
        int_arith(op, PhysicalType::Int128, x as int, y as int) matches Some(v) ==> fits(
            PhysicalType::Int128,
            v,
        ),
{
    match op {
        ArithOp::Add => {
            proof {
                lemma_wrap_step(PhysicalType::Int128, x + y);
            }
            Ok(x.wrapping_add(y))
        },
        ArithOp::Sub => {
            proof {
                lemma_wrap_step(PhysicalType::Int128, x - y);
            }
            Ok(x.wrapping_sub(y))
        },
        ArithOp::Mul => {
            proof {
                lemma_wrap_fits(PhysicalType::Int128, x * y);
            }
            Ok(x.wrapping_mul(y))
        },
        ArithOp::Div => {
            if y == 0 {
                return Err(RayexecError::DivideByZero);
            }
            proof {
                lemma_trunc_bounds(x as int, y as int);
            }
            if x == i128::MIN && y == -1 {
                proof {
                    lemma_wrap_step(PhysicalType::Int128, -(x as int));
                }
                return Ok(i128::MIN);
            }
            match x.checked_div(y) {
                Some(v) => {
                    proof {
                        lemma_wrap_identity(PhysicalType::Int128, v as int);
                    }
                    Ok(v)
                },
                None => Ok(0),
            }
        },
        ArithOp::Rem => {
            if y == 0 {
                return Err(RayexecError::DivideByZero);
            }
            proof {
                lemma_trunc_bounds(x as int, y as int);
            }
            match x.checked_rem(y) {
                Some(v) => Ok(v),
                None => Ok(0),
            }
        },
    }
}

/// What [`arith_u8`] returns.
pub open spec fn spec_arith_u8(op: ArithOp, x: u8, y: u8) -> Result<u8, RayexecError> {
    match int_arith(op, PhysicalType::UInt8, x as int, y as int) {
        Some(v) => Ok(v as u8),
        None => Err(RayexecError::DivideByZero),
    }
}

/// `x op y` on `u8`.
pub fn arith_u8(op: ArithOp, x: u8, y: u8) -> (r: Result<u8, RayexecError>)
    ensures
        r == spec_arith_u8(op, x, y),
        int_arith(op, PhysicalType::UInt8, x as int, y as int) matches Some(v) ==> fits(
            PhysicalType::UInt8,
            v,
        ),
{
    match op {
        ArithOp::Add => {
            proof {
                lemma_wrap_step(PhysicalType::UInt8, x + y);
            }
            Ok(x.wrapping_add(y))
        },
        ArithOp::Sub => {
            proof {
                lemma_wrap_step(PhysicalType::UInt8, x - y);
            }
            Ok(x.wrapping_sub(y))
        },
        ArithOp::Mul => {
            proof {
                lemma_wrap_fits(PhysicalType::UInt8, x * y);
            }
            Ok(x.wrapping_mul(y))
        },
        ArithOp::Div => {
            if y == 0 {
                return Err(RayexecError::DivideByZero);
            }
            proof {
                lemma_div_rem_bounds(x as int, y as int);
                lemma_wrap_identity(PhysicalType::UInt8, x as int / y as int);
            }
            Ok(x / y)
        },
        ArithOp::Rem => {
            if y == 0 {
                return Err(RayexecError::DivideByZero);
            }
            proof {
                lemma_div_rem_bounds(x as int, y as int);
            }
            Ok(x % y)
        },
    }
}

/// What [`arith_u16`] returns.
pub open spec fn spec_arith_u16(op: ArithOp, x: u16, y: u16) -> Result<u16, RayexecError> {
    match int_arith(op, PhysicalType::UInt16, x as int, y as int) {
        Some(v) => Ok(v as u16),
        None => Err(RayexecError::DivideByZero),
    }
}

/// `x op y` on `u16`.
pub fn arith_u16(op: ArithOp, x: u16, y: u16) -> (r: Result<u16, RayexecError>)
    ensures
        r == spec_arith_u16(op, x, y),
        int_arith(op, PhysicalType::UInt16, x as int, y as int) matches Some(v) ==> fits(
            PhysicalType::UInt16,
            v,
        ),
{
    match op {
        ArithOp::Add => {
            proof {
                lemma_wrap_step(PhysicalType::UInt16, x + y);
            }
            Ok(x.wrapping_add(y))
        },
        ArithOp::Sub => {
            proof {
                lemma_wrap_step(PhysicalType::UInt16, x - y);
            }
            Ok(x.wrapping_sub(y))
        },
        ArithOp::Mul => {
            proof {
                lemma_wrap_fits(PhysicalType::UInt16, x * y);
            }
            Ok(x.wrapping_mul(y))
        },
        ArithOp::Div => {
            if y == 0 {
                return Err(RayexecError::DivideByZero);
            }
            proof {
                lemma_div_rem_bounds(x as int, y as int);
                lemma_wrap_identity(PhysicalType::UInt16, x as int / y as int);
            }
            Ok(x / y)
        },
        ArithOp::Rem => {
            if y == 0 {
                return Err(RayexecError::DivideByZero);
            }
            proof {
                lemma_div_rem_bounds(x as int, y as int);
            }
            Ok(x % y)
        },
    }
}

/// What [`arith_u32`] returns.
pub open spec fn spec_arith_u32(op: ArithOp, x: u32, y: u32) -> Result<u32, RayexecError> {
    match int_arith(op, PhysicalType::UInt32, x as int, y as int) {
        Some(v) => Ok(v as u32),
        None => Err(RayexecError::DivideByZero),
    }
}

/// `x op y` on `u32`.
pub fn arith_u32(op: ArithOp, x: u32, y: u32) -> (r: Result<u32, RayexecError>)
    ensures
        r == spec_arith_u32(op, x, y),
        int_arith(op, PhysicalType::UInt32, x as int, y as int) matches Some(v) ==> fits(
            PhysicalType::UInt32,
            v,
        ),
{
    match op {
        ArithOp::Add => {
            proof {
                lemma_wrap_step(PhysicalType::UInt32, x + y);
            }
            Ok(x.wrapping_add(y))
        },
        ArithOp::Sub => {
            proof {
                lemma_wrap_step(PhysicalType::UInt32, x - y);
            }
            Ok(x.wrapping_sub(y))
        },
        ArithOp::Mul => {
            proof {
                lemma_wrap_fits(PhysicalType::UInt32, x * y);
            }
            Ok(x.wrapping_mul(y))
        },
        ArithOp::Div => {
            if y == 0 {
                return Err(RayexecError::DivideByZero);
            }
            proof {
                lemma_div_rem_bounds(x as int, y as int);
                lemma_wrap_identity(PhysicalType::UInt32, x as int / y as int);
            }
            Ok(x / y)
        },
        ArithOp::Rem => {
            if y == 0 {
                return Err(RayexecError::DivideByZero);
            }
            proof {
                lemma_div_rem_bounds(x as int, y as int);
            }
            Ok(x % y)
        },
    }
}

/// What [`arith_u64`] returns.
pub open spec fn spec_arith_u64(op: ArithOp, x: u64, y: u64) -> Result<u64, RayexecError> {
    match int_arith(op, PhysicalType::UInt64, x as int, y as int) {
        Some(v) => Ok(v as u64),
        None => Err(RayexecError::DivideByZero),
    }
}

/// `x op y` on `u64`.
pub fn arith_u64(op: ArithOp, x: u64, y: u64) -> (r: Result<u64, RayexecError>)
    ensures
        r == spec_arith_u64(op, x, y),
        int_arith(op, PhysicalType::UInt64, x as int, y as int) matches Some(v) ==> fits(
            PhysicalType::UInt64,
            v,
        ),
{
    match op {
        ArithOp::Add => {
            proof {
                lemma_wrap_step(PhysicalType::UInt64, x + y);
            }
            Ok(x.wrapping_add(y))
        },
        ArithOp::Sub => {
            proof {
                lemma_wrap_step(PhysicalType::UInt64, x - y);
            }
            Ok(x.wrapping_sub(y))
        },
        ArithOp::Mul => {
            proof {
                lemma_wrap_fits(PhysicalType::UInt64, x * y);
            }
            Ok(x.wrapping_mul(y))
        },
        ArithOp::Div => {
            if y == 0 {
                return Err(RayexecError::DivideByZero);
            }
            proof {
                lemma_div_rem_bounds(x as int, y as int);
                lemma_wrap_identity(PhysicalType::UInt64, x as int / y as int);
            }
            Ok(x / y)
        },
        ArithOp::Rem => {
            if y == 0 {
                return Err(RayexecError::DivideByZero);
            }
            proof {
                lemma_div_rem_bounds(x as int, y as int);
            }
            Ok(x % y)
        },
    }
}

/// What [`arith_u128`] returns.
pub open spec fn spec_arith_u128(op: ArithOp, x: u128, y: u128) -> Result<u128, RayexecError> {
    match int_arith(op, PhysicalType::UInt128, x as int, y as int) {
        Some(v) => Ok(v as u128),
        None => Err(RayexecError::DivideByZero),
    }
}

/// `x op y` on `u128`.
pub fn arith_u128(op: ArithOp, x: u128, y: u128) -> (r: Result<u128, RayexecError>)
    ensures
        r == spec_arith_u128(op, x, y),
        int_arith(op, PhysicalType::UInt128, x as int, y as int) matches Some(v) ==> fits(
            PhysicalType::UInt128,
            v,
        ),
{
    match op {
        ArithOp::Add => {
            proof {
                lemma_wrap_step(PhysicalType::UInt128, x + y);
            }
            Ok(x.wrapping_add(y))
        },
        ArithOp::Sub => {
            proof {
                lemma_wrap_step(PhysicalType::UInt128, x - y);
            }
            Ok(x.wrapping_sub(y))
        },
        ArithOp::Mul => {
            proof {
                lemma_wrap_fits(PhysicalType::UInt128, x * y);
            }
            Ok(x.wrapping_mul(y))
        },
        ArithOp::Div => {
            if y == 0 {
                return Err(RayexecError::DivideByZero);
            }
            proof {
                lemma_div_rem_bounds(x as int, y as int);
                lemma_wrap_identity(PhysicalType::UInt128, x as int / y as int);
            }
            Ok(x / y)
        },
        ArithOp::Rem => {
            if y == 0 {
                return Err(RayexecError::DivideByZero);
            }
            proof {
                lemma_div_rem_bounds(x as int, y as int);
            }
            Ok(x % y)
        },
    }
}

} // verus!
