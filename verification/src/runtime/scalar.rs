//! Operators on numbers.

use crate::ast::InfixOp;
use crate::ct::wrap64;
use crate::debug::{name_of_operator, operator_name};
use crate::literal::{
    IntLiteral, floor_quotient, floor_remainder, int_pow, lemma_pow_positive, lemma_pow_values,
    literal_value, signed_low,
};
use crate::order::Order;
use crate::runtime::{
    FloatOp, FloatTable, FloatTask, FloatTaskModel, Outcome, Rounding, Stop, StopModel, Value,
    ValueModel, ask_float, fail_type, float_order, float_result, order_floats, outcome_view,
    type_error,
};
use crate::text::cat4;
use vstd::prelude::*;

verus! {

/// `u64::wrapping_pow` is exponentiation modulo 2^64.
pub assume_specification[ u64::wrapping_pow ](base: u64, exponent: u32) -> (r: u64)
    ensures
        r == vstd::arithmetic::power::pow(base as int, exponent as nat) % 0x1_0000_0000_0000_0000,
;

/// The unsigned 64-bit integer that is congruent to `n` modulo 2^64.
pub open spec fn wrap_unsigned(n: int) -> u64 {
    (n % 0x1_0000_0000_0000_0000) as u64
}

/// The low 64 bits as an unsigned integer.
pub fn low_unsigned(v: i128) -> (r: u64)
    ensures
        r == wrap_unsigned(v as int),
{
    let m: i128 = v % 0x1_0000_0000_0000_0000i128;
    let low: i128 = if m < 0 { m + 0x1_0000_0000_0000_0000i128 } else { m };
    proof {
        let (a, b) = (v as int, 0x1_0000_0000_0000_0000int);
        if v < 0 {
            // Truncated remainders below zero are the Euclidean ones less the modulus.
            vstd::arithmetic::div_mod::lemma_fundamental_div_mod(a, b);
        }
    }
    low as u64
}

/// The low 64 bits as a signed integer.
pub fn low_signed(v: i128) -> (r: i64)
    ensures
        r == wrap64(v as int),
{
    let low: u64 = low_unsigned(v);
    if low < 0x8000_0000_0000_0000 {
        low as i64
    } else {
        (low - 0x8000_0000_0000_0000) as i64 + i64::MIN
    }
}

/// An integer divisor, unless it is zero.
pub fn nonzero(y: i64) -> (r: Result<i64, Stop>)
    ensures
        match r {
            Ok(v) => y != 0 && v == y,
            Err(s) => y == 0 && s@ == division_by_zero(),
        },
{
    if y != 0 { Ok(y) } else { Err(fail_type("integer division or modulo by zero".to_owned())) }
}

/// An unsigned divisor, unless it is zero.
pub fn nonzero_u(y: u64) -> (r: Result<u64, Stop>)
    ensures
        match r {
            Ok(v) => y != 0 && v == y,
            Err(s) => y == 0 && s@ == division_by_zero(),
        },
{
    if y != 0 { Ok(y) } else { Err(fail_type("integer division or modulo by zero".to_owned())) }
}

/// The failure of a division by zero.
pub open spec fn division_by_zero() -> StopModel {
    type_error("integer division or modulo by zero"@)
}

proof fn lemma_floored(x: int, y: int)
    requires
        y != 0,
    ensures
        ({
            let (a, b) = (if x < 0 { -x } else { x }, if y < 0 { -y } else { y });
            let (q, r) = (a / b, a % b);
            &&& 0 <= q <= a
            &&& 0 <= r < b
            &&& floor_quotient(x, y) == (if (x < 0) == (y < 0) {
                q
            } else if r == 0 {
                -q
            } else {
                -(q + 1)
            })
            &&& floor_remainder(x, y) == (if (x < 0) == (y < 0) {
                if x < 0 { -r } else { r }
            } else if r == 0 {
                0
            } else if x < 0 {
                b - r
            } else {
                r - b
            })
        }),
{
    let (a, b) = (if x < 0 { -x } else { x }, if y < 0 { -y } else { y });
    vstd::arithmetic::div_mod::lemma_fundamental_div_mod(a, b);
    vstd::arithmetic::div_mod::lemma_mod_bound(a, b);
    let (q, r) = (a / b, a % b);
    assert(0 <= q <= a) by (nonlinear_arith)
        requires
            a == b * q + r,
            0 <= r < b,
            0 <= a,
    ;
    let z = if y > 0 { x } else { -x };
    if (x < 0) == (y < 0) {
        assert(a == q * b + r) by (nonlinear_arith)
            requires
                a == b * q + r,
        ;
        vstd::arithmetic::div_mod::lemma_fundamental_div_mod_converse(z, b, q, r);
        assert((-b) * q == -(b * q)) by (nonlinear_arith);
    } else if r == 0 {
        assert(-a == (-q) * b + 0) by (nonlinear_arith)
            requires
                a == b * q + 0,
        ;
        vstd::arithmetic::div_mod::lemma_fundamental_div_mod_converse(-a, b, -q, 0);
        assert((-b) * (-q) == b * q) by (nonlinear_arith);
        assert(b * (-q) == -(b * q)) by (nonlinear_arith);
        if z == a {
            assert(a == 0);
            assert(q == 0) by (nonlinear_arith)
                requires
                    0 == b * q,
                    b > 0,
            ;
        }
    } else {
        assert(-a == (-(q + 1)) * b + (b - r)) by (nonlinear_arith)
            requires
                a == b * q + r,
        ;
        vstd::arithmetic::div_mod::lemma_fundamental_div_mod_converse(-a, b, -(q + 1), b - r);
        assert((-b) * (-(q + 1)) == b * q + b) by (nonlinear_arith);
        assert(b * (-(q + 1)) == -(b * q) - b) by (nonlinear_arith);
        if z == a {
            assert(a == 0);
            assert(r == 0) by (nonlinear_arith)
                requires
                    0 == b * q + r,
                    0 <= q,
                    0 <= r,
                    b > 0,
            ;
        }
    }
}

fn magnitude(x: i64) -> (r: u64)
    ensures
        r == (if x < 0 { -x } else { x as int }),
{
    if x < 0 { (-(x + 1)) as u64 + 1 } else { x as u64 }
}

/// Division rounded towards negative infinity, wrapping.
pub fn floor_div(x: i64, y: i64) -> (r: i64)
    requires
        y != 0,
    ensures
        r == wrap64(floor_quotient(x as int, y as int)),
{
    let (a, b): (u64, u64) = (magnitude(x), magnitude(y));
    proof {
        lemma_floored(x as int, y as int);
    }
    let q: i128 = (a / b) as i128;
    if (x < 0) == (y < 0) {
        low_signed(q)
    } else if a % b == 0 {
        low_signed(-q)
    } else {
        low_signed(-(q + 1))
    }
}

/// The remainder with the sign of the divisor.
pub fn floor_mod(x: i64, y: i64) -> (r: i64)
    requires
        y != 0,
    ensures
        r == floor_remainder(x as int, y as int),
{
    let (a, b): (u64, u64) = (magnitude(x), magnitude(y));
    proof {
        lemma_floored(x as int, y as int);
    }
    let m: i128 = (a % b) as i128;
    if (x < 0) == (y < 0) {
        if x < 0 { (-m) as i64 } else { m as i64 }
    } else if m == 0 {
        0
    } else if x < 0 {
        (b as i128 - m) as i64
    } else {
        (m - b as i128) as i64
    }
}

/// The failure of an exponent.
pub open spec fn bad_exponent() -> StopModel {
    type_error("'**' exponent must be a non-negative Int that fits in 32 bits"@)
}

/// An integer exponent, where it fits.
pub fn pow_exp(y: i64) -> (r: Result<u32, Stop>)
    ensures
        match r {
            Ok(e) => e == y,
            Err(s) => !(0 <= y <= u32::MAX) && s@ == bad_exponent(),
        },
{
    if 0 <= y && y <= 0xffff_ffff {
        Ok(y as u32)
    } else {
        Err(fail_type("'**' exponent must be a non-negative Int that fits in 32 bits".to_owned()))
    }
}

/// The shift that an integer stands for: its low six bits.
pub open spec fn shift_of(y: int) -> nat {
    (y % 64) as nat
}

fn low_shift(y: i64) -> (r: u32)
    ensures
        r == shift_of(y as int),
        r < 64,
{
    let m: i64 = y % 64;
    if m < 0 { (m + 64) as u32 } else { m as u32 }
}

fn shift_left(x: &IntLiteral, by: u32) -> (r: IntLiteral)
    ensures
        literal_value(r@) == literal_value(x@) * int_pow(2, by as nat),
{
    x.mul(&IntLiteral::from_u64(2).raised(by))
}

fn shift_right(x: &IntLiteral, by: u32) -> (r: IntLiteral)
    ensures
        literal_value(r@) == floor_quotient(literal_value(x@), int_pow(2, by as nat)),
{
    let divisor: IntLiteral = IntLiteral::from_u64(2).raised(by);
    proof {
        lemma_pow_positive(2, by as nat);
    }
    match x.floor_div(&divisor) {
        Some(q) => q,
        None => x.copy(),
    }
}

proof fn lemma_signed_low(n: int)
    ensures
        signed_low(n, 64) == wrap64(n),
        n % int_pow(2, 64) == wrap_unsigned(n),
{
    lemma_pow_values();
}

/// The failure of an operator that a kind of number does not have.
pub open spec fn invalid_operator(op: InfixOp, kind: Seq<char>) -> StopModel {
    type_error("operator '"@ + operator_name(op) + "' is invalid for "@ + kind)
}

/// Fails because a kind of number does not have an operator.
pub fn reject_operator(op: InfixOp, kind: &str) -> (r: Stop)
    ensures
        r@ == invalid_operator(op, kind@),
{
    fail_type(cat4("operator '", name_of_operator(op), "' is invalid for ", kind))
}

/// An operator on signed integers. Arithmetic wraps.
#[verifier::opaque]
pub open spec fn int_result(op: InfixOp, x: i64, y: i64) -> Outcome {
    match op {
        InfixOp::Add => Ok(ValueModel::Int(wrap64(x + y))),
        InfixOp::Sub => Ok(ValueModel::Int(wrap64(x - y))),
        InfixOp::Mul => Ok(ValueModel::Int(wrap64(x * y))),
        InfixOp::FloorDiv => if y == 0 {
            Err(division_by_zero())
        } else {
            Ok(ValueModel::Int(wrap64(floor_quotient(x as int, y as int))))
        },
        InfixOp::Mod => if y == 0 {
            Err(division_by_zero())
        } else {
            Ok(ValueModel::Int(floor_remainder(x as int, y as int) as i64))
        },
        InfixOp::Pow => if 0 <= y <= u32::MAX {
            Ok(ValueModel::Int(wrap64(vstd::arithmetic::power::pow(x as int, y as nat))))
        } else {
            Err(bad_exponent())
        },
        InfixOp::Shl => Ok(ValueModel::Int(wrap64(x * int_pow(2, shift_of(y as int))))),
        InfixOp::Shr => Ok(ValueModel::Int(wrap64(floor_quotient(x as int, int_pow(2, shift_of(y as int)))))),
        InfixOp::BitAnd => Ok(ValueModel::Int(x & y)),
        InfixOp::BitOr => Ok(ValueModel::Int(x | y)),
        InfixOp::BitXor => Ok(ValueModel::Int(x ^ y)),
        InfixOp::Lt => Ok(ValueModel::Bool(x < y)),
        InfixOp::Gt => Ok(ValueModel::Bool(x > y)),
        InfixOp::Le => Ok(ValueModel::Bool(x <= y)),
        InfixOp::Ge => Ok(ValueModel::Bool(x >= y)),
        InfixOp::Eq => Ok(ValueModel::Bool(x == y)),
        InfixOp::Ne => Ok(ValueModel::Bool(x != y)),
        _ => Err(invalid_operator(op, "integer dispatch"@)),
    }
}

/// Applies an operator to signed integers.
pub fn int_op(op: InfixOp, x: i64, y: i64) -> (r: Result<Value, Stop>)
    ensures
        outcome_view(r) == int_result(op, x, y),
{
    proof {
        reveal(int_result);
        assert(x * y >= -0x8000_0000_0000_0000 * 0x8000_0000_0000_0000 && x * y <= 0x8000_0000_0000_0000
            * 0x8000_0000_0000_0000) by (nonlinear_arith)
            requires
                -0x8000_0000_0000_0000 <= x <= 0x8000_0000_0000_0000,
                -0x8000_0000_0000_0000 <= y <= 0x8000_0000_0000_0000,
        ;
    }
    match op {
        InfixOp::Add => Ok(Value::Int(low_signed(x as i128 + y as i128))),
        InfixOp::Sub => Ok(Value::Int(low_signed(x as i128 - y as i128))),
        InfixOp::Mul => Ok(Value::Int(low_signed(x as i128 * y as i128))),
        InfixOp::FloorDiv => match nonzero(y) {
            Ok(y) => Ok(Value::Int(floor_div(x, y))),
            Err(s) => Err(s),
        },
        InfixOp::Mod => match nonzero(y) {
            Ok(y) => Ok(Value::Int(floor_mod(x, y))),
            Err(s) => Err(s),
        },
        InfixOp::Pow => match pow_exp(y) {
            Ok(e) => Ok(Value::Int(x.wrapping_pow(e))),
            Err(s) => Err(s),
        },
        InfixOp::Shl => {
            let shifted: IntLiteral = shift_left(&IntLiteral::from_i64(x), low_shift(y));
            proof {
                lemma_signed_low(literal_value(shifted@));
            }
            Ok(Value::Int(shifted.wrapping_signed(64)))
        },
        InfixOp::Shr => {
            let shifted: IntLiteral = shift_right(&IntLiteral::from_i64(x), low_shift(y));
            proof {
                lemma_signed_low(literal_value(shifted@));
            }
            Ok(Value::Int(shifted.wrapping_signed(64)))
        },
        InfixOp::BitAnd => Ok(Value::Int(x & y)),
        InfixOp::BitOr => Ok(Value::Int(x | y)),
        InfixOp::BitXor => Ok(Value::Int(x ^ y)),
        InfixOp::Lt => Ok(Value::Bool(x < y)),
        InfixOp::Gt => Ok(Value::Bool(x > y)),
        InfixOp::Le => Ok(Value::Bool(x <= y)),
        InfixOp::Ge => Ok(Value::Bool(x >= y)),
        InfixOp::Eq => Ok(Value::Bool(x == y)),
        InfixOp::Ne => Ok(Value::Bool(x != y)),
        _ => Err(reject_operator(op, "integer dispatch")),
    }
}

/// An operator on unsigned integers. Arithmetic wraps.
#[verifier::opaque]
pub open spec fn uint_result(op: InfixOp, x: u64, y: u64) -> Outcome {
    match op {
        InfixOp::Add => Ok(ValueModel::UInt(wrap_unsigned(x + y))),
        InfixOp::Sub => Ok(ValueModel::UInt(wrap_unsigned(x - y))),
        InfixOp::Mul => Ok(ValueModel::UInt(wrap_unsigned(x * y))),
        InfixOp::FloorDiv => if y == 0 { Err(division_by_zero()) } else { Ok(ValueModel::UInt((x / y) as u64)) },
        InfixOp::Mod => if y == 0 { Err(division_by_zero()) } else { Ok(ValueModel::UInt((x % y) as u64)) },
        InfixOp::Pow => if 0 <= wrap64(y as int) <= u32::MAX {
            Ok(ValueModel::UInt(wrap_unsigned(vstd::arithmetic::power::pow(x as int, y as nat))))
        } else {
            Err(bad_exponent())
        },
        InfixOp::Shl => Ok(ValueModel::UInt(wrap_unsigned(x * int_pow(2, shift_of(y as int))))),
        InfixOp::Shr => Ok(
            ValueModel::UInt(wrap_unsigned(floor_quotient(x as int, int_pow(2, shift_of(y as int)))))
        ),
        InfixOp::BitAnd => Ok(ValueModel::UInt(x & y)),
        InfixOp::BitOr => Ok(ValueModel::UInt(x | y)),
        InfixOp::BitXor => Ok(ValueModel::UInt(x ^ y)),
        InfixOp::Lt => Ok(ValueModel::Bool(x < y)),
        InfixOp::Gt => Ok(ValueModel::Bool(x > y)),
        InfixOp::Le => Ok(ValueModel::Bool(x <= y)),
        InfixOp::Ge => Ok(ValueModel::Bool(x >= y)),
        InfixOp::Eq => Ok(ValueModel::Bool(x == y)),
        InfixOp::Ne => Ok(ValueModel::Bool(x != y)),
        _ => Err(invalid_operator(op, "unsigned dispatch"@)),
    }
}

/// The signed integer with the same bits.
pub fn to_signed(v: u64) -> (r: i64)
    ensures
        r == wrap64(v as int),
{
    low_signed(v as i128)
}

/// The unsigned integer with the same bits.
pub fn to_unsigned(v: i64) -> (r: u64)
    ensures
        r == wrap_unsigned(v as int),
{
    low_unsigned(v as i128)
}

fn unsigned_product(x: u64, y: u64) -> (r: u64)
    ensures
        r == wrap_unsigned(x * y),
{
    let product: IntLiteral = IntLiteral::from_u64(x).mul(&IntLiteral::from_u64(y));
    proof {
        lemma_signed_low(x * y);
    }
    product.wrapping_unsigned(64)
}

/// Applies an operator to unsigned integers.
pub fn uint_op(op: InfixOp, x: u64, y: u64) -> (r: Result<Value, Stop>)
    ensures
        outcome_view(r) == uint_result(op, x, y),
{
    proof {
        reveal(uint_result);
    }
    match op {
        InfixOp::Add => Ok(Value::UInt(low_unsigned(x as i128 + y as i128))),
        InfixOp::Sub => Ok(Value::UInt(low_unsigned(x as i128 - y as i128))),
        InfixOp::Mul => Ok(Value::UInt(unsigned_product(x, y))),
        InfixOp::FloorDiv => match nonzero_u(y) {
            Ok(y) => Ok(Value::UInt(x / y)),
            Err(s) => Err(s),
        },
        InfixOp::Mod => match nonzero_u(y) {
            Ok(y) => Ok(Value::UInt(x % y)),
            Err(s) => Err(s),
        },
        InfixOp::Pow => match pow_exp(to_signed(y)) {
            Ok(e) => Ok(Value::UInt(x.wrapping_pow(e))),
            Err(s) => Err(s),
        },
        InfixOp::Shl => {
            let shifted: IntLiteral = shift_left(&IntLiteral::from_u64(x), (y % 64) as u32);
            proof {
                lemma_signed_low(literal_value(shifted@));
            }
            Ok(Value::UInt(shifted.wrapping_unsigned(64)))
        },
        InfixOp::Shr => {
            let shifted: IntLiteral = shift_right(&IntLiteral::from_u64(x), (y % 64) as u32);
            proof {
                lemma_signed_low(literal_value(shifted@));
            }
            Ok(Value::UInt(shifted.wrapping_unsigned(64)))
        },
        InfixOp::BitAnd => Ok(Value::UInt(x & y)),
        InfixOp::BitOr => Ok(Value::UInt(x | y)),
        InfixOp::BitXor => Ok(Value::UInt(x ^ y)),
        InfixOp::Lt => Ok(Value::Bool(x < y)),
        InfixOp::Gt => Ok(Value::Bool(x > y)),
        InfixOp::Le => Ok(Value::Bool(x <= y)),
        InfixOp::Ge => Ok(Value::Bool(x >= y)),
        InfixOp::Eq => Ok(Value::Bool(x == y)),
        InfixOp::Ne => Ok(Value::Bool(x != y)),
        _ => Err(reject_operator(op, "unsigned dispatch")),
    }
}

/// Known floating-point results.
pub type Answers = Seq<(FloatTaskModel, i128)>;

/// A floating-point operation on two numbers.
pub open spec fn float_binary(t: Answers, op: FloatOp, a: u64, b: u64) -> Result<u64, StopModel> {
    float_result(t, FloatTaskModel::Binary { op, a, b })
}

/// A floating-point operation on two numbers.
pub fn ask_binary(t: &FloatTable, op: FloatOp, a: u64, b: u64) -> (r: Result<u64, Stop>)
    ensures
        bits_view(r) == float_binary(t@, op, a, b),
{
    ask_float(t, FloatTask::Binary { op, a, b })
}

/// The model of an outcome that gives a binary64 number.
pub open spec fn bits_view(r: Result<u64, Stop>) -> Result<u64, StopModel> {
    match r {
        Ok(bits) => Ok(bits),
        Err(s) => Err(s@),
    }
}

/// A binary64 number as a value.
pub open spec fn as_float(r: Result<u64, StopModel>) -> Outcome {
    match r {
        Ok(bits) => Ok(ValueModel::Float64(bits)),
        Err(s) => Err(s),
    }
}

/// Gives a binary64 number as a value.
pub fn give_float(r: Result<u64, Stop>) -> (v: Result<Value, Stop>)
    ensures
        outcome_view(v) == as_float(bits_view(r)),
{
    match r {
        Ok(bits) => Ok(Value::Float64(bits)),
        Err(s) => Err(s),
    }
}

/// The floored quotient of floating-point numbers.
pub open spec fn float_floor_quotient(t: Answers, a: u64, b: u64) -> Result<u64, StopModel> {
    match float_binary(t, FloatOp::Div, a, b) {
        Ok(q) => float_result(t, FloatTaskModel::Whole { rounding: Rounding::Floor, a: q }),
        Err(s) => Err(s),
    }
}

fn ask_floor_quotient(t: &FloatTable, a: u64, b: u64) -> (r: Result<u64, Stop>)
    ensures
        bits_view(r) == float_floor_quotient(t@, a, b),
{
    match ask_binary(t, FloatOp::Div, a, b) {
        Ok(q) => ask_float(t, FloatTask::Whole { rounding: Rounding::Floor, a: q }),
        Err(s) => Err(s),
    }
}

/// What the floored quotient of floating-point numbers leaves.
pub open spec fn float_floor_remainder(t: Answers, a: u64, b: u64) -> Result<u64, StopModel> {
    match float_floor_quotient(t, a, b) {
        Ok(q) => match float_binary(t, FloatOp::Mul, b, q) {
            Ok(p) => float_binary(t, FloatOp::Sub, a, p),
            Err(s) => Err(s),
        },
        Err(s) => Err(s),
    }
}

fn ask_floor_remainder(t: &FloatTable, a: u64, b: u64) -> (r: Result<u64, Stop>)
    ensures
        bits_view(r) == float_floor_remainder(t@, a, b),
{
    match ask_floor_quotient(t, a, b) {
        Ok(q) => match ask_binary(t, FloatOp::Mul, b, q) {
            Ok(p) => ask_binary(t, FloatOp::Sub, a, p),
            Err(s) => Err(s),
        },
        Err(s) => Err(s),
    }
}

/// Whether a comparison holds of two floating-point numbers. Only `!=` holds of
/// what is no number.
pub open spec fn float_compares(op: InfixOp, a: u64, b: u64) -> bool {
    match float_order(a, b) {
        None => op is Ne,
        Some(order) => order_holds(op, order),
    }
}

/// Whether a comparison holds of values in this order.
pub open spec fn order_holds(op: InfixOp, order: Order) -> bool {
    match op {
        InfixOp::Lt => order is Less,
        InfixOp::Gt => order is Greater,
        InfixOp::Le => !(order is Greater),
        InfixOp::Ge => !(order is Less),
        InfixOp::Eq => order is Same,
        InfixOp::Ne => !(order is Same),
        _ => false,
    }
}

/// Whether a comparison holds of values in this order.
pub fn holds_in_order(op: InfixOp, order: Order) -> (r: bool)
    ensures
        r == order_holds(op, order),
{
    let less: bool = match order {
        Order::Less => true,
        _ => false,
    };
    let greater: bool = match order {
        Order::Greater => true,
        _ => false,
    };
    match op {
        InfixOp::Lt => less,
        InfixOp::Gt => greater,
        InfixOp::Le => !greater,
        InfixOp::Ge => !less,
        InfixOp::Eq => !less && !greater,
        InfixOp::Ne => less || greater,
        _ => false,
    }
}

/// Whether a comparison holds of two floating-point numbers.
pub fn compare_floats(op: InfixOp, a: u64, b: u64) -> (r: bool)
    ensures
        r == float_compares(op, a, b),
{
    match order_floats(a, b) {
        None => match op {
            InfixOp::Ne => true,
            _ => false,
        },
        Some(order) => holds_in_order(op, order),
    }
}

/// Whether an operator compares.
pub open spec fn is_comparison(op: InfixOp) -> bool {
    op is Lt || op is Gt || op is Le || op is Ge || op is Eq || op is Ne
}

/// Whether an operator compares.
pub fn compares(op: InfixOp) -> (r: bool)
    ensures
        r == is_comparison(op),
{
    match op {
        InfixOp::Lt => true,
        InfixOp::Gt => true,
        InfixOp::Le => true,
        InfixOp::Ge => true,
        InfixOp::Eq => true,
        InfixOp::Ne => true,
        _ => false,
    }
}

/// An operator on floating-point numbers.
#[verifier::opaque]
pub open spec fn float_outcome(t: Answers, op: InfixOp, a: u64, b: u64) -> Outcome {
    if is_comparison(op) {
        Ok(ValueModel::Bool(float_compares(op, a, b)))
    } else {
        match op {
            InfixOp::Add => as_float(float_binary(t, FloatOp::Add, a, b)),
            InfixOp::Sub => as_float(float_binary(t, FloatOp::Sub, a, b)),
            InfixOp::Mul => as_float(float_binary(t, FloatOp::Mul, a, b)),
            InfixOp::FloorDiv => as_float(float_floor_quotient(t, a, b)),
            InfixOp::Mod => as_float(float_floor_remainder(t, a, b)),
            InfixOp::Pow => as_float(float_binary(t, FloatOp::Pow, a, b)),
            _ => Err(invalid_operator(op, "float dispatch"@)),
        }
    }
}

/// Applies an operator to floating-point numbers.
pub fn float_op(t: &FloatTable, op: InfixOp, a: u64, b: u64) -> (r: Result<Value, Stop>)
    ensures
        outcome_view(r) == float_outcome(t@, op, a, b),
{
    proof {
        reveal(float_outcome);
    }
    if compares(op) {
        return Ok(Value::Bool(compare_floats(op, a, b)));
    }
    match op {
        InfixOp::Add => give_float(ask_binary(t, FloatOp::Add, a, b)),
        InfixOp::Sub => give_float(ask_binary(t, FloatOp::Sub, a, b)),
        InfixOp::Mul => give_float(ask_binary(t, FloatOp::Mul, a, b)),
        InfixOp::FloorDiv => give_float(ask_floor_quotient(t, a, b)),
        InfixOp::Mod => give_float(ask_floor_remainder(t, a, b)),
        InfixOp::Pow => give_float(ask_binary(t, FloatOp::Pow, a, b)),
        _ => Err(reject_operator(op, "float dispatch")),
    }
}

/// A number lifted out of a value.
#[derive(Debug, Clone, Copy, PartialEq, Eq, Structural)]
pub enum Num {
    I(i64),
    U(u64),
    F(u64),
}

/// The number that a value is.
pub open spec fn num_of(v: ValueModel) -> Option<Num> {
    match v {
        ValueModel::Int(n) => Some(Num::I(n)),
        ValueModel::UInt(n) => Some(Num::U(n)),
        ValueModel::Float64(bits) => Some(Num::F(bits)),
        _ => None,
    }
}

/// The number that a value is.
pub fn as_num(v: &Value) -> (r: Option<Num>)
    ensures
        r == num_of(v@),
{
    match v {
        Value::Int(n) => Some(Num::I(*n)),
        Value::UInt(n) => Some(Num::U(*n)),
        Value::Float64(bits) => Some(Num::F(*bits)),
        _ => None,
    }
}

/// A number as a floating-point one.
pub open spec fn num_float(t: Answers, n: Num) -> Result<u64, StopModel> {
    match n {
        Num::I(v) => float_result(t, FloatTaskModel::FromInt(v)),
        Num::U(v) => float_result(t, FloatTaskModel::FromUInt(v)),
        Num::F(bits) => Ok(bits),
    }
}

/// A number as a floating-point one.
pub fn float_of_num(t: &FloatTable, n: Num) -> (r: Result<u64, Stop>)
    ensures
        bits_view(r) == num_float(t@, n),
{
    match n {
        Num::I(v) => ask_float(t, FloatTask::FromInt(v)),
        Num::U(v) => ask_float(t, FloatTask::FromUInt(v)),
        Num::F(bits) => Ok(bits),
    }
}

/// Two numbers as floating-point ones.
pub open spec fn num_floats(t: Answers, a: Num, b: Num) -> Result<(u64, u64), StopModel> {
    match num_float(t, a) {
        Err(s) => Err(s),
        Ok(x) => match num_float(t, b) {
            Err(s) => Err(s),
            Ok(y) => Ok((x, y)),
        },
    }
}

/// Two numbers as floating-point ones.
pub fn floats_of_nums(t: &FloatTable, a: Num, b: Num) -> (r: Result<(u64, u64), Stop>)
    ensures
        match r {
            Ok(p) => num_floats(t@, a, b) == Ok::<(u64, u64), StopModel>(p),
            Err(s) => num_floats(t@, a, b) == Err::<(u64, u64), StopModel>(s@),
        },
{
    match float_of_num(t, a) {
        Err(s) => Err(s),
        Ok(x) => match float_of_num(t, b) {
            Err(s) => Err(s),
            Ok(y) => Ok((x, y)),
        },
    }
}

/// A number as an unsigned integer with the same bits. Floating-point numbers do not
/// get here.
pub open spec fn num_unsigned(n: Num) -> u64 {
    match n {
        Num::I(v) => wrap_unsigned(v as int),
        Num::U(v) => v,
        Num::F(_) => 0,
    }
}

/// A number as an unsigned integer with the same bits.
pub fn unsigned_of_num(n: Num) -> (r: u64)
    ensures
        r == num_unsigned(n),
{
    match n {
        Num::I(v) => to_unsigned(v),
        Num::U(v) => v,
        Num::F(_) => 0,
    }
}

/// An operator on numbers, promoted to a common kind: floating-point before
/// unsigned before signed. True division is always floating-point.
#[verifier::opaque]
pub open spec fn numeric_outcome(t: Answers, op: InfixOp, a: Num, b: Num) -> Outcome {
    if op is Div {
        match num_floats(t, a, b) {
            Err(s) => Err(s),
            Ok(p) => as_float(float_binary(t, FloatOp::Div, p.0, p.1)),
        }
    } else if a is F || b is F {
        match num_floats(t, a, b) {
            Err(s) => Err(s),
            Ok(p) => float_outcome(t, op, p.0, p.1),
        }
    } else {
        match (a, b) {
            (Num::I(x), Num::I(y)) => int_result(op, x, y),
            _ => uint_result(op, num_unsigned(a), num_unsigned(b)),
        }
    }
}

/// Applies an operator to numbers.
pub fn numeric_op(t: &FloatTable, op: InfixOp, a: Num, b: Num) -> (r: Result<Value, Stop>)
    ensures
        outcome_view(r) == numeric_outcome(t@, op, a, b),
{
    proof {
        reveal(numeric_outcome);
    }
    let division: bool = match op {
        InfixOp::Div => true,
        _ => false,
    };
    if division {
        return match floats_of_nums(t, a, b) {
            Err(s) => Err(s),
            Ok(p) => give_float(ask_binary(t, FloatOp::Div, p.0, p.1)),
        };
    }
    match (a, b) {
        (Num::I(x), Num::I(y)) => int_op(op, x, y),
        (Num::F(_), _) => match floats_of_nums(t, a, b) {
            Err(s) => Err(s),
            Ok(p) => float_op(t, op, p.0, p.1),
        },
        (_, Num::F(_)) => match floats_of_nums(t, a, b) {
            Err(s) => Err(s),
            Ok(p) => float_op(t, op, p.0, p.1),
        },
        _ => uint_op(op, unsigned_of_num(a), unsigned_of_num(b)),
    }
}

} // verus!
