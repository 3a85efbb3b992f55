//! Operators on values.

use crate::ast::{Dtype, InfixOp, PrefixOp, Type, TypeModel};
use crate::ct::wrap64;
use crate::debug::{name_of_operator, operator_name};
use crate::literal::{
    BitOp, FloatLiteral, FloatLiteralModel, IntLiteral, bitwise, denominator, floor_quotient,
    floor_remainder, fraction_of, fraction_order, int_pow, lemma_pow_values, literal_of,
    literal_value, numerator, quotient_parts,
};
use crate::mir::verify::instantiate::shorter;
use crate::order::{Order, int_order, order_str, str_order};
use crate::runtime::{
    FloatOp, FloatTable, FloatTask, FloatTaskModel, Outcome, SimdLanes, SimdLanesModel, Stop,
    StopModel, Value, ValueModel, ask_float, fail_type, float_order, float_rank, float_result,
    kind_name, order_floats, outcome_view, type_error, value_kind, values_list_view,
};
use crate::runtime::scalar::{
    Answers, Num, as_float, as_num, ask_binary, bits_view, compares, float_binary, floats_of_nums,
    give_float, holds_in_order, invalid_operator, is_comparison, low_signed, num_floats, num_of,
    num_unsigned, numeric_op, numeric_outcome, order_holds, reject_operator, to_unsigned,
    unsigned_of_num, wrap_unsigned,
};
use crate::runtime::simd::{
    fraction_rounded, int_rounded, round_fraction, round_int_literal, simd_binop, simd_shape,
    simd_value, vector_outcome, vector_value, whole_fraction, wrap, wrapped,
};
use crate::runtime::values::{
    all_operator_equal, holds_exact, holds_num, is_exact, is_num, operator_equal, truth_view,
    values_equal,
};
use crate::text::{cat2, cat4, cat5, cat6, find_first, first_occurrence};
use vstd::prelude::*;

verus! {

/// The value of an exact integer.
pub open spec fn exact_int(n: int) -> ValueModel {
    ValueModel::IntLiteral(literal_of(n))
}

/// The value of an exact fraction.
pub open spec fn exact_fraction(n: int, d: int) -> ValueModel {
    ValueModel::FloatLiteral(fraction_of(n, d))
}

/// The value of an exact integer.
pub fn give_int(l: &IntLiteral) -> (r: Value)
    ensures
        r@ == exact_int(literal_value(l@)),
{
    Value::IntLiteral(l.canonical())
}

/// The value of an exact fraction.
pub fn give_fraction(l: &FloatLiteral) -> (r: Value)
    ensures
        r@ == exact_fraction(numerator(l@), denominator(l@)),
{
    Value::FloatLiteral(l.canonical())
}

/// An exact value over another, where that is not zero.
pub open spec fn fraction_quotient(n: int, d: int) -> ValueModel {
    if d > 0 { exact_fraction(n, d) } else { exact_fraction(-n, -d) }
}

/// An operator on exact integers.
#[verifier::opaque]
pub open spec fn exact_int_outcome(op: InfixOp, a: int, b: int) -> Outcome {
    if is_comparison(op) {
        Ok(ValueModel::Bool(order_holds(op, int_order(a, b))))
    } else {
        match op {
            InfixOp::Add => Ok(exact_int(a + b)),
            InfixOp::Sub => Ok(exact_int(a - b)),
            InfixOp::Mul => Ok(exact_int(a * b)),
            InfixOp::Div => if b == 0 {
                Err(type_error("integer division by zero"@))
            } else {
                Ok(fraction_quotient(a * 1, 1 * b))
            },
            InfixOp::FloorDiv => if b == 0 {
                Err(type_error("integer division by zero"@))
            } else {
                Ok(exact_int(floor_quotient(a, b)))
            },
            InfixOp::Mod => if b == 0 {
                Err(type_error("integer modulo by zero"@))
            } else {
                Ok(exact_int(floor_remainder(a, b)))
            },
            InfixOp::Pow => if 0 <= b <= u32::MAX {
                Ok(exact_int(int_pow(a, b as nat)))
            } else {
                Err(type_error("integer literal exponent must be a non-negative u32"@))
            },
            InfixOp::Shl => if 0 <= b <= u32::MAX {
                Ok(exact_int(a * int_pow(2, b as nat)))
            } else {
                Err(type_error("invalid integer literal shift"@))
            },
            InfixOp::Shr => if 0 <= b <= u32::MAX {
                Ok(exact_int(floor_quotient(a, int_pow(2, b as nat))))
            } else {
                Err(type_error("invalid integer literal shift"@))
            },
            InfixOp::BitAnd => Ok(exact_int(bitwise(BitOp::And, a, b))),
            InfixOp::BitOr => Ok(exact_int(bitwise(BitOp::Or, a, b))),
            InfixOp::BitXor => Ok(exact_int(bitwise(BitOp::Xor, a, b))),
            _ => Err(invalid_operator(op, "IntLiteral"@)),
        }
    }
}

fn exact_int_op(op: InfixOp, a: &IntLiteral, b: &IntLiteral) -> (r: Result<Value, Stop>)
    ensures
        outcome_view(r) == exact_int_outcome(op, literal_value(a@), literal_value(b@)),
{
    proof {
        reveal(exact_int_outcome);
    }
    if compares(op) {
        return Ok(Value::Bool(holds_in_order(op, a.compare(b))));
    }
    match op {
        InfixOp::Add => Ok(give_int(&a.add(b))),
        InfixOp::Sub => Ok(give_int(&a.sub(b))),
        InfixOp::Mul => Ok(give_int(&a.mul(b))),
        InfixOp::Div => match FloatLiteral::from_int(a).div(&FloatLiteral::from_int(b)) {
            Some(q) => Ok(give_fraction(&q)),
            None => Err(fail_type("integer division by zero".to_owned())),
        },
        InfixOp::FloorDiv => match a.floor_div(b) {
            Some(q) => Ok(give_int(&q)),
            None => Err(fail_type("integer division by zero".to_owned())),
        },
        InfixOp::Mod => match a.floor_mod(b) {
            Some(m) => Ok(give_int(&m)),
            None => Err(fail_type("integer modulo by zero".to_owned())),
        },
        InfixOp::Pow => match a.pow(b) {
            Some(p) => Ok(give_int(&p)),
            None => Err(fail_type("integer literal exponent must be a non-negative u32".to_owned())),
        },
        InfixOp::Shl => match a.shl(b) {
            Some(p) => Ok(give_int(&p)),
            None => Err(fail_type("invalid integer literal shift".to_owned())),
        },
        InfixOp::Shr => match a.shr(b) {
            Some(p) => Ok(give_int(&p)),
            None => Err(fail_type("invalid integer literal shift".to_owned())),
        },
        InfixOp::BitAnd => Ok(give_int(&a.bitand(b))),
        InfixOp::BitOr => Ok(give_int(&a.bitor(b))),
        InfixOp::BitXor => Ok(give_int(&a.bitxor(b))),
        _ => Err(reject_operator(op, "IntLiteral")),
    }
}

/// A power of an exact fraction by a whole exponent: of its reciprocal below zero.
pub open spec fn fraction_power(n: int, d: int, e: int) -> Outcome {
    if e > u32::MAX || -e > u32::MAX || (e < 0 && n == 0) {
        Err(type_error("invalid FloatLiteral exponent"@))
    } else if e >= 0 {
        Ok(exact_fraction(int_pow(n, e as nat), int_pow(d, e as nat)))
    } else if n > 0 {
        Ok(exact_fraction(int_pow(d, (-e) as nat), int_pow(n, (-e) as nat)))
    } else {
        Ok(exact_fraction(int_pow(-d, (-e) as nat), int_pow(-n, (-e) as nat)))
    }
}

/// An operator on exact fractions.
#[verifier::opaque]
pub open spec fn fraction_outcome(
    t: Answers,
    op: InfixOp,
    a: FloatLiteralModel,
    b: FloatLiteralModel,
) -> Outcome {
    let (an, ad, bn, bd) = (numerator(a), denominator(a), numerator(b), denominator(b));
    let (qn, qd) = quotient_parts(a, b);
    if is_comparison(op) {
        Ok(ValueModel::Bool(order_holds(op, fraction_order(a, b))))
    } else {
        match op {
            InfixOp::Add => Ok(exact_fraction(an * bd + bn * ad, ad * bd)),
            InfixOp::Sub => Ok(exact_fraction(an * bd - bn * ad, ad * bd)),
            InfixOp::Mul => Ok(exact_fraction(an * bn, ad * bd)),
            InfixOp::Div => if bn == 0 {
                Err(type_error("floating literal division by zero"@))
            } else {
                Ok(fraction_quotient(qn, qd))
            },
            InfixOp::FloorDiv => if bn == 0 {
                Err(type_error("floating literal division by zero"@))
            } else {
                Ok(exact_fraction(floor_quotient(qn, qd), 1))
            },
            InfixOp::Mod => if bn == 0 {
                Err(type_error("floating literal modulo by zero"@))
            } else {
                Ok(
                    exact_fraction(
                        an * (bd * 1) - (bn * floor_quotient(qn, qd)) * ad,
                        ad * (bd * 1),
                    ),
                )
            },
            InfixOp::Pow => if bn % bd == 0 {
                fraction_power(an, ad, bn / bd)
            } else {
                match fraction_rounded(t, a, false, "Float64"@) {
                    Err(s) => Err(s),
                    Ok(x) => match fraction_rounded(t, b, false, "Float64"@) {
                        Err(s) => Err(s),
                        Ok(y) => as_float(float_binary(t, FloatOp::Pow, x, y)),
                    },
                }
            },
            _ => Err(invalid_operator(op, "FloatLiteral"@)),
        }
    }
}

fn fraction_pow(t: &FloatTable, a: &FloatLiteral, b: &FloatLiteral) -> (r: Result<Value, Stop>)
    ensures
        outcome_view(r) == fraction_outcome(t@, InfixOp::Pow, a@, b@),
{
    proof {
        reveal(fraction_outcome);
    }
    match b.to_int_if_whole() {
        Some(e) => match a.pow_int(&e) {
            Some(p) => Ok(give_fraction(&p)),
            None => Err(fail_type("invalid FloatLiteral exponent".to_owned())),
        },
        None => match round_fraction(t, a, false, "Float64") {
            Err(s) => Err(s),
            Ok(x) => match round_fraction(t, b, false, "Float64") {
                Err(s) => Err(s),
                Ok(y) => give_float(ask_binary(t, FloatOp::Pow, x, y)),
            },
        },
    }
}

fn fraction_op(t: &FloatTable, op: InfixOp, a: &FloatLiteral, b: &FloatLiteral) -> (r: Result<Value, Stop>)
    ensures
        outcome_view(r) == fraction_outcome(t@, op, a@, b@),
{
    if let InfixOp::Pow = op {
        return fraction_pow(t, a, b);
    }
    proof {
        reveal(fraction_outcome);
    }
    if compares(op) {
        return Ok(Value::Bool(holds_in_order(op, a.numeric_order(b))));
    }
    match op {
        InfixOp::Add => Ok(give_fraction(&a.add(b))),
        InfixOp::Sub => Ok(give_fraction(&a.sub(b))),
        InfixOp::Mul => Ok(give_fraction(&a.mul(b))),
        InfixOp::Div => match a.div(b) {
            Some(q) => Ok(give_fraction(&q)),
            None => Err(fail_type("floating literal division by zero".to_owned())),
        },
        InfixOp::FloorDiv => match a.floor_div(b) {
            Some(q) => Ok(give_fraction(&q)),
            None => Err(fail_type("floating literal division by zero".to_owned())),
        },
        InfixOp::Mod => match a.floor_mod(b) {
            Some(m) => Ok(give_fraction(&m)),
            None => Err(fail_type("floating literal modulo by zero".to_owned())),
        },
        _ => Err(reject_operator(op, "FloatLiteral")),
    }
}

/// An exact literal as a fraction.
pub open spec fn as_fraction(v: ValueModel) -> FloatLiteralModel {
    match v {
        ValueModel::IntLiteral(l) => fraction_of(literal_value(l), 1),
        ValueModel::FloatLiteral(l) => l,
        _ => arbitrary(),
    }
}

/// An exact literal as a fraction.
pub fn fraction_from(v: &Value) -> (r: Option<FloatLiteral>)
    ensures
        match r {
            Some(l) => is_exact(v@) && l@ == as_fraction(v@),
            None => !is_exact(v@),
        },
{
    match v {
        Value::IntLiteral(l) => Some(whole_fraction(l)),
        Value::FloatLiteral(l) => Some(l.copy()),
        _ => None,
    }
}

/// An operator on exact literals: integers stay integers where both are.
pub open spec fn exact_outcome(t: Answers, op: InfixOp, a: ValueModel, b: ValueModel) -> Outcome {
    match (a, b) {
        (ValueModel::IntLiteral(x), ValueModel::IntLiteral(y)) => exact_int_outcome(
            op,
            literal_value(x),
            literal_value(y),
        ),
        _ => fraction_outcome(t, op, as_fraction(a), as_fraction(b)),
    }
}

/// Applies an operator to exact literals.
pub fn exact_numeric_op(t: &FloatTable, op: InfixOp, a: &Value, b: &Value) -> (r: Result<Value, Stop>)
    requires
        is_exact(a@),
        is_exact(b@),
    ensures
        outcome_view(r) == exact_outcome(t@, op, a@, b@),
{
    if let (Value::IntLiteral(x), Value::IntLiteral(y)) = (a, b) {
        return exact_int_op(op, x, y);
    }
    match (fraction_from(a), fraction_from(b)) {
        (Some(x), Some(y)) => fraction_op(t, op, &x, &y),
        _ => Err(reject_operator(op, "FloatLiteral")),
    }
}

/// The model of an outcome that gives a number.
pub open spec fn num_view(r: Result<Num, Stop>) -> Result<Num, StopModel> {
    match r {
        Ok(n) => Ok(n),
        Err(s) => Err(s@),
    }
}

/// A literal in the kind of a runtime number.
pub open spec fn num_like(t: Answers, literal: ValueModel, concrete: ValueModel) -> Result<Num, StopModel> {
    match (literal, concrete) {
        (ValueModel::IntLiteral(l), ValueModel::Int(_)) => Ok(Num::I(wrap64(literal_value(l)))),
        (ValueModel::IntLiteral(l), ValueModel::UInt(_)) => Ok(Num::U(wrap_unsigned(literal_value(l)))),
        (ValueModel::IntLiteral(l), ValueModel::Float64(_)) => as_float_num(
            int_rounded(t, l, false, "Float64"@),
        ),
        (ValueModel::FloatLiteral(l), ValueModel::Float64(_)) => as_float_num(
            fraction_rounded(t, l, false, "Float64"@),
        ),
        _ => Err(type_error("cannot materialize "@ + value_kind(literal) + " for "@ + value_kind(concrete))),
    }
}

/// A binary64 number as a number.
pub open spec fn as_float_num(r: Result<u64, StopModel>) -> Result<Num, StopModel> {
    match r {
        Ok(bits) => Ok(Num::F(bits)),
        Err(s) => Err(s),
    }
}

fn give_float_num(r: Result<u64, Stop>) -> (n: Result<Num, Stop>)
    ensures
        num_view(n) == as_float_num(bits_view(r)),
{
    match r {
        Ok(bits) => Ok(Num::F(bits)),
        Err(s) => Err(s),
    }
}

/// The signed 64 bits of a literal.
pub fn literal_to_signed(l: &IntLiteral) -> (r: i64)
    ensures
        r == wrap64(literal_value(l@)),
{
    proof {
        lemma_pow_values();
    }
    l.wrapping_signed(64)
}

/// The unsigned 64 bits of a literal.
pub fn literal_to_unsigned(l: &IntLiteral) -> (r: u64)
    ensures
        r == wrap_unsigned(literal_value(l@)),
{
    proof {
        lemma_pow_values();
    }
    l.wrapping_unsigned(64)
}

/// A literal in the kind of a runtime number.
pub fn literal_like(t: &FloatTable, literal: &Value, concrete: &Value) -> (r: Result<Num, Stop>)
    ensures
        num_view(r) == num_like(t@, literal@, concrete@),
{
    match (literal, concrete) {
        (Value::IntLiteral(l), Value::Int(_)) => Ok(Num::I(literal_to_signed(l))),
        (Value::IntLiteral(l), Value::UInt(_)) => Ok(Num::U(literal_to_unsigned(l))),
        (Value::IntLiteral(l), Value::Float64(_)) => give_float_num(
            round_int_literal(t, l, false, "Float64"),
        ),
        (Value::FloatLiteral(l), Value::Float64(_)) => give_float_num(round_fraction(t, l, false, "Float64")),
        _ => Err(fail_type(cat4("cannot materialize ", &kind_name(literal), " for ", &kind_name(concrete)))),
    }
}

/// A number as a value.
pub open spec fn num_value(n: Num) -> ValueModel {
    match n {
        Num::I(v) => ValueModel::Int(v),
        Num::U(v) => ValueModel::UInt(v),
        Num::F(bits) => ValueModel::Float64(bits),
    }
}

/// A number as a value.
pub fn value_of_num(n: Num) -> (r: Value)
    ensures
        r@ == num_value(n),
{
    match n {
        Num::I(v) => Value::Int(v),
        Num::U(v) => Value::UInt(v),
        Num::F(bits) => Value::Float64(bits),
    }
}

/// A literal materialized in the kind of a runtime number.
pub open spec fn materialized_like(t: Answers, literal: ValueModel, concrete: ValueModel) -> Outcome {
    match num_like(t, literal, concrete) {
        Ok(n) => Ok(num_value(n)),
        Err(s) => Err(s),
    }
}

/// Materializes a literal in the kind of a runtime number.
pub fn materialize_like_numeric(t: &FloatTable, literal: &Value, concrete: &Value) -> (r: Result<Value, Stop>)
    ensures
        outcome_view(r) == materialized_like(t@, literal@, concrete@),
{
    match literal_like(t, literal, concrete) {
        Ok(n) => Ok(value_of_num(n)),
        Err(s) => Err(s),
    }
}

/// Whether both values are numbers, exact or not.
pub open spec fn numeric_pair(l: ValueModel, r: ValueModel) -> bool {
    (is_exact(l) || is_num(l)) && (is_exact(r) || is_num(r))
}

/// An operator on numbers of any kind. A literal next to a runtime number takes its
/// kind.
#[verifier::opaque]
pub open spec fn any_numeric_outcome(t: Answers, op: InfixOp, l: ValueModel, r: ValueModel) -> Outcome {
    if is_exact(l) && is_exact(r) {
        exact_outcome(t, op, l, r)
    } else if is_exact(l) {
        match num_like(t, l, r) {
            Ok(n) => numeric_outcome(t, op, n, num_of(r)->Some_0),
            Err(s) => Err(s),
        }
    } else if is_exact(r) {
        match num_like(t, r, l) {
            Ok(n) => numeric_outcome(t, op, num_of(l)->Some_0, n),
            Err(s) => Err(s),
        }
    } else {
        numeric_outcome(t, op, num_of(l)->Some_0, num_of(r)->Some_0)
    }
}

fn any_numeric_op(t: &FloatTable, op: InfixOp, l: &Value, r: &Value) -> (v: Result<Value, Stop>)
    requires
        numeric_pair(l@, r@),
    ensures
        outcome_view(v) == any_numeric_outcome(t@, op, l@, r@),
{
    proof {
        reveal(any_numeric_outcome);
    }
    if holds_exact(l) && holds_exact(r) {
        return exact_numeric_op(t, op, l, r);
    }
    let a: Num = if holds_exact(l) {
        match literal_like(t, l, r) {
            Ok(n) => n,
            Err(s) => return Err(s),
        }
    } else {
        match as_num(l) {
            Some(n) => n,
            None => Num::I(0),
        }
    };
    let b: Num = if holds_exact(r) {
        match literal_like(t, r, l) {
            Ok(n) => n,
            Err(s) => return Err(s),
        }
    } else {
        match as_num(r) {
            Some(n) => n,
            None => Num::I(0),
        }
    };
    numeric_op(t, op, a, b)
}

/// The outcome of ordering two elements.
pub type Ordered = Result<Order, StopModel>;

/// The model of an outcome that gives an order.
pub open spec fn order_view(r: Result<Order, Stop>) -> Ordered {
    match r {
        Ok(o) => Ok(o),
        Err(s) => Err(s@),
    }
}

/// The failure of ordering what is no number.
pub open spec fn unordered() -> StopModel {
    type_error("cannot order NaN tuple elements"@)
}

/// A comparison that has to give a truth value.
pub open spec fn truth_of(o: Outcome) -> Result<bool, StopModel> {
    match o {
        Ok(ValueModel::Bool(b)) => Ok(b),
        Ok(_) => Err(type_error("numeric tuple comparison did not produce Bool"@)),
        Err(s) => Err(s),
    }
}

fn truth_from(o: Result<Value, Stop>) -> (r: Result<bool, Stop>)
    ensures
        truth_view(r) == truth_of(outcome_view(o)),
{
    match o {
        Ok(v) => match v {
            Value::Bool(b) => Ok(b),
            _ => Err(fail_type("numeric tuple comparison did not produce Bool".to_owned())),
        },
        Err(s) => Err(s),
    }
}

/// The order of two numbers, at least one of them a literal: by the comparison
/// operators, in turn.
#[verifier::opaque]
pub open spec fn exact_element_order(t: Answers, l: ValueModel, r: ValueModel) -> Ordered {
    match truth_of(any_numeric_outcome(t, InfixOp::Eq, l, r)) {
        Err(s) => Err(s),
        Ok(true) => Ok(Order::Same),
        Ok(false) => match truth_of(any_numeric_outcome(t, InfixOp::Lt, l, r)) {
            Err(s) => Err(s),
            Ok(true) => Ok(Order::Less),
            Ok(false) => match truth_of(any_numeric_outcome(t, InfixOp::Gt, l, r)) {
                Err(s) => Err(s),
                Ok(true) => Ok(Order::Greater),
                Ok(false) => Err(unordered()),
            },
        },
    }
}

fn order_exact_elements(t: &FloatTable, l: &Value, r: &Value) -> (v: Result<Order, Stop>)
    requires
        numeric_pair(l@, r@),
    ensures
        order_view(v) == exact_element_order(t@, l@, r@),
{
    proof {
        reveal(exact_element_order);
    }
    match truth_from(any_numeric_op(t, InfixOp::Eq, l, r)) {
        Err(s) => return Err(s),
        Ok(b) => {
            if b {
                return Ok(Order::Same);
            }
        },
    }
    match truth_from(any_numeric_op(t, InfixOp::Lt, l, r)) {
        Err(s) => return Err(s),
        Ok(b) => {
            if b {
                return Ok(Order::Less);
            }
        },
    }
    match truth_from(any_numeric_op(t, InfixOp::Gt, l, r)) {
        Err(s) => Err(s),
        Ok(b) => if b {
            Ok(Order::Greater)
        } else {
            Err(fail_type("cannot order NaN tuple elements".to_owned()))
        },
    }
}

/// The order of two runtime numbers, promoted to a common kind.
pub open spec fn num_order(t: Answers, a: Num, b: Num) -> Ordered {
    if a is F || b is F {
        match num_floats(t, a, b) {
            Err(s) => Err(s),
            Ok(p) => match float_order(p.0, p.1) {
                Some(o) => Ok(o),
                None => Err(unordered()),
            },
        }
    } else {
        match (a, b) {
            (Num::I(x), Num::I(y)) => Ok(int_order(x as int, y as int)),
            _ => Ok(int_order(num_unsigned(a) as int, num_unsigned(b) as int)),
        }
    }
}

fn order_floats_of(t: &FloatTable, a: Num, b: Num) -> (r: Result<Order, Stop>)
    requires
        a is F || b is F,
    ensures
        order_view(r) == num_order(t@, a, b),
{
    match floats_of_nums(t, a, b) {
        Err(s) => Err(s),
        Ok(p) => match order_floats(p.0, p.1) {
            Some(o) => Ok(o),
            None => Err(fail_type("cannot order NaN tuple elements".to_owned())),
        },
    }
}

fn order_nums(t: &FloatTable, a: Num, b: Num) -> (r: Result<Order, Stop>)
    ensures
        order_view(r) == num_order(t@, a, b),
{
    match (a, b) {
        (Num::F(_), _) => order_floats_of(t, a, b),
        (_, Num::F(_)) => order_floats_of(t, a, b),
        (Num::I(x), Num::I(y)) => Ok(
            if x < y {
                Order::Less
            } else if x == y {
                Order::Same
            } else {
                Order::Greater
            },
        ),
        _ => {
            let (x, y): (u64, u64) = (unsigned_of_num(a), unsigned_of_num(b));
            Ok(
                if x < y {
                    Order::Less
                } else if x == y {
                    Order::Same
                } else {
                    Order::Greater
                },
            )
        },
    }
}

/// The order of two elements of packs: numbers by value, texts and packs by their
/// contents.
pub open spec fn element_order(t: Answers, l: ValueModel, r: ValueModel) -> Ordered
    decreases l, 0int, 0nat,
{
    if (is_exact(l) || is_exact(r)) && numeric_pair(l, r) {
        exact_element_order(t, l, r)
    } else if is_num(l) && is_num(r) {
        num_order(t, num_of(l)->Some_0, num_of(r)->Some_0)
    } else {
        match (l, r) {
            (ValueModel::Str(x), ValueModel::Str(y)) => Ok(str_order(x, y)),
            (ValueModel::Tuple(x), ValueModel::Tuple(y)) => tuple_order(t, x, y),
            _ => Err(
                type_error("cannot order "@ + value_kind(l) + " and "@ + value_kind(r) + " tuple elements"@),
            ),
        }
    }
}

/// The lexicographic order of packs: the first elements that differ decide, and a
/// prefix comes first.
pub open spec fn tuple_order(t: Answers, l: Seq<ValueModel>, r: Seq<ValueModel>) -> Ordered
    decreases l, 1int, 0nat,
{
    match shared_order(t, l, r, shorter(l.len(), r.len())) {
        Ok(Order::Same) => Ok(int_order(l.len() as int, r.len() as int)),
        other => other,
    }
}

/// The order that the first `n` elements give.
pub open spec fn shared_order(t: Answers, l: Seq<ValueModel>, r: Seq<ValueModel>, n: nat) -> Ordered
    decreases l, 0int, n,
{
    if n == 0 || n > l.len() {
        Ok(Order::Same)
    } else {
        match shared_order(t, l, r, (n - 1) as nat) {
            Ok(Order::Same) => element_order(t, l[n - 1], r[n - 1]),
            other => other,
        }
    }
}

proof fn lemma_shared_order(t: Answers, l: Seq<ValueModel>, r: Seq<ValueModel>, n: nat, m: nat)
    requires
        n <= m <= l.len(),
        shared_order(t, l, r, n) != Ok::<Order, StopModel>(Order::Same),
    ensures
        shared_order(t, l, r, m) == shared_order(t, l, r, n),
    decreases m,
{
    if n < m {
        lemma_shared_order(t, l, r, n, (m - 1) as nat);
    }
}

/// Orders two elements of packs.
pub fn compare_tuple_values(t: &FloatTable, l: &Value, r: &Value) -> (v: Result<Order, Stop>)
    ensures
        order_view(v) == element_order(t@, l@, r@),
    decreases l, 0int,
{
    let pair: bool = (holds_exact(l) || holds_num(l)) && (holds_exact(r) || holds_num(r));
    if pair && (holds_exact(l) || holds_exact(r)) {
        return order_exact_elements(t, l, r);
    }
    if let (Some(a), Some(b)) = (as_num(l), as_num(r)) {
        return order_nums(t, a, b);
    }
    match (l, r) {
        (Value::Str(x), Value::Str(y)) => Ok(order_str(x, y)),
        (Value::Tuple(x), Value::Tuple(y)) => compare_tuples(t, x, y),
        _ => Err(
            fail_type(cat5("cannot order ", &kind_name(l), " and ", &kind_name(r), " tuple elements")),
        ),
    }
}

/// Orders two packs lexicographically.
pub fn compare_tuples(t: &FloatTable, l: &Vec<Value>, r: &Vec<Value>) -> (v: Result<Order, Stop>)
    ensures
        order_view(v) == tuple_order(t@, values_list_view(*l), values_list_view(*r)),
    decreases l, 0int,
{
    let ghost (x, y) = (values_list_view(*l), values_list_view(*r));
    assert(x.len() == l@.len() && y.len() == r@.len());
    let n: usize = if l.len() < r.len() { l.len() } else { r.len() };
    for i in 0..n
        invariant
            x == values_list_view(*l),
            y == values_list_view(*r),
            x.len() == l@.len(),
            y.len() == r@.len(),
            n == shorter(l@.len(), r@.len()),
            shared_order(t@, x, y, i as nat) == Ok::<Order, StopModel>(Order::Same),
    {
        assert(x[i as int] == l@[i as int]@);
        assert(y[i as int] == r@[i as int]@);
        let step: Result<Order, Stop> = compare_tuple_values(t, &l[i], &r[i]);
        assert(shared_order(t@, x, y, (i + 1) as nat) == order_view(step));
        match step {
            Ok(o) => {
                let same: bool = match o {
                    Order::Same => true,
                    _ => false,
                };
                if !same {
                    proof {
                        lemma_shared_order(t@, x, y, (i + 1) as nat, n as nat);
                    }
                    return Ok(o);
                }
            },
            Err(s) => {
                proof {
                    lemma_shared_order(t@, x, y, (i + 1) as nat, n as nat);
                }
                return Err(s);
            },
        }
    }
    if l.len() < r.len() {
        Ok(Order::Less)
    } else if l.len() == r.len() {
        Ok(Order::Same)
    } else {
        Ok(Order::Greater)
    }
}

/// The bits of a negated binary64 number.
pub open spec fn float_negated(bits: u64) -> u64 {
    if bits >= 0x8000_0000_0000_0000 {
        (bits - 0x8000_0000_0000_0000) as u64
    } else {
        (bits + 0x8000_0000_0000_0000) as u64
    }
}

fn negate_float(bits: u64) -> (r: u64)
    ensures
        r == float_negated(bits),
{
    if bits >= 0x8000_0000_0000_0000 { bits - 0x8000_0000_0000_0000 } else { bits + 0x8000_0000_0000_0000 }
}

/// Negating a binary64 number twice gives it back, and reverses its place among the
/// others once.
pub proof fn law_negate_float(bits: u64)
    ensures
        float_negated(float_negated(bits)) == bits,
        float_rank(float_negated(bits)) == -float_rank(bits),
{
}

/// A negated exact fraction; zero keeps its sign.
pub open spec fn negated_fraction(l: FloatLiteralModel) -> FloatLiteralModel {
    FloatLiteralModel {
        negative_zero: numerator(l) == 0 && !l.negative_zero,
        ..fraction_of(-numerator(l), denominator(l))
    }
}

fn negate_fraction(l: &FloatLiteral) -> (r: FloatLiteral)
    ensures
        r@ == negated_fraction(l@),
{
    let n: FloatLiteral = l.neg();
    let mut out: FloatLiteral = n.canonical();
    out.negative_zero = n.negative_zero;
    assert(out@ =~= negated_fraction(l@));
    out
}

/// The lanes of a negated vector.
pub open spec fn lanes_negated(dtype: Dtype, lanes: SimdLanesModel) -> Result<SimdLanesModel, StopModel> {
    match lanes {
        SimdLanesModel::Int(v) => Ok(
            SimdLanesModel::Int(
                Seq::new(
                    v.len(),
                    |i: int| wrapped(dtype, vstd::wrapping::i128_specs::wrapping_sub(0, v[i]) as int) as i128,
                ),
            ),
        ),
        SimdLanesModel::Float(v) => Ok(
            SimdLanesModel::Float(Seq::new(v.len(), |i: int| float_negated(v[i])))
        ),
        SimdLanesModel::Bool(_) => Err(type_error("cannot negate a bool SIMD mask"@)),
    }
}

fn negate_lanes(dtype: Dtype, lanes: &SimdLanes) -> (r: Result<SimdLanes, Stop>)
    ensures
        match r {
            Ok(l) => lanes_negated(dtype, lanes@) == Ok::<SimdLanesModel, StopModel>(l@),
            Err(s) => lanes_negated(dtype, lanes@) == Err::<SimdLanesModel, StopModel>(s@),
        },
{
    match lanes {
        SimdLanes::Int(v) => {
            let mut out: Vec<i128> = Vec::new();
            for i in 0..v.len()
                invariant
                    out@.len() == i,
                    forall|j: int|
                        0 <= j < i ==> #[trigger] out@[j] == wrapped(
                            dtype,
                            vstd::wrapping::i128_specs::wrapping_sub(0, v@[j]) as int,
                        ) as i128,
            {
                let zero: i128 = 0;
                out.push(wrap(dtype, zero.wrapping_sub(v[i])));
            }
            let ghost wanted = Seq::new(
                v@.len(),
                |i: int| wrapped(dtype, vstd::wrapping::i128_specs::wrapping_sub(0, v@[i]) as int) as i128,
            );
            assert(out@ =~= wanted);
            Ok(SimdLanes::Int(out))
        },
        SimdLanes::Float(v) => {
            let mut out: Vec<u64> = Vec::new();
            for i in 0..v.len()
                invariant
                    out@.len() == i,
                    forall|j: int| 0 <= j < i ==> #[trigger] out@[j] == float_negated(v@[j]),
            {
                out.push(negate_float(v[i]));
            }
            let ghost wanted = Seq::new(v@.len(), |i: int| float_negated(v@[i]));
            assert(out@ =~= wanted);
            Ok(SimdLanes::Float(out))
        },
        SimdLanes::Bool(_) => Err(fail_type("cannot negate a bool SIMD mask".to_owned())),
    }
}

/// A unary operator on a value. Negation wraps.
#[verifier::opaque]
pub open spec fn prefix_outcome(op: PrefixOp, v: ValueModel) -> Outcome {
    match op {
        PrefixOp::Neg => match v {
            ValueModel::Int(n) => Ok(ValueModel::Int(wrap64(-n))),
            ValueModel::Float64(bits) => Ok(ValueModel::Float64(float_negated(bits))),
            ValueModel::IntLiteral(l) => Ok(exact_int(-literal_value(l))),
            ValueModel::FloatLiteral(l) => Ok(ValueModel::FloatLiteral(negated_fraction(l))),
            ValueModel::Simd { dtype, lanes } => match lanes_negated(dtype, lanes) {
                Ok(l) => Ok(vector_value(dtype, l)),
                Err(s) => Err(s),
            },
            _ => Err(type_error("cannot negate "@ + value_kind(v))),
        },
        PrefixOp::Not => match v {
            ValueModel::Bool(b) => Ok(ValueModel::Bool(!b)),
            _ => Err(type_error("'not' requires Bool, got "@ + value_kind(v))),
        },
    }
}

/// Applies a unary operator.
pub fn apply_prefix(op: PrefixOp, v: &Value) -> (r: Result<Value, Stop>)
    ensures
        outcome_view(r) == prefix_outcome(op, v@),
{
    proof {
        reveal(prefix_outcome);
    }
    match op {
        PrefixOp::Neg => match v {
            Value::Int(n) => Ok(Value::Int(low_signed(-(*n as i128)))),
            Value::Float64(bits) => Ok(Value::Float64(negate_float(*bits))),
            Value::IntLiteral(l) => Ok(give_int(&l.neg())),
            Value::FloatLiteral(l) => Ok(Value::FloatLiteral(negate_fraction(l))),
            Value::Simd { dtype, lanes } => match negate_lanes(*dtype, lanes) {
                Ok(l) => Ok(simd_value(*dtype, l)),
                Err(s) => Err(s),
            },
            _ => Err(fail_type(cat2("cannot negate ", &kind_name(v)))),
        },
        PrefixOp::Not => match v {
            Value::Bool(b) => Ok(Value::Bool(!*b)),
            _ => Err(fail_type(cat2("'not' requires Bool, got ", &kind_name(v)))),
        },
    }
}

/// A value coerced at a binding to a numeric annotation. Values that are not
/// numbers, and literals that do not fit, pass through.
#[verifier::opaque]
pub open spec fn coerced(t: Answers, v: ValueModel, to_unsigned: bool) -> Outcome {
    if to_unsigned {
        match v {
            ValueModel::Int(n) => Ok(ValueModel::UInt(wrap_unsigned(n as int))),
            ValueModel::IntLiteral(l) => if 0 <= literal_value(l) <= u64::MAX {
                Ok(ValueModel::UInt(literal_value(l) as u64))
            } else {
                Ok(v)
            },
            _ => Ok(v),
        }
    } else {
        match v {
            ValueModel::Int(n) => as_float(float_result(t, FloatTaskModel::FromInt(n))),
            ValueModel::UInt(n) => as_float(float_result(t, FloatTaskModel::FromUInt(n))),
            ValueModel::IntLiteral(l) => as_float(int_rounded(t, l, false, "Float64"@)),
            ValueModel::FloatLiteral(l) => as_float(fraction_rounded(t, l, false, "Float64"@)),
            _ => Ok(v),
        }
    }
}

fn coerce_number(t: &FloatTable, v: &Value, unsigned: bool) -> (r: Result<Value, Stop>)
    ensures
        outcome_view(r) == coerced(t@, v@, unsigned),
{
    proof {
        reveal(coerced);
    }
    if unsigned {
        match v {
            Value::Int(n) => Ok(Value::UInt(to_unsigned(*n))),
            Value::IntLiteral(l) => match l.to_u64() {
                Some(n) => Ok(Value::UInt(n)),
                None => Ok(v.copy()),
            },
            _ => Ok(v.copy()),
        }
    } else {
        match v {
            Value::Int(n) => give_float(ask_float(t, FloatTask::FromInt(*n))),
            Value::UInt(n) => give_float(ask_float(t, FloatTask::FromUInt(*n))),
            Value::IntLiteral(l) => give_float(round_int_literal(t, l, false, "Float64")),
            Value::FloatLiteral(l) => give_float(round_fraction(t, l, false, "Float64")),
            _ => Ok(v.copy()),
        }
    }
}

/// A value coerced to a source annotation: only `UInt` and `Float64` change one.
pub open spec fn annotated(t: Answers, v: ValueModel, ty: TypeModel) -> Outcome {
    match ty {
        TypeModel::UInt => coerced(t, v, true),
        TypeModel::Float64 => coerced(t, v, false),
        _ => Ok(v),
    }
}

/// Coerces a value to a source annotation.
pub fn coerce(t: &FloatTable, v: &Value, ty: &Type) -> (r: Result<Value, Stop>)
    ensures
        outcome_view(r) == annotated(t@, v@, ty@),
{
    match ty {
        Type::UInt => coerce_number(t, v, true),
        Type::Float64 => coerce_number(t, v, false),
        _ => Ok(v.copy()),
    }
}

/// A value coerced to the numeric kind of another.
#[verifier::opaque]
pub open spec fn coerced_like(t: Answers, v: ValueModel, existing: ValueModel) -> Outcome {
    let fallback = match existing {
        ValueModel::UInt(_) => coerced(t, v, true),
        ValueModel::Float64(_) => coerced(t, v, false),
        _ => Ok(v),
    };
    if is_exact(v) {
        match materialized_like(t, v, existing) {
            Ok(m) => Ok(m),
            Err(StopModel::Need(task)) => Err(StopModel::Need(task)),
            Err(StopModel::Error(_)) => fallback,
        }
    } else {
        fallback
    }
}

/// Coerces a value to the numeric kind of another.
pub fn coerce_like(t: &FloatTable, v: &Value, existing: &Value) -> (r: Result<Value, Stop>)
    ensures
        outcome_view(r) == coerced_like(t@, v@, existing@),
{
    proof {
        reveal(coerced_like);
    }
    if holds_exact(v) {
        match materialize_like_numeric(t, v, existing) {
            Ok(m) => return Ok(m),
            Err(s) => {
                if let Stop::Need(task) = s {
                    return Err(Stop::Need(task));
                }
            },
        }
    }
    match existing {
        Value::UInt(_) => coerce_number(t, v, true),
        Value::Float64(_) => coerce_number(t, v, false),
        _ => Ok(v.copy()),
    }
}

/// Whether an element equals the target; elements that do not compare do not.
pub open spec fn any_equal(items: Seq<ValueModel>, target: ValueModel) -> bool {
    exists|i: int| 0 <= i < items.len() && operator_equal(#[trigger] items[i], target) == Ok::<bool, StopModel>(true)
}

fn holds_equal(items: &Vec<Value>, target: &Value) -> (r: bool)
    ensures
        r == any_equal(values_list_view(*items), target@),
{
    let ghost model = values_list_view(*items);
    for i in 0..items.len()
        invariant
            model == values_list_view(*items),
            forall|j: int| 0 <= j < i ==> operator_equal(#[trigger] model[j], target@) != Ok::<bool, StopModel>(true),
    {
        assert(model[i as int] == items@[i as int]@);
        if let Ok(b) = values_equal(&items[i], target) {
            if b {
                return true;
            }
        }
    }
    false
}

/// The model of a membership test.
#[verifier::opaque]
pub open spec fn member(t: Answers, l: ValueModel, r: ValueModel) -> Result<bool, StopModel> {
    match r {
        ValueModel::ComptimeList(items) => if items.len() == 0 {
            Ok(false)
        } else {
            match coerced_like(t, l, items[0]) {
                Ok(target) => Ok(any_equal(items, target)),
                Err(s) => Err(s),
            }
        },
        ValueModel::Tuple(items) => Ok(any_equal(items, l)),
        ValueModel::Str(s) => match l {
            ValueModel::Str(part) => Ok(first_occurrence(s, part) is Some),
            _ => Err(
                type_error("left operand of 'in' on a String must be a String, got "@ + value_kind(l)),
            ),
        },
        _ => Err(
            type_error(
                "'in' requires a nominal collection, internal Tuple, or String, got "@ + value_kind(r)
            ),
        ),
    }
}

fn is_member(t: &FloatTable, l: &Value, r: &Value) -> (v: Result<bool, Stop>)
    ensures
        truth_view(v) == member(t@, l@, r@),
{
    proof {
        reveal(member);
    }
    match r {
        Value::ComptimeList(items) => {
            assert(values_list_view(*items).len() == items@.len());
            if items.len() == 0 {
                return Ok(false);
            }
            assert(values_list_view(*items)[0] == items@[0]@);
            match coerce_like(t, l, &items[0]) {
                Ok(target) => Ok(holds_equal(items, &target)),
                Err(s) => Err(s),
            }
        },
        Value::Tuple(items) => Ok(holds_equal(items, l)),
        Value::Str(s) => match l {
            Value::Str(part) => Ok(find_first(s, part).is_some()),
            _ => Err(
                fail_type(cat2("left operand of 'in' on a String must be a String, got ", &kind_name(l))),
            ),
        },
        _ => Err(
            fail_type(
                cat2("'in' requires a nominal collection, internal Tuple, or String, got ", &kind_name(r)),
            ),
        ),
    }
}

/// A membership test, or its negation.
pub open spec fn membership(t: Answers, op: InfixOp, l: ValueModel, r: ValueModel) -> Outcome {
    match member(t, l, r) {
        Ok(found) => Ok(ValueModel::Bool(found != (op is NotIn))),
        Err(s) => Err(s),
    }
}

/// Evaluates `in` and `not in` on internal packs, lists and texts.
pub fn eval_membership(t: &FloatTable, op: InfixOp, l: &Value, r: &Value) -> (v: Result<Value, Stop>)
    ensures
        outcome_view(v) == membership(t@, op, l@, r@),
{
    let negated: bool = match op {
        InfixOp::NotIn => true,
        _ => false,
    };
    match is_member(t, l, r) {
        Ok(found) => Ok(Value::Bool(found != negated)),
        Err(s) => Err(s),
    }
}

/// An operator on packs: equality element by element, and lexicographic order.
pub open spec fn tuple_outcome(t: Answers, op: InfixOp, l: Seq<ValueModel>, r: Seq<ValueModel>) -> Outcome {
    match op {
        InfixOp::Eq => Ok(ValueModel::Bool(all_operator_equal(l, r))),
        InfixOp::Ne => Ok(ValueModel::Bool(!all_operator_equal(l, r))),
        _ => match tuple_order(t, l, r) {
            Ok(o) => Ok(ValueModel::Bool(order_holds(op, o))),
            Err(s) => Err(s),
        },
    }
}

/// The failure of an operator on values that do not have it.
pub open spec fn undefined_operator(op: InfixOp, l: ValueModel, r: ValueModel) -> StopModel {
    type_error(
        "operator "@ + operator_name(op) + " is not defined for "@ + value_kind(l) + " and "@ + value_kind(r),
    )
}

/// A binary operator on evaluated operands. `and` and `or` are not operators here.
#[verifier::opaque]
pub open spec fn infix_outcome(t: Answers, op: InfixOp, l: ValueModel, r: ValueModel) -> Outcome {
    if op is In || op is NotIn {
        membership(t, op, l, r)
    } else if l is Simd || r is Simd {
        vector_outcome(t, op, l, r)
    } else if numeric_pair(l, r) {
        any_numeric_outcome(t, op, l, r)
    } else if op is Add && l is Str && r is Str {
        Ok(ValueModel::Str(l->Str_0 + r->Str_0))
    } else if l is Tuple && r is Tuple && is_comparison(op) {
        tuple_outcome(t, op, l->Tuple_0, r->Tuple_0)
    } else if op is Eq || op is Ne {
        match operator_equal(l, r) {
            Ok(b) => Ok(ValueModel::Bool(b == (op is Eq))),
            Err(s) => Err(s),
        }
    } else {
        Err(undefined_operator(op, l, r))
    }
}

fn tuple_op(
    t: &FloatTable,
    op: InfixOp,
    l: &Value,
    r: &Value,
    x: &Vec<Value>,
    y: &Vec<Value>,
) -> (v: Result<Value, Stop>)
    requires
        l@ == ValueModel::Tuple(values_list_view(*x)),
        r@ == ValueModel::Tuple(values_list_view(*y)),
        is_comparison(op),
    ensures
        outcome_view(v) == tuple_outcome(t@, op, values_list_view(*x), values_list_view(*y)),
{
    let equality: bool = match op {
        InfixOp::Eq => true,
        InfixOp::Ne => true,
        _ => false,
    };
    if equality {
        let wanted: bool = match op {
            InfixOp::Eq => true,
            _ => false,
        };
        return match values_equal(l, r) {
            Ok(b) => Ok(Value::Bool(b == wanted)),
            Err(s) => Err(s),
        };
    }
    match compare_tuples(t, x, y) {
        Ok(o) => Ok(Value::Bool(holds_in_order(op, o))),
        Err(s) => Err(s),
    }
}

/// Applies a binary operator.
pub fn apply_infix(t: &FloatTable, op: InfixOp, l: &Value, r: &Value) -> (v: Result<Value, Stop>)
    ensures
        outcome_view(v) == infix_outcome(t@, op, l@, r@),
{
    proof {
        reveal(infix_outcome);
    }
    let membership: bool = match op {
        InfixOp::In => true,
        InfixOp::NotIn => true,
        _ => false,
    };
    if membership {
        return eval_membership(t, op, l, r);
    }
    if simd_shape(l).is_some() || simd_shape(r).is_some() {
        return simd_binop(t, op, l, r);
    }
    if (holds_exact(l) || holds_num(l)) && (holds_exact(r) || holds_num(r)) {
        return any_numeric_op(t, op, l, r);
    }
    if let (Value::Str(a), Value::Str(b)) = (l, r) {
        if let InfixOp::Add = op {
            return Ok(Value::Str(cat2(a, b)));
        }
    }
    if let (Value::Tuple(x), Value::Tuple(y)) = (l, r) {
        if compares(op) {
            return tuple_op(t, op, l, r, x, y);
        }
    }
    match op {
        InfixOp::Eq => match values_equal(l, r) {
            Ok(b) => Ok(Value::Bool(b)),
            Err(s) => Err(s),
        },
        InfixOp::Ne => match values_equal(l, r) {
            Ok(b) => Ok(Value::Bool(!b)),
            Err(s) => Err(s),
        },
        _ => Err(
            fail_type(
                cat6(
                    "operator ",
                    name_of_operator(op),
                    " is not defined for ",
                    &kind_name(l),
                    " and ",
                    &kind_name(r),
                ),
            ),
        ),
    }
}

} // verus!
