//! What the operators promise on literals, on floating-point numbers, on operands of
//! different kinds, on texts and on packs.

use crate::ast::{InfixOp, PrefixOp, TypeModel};
use crate::literal::{
    BitOp, bitwise, combined_bits, denominator, floor_quotient, floor_remainder, int_pow,
    law_floor_parts, law_literal_of, lemma_pow_positive, literal_value, numerator,
};
use crate::order::Order;
use crate::runtime::{
    FloatOp, FloatTaskModel, Outcome, Rounding, StopModel, ValueModel, float_nan, float_rank,
    float_result,
};
use crate::runtime::laws::{ints, same_low, uints};
use crate::runtime::operators::{
    annotated, any_numeric_outcome, coerced, coerced_like, element_order, exact_fraction, exact_int,
    exact_int_outcome, float_negated, fraction_outcome, fraction_power, infix_outcome,
    materialized_like, member, prefix_outcome, shared_order, tuple_order,
};
use crate::runtime::scalar::{
    Answers, as_float, float_outcome, int_result, numeric_outcome, uint_result, wrap_unsigned,
};
use crate::runtime::values::operator_equal;
use crate::text::{first_occurrence, occurs_at};
use vstd::prelude::*;

verus! {

/// The integer that an outcome gives as a literal.
pub open spec fn whole(o: Outcome) -> Option<int> {
    match o {
        Ok(ValueModel::IntLiteral(l)) => Some(literal_value(l)),
        _ => None,
    }
}

/// The truth value that an outcome gives.
pub open spec fn truth(o: Outcome) -> Option<bool> {
    match o {
        Ok(ValueModel::Bool(b)) => Some(b),
        _ => None,
    }
}

/// An operator on two integer literals.
pub open spec fn literals(t: Answers, op: InfixOp, a: int, b: int) -> Outcome {
    infix_outcome(t, op, exact_int(a), exact_int(b))
}

proof fn lemma_literals(t: Answers, op: InfixOp, a: int, b: int)
    requires
        !(op is In || op is NotIn),
    ensures
        literals(t, op, a, b) == exact_int_outcome(op, a, b),
{
    reveal(infix_outcome);
    reveal(any_numeric_outcome);
    law_literal_of(a);
    law_literal_of(b);
}

/// Literal arithmetic is exact: sums, differences and products are those of the
/// integers, and a difference undoes a sum.
pub proof fn law_literal_sums(t: Answers, a: int, b: int)
    ensures
        whole(literals(t, InfixOp::Add, a, b)) == Some(a + b),
        whole(literals(t, InfixOp::Sub, a, b)) == Some(a - b),
        whole(literals(t, InfixOp::Mul, a, b)) == Some(a * b),
        whole(literals(t, InfixOp::Sub, whole(literals(t, InfixOp::Add, a, b))->Some_0, b)) == Some(a),
        whole(prefix_outcome(PrefixOp::Neg, exact_int(a))) == whole(literals(t, InfixOp::Sub, 0, a)),
{
    reveal(exact_int_outcome);
    reveal(prefix_outcome);
    lemma_literals(t, InfixOp::Add, a, b);
    lemma_literals(t, InfixOp::Sub, a, b);
    lemma_literals(t, InfixOp::Mul, a, b);
    lemma_literals(t, InfixOp::Sub, 0, a);
    law_literal_of(a + b);
    law_literal_of(a - b);
    law_literal_of(a * b);
    law_literal_of(a);
    law_literal_of(-a);
    lemma_literals(t, InfixOp::Sub, a + b, b);
}

/// Quotients of literals round towards negative infinity, what they leave has the sign
/// of the divisor, and true division keeps the exact fraction; only zero divides
/// nothing.
pub proof fn law_literal_division(t: Answers, a: int, b: int)
    ensures
        b == 0 ==> literals(t, InfixOp::FloorDiv, a, b) is Err && literals(t, InfixOp::Mod, a, b) is Err && literals(
            t,
            InfixOp::Div,
            a,
            b,
        ) is Err,
        b != 0 ==> {
            let q = whole(literals(t, InfixOp::FloorDiv, a, b));
            let m = whole(literals(t, InfixOp::Mod, a, b));
            &&& q is Some && m is Some
            &&& a == q->Some_0 * b + m->Some_0
            &&& if b > 0 { 0 <= m->Some_0 < b } else { b < m->Some_0 <= 0 }
        },
        b != 0 ==> {
            let f = literals(t, InfixOp::Div, a, b);
            &&& f is Ok && f->Ok_0 is FloatLiteral
            &&& denominator(f->Ok_0->FloatLiteral_0) > 0
            &&& numerator(f->Ok_0->FloatLiteral_0) * b == a * denominator(f->Ok_0->FloatLiteral_0)
        },
{
    reveal(exact_int_outcome);
    lemma_literals(t, InfixOp::FloorDiv, a, b);
    lemma_literals(t, InfixOp::Mod, a, b);
    lemma_literals(t, InfixOp::Div, a, b);
    if b != 0 {
        let (q, m) = (floor_quotient(a, b), floor_remainder(a, b));
        law_floor_parts(a, b);
        law_literal_of(q);
        law_literal_of(m);
        assert(q * b == b * q) by (nonlinear_arith);
        law_literal_of(a);
        law_literal_of(b);
        law_literal_of(-a);
        law_literal_of(-b);
        assert(a * 1 == a && 1 * b == b);
        assert((-a) * b == a * (-b)) by (nonlinear_arith);
    }
}

/// A power of literals is one factor more than the power before it, and a shift
/// multiplies or divides by a power of two.
pub proof fn law_literal_powers(t: Answers, a: int, n: int)
    requires
        0 <= n < u32::MAX,
    ensures
        whole(literals(t, InfixOp::Pow, a, 0)) == Some(1int),
        whole(literals(t, InfixOp::Pow, a, n)) is Some,
        whole(literals(t, InfixOp::Pow, a, n + 1)) == Some(a * whole(literals(t, InfixOp::Pow, a, n))->Some_0),
        literals(t, InfixOp::Shl, a, n) == literals(
            t,
            InfixOp::Mul,
            a,
            whole(literals(t, InfixOp::Pow, 2, n))->Some_0,
        ),
        literals(t, InfixOp::Shr, a, n) == literals(
            t,
            InfixOp::FloorDiv,
            a,
            whole(literals(t, InfixOp::Pow, 2, n))->Some_0,
        ),
{
    reveal(exact_int_outcome);
    let (p, q) = (int_pow(a, n as nat), int_pow(2, n as nat));
    lemma_literals(t, InfixOp::Pow, a, 0);
    lemma_literals(t, InfixOp::Pow, a, n);
    lemma_literals(t, InfixOp::Pow, a, n + 1);
    lemma_literals(t, InfixOp::Pow, 2, n);
    lemma_literals(t, InfixOp::Shl, a, n);
    lemma_literals(t, InfixOp::Shr, a, n);
    lemma_literals(t, InfixOp::Mul, a, q);
    lemma_literals(t, InfixOp::FloorDiv, a, q);
    lemma_pow_positive(2, n as nat);
    law_literal_of(1);
    law_literal_of(p);
    law_literal_of(q);
    law_literal_of(int_pow(a, (n + 1) as nat));
    assert(int_pow(a, (n + 1) as nat) == a * p);
    assert(int_pow(a, 0) == 1);
}

/// Comparing literals compares the integers, as comparing `Int` values does.
#[verifier::rlimit(40)]
pub proof fn law_literal_comparison(t: Answers, op: InfixOp, a: i64, b: i64)
    requires
        op is Lt || op is Gt || op is Le || op is Ge || op is Eq || op is Ne,
    ensures
        literals(t, op, a as int, b as int) == ints(t, op, a, b),
{
    lemma_literals(t, op, a as int, b as int);
    reveal(exact_int_outcome);
    reveal(infix_outcome);
    reveal(any_numeric_outcome);
    reveal(numeric_outcome);
    reveal(int_result);
}

/// The lowest bits of literals combine on their own, and so do the others.
pub proof fn law_literal_bits(t: Answers, a: int, b: int)
    ensures
        whole(literals(t, InfixOp::BitAnd, a, b)) matches Some(x) && (x % 2 == 1 <==> a % 2 == 1 && b % 2 == 1)
            && whole(literals(t, InfixOp::BitAnd, a / 2, b / 2)) == Some(x / 2),
        whole(literals(t, InfixOp::BitOr, a, b)) matches Some(x) && (x % 2 == 1 <==> a % 2 == 1 || b % 2 == 1)
            && whole(literals(t, InfixOp::BitOr, a / 2, b / 2)) == Some(x / 2),
        whole(literals(t, InfixOp::BitXor, a, b)) matches Some(x) && (x % 2 == 1 <==> (a % 2 == 1) != (b % 2 == 1))
            && whole(literals(t, InfixOp::BitXor, a / 2, b / 2)) == Some(x / 2),
        whole(literals(t, InfixOp::BitAnd, 0, 0)) == Some(0int),
        whole(literals(t, InfixOp::BitOr, 0, 0)) == Some(0int),
        whole(literals(t, InfixOp::BitXor, 0, 0)) == Some(0int),
{
    lemma_bits(t, InfixOp::BitAnd, BitOp::And, a, b);
    lemma_bits(t, InfixOp::BitOr, BitOp::Or, a, b);
    lemma_bits(t, InfixOp::BitXor, BitOp::Xor, a, b);
    lemma_bits(t, InfixOp::BitAnd, BitOp::And, 0, 0);
    lemma_bits(t, InfixOp::BitOr, BitOp::Or, 0, 0);
    lemma_bits(t, InfixOp::BitXor, BitOp::Xor, 0, 0);
}

proof fn lemma_bits(t: Answers, op: InfixOp, how: BitOp, a: int, b: int)
    requires
        op is BitAnd && how is And || op is BitOr && how is Or || op is BitXor && how is Xor,
    ensures
        whole(literals(t, op, a, b)) == Some(bitwise(how, a, b)),
        whole(literals(t, op, a / 2, b / 2)) == Some(bitwise(how, a / 2, b / 2)),
        bitwise(how, a, b) / 2 == bitwise(how, a / 2, b / 2),
        bitwise(how, a, b) % 2 == 1 <==> match how {
            BitOp::And => a % 2 == 1 && b % 2 == 1,
            BitOp::Or => a % 2 == 1 || b % 2 == 1,
            BitOp::Xor => (a % 2 == 1) != (b % 2 == 1),
        },
        bitwise(how, 0, 0) == 0,
{
    reveal(exact_int_outcome);
    lemma_literals(t, op, a, b);
    lemma_literals(t, op, a / 2, b / 2);
    law_literal_of(bitwise(how, a, b));
    law_literal_of(bitwise(how, a / 2, b / 2));
    let f = |x: bool, y: bool| crate::literal::bit_result(how, x, y);
    assert(bitwise(how, a, b) == combined_bits(a, b, f));
    assert(bitwise(how, a / 2, b / 2) == combined_bits(a / 2, b / 2, f));
    assert(combined_bits(0, 0, f) == if f(false, false) { -1int } else { 0int });
}

/// A literal beside an `Int` or a `UInt` that holds it is that number, on either side.
pub proof fn law_literal_beside_number(t: Answers, op: InfixOp, n: int, y: i64, z: u64)
    requires
        !(op is In || op is NotIn),
    ensures
        i64::MIN <= n <= i64::MAX ==> infix_outcome(t, op, exact_int(n), ValueModel::Int(y)) == ints(t, op, n as i64, y)
            && infix_outcome(t, op, ValueModel::Int(y), exact_int(n)) == ints(t, op, y, n as i64),
        0 <= n <= u64::MAX ==> infix_outcome(t, op, exact_int(n), ValueModel::UInt(z)) == uints(t, op, n as u64, z)
            && infix_outcome(t, op, ValueModel::UInt(z), exact_int(n)) == uints(t, op, z, n as u64),
{
    law_literal_of(n);
    reveal(infix_outcome);
    reveal(any_numeric_outcome);
}

/// An `Int` beside a `UInt` counts as the `UInt` with its low 64 bits.
#[verifier::rlimit(40)]
pub proof fn law_int_beside_uint(t: Answers, op: InfixOp, a: i64, low: u64, b: u64)
    requires
        !(op is In || op is NotIn || op is Div),
        same_low(low as int, a as int),
    ensures
        infix_outcome(t, op, ValueModel::Int(a), ValueModel::UInt(b)) == uints(t, op, low, b),
        infix_outcome(t, op, ValueModel::UInt(b), ValueModel::Int(a)) == uints(t, op, b, low),
{
    reveal(infix_outcome);
    reveal(any_numeric_outcome);
    reveal(numeric_outcome);
    assert(wrap_unsigned(a as int) == low);
}

/// Whole numbers beside floating-point ones, and whole numbers in a true division, are
/// converted first; then the operator is the one on floating-point numbers.
#[verifier::rlimit(40)]
pub proof fn law_promotion_to_float(
    t: Answers,
    op: InfixOp,
    a: i64,
    b: i64,
    c: u64,
    x: u64,
    y: u64,
    z: u64,
    w: u64,
)
    requires
        !(op is In || op is NotIn),
        float_result(t, FloatTaskModel::FromInt(a)) == Ok::<u64, StopModel>(x),
        float_result(t, FloatTaskModel::FromInt(b)) == Ok::<u64, StopModel>(y),
        float_result(t, FloatTaskModel::FromUInt(c)) == Ok::<u64, StopModel>(z),
    ensures
        infix_outcome(t, op, ValueModel::Int(a), ValueModel::Float64(w)) == infix_outcome(
            t,
            op,
            ValueModel::Float64(x),
            ValueModel::Float64(w),
        ),
        infix_outcome(t, op, ValueModel::Float64(w), ValueModel::UInt(c)) == infix_outcome(
            t,
            op,
            ValueModel::Float64(w),
            ValueModel::Float64(z),
        ),
        ints(t, InfixOp::Div, a, b) == infix_outcome(
            t,
            InfixOp::Div,
            ValueModel::Float64(x),
            ValueModel::Float64(y),
        ),
        infix_outcome(t, InfixOp::Div, ValueModel::Int(a), ValueModel::UInt(c)) == infix_outcome(
            t,
            InfixOp::Div,
            ValueModel::Float64(x),
            ValueModel::Float64(z),
        ),
        coerced(t, ValueModel::Int(a), false) == Ok::<ValueModel, StopModel>(ValueModel::Float64(x)),
        coerced(t, ValueModel::UInt(c), false) == Ok::<ValueModel, StopModel>(ValueModel::Float64(z)),
{
    reveal(infix_outcome);
    reveal(any_numeric_outcome);
    reveal(numeric_outcome);
    reveal(coerced);
}

/// An operator on two floating-point numbers.
pub open spec fn floats(t: Answers, op: InfixOp, a: u64, b: u64) -> Outcome {
    infix_outcome(t, op, ValueModel::Float64(a), ValueModel::Float64(b))
}

proof fn lemma_floats(t: Answers, op: InfixOp, a: u64, b: u64)
    requires
        !(op is In || op is NotIn || op is Div),
    ensures
        floats(t, op, a, b) == float_outcome(t, op, a, b),
{
    reveal(infix_outcome);
    reveal(any_numeric_outcome);
    reveal(numeric_outcome);
}

/// What is no number is unequal to everything, itself included, and neither less nor
/// greater; of two numbers exactly one comparison holds, and exchanging or negating them
/// mirrors it. Both zeros are equal.
#[verifier::rlimit(40)]
pub proof fn law_float_comparison(t: Answers, a: u64, b: u64)
    ensures
        float_nan(a) || float_nan(b) ==> {
            &&& truth(floats(t, InfixOp::Ne, a, b)) == Some(true)
            &&& truth(floats(t, InfixOp::Eq, a, b)) == Some(false)
            &&& truth(floats(t, InfixOp::Lt, a, b)) == Some(false)
            &&& truth(floats(t, InfixOp::Gt, a, b)) == Some(false)
            &&& truth(floats(t, InfixOp::Le, a, b)) == Some(false)
            &&& truth(floats(t, InfixOp::Ge, a, b)) == Some(false)
        },
        !float_nan(a) && !float_nan(b) ==> {
            &&& truth(floats(t, InfixOp::Lt, a, b)) is Some
            &&& truth(floats(t, InfixOp::Eq, a, b)) is Some
            &&& truth(floats(t, InfixOp::Lt, a, b)) == truth(floats(t, InfixOp::Gt, b, a))
            &&& truth(floats(t, InfixOp::Eq, a, b)) == truth(floats(t, InfixOp::Eq, b, a))
            &&& truth(floats(t, InfixOp::Lt, float_negated(b), float_negated(a))) == truth(floats(t, InfixOp::Lt, a, b))
            &&& !(truth(floats(t, InfixOp::Lt, a, b))->Some_0 && truth(floats(t, InfixOp::Eq, a, b))->Some_0)
            &&& truth(floats(t, InfixOp::Le, a, b)) == Some(!truth(floats(t, InfixOp::Gt, a, b))->Some_0)
            &&& truth(floats(t, InfixOp::Ge, a, b)) == Some(!truth(floats(t, InfixOp::Lt, a, b))->Some_0)
            &&& truth(floats(t, InfixOp::Ne, a, b)) == Some(!truth(floats(t, InfixOp::Eq, a, b))->Some_0)
            &&& truth(floats(t, InfixOp::Le, a, b)) == Some(
                truth(floats(t, InfixOp::Lt, a, b))->Some_0 || truth(floats(t, InfixOp::Eq, a, b))->Some_0,
            )
        },
        !float_nan(a) ==> truth(floats(t, InfixOp::Eq, a, a)) == Some(true),
        !float_nan(b) && a < b < 0x8000_0000_0000_0000 ==> truth(floats(t, InfixOp::Lt, a, b)) == Some(true),
        truth(floats(t, InfixOp::Eq, 0, 0x8000_0000_0000_0000)) == Some(true),
{
    reveal(float_outcome);
    lemma_floats(t, InfixOp::Ne, a, b);
    lemma_floats(t, InfixOp::Eq, a, b);
    lemma_floats(t, InfixOp::Lt, a, b);
    lemma_floats(t, InfixOp::Gt, a, b);
    lemma_floats(t, InfixOp::Le, a, b);
    lemma_floats(t, InfixOp::Ge, a, b);
    lemma_floats(t, InfixOp::Gt, b, a);
    lemma_floats(t, InfixOp::Eq, b, a);
    lemma_floats(t, InfixOp::Eq, a, a);
    lemma_floats(t, InfixOp::Lt, float_negated(b), float_negated(a));
    lemma_floats(t, InfixOp::Eq, 0, 0x8000_0000_0000_0000);
}

/// Floating-point arithmetic is what the hardware answers for the operands in order; a
/// floored quotient is the whole part of the true one, and a remainder what it leaves.
#[verifier::rlimit(40)]
pub proof fn law_float_arithmetic(t: Answers, a: u64, b: u64, r: u64)
    ensures
        float_result(t, FloatTaskModel::Binary { op: FloatOp::Add, a, b }) == Ok::<u64, StopModel>(r) ==> floats(
            t,
            InfixOp::Add,
            a,
            b,
        ) == Ok::<ValueModel, StopModel>(ValueModel::Float64(r)),
        float_result(t, FloatTaskModel::Binary { op: FloatOp::Sub, a, b }) == Ok::<u64, StopModel>(r) ==> floats(
            t,
            InfixOp::Sub,
            a,
            b,
        ) == Ok::<ValueModel, StopModel>(ValueModel::Float64(r)),
        float_result(t, FloatTaskModel::Binary { op: FloatOp::Mul, a, b }) == Ok::<u64, StopModel>(r) ==> floats(
            t,
            InfixOp::Mul,
            a,
            b,
        ) == Ok::<ValueModel, StopModel>(ValueModel::Float64(r)),
        float_result(t, FloatTaskModel::Binary { op: FloatOp::Div, a, b }) == Ok::<u64, StopModel>(r) ==> floats(
            t,
            InfixOp::Div,
            a,
            b,
        ) == Ok::<ValueModel, StopModel>(ValueModel::Float64(r)),
        float_result(t, FloatTaskModel::Binary { op: FloatOp::Pow, a, b }) == Ok::<u64, StopModel>(r) ==> floats(
            t,
            InfixOp::Pow,
            a,
            b,
        ) == Ok::<ValueModel, StopModel>(ValueModel::Float64(r)),
        floats(t, InfixOp::Div, a, b) matches Ok(ValueModel::Float64(q)) ==> floats(t, InfixOp::FloorDiv, a, b)
            == as_float(float_result(t, FloatTaskModel::Whole { rounding: Rounding::Floor, a: q })),
        floats(t, InfixOp::FloorDiv, a, b) matches Ok(ValueModel::Float64(q))
            ==> (floats(t, InfixOp::Mul, b, q) matches Ok(
            ValueModel::Float64(p),
        ) ==> floats(t, InfixOp::Mod, a, b) == floats(t, InfixOp::Sub, a, p)),
{
    reveal(float_outcome);
    reveal(infix_outcome);
    reveal(any_numeric_outcome);
    reveal(numeric_outcome);
}

/// Negating twice changes nothing, a number and its negation cancel, and `not` turns
/// truth round.
#[verifier::rlimit(40)]
pub proof fn law_prefix(t: Answers, n: i64, bits: u64, b: bool, v: int)
    ensures
        prefix_outcome(PrefixOp::Neg, ValueModel::Int(n)) matches Ok(ValueModel::Int(m)) && ints(t, InfixOp::Add, n, m)
            == Ok::<ValueModel, StopModel>(ValueModel::Int(0))
                && prefix_outcome(PrefixOp::Neg, ValueModel::Int(m)) == Ok::<
            ValueModel,
            StopModel,
        >(ValueModel::Int(n)),
        prefix_outcome(PrefixOp::Neg, ValueModel::Float64(bits)) matches Ok(ValueModel::Float64(m)) && float_rank(m)
            == -float_rank(bits) && m != bits && prefix_outcome(PrefixOp::Neg, ValueModel::Float64(m)) == Ok::<
            ValueModel,
            StopModel,
        >(ValueModel::Float64(bits)),
        whole(prefix_outcome(PrefixOp::Neg, exact_int(v))) == Some(-v),
        prefix_outcome(PrefixOp::Not, ValueModel::Bool(b)) == Ok::<ValueModel, StopModel>(ValueModel::Bool(!b)),
        prefix_outcome(PrefixOp::Not, ValueModel::Int(n)) is Err,
        prefix_outcome(PrefixOp::Neg, ValueModel::Bool(b)) is Err,
{
    reveal(prefix_outcome);
    reveal(int_result);
    reveal(infix_outcome);
    reveal(any_numeric_outcome);
    reveal(numeric_outcome);
    law_literal_of(v);
    law_literal_of(-v);
}

/// Texts are joined end to end.
pub proof fn law_texts_join(t: Answers, a: Seq<char>, b: Seq<char>)
    ensures
        infix_outcome(t, InfixOp::Add, ValueModel::Str(a), ValueModel::Str(b)) matches Ok(ValueModel::Str(s)) && s.len()
            == a.len() + b.len() && s.take(a.len() as int) == a && s.skip(a.len() as int) == b,
{
    reveal(infix_outcome);
    assert((a + b).take(a.len() as int) =~= a);
    assert((a + b).skip(a.len() as int) =~= b);
}

/// A text is in another where it stands in it somewhere; a value is in a pack where one
/// of the elements equals it; and `not in` is the negation of `in`, always.
#[verifier::rlimit(40)]
pub proof fn law_membership(t: Answers, l: ValueModel, r: ValueModel)
    ensures
        l is Str && r is Str ==> (truth(infix_outcome(t, InfixOp::In, l, r)) == Some(true) <==> exists|at: int|
            0 <= at <= r->Str_0.len() - l->Str_0.len() && #[trigger] r->Str_0.subrange(at, at + l->Str_0.len())
                == l->Str_0),
        r is Tuple ==> (truth(infix_outcome(t, InfixOp::In, l, r)) == Some(true) <==> exists|i: int|
            0 <= i < r->Tuple_0.len() && operator_equal(#[trigger] r->Tuple_0[i], l) == Ok::<bool, StopModel>(true)),
        truth(infix_outcome(t, InfixOp::In, l, r)) is Some ==> truth(infix_outcome(t, InfixOp::NotIn, l, r)) == Some(
            !truth(infix_outcome(t, InfixOp::In, l, r))->Some_0,
        ),
        infix_outcome(t, InfixOp::In, l, r) is Err ==> infix_outcome(t, InfixOp::NotIn, l, r) == infix_outcome(
            t,
            InfixOp::In,
            l,
            r,
        ),
{
    reveal(infix_outcome);
    reveal(member);
    reveal(first_occurrence);
    if l is Str && r is Str {
        let (s, part) = (r->Str_0, l->Str_0);
        if exists|at: int| occurs_at(s, part, at) {
            let at = choose|at: int| occurs_at(s, part, at);
            assert(s.subrange(at, at + part.len()) == part);
        }
        if exists|at: int| 0 <= at <= s.len() - part.len() && #[trigger] s.subrange(at, at + part.len()) == part {
            let at = choose|at: int|
                0 <= at <= s.len() - part.len() && #[trigger] s.subrange(at, at + part.len()) == part;
            assert(occurs_at(s, part, at));
        }
    }
}

proof fn lemma_shared_tail(t: Answers, l: Seq<ValueModel>, r: Seq<ValueModel>, n: nat)
    requires
        1 <= n <= l.len(),
        n <= r.len(),
    ensures
        shared_order(t, l, r, n) == match element_order(t, l[0], r[0]) {
            Ok(Order::Same) => shared_order(t, l.skip(1), r.skip(1), (n - 1) as nat),
            other => other,
        },
    decreases n,
{
    assert(shared_order(t, l, r, 0) == Ok::<Order, StopModel>(Order::Same));
    if n > 1 {
        lemma_shared_tail(t, l, r, (n - 1) as nat);
        assert(l.skip(1)[n - 2] == l[n - 1]);
        assert(r.skip(1)[n - 2] == r[n - 1]);
    } else {
        assert(shared_order(t, l, r, 1) == element_order(t, l[0], r[0]));
    }
}

/// Packs compare like words in a dictionary: the first elements that differ decide, and
/// where none does the shorter pack comes first.
pub proof fn law_tuple_order(t: Answers, l: Seq<ValueModel>, r: Seq<ValueModel>)
    ensures
        l.len() == 0 && r.len() == 0 ==> tuple_order(t, l, r) == Ok::<Order, StopModel>(Order::Same),
        l.len() == 0 && r.len() > 0 ==> tuple_order(t, l, r) == Ok::<Order, StopModel>(Order::Less),
        l.len() > 0 && r.len() == 0 ==> tuple_order(t, l, r) == Ok::<Order, StopModel>(Order::Greater),
        l.len() > 0 && r.len() > 0 ==> tuple_order(t, l, r) == match element_order(t, l[0], r[0]) {
            Ok(Order::Same) => tuple_order(t, l.skip(1), r.skip(1)),
            other => other,
        },
{
    if l.len() > 0 && r.len() > 0 {
        let n = if l.len() < r.len() { l.len() } else { r.len() };
        lemma_shared_tail(t, l, r, n);
    }
}

/// The comparisons of packs follow their order, and equality of packs that of their
/// elements.
pub proof fn law_tuple_comparison(t: Answers, l: Seq<ValueModel>, r: Seq<ValueModel>)
    ensures
        tuple_order(t, l, r) is Ok ==> {
            let o = tuple_order(t, l, r)->Ok_0;
            let (x, y) = (ValueModel::Tuple(l), ValueModel::Tuple(r));
            &&& truth(infix_outcome(t, InfixOp::Lt, x, y)) == Some(o is Less)
            &&& truth(infix_outcome(t, InfixOp::Gt, x, y)) == Some(o is Greater)
            &&& truth(infix_outcome(t, InfixOp::Le, x, y)) == Some(o is Less || o is Same)
            &&& truth(infix_outcome(t, InfixOp::Ge, x, y)) == Some(o is Greater || o is Same)
        },
        ({
            let (x, y) = (ValueModel::Tuple(l), ValueModel::Tuple(r));
            &&& (truth(infix_outcome(t, InfixOp::Eq, x, y)) == Some(true) <==> l.len() == r.len() && forall|i: int|
                0 <= i < l.len() ==> operator_equal(#[trigger] l[i], r[i]) == Ok::<bool, StopModel>(true))
            &&& truth(infix_outcome(t, InfixOp::Eq, x, y)) is Some
            &&& truth(infix_outcome(t, InfixOp::Ne, x, y)) == Some(!truth(infix_outcome(t, InfixOp::Eq, x, y))->Some_0)
        }),
{
    reveal(infix_outcome);
}

/// Numbers in packs are ordered as their comparisons order them.
#[verifier::rlimit(40)]
pub proof fn law_element_order(t: Answers, a: i64, b: i64, x: u64, y: u64)
    ensures
        element_order(t, ValueModel::Int(a), ValueModel::Int(b)) matches Ok(o) && (o is Less <==> truth(
            ints(t, InfixOp::Lt, a, b),
        ) == Some(true)) && (o is Same <==> truth(ints(t, InfixOp::Eq, a, b)) == Some(true)),
        element_order(t, ValueModel::UInt(x), ValueModel::UInt(y)) matches Ok(o) && (o is Less <==> truth(
            uints(t, InfixOp::Lt, x, y),
        ) == Some(true)) && (o is Same <==> truth(uints(t, InfixOp::Eq, x, y)) == Some(true)),
        float_nan(x) || float_nan(y) ==> element_order(t, ValueModel::Float64(x), ValueModel::Float64(y)) is Err,
        !float_nan(x) && !float_nan(y) ==> {
            let o = element_order(t, ValueModel::Float64(x), ValueModel::Float64(y));
            &&& o is Ok
            &&& (o->Ok_0 is Less <==> truth(floats(t, InfixOp::Lt, x, y)) == Some(true))
            &&& (o->Ok_0 is Same <==> truth(floats(t, InfixOp::Eq, x, y)) == Some(true))
        },
{
    reveal(infix_outcome);
    reveal(any_numeric_outcome);
    reveal(numeric_outcome);
    reveal(int_result);
    reveal(uint_result);
    reveal(float_outcome);
}

/// Exact fractions: a difference undoes a sum and a quotient undoes a product, as
/// numbers, and a fraction with whole operands is what the literals give.
#[verifier::rlimit(40)]
pub proof fn law_fraction_arithmetic(
    t: Answers,
    an: int,
    ad: int,
    bn: int,
    bd: int,
)
    requires
        ad > 0,
        bd > 0,
    ensures
        ({
            let (x, y) = (exact_fraction(an, ad), exact_fraction(bn, bd));
            let s = infix_outcome(t, InfixOp::Add, x, y);
            let d = infix_outcome(t, InfixOp::Sub, x, y);
            let p = infix_outcome(t, InfixOp::Mul, x, y);
            let q = infix_outcome(t, InfixOp::Div, x, y);
            &&& s is Ok && s->Ok_0 is FloatLiteral && d is Ok && d->Ok_0 is FloatLiteral && p is Ok
                && p->Ok_0 is FloatLiteral
            &&& numerator(s->Ok_0->FloatLiteral_0) * (ad * bd) == (an * bd + bn * ad) * denominator(
                s->Ok_0->FloatLiteral_0,
            )
            &&& numerator(d->Ok_0->FloatLiteral_0) * (ad * bd) == (an * bd - bn * ad) * denominator(
                d->Ok_0->FloatLiteral_0,
            )
            &&& numerator(p->Ok_0->FloatLiteral_0) * (ad * bd) == (an * bn) * denominator(p->Ok_0->FloatLiteral_0)
            &&& q is Err <==> bn == 0
            &&& bn != 0 ==> q->Ok_0 is FloatLiteral && numerator(q->Ok_0->FloatLiteral_0) * (ad * bn) == (an * bd)
                * denominator(q->Ok_0->FloatLiteral_0)
        }),
{
    reveal(infix_outcome);
    reveal(any_numeric_outcome);
    reveal(fraction_outcome);
    law_literal_of(an);
    law_literal_of(ad);
    law_literal_of(bn);
    law_literal_of(bd);
    let d = ad * bd;
    assert(d > 0) by (nonlinear_arith)
        requires
            d == ad * bd,
            ad > 0,
            bd > 0,
    ;
    law_literal_of(d);
    law_literal_of(an * bd + bn * ad);
    law_literal_of(an * bd - bn * ad);
    law_literal_of(an * bn);
    let (qn, qd) = (an * bd, ad * bn);
    law_literal_of(qn);
    law_literal_of(qd);
    law_literal_of(-qn);
    law_literal_of(-qd);
    assert(bn != 0 ==> qd != 0) by (nonlinear_arith)
        requires
            qd == ad * bn,
            ad > 0,
    ;
    assert((-qn) * qd == qn * (-qd)) by (nonlinear_arith);
}

/// Fractions compare as numbers do.
#[verifier::rlimit(40)]
pub proof fn law_fraction_comparison(t: Answers, an: int, ad: int, bn: int, bd: int)
    requires
        ad > 0,
        bd > 0,
    ensures
        ({
            let (x, y) = (exact_fraction(an, ad), exact_fraction(bn, bd));
            &&& truth(infix_outcome(t, InfixOp::Lt, x, y)) == Some(an * bd < bn * ad)
            &&& truth(infix_outcome(t, InfixOp::Gt, x, y)) == Some(bn * ad < an * bd)
            &&& truth(infix_outcome(t, InfixOp::Eq, x, y)) == Some(an * bd == bn * ad)
            &&& truth(infix_outcome(t, InfixOp::Ne, x, y)) == Some(an * bd != bn * ad)
            &&& truth(infix_outcome(t, InfixOp::Le, x, y)) == Some(an * bd <= bn * ad)
            &&& truth(infix_outcome(t, InfixOp::Ge, x, y)) == Some(bn * ad <= an * bd)
        }),
{
    reveal(infix_outcome);
    reveal(any_numeric_outcome);
    reveal(fraction_outcome);
    law_literal_of(an);
    law_literal_of(ad);
    law_literal_of(bn);
    law_literal_of(bd);
}

/// Coercing to `UInt` keeps the low 64 bits of an `Int` and a literal that fits; no
/// annotation but `UInt` and `Float64` changes a value.
pub proof fn law_coercion(t: Answers, n: i64, v: int, x: ValueModel, ty: TypeModel)
    ensures
        coerced(t, ValueModel::Int(n), true) matches Ok(ValueModel::UInt(u)) && same_low(u as int, n as int),
        0 <= v <= u64::MAX ==> coerced(t, exact_int(v), true) == Ok::<ValueModel, StopModel>(ValueModel::UInt(v as u64)),
        !(0 <= v <= u64::MAX) ==> coerced(t, exact_int(v), true) == Ok::<ValueModel, StopModel>(exact_int(v)),
        !(ty is UInt || ty is Float64) ==> annotated(t, x, ty) == Ok::<ValueModel, StopModel>(x),
        annotated(t, x, TypeModel::UInt) == coerced(t, x, true),
        annotated(t, x, TypeModel::Float64) == coerced(t, x, false),
        x is Float64 || x is Str || x is Bool ==> coerced(t, x, false) == Ok::<ValueModel, StopModel>(x),
        x is UInt ==> coerced(t, x, true) == Ok::<ValueModel, StopModel>(x),
{
    reveal(coerced);
    law_literal_of(v);
}

/// A literal takes the kind of the number beside it, with its low bits.
pub proof fn law_materialized_like(t: Answers, v: int, n: i64, u: u64)
    ensures
        materialized_like(t, exact_int(v), ValueModel::Int(n)) matches Ok(ValueModel::Int(m)) && same_low(m as int, v),
        materialized_like(t, exact_int(v), ValueModel::UInt(u)) matches Ok(ValueModel::UInt(m))
            && same_low(m as int, v),
{
    law_literal_of(v);
}

/// The whole quotient of exact fractions is the greatest whole number that is not above
/// the quotient, and the remainder is what the divisor times it leaves.
#[verifier::rlimit(40)]
pub proof fn law_fraction_division(t: Answers, an: int, ad: int, bn: int, bd: int)
    requires
        ad > 0,
        bd > 0,
        bn > 0,
    ensures
        ({
            let (x, y) = (exact_fraction(an, ad), exact_fraction(bn, bd));
            let q = infix_outcome(t, InfixOp::FloorDiv, x, y);
            let m = infix_outcome(t, InfixOp::Mod, x, y);
            &&& q is Ok && q->Ok_0 is FloatLiteral && m is Ok && m->Ok_0 is FloatLiteral
            &&& denominator(q->Ok_0->FloatLiteral_0) == 1
            &&& ({
                let w = numerator(q->Ok_0->FloatLiteral_0);
                &&& w * (ad * bn) <= an * bd < (w + 1) * (ad * bn)
                &&& numerator(m->Ok_0->FloatLiteral_0) * (ad * bd) == (an * bd - (bn * w) * ad) * denominator(
                    m->Ok_0->FloatLiteral_0,
                )
            })
        }),
        infix_outcome(t, InfixOp::FloorDiv, exact_fraction(an, ad), exact_fraction(0, bd)) is Err,
        infix_outcome(t, InfixOp::Mod, exact_fraction(an, ad), exact_fraction(0, bd)) is Err,
{
    reveal(infix_outcome);
    reveal(any_numeric_outcome);
    reveal(fraction_outcome);
    law_literal_of(0);
    law_literal_of(1);
    law_literal_of(an);
    law_literal_of(ad);
    law_literal_of(bn);
    law_literal_of(bd);
    let (qn, qd) = (an * bd, ad * bn);
    assert(qd > 0) by (nonlinear_arith)
        requires
            qd == ad * bn,
            ad > 0,
            bn > 0,
    ;
    let w = floor_quotient(qn, qd);
    let r = floor_remainder(qn, qd);
    law_floor_parts(qn, qd);
    law_literal_of(w);
    assert(w * qd <= qn < (w + 1) * qd) by (nonlinear_arith)
        requires
            qn == qd * w + r,
            0 <= r < qd,
    ;
    let d = ad * bd;
    assert(bd * 1 == bd);
    assert(d > 0) by (nonlinear_arith)
        requires
            d == ad * bd,
            ad > 0,
            bd > 0,
    ;
    let n = an * bd - (bn * w) * ad;
    law_literal_of(n);
    law_literal_of(d);
}

/// A power of a fraction by a whole exponent multiplies numerators and denominators, and
/// below zero it is the power of the reciprocal.
#[verifier::rlimit(40)]
pub proof fn law_fraction_power(t: Answers, n: int, d: int, e: int)
    requires
        n > 0,
        d > 0,
        0 <= e <= u32::MAX,
    ensures
        fraction_power(n, d, e) == Ok::<ValueModel, StopModel>(
            exact_fraction(int_pow(n, e as nat), int_pow(d, e as nat)),
        ),
        fraction_power(n, d, -e) == fraction_power(d, n, e),
        e > 0 ==> fraction_power(0, d, -e) is Err,
        infix_outcome(t, InfixOp::Pow, exact_fraction(n, d), exact_fraction(e, 1)) == fraction_power(n, d, e),
{
    reveal(infix_outcome);
    reveal(any_numeric_outcome);
    reveal(fraction_outcome);
    law_literal_of(n);
    law_literal_of(d);
    law_literal_of(e);
    law_literal_of(1);
    assert(e % 1 == 0 && e / 1 == e);
}

/// A value beside another of a list takes its kind before it is looked for.
#[verifier::rlimit(40)]
pub proof fn law_list_membership(t: Answers, v: int, items: Seq<ValueModel>)
    requires
        items.len() > 0,
        items[0] is Int,
        i64::MIN <= v <= i64::MAX,
    ensures
        truth(infix_outcome(t, InfixOp::In, exact_int(v), ValueModel::ComptimeList(items))) == Some(true)
            <==> exists|i: int|
            0 <= i < items.len() && operator_equal(#[trigger] items[i], ValueModel::Int(v as i64)) == Ok::<
                bool,
                StopModel,
            >(true),
        truth(infix_outcome(t, InfixOp::In, exact_int(v), ValueModel::ComptimeList(Seq::empty()))) == Some(false),
{
    reveal(infix_outcome);
    reveal(member);
    reveal(coerced_like);
    law_literal_of(v);
}

} // verus!
