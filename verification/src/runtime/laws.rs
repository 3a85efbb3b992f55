//! What the operators promise as a whole: how their results hang together.

use crate::ast::InfixOp;
use crate::ct::wrap64;
use crate::literal::{floor_quotient, floor_remainder, int_pow, law_floor_parts, lemma_pow_positive};
use crate::runtime::{Outcome, StopModel, ValueModel};
use crate::runtime::operators::{any_numeric_outcome, infix_outcome};
use crate::runtime::scalar::{
    Answers, int_result, numeric_outcome, shift_of, uint_result, wrap_unsigned,
};
use vstd::arithmetic::div_mod::{
    lemma_fundamental_div_mod, lemma_fundamental_div_mod_converse, lemma_mod_bound,
};
use vstd::arithmetic::power::{lemma_pow0, pow};
use vstd::prelude::*;

verus! {

/// Whether two integers agree in their low 64 bits.
pub open spec fn same_low(a: int, b: int) -> bool {
    (a - b) % 0x1_0000_0000_0000_0000 == 0
}

proof fn lemma_low_product(a: int, b: int, x: int)
    requires
        same_low(a, b),
    ensures
        same_low(a * x, b * x),
{
    lemma_fundamental_div_mod(a - b, 0x1_0000_0000_0000_0000);
    let k = (a - b) / 0x1_0000_0000_0000_0000;
    assert(a * x - b * x == (k * x) * 0x1_0000_0000_0000_0000 + 0) by (nonlinear_arith)
        requires
            a - b == 0x1_0000_0000_0000_0000 * k,
    ;
    lemma_fundamental_div_mod_converse(a * x - b * x, 0x1_0000_0000_0000_0000, k * x, 0);
}

/// A power by squaring out one factor, in either notation.
proof fn lemma_one_more(x: int, n: nat)
    ensures
        pow(x, n) == int_pow(x, n),
        pow(x, n + 1) == x * pow(x, n),
    decreases n,
{
    reveal(pow);
    if n > 0 {
        lemma_one_more(x, (n - 1) as nat);
    }
}

proof fn lemma_halved(x: int, p: int)
    requires
        p > 0,
    ensures
        2 * (x / (p * 2)) <= x / p < 2 * (x / (p * 2)) + 2,
        x >= 0 ==> 0 <= x / p <= x,
        x < 0 ==> x <= x / p < 0,
{
    let (q, r) = (x / p, x % p);
    lemma_fundamental_div_mod(x, p);
    lemma_mod_bound(x, p);
    let (h, b) = (q / 2, q % 2);
    assert(x == h * (p * 2) + (p * b + r)) by (nonlinear_arith)
        requires
            x == p * q + r,
            q == 2 * h + b,
    ;
    assert(0 <= p * b + r < p * 2) by (nonlinear_arith)
        requires
            0 <= r < p,
            b == 0 || b == 1,
    ;
    lemma_fundamental_div_mod_converse(x, p * 2, h, p * b + r);
    assert(x >= 0 ==> 0 <= q <= x) by (nonlinear_arith)
        requires
            x == p * q + r,
            0 <= r < p,
            p >= 1,
    ;
    assert(x < 0 ==> x <= q < 0) by (nonlinear_arith)
        requires
            x == p * q + r,
            0 <= r < p,
            p >= 1,
    ;
}

/// An operator on two Int values.
pub open spec fn ints(t: Answers, op: InfixOp, a: i64, b: i64) -> Outcome {
    infix_outcome(t, op, ValueModel::Int(a), ValueModel::Int(b))
}

proof fn lemma_ints(t: Answers, op: InfixOp, a: i64, b: i64)
    requires
        !(op is In || op is NotIn || op is Div),
    ensures
        ints(t, op, a, b) == int_result(op, a, b),
{
    reveal(infix_outcome);
    reveal(any_numeric_outcome);
    reveal(numeric_outcome);
}

/// The value of `a + b` agrees with the sum, subtracting either addend from it gives
/// the other one, and zero changes nothing.
#[verifier::rlimit(40)]
pub proof fn law_int_sum(t: Answers, a: i64, b: i64)
    ensures
        ints(t, InfixOp::Add, a, b) matches Ok(ValueModel::Int(s)) && same_low(s as int, a + b) && ints(
            t,
            InfixOp::Sub,
            s,
            b,
        ) == Ok::<ValueModel, StopModel>(ValueModel::Int(a))
            && ints(t, InfixOp::Sub, s, a) == Ok::<ValueModel, StopModel>(ValueModel::Int(b)),
        ints(t, InfixOp::Add, a, b) == ints(t, InfixOp::Add, b, a),
        ints(t, InfixOp::Sub, a, 0) == Ok::<ValueModel, StopModel>(ValueModel::Int(a)),
        ints(t, InfixOp::Add, a, 0) == Ok::<ValueModel, StopModel>(ValueModel::Int(a)),
        ints(t, InfixOp::Sub, a, b) matches Ok(ValueModel::Int(d)) && same_low(d as int, a - b) && ints(
            t,
            InfixOp::Add,
            d,
            b,
        ) == Ok::<ValueModel, StopModel>(ValueModel::Int(a)),
{
    reveal(int_result);
    lemma_ints(t, InfixOp::Add, a, b);
    lemma_ints(t, InfixOp::Add, b, a);
    lemma_ints(t, InfixOp::Add, a, 0);
    lemma_ints(t, InfixOp::Sub, a, 0);
    lemma_ints(t, InfixOp::Sub, a, b);
    let s = wrap64(a + b);
    let d = wrap64(a - b);
    lemma_ints(t, InfixOp::Sub, s, b);
    lemma_ints(t, InfixOp::Sub, s, a);
    lemma_ints(t, InfixOp::Add, d, b);
    lemma_low_int(a + b, a as int);
    lemma_low_int(a - b, a as int);
    lemma_low_int(s - b, a as int);
    lemma_low_int(s - a, b as int);
    lemma_low_int(d + b, a as int);
    lemma_low_int(a - 0, a as int);
    lemma_low_int(a + 0, a as int);
}

proof fn lemma_low_int(x: int, v: int)
    ensures
        same_low(wrap64(x) as int, x),
        same_low(x, v) && i64::MIN <= v <= i64::MAX ==> wrap64(x) == v,
{
}

/// The value of `a * b` agrees with the product, in either order; one changes nothing,
/// and products distribute over sums.
pub proof fn law_int_product(t: Answers, a: i64, b: i64, c: i64)
    ensures
        ints(t, InfixOp::Mul, a, b) matches Ok(ValueModel::Int(p)) && same_low(p as int, a * b),
        ints(t, InfixOp::Mul, a, b) == ints(t, InfixOp::Mul, b, a),
        ints(t, InfixOp::Mul, a, 1) == Ok::<ValueModel, StopModel>(ValueModel::Int(a)),
        ints(t, InfixOp::Mul, a, 0) == Ok::<ValueModel, StopModel>(ValueModel::Int(0)),
        ints(t, InfixOp::Mul, a, c) matches Ok(ValueModel::Int(ac))
            && ints(t, InfixOp::Mul, b, c) matches Ok(ValueModel::Int(bc))
            && ints(t, InfixOp::Add, a, b) matches Ok(ValueModel::Int(s)) && ints(t, InfixOp::Mul, s, c) == ints(
            t,
            InfixOp::Add,
            ac,
            bc,
        ),
{
    reveal(int_result);
    lemma_ints(t, InfixOp::Mul, a, b);
    lemma_ints(t, InfixOp::Mul, b, a);
    lemma_ints(t, InfixOp::Mul, a, 1);
    lemma_ints(t, InfixOp::Mul, a, 0);
    lemma_ints(t, InfixOp::Mul, a, c);
    lemma_ints(t, InfixOp::Mul, b, c);
    lemma_ints(t, InfixOp::Add, a, b);
    assert(a * b == b * a) by (nonlinear_arith);
    assert(a * 1 == a && a * 0 == 0);
    let (ac, bc, s) = (wrap64(a * c), wrap64(b * c), wrap64(a + b));
    lemma_ints(t, InfixOp::Mul, s, c);
    lemma_ints(t, InfixOp::Add, ac, bc);
    assert(same_low(s as int, a + b));
    lemma_low_product(s as int, a + b, c as int);
    assert((a + b) * c == a * c + b * c) by (nonlinear_arith);
    assert(same_low(s * c, a * c + b * c));
    assert(same_low(ac + bc, a * c + b * c));
    lemma_low_unique_int(s * c, ac + bc, a * c + b * c);
}

proof fn lemma_low_unique_int(x: int, y: int, z: int)
    requires
        same_low(x, z),
        same_low(y, z),
    ensures
        wrap64(x) == wrap64(y),
{
}

/// A power is one factor more than the power before it; negative exponents and those
/// beyond 32 bits have none.
pub proof fn law_int_power(t: Answers, a: i64, n: i64)
    ensures
        ints(t, InfixOp::Pow, a, 0) == Ok::<ValueModel, StopModel>(ValueModel::Int(1)),
        0 <= n < u32::MAX ==> {
            &&& ints(t, InfixOp::Pow, a, n) is Ok
            &&& ints(t, InfixOp::Pow, a, n)->Ok_0 is Int
            &&& ints(t, InfixOp::Pow, a, (n + 1) as i64) == ints(
                t,
                InfixOp::Mul,
                ints(t, InfixOp::Pow, a, n)->Ok_0->Int_0,
                a,
            )
        },
        ints(t, InfixOp::Pow, a, n) is Ok == (0 <= n <= u32::MAX),
{
    reveal(int_result);
    lemma_ints(t, InfixOp::Pow, a, 0);
    lemma_ints(t, InfixOp::Pow, a, n);
    lemma_pow0(a as int);
    if 0 <= n < u32::MAX {
        lemma_ints(t, InfixOp::Pow, a, (n + 1) as i64);
        let (p, q) = (pow(a as int, n as nat), pow(a as int, (n + 1) as nat));
        lemma_one_more(a as int, n as nat);
        lemma_ints(t, InfixOp::Mul, wrap64(p), a);
        assert(same_low(wrap64(p) as int, p));
        lemma_low_product(wrap64(p) as int, p, a as int);
        assert(q == p * a) by (nonlinear_arith)
            requires
                q == a * p,
        ;
        lemma_low_unique_int(wrap64(p) * a, q, q);
    }
}

/// Shifting by one more doubles to the left and halves to the right; shifting by none
/// changes nothing, and only the low six bits of the distance count.
#[verifier::rlimit(40)]
pub proof fn law_int_shift(t: Answers, a: i64, n: i64)
    requires
        0 <= n < 63,
    ensures
        ints(t, InfixOp::Shl, a, 0) == Ok::<ValueModel, StopModel>(ValueModel::Int(a)),
        ints(t, InfixOp::Shr, a, 0) == Ok::<ValueModel, StopModel>(ValueModel::Int(a)),
        ints(t, InfixOp::Shl, a, n) matches Ok(ValueModel::Int(l)) && ints(t, InfixOp::Shl, a, (n + 1) as i64) == ints(
            t,
            InfixOp::Add,
            l,
            l,
        ),
        ints(t, InfixOp::Shr, a, n) matches Ok(ValueModel::Int(r))
            && ints(t, InfixOp::Shr, a, (n + 1) as i64) matches Ok(
            ValueModel::Int(h),
        ) && 2 * h <= r < 2 * h + 2,
        ints(t, InfixOp::Shl, a, (n + 64) as i64) == ints(t, InfixOp::Shl, a, n),
        ints(t, InfixOp::Shr, a, (n + 64) as i64) == ints(t, InfixOp::Shr, a, n),
{
    reveal(int_result);
    lemma_ints(t, InfixOp::Shl, a, 0);
    lemma_ints(t, InfixOp::Shr, a, 0);
    lemma_ints(t, InfixOp::Shl, a, n);
    lemma_ints(t, InfixOp::Shr, a, n);
    lemma_ints(t, InfixOp::Shl, a, (n + 1) as i64);
    lemma_ints(t, InfixOp::Shr, a, (n + 1) as i64);
    lemma_ints(t, InfixOp::Shl, a, (n + 64) as i64);
    lemma_ints(t, InfixOp::Shr, a, (n + 64) as i64);
    let (p, q) = (int_pow(2, n as nat), int_pow(2, (n + 1) as nat));
    lemma_pow_positive(2, n as nat);
    assert(int_pow(2, 0) == 1 && q == 2 * p);
    assert(shift_of(0) == 0 && shift_of(n as int) == n && shift_of(n + 1) == n + 1 && shift_of(n + 64) == n);
    assert(a * 1 == a && a as int / 1 == a);
    let l = wrap64(a * p);
    lemma_ints(t, InfixOp::Add, l, l);
    assert(a * q == a * p + a * p) by (nonlinear_arith)
        requires
            q == 2 * p,
    ;
    lemma_low_unique_int(a * q, l + l, a * q);
    lemma_halved(a as int, p);
    lemma_pow_positive(2, (n + 1) as nat);
    lemma_halved(a as int, q);
    assert(p * 2 == q);
}

/// Dividing gives the quotient rounded towards negative infinity, and what it leaves
/// has the sign of the divisor; only a zero divisor fails.
pub proof fn law_int_division(t: Answers, a: i64, b: i64)
    ensures
        b == 0 ==> ints(t, InfixOp::FloorDiv, a, b) is Err && ints(t, InfixOp::Mod, a, b) is Err,
        b != 0 ==> {
            &&& ints(t, InfixOp::FloorDiv, a, b) is Ok && ints(t, InfixOp::FloorDiv, a, b)->Ok_0 is Int
            &&& ints(t, InfixOp::Mod, a, b) is Ok && ints(t, InfixOp::Mod, a, b)->Ok_0 is Int
            &&& ({
                let q = ints(t, InfixOp::FloorDiv, a, b)->Ok_0->Int_0;
                let m = ints(t, InfixOp::Mod, a, b)->Ok_0->Int_0;
                &&& if b > 0 { 0 <= m < b } else { b < m <= 0 }
                &&& if a == i64::MIN && b == -1 { q == a && m == 0 } else { a == q * b + m }
            })
        },
{
    reveal(int_result);
    lemma_ints(t, InfixOp::FloorDiv, a, b);
    lemma_ints(t, InfixOp::Mod, a, b);
    if b != 0 {
        law_floor_parts(a as int, b as int);
        let (q, m) = (floor_quotient(a as int, b as int), floor_remainder(a as int, b as int));
        assert(q * b == b * q) by (nonlinear_arith);
        if a == i64::MIN && b == -1 {
            assert(q == (-a) / 1);
            assert(m == 0) by (nonlinear_arith) requires a == b * q + m, b == -1, q == -a;
        } else {
            assert(i64::MIN <= q <= i64::MAX) by (nonlinear_arith)
                requires
                    a == b * q + m,
                    b > 0 ==> 0 <= m < b,
                    b < 0 ==> b < m <= 0,
                    b != 0,
                    i64::MIN <= a <= i64::MAX,
                    !(a == i64::MIN && b == -1),
            ;
        }
    }
}

/// Exactly one of less, equal and greater holds; the other comparisons are their
/// negations, exchanging the operands mirrors them, and a number is less than the next.
pub proof fn law_int_comparison(t: Answers, a: i64, b: i64, c: i64)
    ensures
        forall|op: InfixOp|
            #![trigger ints(t, op, a, b)]
            op is Lt || op is Gt || op is Le || op is Ge || op is Eq || op is Ne ==> ints(t, op, a, b) is Ok
                && ints(t, op, a, b)->Ok_0 is Bool,
        ints(t, InfixOp::Eq, a, b)->Ok_0->Bool_0 == (a == b),
        ints(t, InfixOp::Lt, a, b)->Ok_0->Bool_0 == (b - a > 0),
        ints(t, InfixOp::Lt, a, b) == ints(t, InfixOp::Gt, b, a),
        ints(t, InfixOp::Le, a, b) == ints(t, InfixOp::Ge, b, a),
        ints(t, InfixOp::Le, a, b)->Ok_0->Bool_0 == !ints(t, InfixOp::Gt, a, b)->Ok_0->Bool_0,
        ints(t, InfixOp::Ge, a, b)->Ok_0->Bool_0 == !ints(t, InfixOp::Lt, a, b)->Ok_0->Bool_0,
        ints(t, InfixOp::Ne, a, b)->Ok_0->Bool_0 == !ints(t, InfixOp::Eq, a, b)->Ok_0->Bool_0,
        ints(t, InfixOp::Lt, a, b)->Ok_0->Bool_0 && ints(t, InfixOp::Lt, b, c)->Ok_0->Bool_0 ==> ints(
            t,
            InfixOp::Lt,
            a,
            c,
        )->Ok_0->Bool_0,
{
    reveal(int_result);
    assert forall|op: InfixOp| op is Lt || op is Gt || op is Le || op is Ge || op is Eq || op is Ne implies (
        #[trigger] ints(t, op, a, b)) == int_result(op, a, b) by {
        lemma_ints(t, op, a, b);
    }
    lemma_ints(t, InfixOp::Gt, b, a);
    lemma_ints(t, InfixOp::Ge, b, a);
    lemma_ints(t, InfixOp::Lt, b, c);
    lemma_ints(t, InfixOp::Lt, a, c);
    lemma_ints(t, InfixOp::Lt, a, b);
    lemma_ints(t, InfixOp::Le, a, b);
    lemma_ints(t, InfixOp::Gt, a, b);
    lemma_ints(t, InfixOp::Ge, a, b);
    lemma_ints(t, InfixOp::Eq, a, b);
    lemma_ints(t, InfixOp::Ne, a, b);
}

/// The bits of `a & b` are those that both have, of `a | b` those that either has, of
/// `a ^ b` those that one of them has: the first two add up to the sum of the operands,
/// and the third is what the second has beyond the first.
#[verifier::rlimit(40)]
pub proof fn law_int_bits(t: Answers, a: i64, b: i64)
    ensures
        ints(t, InfixOp::BitAnd, a, b) matches Ok(ValueModel::Int(x))
            && ints(t, InfixOp::BitOr, a, b) matches Ok(ValueModel::Int(o))
            && ints(t, InfixOp::BitXor, a, b) matches Ok(ValueModel::Int(e)) && {
            &&& ints(t, InfixOp::Add, x, o) == ints(t, InfixOp::Add, a, b)
            &&& ints(t, InfixOp::Sub, o, x) == Ok::<ValueModel, StopModel>(ValueModel::Int(e))
            &&& ints(t, InfixOp::BitAnd, x, a) == Ok::<ValueModel, StopModel>(ValueModel::Int(x))
            &&& ints(t, InfixOp::BitAnd, o, a) == Ok::<ValueModel, StopModel>(ValueModel::Int(a))
            &&& ints(t, InfixOp::BitXor, e, b) == Ok::<ValueModel, StopModel>(ValueModel::Int(a))
        },
        ints(t, InfixOp::BitAnd, a, 0) == Ok::<ValueModel, StopModel>(ValueModel::Int(0)),
        ints(t, InfixOp::BitOr, a, 0) == Ok::<ValueModel, StopModel>(ValueModel::Int(a)),
        ints(t, InfixOp::BitXor, a, a) == Ok::<ValueModel, StopModel>(ValueModel::Int(0)),
{
    reveal(int_result);
    lemma_ints(t, InfixOp::BitAnd, a, b);
    lemma_ints(t, InfixOp::BitOr, a, b);
    lemma_ints(t, InfixOp::BitXor, a, b);
    let (x, o, e) = (a & b, a | b, a ^ b);
    lemma_ints(t, InfixOp::Add, x, o);
    lemma_ints(t, InfixOp::Add, a, b);
    lemma_ints(t, InfixOp::Sub, o, x);
    lemma_ints(t, InfixOp::BitAnd, x, a);
    lemma_ints(t, InfixOp::BitAnd, o, a);
    lemma_ints(t, InfixOp::BitXor, e, b);
    lemma_ints(t, InfixOp::BitAnd, a, 0);
    lemma_ints(t, InfixOp::BitOr, a, 0);
    lemma_ints(t, InfixOp::BitXor, a, a);
    assert((a & b) + (a | b) == a + b) by (bit_vector);
    assert((a | b) - (a & b) == a ^ b) by (bit_vector);
    assert((a & b) & a == a & b && (a | b) & a == a && (a ^ b) ^ b == a && a & 0 == 0 && a | 0 == a && a ^ a
        == 0) by (bit_vector);
}

/// An operator on two UInt values.
pub open spec fn uints(t: Answers, op: InfixOp, a: u64, b: u64) -> Outcome {
    infix_outcome(t, op, ValueModel::UInt(a), ValueModel::UInt(b))
}

proof fn lemma_uints(t: Answers, op: InfixOp, a: u64, b: u64)
    requires
        !(op is In || op is NotIn || op is Div),
    ensures
        uints(t, op, a, b) == uint_result(op, a, b),
{
    reveal(infix_outcome);
    reveal(any_numeric_outcome);
    reveal(numeric_outcome);
}

/// The value of `a + b` agrees with the sum, subtracting either addend from it gives
/// the other one, and zero changes nothing.
#[verifier::rlimit(40)]
pub proof fn law_uint_sum(t: Answers, a: u64, b: u64)
    ensures
        uints(t, InfixOp::Add, a, b) matches Ok(ValueModel::UInt(s)) && same_low(s as int, a + b) && uints(
            t,
            InfixOp::Sub,
            s,
            b,
        ) == Ok::<ValueModel, StopModel>(ValueModel::UInt(a))
            && uints(t, InfixOp::Sub, s, a) == Ok::<ValueModel, StopModel>(ValueModel::UInt(b)),
        uints(t, InfixOp::Add, a, b) == uints(t, InfixOp::Add, b, a),
        uints(t, InfixOp::Sub, a, 0) == Ok::<ValueModel, StopModel>(ValueModel::UInt(a)),
        uints(t, InfixOp::Add, a, 0) == Ok::<ValueModel, StopModel>(ValueModel::UInt(a)),
        uints(t, InfixOp::Sub, a, b) matches Ok(ValueModel::UInt(d)) && same_low(d as int, a - b) && uints(
            t,
            InfixOp::Add,
            d,
            b,
        ) == Ok::<ValueModel, StopModel>(ValueModel::UInt(a)),
{
    reveal(uint_result);
    lemma_uints(t, InfixOp::Add, a, b);
    lemma_uints(t, InfixOp::Add, b, a);
    lemma_uints(t, InfixOp::Add, a, 0);
    lemma_uints(t, InfixOp::Sub, a, 0);
    lemma_uints(t, InfixOp::Sub, a, b);
    let s = wrap_unsigned(a + b);
    let d = wrap_unsigned(a - b);
    lemma_uints(t, InfixOp::Sub, s, b);
    lemma_uints(t, InfixOp::Sub, s, a);
    lemma_uints(t, InfixOp::Add, d, b);
    lemma_low_uint(a + b, a as int);
    lemma_low_uint(a - b, a as int);
    lemma_low_uint(s - b, a as int);
    lemma_low_uint(s - a, b as int);
    lemma_low_uint(d + b, a as int);
    lemma_low_uint(a - 0, a as int);
    lemma_low_uint(a + 0, a as int);
}

proof fn lemma_low_uint(x: int, v: int)
    ensures
        same_low(wrap_unsigned(x) as int, x),
        same_low(x, v) && u64::MIN <= v <= u64::MAX ==> wrap_unsigned(x) == v,
{
}

/// The value of `a * b` agrees with the product, in either order; one changes nothing,
/// and products distribute over sums.
pub proof fn law_uint_product(t: Answers, a: u64, b: u64, c: u64)
    ensures
        uints(t, InfixOp::Mul, a, b) matches Ok(ValueModel::UInt(p)) && same_low(p as int, a * b),
        uints(t, InfixOp::Mul, a, b) == uints(t, InfixOp::Mul, b, a),
        uints(t, InfixOp::Mul, a, 1) == Ok::<ValueModel, StopModel>(ValueModel::UInt(a)),
        uints(t, InfixOp::Mul, a, 0) == Ok::<ValueModel, StopModel>(ValueModel::UInt(0)),
        uints(t, InfixOp::Mul, a, c) matches Ok(ValueModel::UInt(ac))
            && uints(t, InfixOp::Mul, b, c) matches Ok(ValueModel::UInt(bc))
            && uints(t, InfixOp::Add, a, b) matches Ok(ValueModel::UInt(s)) && uints(t, InfixOp::Mul, s, c) == uints(
            t,
            InfixOp::Add,
            ac,
            bc,
        ),
{
    reveal(uint_result);
    lemma_uints(t, InfixOp::Mul, a, b);
    lemma_uints(t, InfixOp::Mul, b, a);
    lemma_uints(t, InfixOp::Mul, a, 1);
    lemma_uints(t, InfixOp::Mul, a, 0);
    lemma_uints(t, InfixOp::Mul, a, c);
    lemma_uints(t, InfixOp::Mul, b, c);
    lemma_uints(t, InfixOp::Add, a, b);
    assert(a * b == b * a) by (nonlinear_arith);
    assert(a * 1 == a && a * 0 == 0);
    let (ac, bc, s) = (wrap_unsigned(a * c), wrap_unsigned(b * c), wrap_unsigned(a + b));
    lemma_uints(t, InfixOp::Mul, s, c);
    lemma_uints(t, InfixOp::Add, ac, bc);
    assert(same_low(s as int, a + b));
    lemma_low_product(s as int, a + b, c as int);
    assert((a + b) * c == a * c + b * c) by (nonlinear_arith);
    assert(same_low(s * c, a * c + b * c));
    assert(same_low(ac + bc, a * c + b * c));
    lemma_low_unique_uint(s * c, ac + bc, a * c + b * c);
}

proof fn lemma_low_unique_uint(x: int, y: int, z: int)
    requires
        same_low(x, z),
        same_low(y, z),
    ensures
        wrap_unsigned(x) == wrap_unsigned(y),
{
}

/// A power is one factor more than the power before it; exponents beyond 32 bits have
/// none.
pub proof fn law_uint_power(t: Answers, a: u64, n: u64)
    ensures
        uints(t, InfixOp::Pow, a, 0) == Ok::<ValueModel, StopModel>(ValueModel::UInt(1)),
        0 <= n < u32::MAX ==> {
            &&& uints(t, InfixOp::Pow, a, n) is Ok
            &&& uints(t, InfixOp::Pow, a, n)->Ok_0 is UInt
            &&& uints(t, InfixOp::Pow, a, (n + 1) as u64) == uints(
                t,
                InfixOp::Mul,
                uints(t, InfixOp::Pow, a, n)->Ok_0->UInt_0,
                a,
            )
        },
        uints(t, InfixOp::Pow, a, n) is Ok == (0 <= n <= u32::MAX),
{
    reveal(uint_result);
    lemma_uints(t, InfixOp::Pow, a, 0);
    lemma_uints(t, InfixOp::Pow, a, n);
    lemma_pow0(a as int);
    if 0 <= n < u32::MAX {
        lemma_uints(t, InfixOp::Pow, a, (n + 1) as u64);
        let (p, q) = (pow(a as int, n as nat), pow(a as int, (n + 1) as nat));
        lemma_one_more(a as int, n as nat);
        lemma_uints(t, InfixOp::Mul, wrap_unsigned(p), a);
        assert(same_low(wrap_unsigned(p) as int, p));
        lemma_low_product(wrap_unsigned(p) as int, p, a as int);
        assert(q == p * a) by (nonlinear_arith)
            requires
                q == a * p,
        ;
        lemma_low_unique_uint(wrap_unsigned(p) * a, q, q);
    }
}

/// Shifting by one more doubles to the left and halves to the right; shifting by none
/// changes nothing, and only the low six bits of the distance count.
#[verifier::rlimit(40)]
pub proof fn law_uint_shift(t: Answers, a: u64, n: u64)
    requires
        0 <= n < 63,
    ensures
        uints(t, InfixOp::Shl, a, 0) == Ok::<ValueModel, StopModel>(ValueModel::UInt(a)),
        uints(t, InfixOp::Shr, a, 0) == Ok::<ValueModel, StopModel>(ValueModel::UInt(a)),
        uints(t, InfixOp::Shl, a, n) matches Ok(ValueModel::UInt(l))
            && uints(t, InfixOp::Shl, a, (n + 1) as u64) == uints(
            t,
            InfixOp::Add,
            l,
            l,
        ),
        uints(t, InfixOp::Shr, a, n) matches Ok(ValueModel::UInt(r))
            && uints(t, InfixOp::Shr, a, (n + 1) as u64) matches Ok(
            ValueModel::UInt(h),
        ) && 2 * h <= r < 2 * h + 2,
        uints(t, InfixOp::Shl, a, (n + 64) as u64) == uints(t, InfixOp::Shl, a, n),
        uints(t, InfixOp::Shr, a, (n + 64) as u64) == uints(t, InfixOp::Shr, a, n),
{
    reveal(uint_result);
    lemma_uints(t, InfixOp::Shl, a, 0);
    lemma_uints(t, InfixOp::Shr, a, 0);
    lemma_uints(t, InfixOp::Shl, a, n);
    lemma_uints(t, InfixOp::Shr, a, n);
    lemma_uints(t, InfixOp::Shl, a, (n + 1) as u64);
    lemma_uints(t, InfixOp::Shr, a, (n + 1) as u64);
    lemma_uints(t, InfixOp::Shl, a, (n + 64) as u64);
    lemma_uints(t, InfixOp::Shr, a, (n + 64) as u64);
    let (p, q) = (int_pow(2, n as nat), int_pow(2, (n + 1) as nat));
    lemma_pow_positive(2, n as nat);
    assert(int_pow(2, 0) == 1 && q == 2 * p);
    assert(shift_of(0) == 0 && shift_of(n as int) == n && shift_of(n + 1) == n + 1 && shift_of(n + 64) == n);
    assert(a * 1 == a && a as int / 1 == a);
    let l = wrap_unsigned(a * p);
    lemma_uints(t, InfixOp::Add, l, l);
    assert(a * q == a * p + a * p) by (nonlinear_arith)
        requires
            q == 2 * p,
    ;
    lemma_low_unique_uint(a * q, l + l, a * q);
    lemma_halved(a as int, p);
    lemma_pow_positive(2, (n + 1) as nat);
    lemma_halved(a as int, q);
    assert(p * 2 == q);
}

/// Dividing gives the quotient rounded towards negative infinity, and what it leaves
/// is less than the divisor; only a zero divisor fails.
pub proof fn law_uint_division(t: Answers, a: u64, b: u64)
    ensures
        b == 0 ==> uints(t, InfixOp::FloorDiv, a, b) is Err && uints(t, InfixOp::Mod, a, b) is Err,
        b != 0 ==> {
            &&& uints(t, InfixOp::FloorDiv, a, b) is Ok && uints(t, InfixOp::FloorDiv, a, b)->Ok_0 is UInt
            &&& uints(t, InfixOp::Mod, a, b) is Ok && uints(t, InfixOp::Mod, a, b)->Ok_0 is UInt
            &&& ({
                let q = uints(t, InfixOp::FloorDiv, a, b)->Ok_0->UInt_0;
                let m = uints(t, InfixOp::Mod, a, b)->Ok_0->UInt_0;
                &&& 0 <= m < b
                &&& a == q * b + m
            })
        },
{
    reveal(uint_result);
    lemma_uints(t, InfixOp::FloorDiv, a, b);
    lemma_uints(t, InfixOp::Mod, a, b);
    if b != 0 {
        law_floor_parts(a as int, b as int);
        lemma_fundamental_div_mod(a as int, b as int);
        let (q, m) = (floor_quotient(a as int, b as int), floor_remainder(a as int, b as int));
        assert(q * b == b * q) by (nonlinear_arith);
        assert(0 <= q <= a) by (nonlinear_arith)
            requires
                a == b * q + m,
                0 <= m < b,
                0 <= a,
        ;
    }
}

/// Exactly one of less, equal and greater holds; the other comparisons are their
/// negations, exchanging the operands mirrors them, and a number is less than the next.
pub proof fn law_uint_comparison(t: Answers, a: u64, b: u64, c: u64)
    ensures
        forall|op: InfixOp|
            #![trigger uints(t, op, a, b)]
            op is Lt || op is Gt || op is Le || op is Ge || op is Eq || op is Ne ==> uints(t, op, a, b) is Ok
                && uints(t, op, a, b)->Ok_0 is Bool,
        uints(t, InfixOp::Eq, a, b)->Ok_0->Bool_0 == (a == b),
        uints(t, InfixOp::Lt, a, b)->Ok_0->Bool_0 == (b - a > 0),
        uints(t, InfixOp::Lt, a, b) == uints(t, InfixOp::Gt, b, a),
        uints(t, InfixOp::Le, a, b) == uints(t, InfixOp::Ge, b, a),
        uints(t, InfixOp::Le, a, b)->Ok_0->Bool_0 == !uints(t, InfixOp::Gt, a, b)->Ok_0->Bool_0,
        uints(t, InfixOp::Ge, a, b)->Ok_0->Bool_0 == !uints(t, InfixOp::Lt, a, b)->Ok_0->Bool_0,
        uints(t, InfixOp::Ne, a, b)->Ok_0->Bool_0 == !uints(t, InfixOp::Eq, a, b)->Ok_0->Bool_0,
        uints(t, InfixOp::Lt, a, b)->Ok_0->Bool_0 && uints(t, InfixOp::Lt, b, c)->Ok_0->Bool_0 ==> uints(
            t,
            InfixOp::Lt,
            a,
            c,
        )->Ok_0->Bool_0,
{
    reveal(uint_result);
    assert forall|op: InfixOp| op is Lt || op is Gt || op is Le || op is Ge || op is Eq || op is Ne implies (
        #[trigger] uints(t, op, a, b)) == uint_result(op, a, b) by {
        lemma_uints(t, op, a, b);
    }
    lemma_uints(t, InfixOp::Gt, b, a);
    lemma_uints(t, InfixOp::Ge, b, a);
    lemma_uints(t, InfixOp::Lt, b, c);
    lemma_uints(t, InfixOp::Lt, a, c);
    lemma_uints(t, InfixOp::Lt, a, b);
    lemma_uints(t, InfixOp::Le, a, b);
    lemma_uints(t, InfixOp::Gt, a, b);
    lemma_uints(t, InfixOp::Ge, a, b);
    lemma_uints(t, InfixOp::Eq, a, b);
    lemma_uints(t, InfixOp::Ne, a, b);
}

/// The bits of `a & b` are those that both have, of `a | b` those that either has, of
/// `a ^ b` those that one of them has: the first two add up to the sum of the operands,
/// and the third is what the second has beyond the first.
#[verifier::rlimit(40)]
pub proof fn law_uint_bits(t: Answers, a: u64, b: u64)
    ensures
        uints(t, InfixOp::BitAnd, a, b) matches Ok(ValueModel::UInt(x))
            && uints(t, InfixOp::BitOr, a, b) matches Ok(ValueModel::UInt(o))
            && uints(t, InfixOp::BitXor, a, b) matches Ok(ValueModel::UInt(e)) && {
            &&& uints(t, InfixOp::Add, x, o) == uints(t, InfixOp::Add, a, b)
            &&& uints(t, InfixOp::Sub, o, x) == Ok::<ValueModel, StopModel>(ValueModel::UInt(e))
            &&& uints(t, InfixOp::BitAnd, x, a) == Ok::<ValueModel, StopModel>(ValueModel::UInt(x))
            &&& uints(t, InfixOp::BitAnd, o, a) == Ok::<ValueModel, StopModel>(ValueModel::UInt(a))
            &&& uints(t, InfixOp::BitXor, e, b) == Ok::<ValueModel, StopModel>(ValueModel::UInt(a))
        },
        uints(t, InfixOp::BitAnd, a, 0) == Ok::<ValueModel, StopModel>(ValueModel::UInt(0)),
        uints(t, InfixOp::BitOr, a, 0) == Ok::<ValueModel, StopModel>(ValueModel::UInt(a)),
        uints(t, InfixOp::BitXor, a, a) == Ok::<ValueModel, StopModel>(ValueModel::UInt(0)),
{
    reveal(uint_result);
    lemma_uints(t, InfixOp::BitAnd, a, b);
    lemma_uints(t, InfixOp::BitOr, a, b);
    lemma_uints(t, InfixOp::BitXor, a, b);
    let (x, o, e) = (a & b, a | b, a ^ b);
    lemma_uints(t, InfixOp::Add, x, o);
    lemma_uints(t, InfixOp::Add, a, b);
    lemma_uints(t, InfixOp::Sub, o, x);
    lemma_uints(t, InfixOp::BitAnd, x, a);
    lemma_uints(t, InfixOp::BitAnd, o, a);
    lemma_uints(t, InfixOp::BitXor, e, b);
    lemma_uints(t, InfixOp::BitAnd, a, 0);
    lemma_uints(t, InfixOp::BitOr, a, 0);
    lemma_uints(t, InfixOp::BitXor, a, a);
    assert((a & b) + (a | b) == a + b) by (bit_vector);
    assert((a | b) - (a & b) == a ^ b) by (bit_vector);
    assert((a & b) & a == a & b && (a | b) & a == a && (a ^ b) ^ b == a && a & 0 == 0 && a | 0 == a && a ^ a
        == 0) by (bit_vector);
}

} // verus!
