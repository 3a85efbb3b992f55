//! What compile-time evaluation promises.

use crate::ast::InfixOp;
use crate::ct::{
    CtErrorModel, CtExprModel, CtValueModel, ct_eval, ct_params, lemma_quotient, parameter_value,
    wrap64,
};
use crate::runtime::{StopModel, ValueModel};
use crate::runtime::laws::{ints, same_low};
use crate::runtime::operators::{any_numeric_outcome, infix_outcome};
use crate::runtime::scalar::{Answers, int_result, numeric_outcome};
use crate::text::{dec, dec_int, digit_char, digits, lemma_quotient_smaller};
use vstd::arithmetic::div_mod::{lemma_fundamental_div_mod, lemma_mod_bound};
use vstd::prelude::*;

verus! {

/// The values of parameters.
pub type Known = Map<Seq<char>, CtValueModel>;

/// Sums, differences and negations at compile time agree with the integers, and a
/// difference undoes a sum.
pub proof fn law_constant_sums(x: CtExprModel, y: CtExprModel, a: i64, b: i64, known: Known)
    requires
        ct_eval(x, known) == Ok::<CtValueModel, CtErrorModel>(CtValueModel::Int(a)),
        ct_eval(y, known) == Ok::<CtValueModel, CtErrorModel>(CtValueModel::Int(b)),
    ensures
        ct_eval(CtExprModel::Add(Box::new(x), Box::new(y)), known) matches Ok(CtValueModel::Int(s)) && same_low(
            s as int,
            a + b,
        ),
        ct_eval(CtExprModel::Sub(Box::new(x), Box::new(y)), known) matches Ok(CtValueModel::Int(d)) && same_low(
            d as int,
            a - b,
        ),
        ct_eval(CtExprModel::Mul(Box::new(x), Box::new(y)), known) matches Ok(CtValueModel::Int(p)) && same_low(
            p as int,
            a * b,
        ),
        ct_eval(CtExprModel::Neg(Box::new(x)), known) matches Ok(CtValueModel::Int(n)) && same_low(n as int, -a),
        ct_eval(
            CtExprModel::Sub(Box::new(CtExprModel::Add(Box::new(x), Box::new(y))), Box::new(y)),
            known,
        ) == Ok::<CtValueModel, CtErrorModel>(CtValueModel::Int(a)),
{
    let s = CtExprModel::Add(Box::new(x), Box::new(y));
    assert(ct_eval(s, known) == Ok::<CtValueModel, CtErrorModel>(CtValueModel::Int(wrap64(a + b))));
}

/// A quotient and a remainder at compile time give the dividend back, with a remainder
/// that is not negative and smaller than the divisor; there are none for a zero divisor,
/// or where the quotient does not fit.
pub proof fn law_constant_division(x: CtExprModel, y: CtExprModel, a: i64, b: i64, known: Known)
    requires
        ct_eval(x, known) == Ok::<CtValueModel, CtErrorModel>(CtValueModel::Int(a)),
        ct_eval(y, known) == Ok::<CtValueModel, CtErrorModel>(CtValueModel::Int(b)),
    ensures
        ({
            let q = ct_eval(CtExprModel::FloorDiv(Box::new(x), Box::new(y)), known);
            let m = ct_eval(CtExprModel::Mod(Box::new(x), Box::new(y)), known);
            if b == 0 || (a == i64::MIN && b == -1) {
                q == Err::<CtValueModel, CtErrorModel>(CtErrorModel::Undefined) && m == Err::<
                    CtValueModel,
                    CtErrorModel,
                >(CtErrorModel::Undefined)
            } else {
                &&& q is Ok && q->Ok_0 is Int
                &&& m is Ok && m->Ok_0 is Int
                &&& a == q->Ok_0->Int_0 * b + m->Ok_0->Int_0
                &&& 0 <= m->Ok_0->Int_0
                &&& m->Ok_0->Int_0 < b || m->Ok_0->Int_0 < -b
            }
        }),
{
    if b != 0 {
        let (p, q) = (a as int, b as int);
        lemma_quotient(p, q);
        lemma_fundamental_div_mod(p, q);
        assert(0 <= p % q && (p % q < q || p % q < -q));
        assert(q * (p / q) == (p / q) * q) by (nonlinear_arith);
    }
}

/// Compile-time arithmetic gives what the same operator gives at run time.
#[verifier::rlimit(40)]
pub proof fn law_constants_agree_with_runtime(
    t: Answers,
    x: CtExprModel,
    y: CtExprModel,
    a: i64,
    b: i64,
    known: Known,
)
    requires
        ct_eval(x, known) == Ok::<CtValueModel, CtErrorModel>(CtValueModel::Int(a)),
        ct_eval(y, known) == Ok::<CtValueModel, CtErrorModel>(CtValueModel::Int(b)),
    ensures
        ct_eval(CtExprModel::Add(Box::new(x), Box::new(y)), known) matches Ok(CtValueModel::Int(v)) && ints(
            t,
            InfixOp::Add,
            a,
            b,
        ) == Ok::<ValueModel, StopModel>(ValueModel::Int(v)),
        ct_eval(CtExprModel::Sub(Box::new(x), Box::new(y)), known) matches Ok(CtValueModel::Int(v)) && ints(
            t,
            InfixOp::Sub,
            a,
            b,
        ) == Ok::<ValueModel, StopModel>(ValueModel::Int(v)),
        ct_eval(CtExprModel::Mul(Box::new(x), Box::new(y)), known) matches Ok(CtValueModel::Int(v)) && ints(
            t,
            InfixOp::Mul,
            a,
            b,
        ) == Ok::<ValueModel, StopModel>(ValueModel::Int(v)),
        ct_eval(CtExprModel::Pow(Box::new(x), Box::new(y)), known) is Ok <==> ints(t, InfixOp::Pow, a, b) is Ok,
        ct_eval(CtExprModel::Pow(Box::new(x), Box::new(y)), known) matches Ok(v) ==> v is Int && ints(
            t,
            InfixOp::Pow,
            a,
            b,
        ) == Ok::<ValueModel, StopModel>(ValueModel::Int(v->Int_0)),
        b > 0 ==> {
            let q = ct_eval(CtExprModel::FloorDiv(Box::new(x), Box::new(y)), known);
            let m = ct_eval(CtExprModel::Mod(Box::new(x), Box::new(y)), known);
            &&& q is Ok && q->Ok_0 is Int && ints(t, InfixOp::FloorDiv, a, b) == Ok::<ValueModel, StopModel>(
                ValueModel::Int(q->Ok_0->Int_0),
            )
            &&& m is Ok && m->Ok_0 is Int && ints(t, InfixOp::Mod, a, b) == Ok::<ValueModel, StopModel>(
                ValueModel::Int(m->Ok_0->Int_0),
            )
        },
{
    reveal(infix_outcome);
    reveal(any_numeric_outcome);
    reveal(numeric_outcome);
    reveal(int_result);
    if b > 0 {
        lemma_quotient(a as int, b as int);
        lemma_fundamental_div_mod(a as int, b as int);
        lemma_mod_bound(a as int, b as int);
    }
}

/// An operand that fails makes the whole fail as it does, the left one first, and one
/// that is no `Int` is refused.
pub proof fn law_constant_failures(x: CtExprModel, y: CtExprModel, known: Known, e: CtErrorModel)
    ensures
        ct_eval(x, known) == Err::<CtValueModel, CtErrorModel>(e) ==> {
            &&& ct_eval(CtExprModel::Neg(Box::new(x)), known) == Err::<CtValueModel, CtErrorModel>(e)
            &&& ct_eval(CtExprModel::Add(Box::new(x), Box::new(y)), known) == Err::<CtValueModel, CtErrorModel>(e)
            &&& ct_eval(CtExprModel::Sub(Box::new(x), Box::new(y)), known) == Err::<CtValueModel, CtErrorModel>(e)
            &&& ct_eval(CtExprModel::Mul(Box::new(x), Box::new(y)), known) == Err::<CtValueModel, CtErrorModel>(e)
            &&& ct_eval(CtExprModel::FloorDiv(Box::new(x), Box::new(y)), known) == Err::<CtValueModel, CtErrorModel>(e)
            &&& ct_eval(CtExprModel::Mod(Box::new(x), Box::new(y)), known) == Err::<CtValueModel, CtErrorModel>(e)
            &&& ct_eval(CtExprModel::Pow(Box::new(x), Box::new(y)), known) == Err::<CtValueModel, CtErrorModel>(e)
        },
        ct_eval(x, known) is Ok && !(ct_eval(x, known)->Ok_0 is Int) ==> ct_eval(
            CtExprModel::Add(Box::new(x), Box::new(y)),
            known,
        ) == Err::<CtValueModel, CtErrorModel>(CtErrorModel::NotInt),
{
}

/// An expression depends on its parameters alone, and lacks a value for want of a
/// parameter only where one of its parameters has none.
pub proof fn law_constant_parameters(x: CtExprModel, known: Known, other: Known)
    ensures
        (forall|n: Seq<char>|
            #[trigger] ct_params(x).contains(n) ==> (known.dom().contains(n) <==> other.dom().contains(n)) && known[n]
                == other[n]) ==> ct_eval(x, known) == ct_eval(x, other),
        ct_eval(x, known) matches Err(CtErrorModel::Unresolved(n)) ==> ct_params(x).contains(n)
            && !known.dom().contains(n),
    decreases x,
{
    match x {
        CtExprModel::Value(CtValueModel::Param(n)) => {
            assert(ct_params(x)[0] == n);
            assert(ct_params(x).contains(n));
            assert(ct_eval(x, known) == parameter_value(n, known));
            assert(ct_eval(x, other) == parameter_value(n, other));
        },
        CtExprModel::Param(n) => {
            assert(ct_params(x)[0] == n);
            assert(ct_params(x).contains(n));
            assert(ct_eval(x, known) == parameter_value(n, known));
            assert(ct_eval(x, other) == parameter_value(n, other));
        },
        CtExprModel::Value(_) => {},
        CtExprModel::Neg(a) => {
            law_constant_parameters(*a, known, other);
            assert(ct_params(x) == ct_params(*a));
        },
        CtExprModel::Add(a, b) => lemma_both_parameters(x, *a, *b, known, other),
        CtExprModel::Sub(a, b) => lemma_both_parameters(x, *a, *b, known, other),
        CtExprModel::Mul(a, b) => lemma_both_parameters(x, *a, *b, known, other),
        CtExprModel::FloorDiv(a, b) => lemma_both_parameters(x, *a, *b, known, other),
        CtExprModel::Mod(a, b) => lemma_both_parameters(x, *a, *b, known, other),
        CtExprModel::Pow(a, b) => lemma_both_parameters(x, *a, *b, known, other),
    }
}

proof fn lemma_both_parameters(x: CtExprModel, a: CtExprModel, b: CtExprModel, known: Known, other: Known)
    requires
        ct_params(x) == ct_params(a) + ct_params(b),
        decreases_to!(x => a),
        decreases_to!(x => b),
    ensures
        forall|n: Seq<char>|
            ct_params(a).contains(n) || ct_params(b).contains(n) <==> #[trigger] ct_params(x).contains(n),
        (forall|n: Seq<char>|
            #[trigger] ct_params(x).contains(n) ==> (known.dom().contains(n) <==> other.dom().contains(n)) && known[n]
                == other[n]) ==> ct_eval(a, known) == ct_eval(a, other) && ct_eval(b, known) == ct_eval(b, other),
        ct_eval(a, known) matches Err(CtErrorModel::Unresolved(n)) ==> ct_params(x).contains(n)
            && !known.dom().contains(n),
        ct_eval(b, known) matches Err(CtErrorModel::Unresolved(n)) ==> ct_params(x).contains(n)
            && !known.dom().contains(n),
    decreases x, 0int,
{
    let (p, q) = (ct_params(a), ct_params(b));
    assert forall|n: Seq<char>| p.contains(n) || q.contains(n) <==> #[trigger] ct_params(x).contains(n) by {
        if p.contains(n) {
            let i = choose|i: int| 0 <= i < p.len() && p[i] == n;
            assert((p + q)[i] == n);
        }
        if q.contains(n) {
            let i = choose|i: int| 0 <= i < q.len() && q[i] == n;
            assert((p + q)[p.len() + i] == n);
        }
        if (p + q).contains(n) {
            let i = choose|i: int| 0 <= i < (p + q).len() && (p + q)[i] == n;
            if i < p.len() {
                assert(p[i] == n);
            } else {
                assert(q[i - p.len()] == n);
            }
        }
    }
    law_constant_parameters(a, known, other);
    law_constant_parameters(b, known, other);
    if forall|n: Seq<char>|
        #[trigger] ct_params(x).contains(n) ==> (known.dom().contains(n) <==> other.dom().contains(n)) && known[n]
            == other[n] {
        assert forall|n: Seq<char>| #[trigger] p.contains(n) implies (known.dom().contains(n)
            <==> other.dom().contains(n)) && known[n] == other[n] by {
            assert(ct_params(x).contains(n));
        }
        assert forall|n: Seq<char>| #[trigger] q.contains(n) implies (known.dom().contains(n)
            <==> other.dom().contains(n)) && known[n] == other[n] by {
            assert(ct_params(x).contains(n));
        }
    }
}

/// The number that decimal digits spell.
pub open spec fn spelled_number(text: Seq<char>) -> int
    decreases text.len(),
{
    if text.len() == 0 {
        0
    } else {
        10 * spelled_number(text.drop_last()) + (text.last() as int - '0' as int)
    }
}

/// The decimal spelling of a number spells that number, in digits alone and without
/// leading zeros.
pub proof fn law_decimal_spelling(n: nat)
    ensures
        spelled_number(dec(n)) == n,
        dec(n).len() > 0,
        forall|i: int| 0 <= i < dec(n).len() ==> '0' <= #[trigger] dec(n)[i] <= '9',
        n > 0 ==> dec(n)[0] != '0',
    decreases n,
{
    let d = (n % 10) as int;
    assert(digit_char(d, false) as int == 48 + d);
    if n < 10 {
        assert(dec(n) == seq![digit_char(n as int, false)]);
        assert(dec(n).drop_last() =~= Seq::<char>::empty());
        assert(dec(n).last() as int == 48 + n);
        assert(spelled_number(dec(n).drop_last()) == 0);
    } else {
        lemma_quotient_smaller(n, 10);
        law_decimal_spelling(n / 10);
        assert(dec(n) == dec(n / 10).push(digit_char(d, false)));
        assert(dec(n).drop_last() =~= dec(n / 10));
        assert forall|i: int| 0 <= i < dec(n).len() implies '0' <= #[trigger] dec(n)[i] <= '9' by {
            if i < dec(n / 10).len() {
                assert(dec(n)[i] == dec(n / 10)[i]);
            }
        }
        assert(dec(n)[0] == dec(n / 10)[0]);
    }
}

/// Different integers are spelled differently.
pub proof fn law_spelling_injective(a: int, b: int)
    requires
        dec_int(a) == dec_int(b),
    ensures
        a == b,
{
    let (x, y) = (if a < 0 { (-a) as nat } else { a as nat }, if b < 0 { (-b) as nat } else { b as nat });
    law_decimal_spelling(x);
    law_decimal_spelling(y);
    if a < 0 {
        assert(dec_int(a)[0] == '-');
        assert(dec_int(a).skip(1) =~= dec(x));
    }
    if b < 0 {
        assert(dec_int(b)[0] == '-');
        assert(dec_int(b).skip(1) =~= dec(y));
    }
    if a >= 0 {
        assert('0' <= dec(x)[0]);
    }
    if b >= 0 {
        assert('0' <= dec(y)[0]);
    }
}

} // verus!
