//! What the built-in functions promise: extremes, quotients, conversions and slices.

use crate::ct::wrap64;
use crate::literal::{floor_quotient, law_floor_parts, law_literal_of};
use crate::outcome::collect;
use crate::runtime::{
    FloatTaskModel, Rounding, StopModel, ValueModel, float_nan, float_rank, float_result,
};
use crate::runtime::builtins::{
    abs_outcome, ceil_outcome, converted, divmod_outcome, extreme, index_outcome, rounded,
    scalar_of, slice_bounds, slice_positions, stepped_positions, truncated_fraction, without_ending,
};
use crate::runtime::laws::{law_int_division, same_low};
use crate::runtime::materialize::{
    checked_coerced, literal_materialized, pack_coerced, plainly_coerced,
};
use crate::runtime::number_laws::whole;
use crate::runtime::operators::{exact_fraction, exact_int};
use crate::runtime::scalar::{Answers, wrap_unsigned};
use crate::runtime::values::is_exact;
use crate::types::TyModel;
use vstd::prelude::*;

verus! {

/// The lesser and the greater of two whole numbers are those two numbers, in order.
pub proof fn law_extremes(t: Answers, a: i64, b: i64, x: u64, y: u64)
    ensures
        extreme(t, true, ValueModel::Int(a), ValueModel::Int(b)) matches Ok(ValueModel::Int(least)) && extreme(
            t,
            false,
            ValueModel::Int(a),
            ValueModel::Int(b),
        ) matches Ok(ValueModel::Int(most)) && least <= most && ((least == a && most == b) || (least == b
            && most == a)),
        extreme(t, true, ValueModel::UInt(x), ValueModel::UInt(y)) matches Ok(ValueModel::UInt(least)) && extreme(
            t,
            false,
            ValueModel::UInt(x),
            ValueModel::UInt(y),
        ) matches Ok(ValueModel::UInt(most)) && least <= most && ((least == x && most == y) || (least == y
            && most == x)),
{
    reveal(extreme);
}

/// The lesser and the greater of two literals are those two, in order; so it is for
/// floating-point numbers.
pub proof fn law_extremes_of_fractions(t: Answers, an: int, ad: int, bn: int, bd: int, x: u64, y: u64)
    requires
        ad > 0,
        bd > 0,
    ensures
        ({
            let (a, b) = (exact_fraction(an, ad), exact_fraction(bn, bd));
            &&& an * bd < bn * ad ==> extreme(t, true, a, b) == Ok::<ValueModel, StopModel>(a)
                && extreme(t, false, a, b)
                == Ok::<ValueModel, StopModel>(b)
            &&& an * bd > bn * ad ==> extreme(t, true, a, b) == Ok::<ValueModel, StopModel>(b)
                && extreme(t, false, a, b)
                == Ok::<ValueModel, StopModel>(a)
        }),
        !float_nan(x) && !float_nan(y) ==> {
            let least = extreme(t, true, ValueModel::Float64(x), ValueModel::Float64(y));
            let most = extreme(t, false, ValueModel::Float64(x), ValueModel::Float64(y));
            &&& least is Ok && least->Ok_0 is Float64
            &&& most is Ok && most->Ok_0 is Float64
            &&& (least->Ok_0->Float64_0 == x && most->Ok_0->Float64_0 == y) || (least->Ok_0->Float64_0 == y
                && most->Ok_0->Float64_0 == x)
            &&& float_rank(least->Ok_0->Float64_0) <= float_rank(most->Ok_0->Float64_0)
        },
{
    reveal(extreme);
    law_literal_of(an);
    law_literal_of(ad);
    law_literal_of(bn);
    law_literal_of(bd);
}

/// A magnitude is the number or its negation, and is not negative but for the one `Int`
/// that has no positive counterpart.
pub proof fn law_magnitude(n: i64)
    ensures
        abs_outcome(ValueModel::Int(n)) matches Ok(ValueModel::Int(m)) && if n == i64::MIN {
            m == n
        } else {
            m >= 0 && (m == n || m == -n)
        },
{
    reveal(abs_outcome);
    let v = if n < 0 { -n } else { n as int };
    if n == i64::MIN {
        assert(v == 0x8000_0000_0000_0000);
        assert(wrap64(v) == n);
    } else {
        assert(0 <= v < 0x8000_0000_0000_0000);
        assert(wrap64(v) == v);
    }
}

/// The magnitude of a literal is the literal or its negation, and is not negative.
pub proof fn law_literal_magnitude(v: int)
    ensures
        whole(abs_outcome(exact_int(v))) matches Some(m) && m >= 0 && (m == v || m == -v),
{
    reveal(abs_outcome);
    law_literal_of(v);
    law_literal_of(-v);
}

/// The magnitude of a floating-point number has no sign, and its place among the others
/// or the opposite one.
pub proof fn law_float_magnitude(bits: u64)
    ensures
        abs_outcome(ValueModel::Float64(bits)) matches Ok(ValueModel::Float64(m)) && (float_rank(m) == float_rank(bits)
            || float_rank(m) == -float_rank(bits)) && float_rank(m) >= 0 && m < 0x8000_0000_0000_0000,
{
    reveal(abs_outcome);
}

/// The quotient rounded up is the least whole number that is not below the quotient; only
/// a zero divisor has none.
pub proof fn law_ceiling_quotient(t: Answers, a: i64, b: i64, x: u64, y: u64)
    ensures
        ceil_outcome(t, ValueModel::Int(a), ValueModel::Int(b)) is Err <==> b == 0,
        b != 0 && !(a == i64::MIN && b == -1) ==> {
            let c = ceil_outcome(t, ValueModel::Int(a), ValueModel::Int(b));
            &&& c->Ok_0 is Int
            &&& b > 0 ==> (c->Ok_0->Int_0 - 1) * b < a <= c->Ok_0->Int_0 * b
            &&& b < 0 ==> (c->Ok_0->Int_0 - 1) * b > a >= c->Ok_0->Int_0 * b
        },
        ceil_outcome(t, ValueModel::UInt(x), ValueModel::UInt(y)) is Err <==> y == 0,
        y != 0 ==> {
            let c = ceil_outcome(t, ValueModel::UInt(x), ValueModel::UInt(y));
            &&& c->Ok_0 is UInt
            &&& (c->Ok_0->UInt_0 - 1) * y < x <= c->Ok_0->UInt_0 * y
        },
{
    reveal(ceil_outcome);
    if b != 0 && !(a == i64::MIN && b == -1) {
        let n = -(a as int);
        let q = floor_quotient(n, b as int);
        let m = crate::literal::floor_remainder(n, b as int);
        law_floor_parts(n, b as int);
        let c = -q;
        assert(b > 0 ==> (c - 1) * b < a <= c * b) by (nonlinear_arith)
            requires
                n == b * q + m,
                n == -a,
                c == -q,
                b > 0 ==> 0 <= m < b,
        ;
        assert(b < 0 ==> (c - 1) * b > a >= c * b) by (nonlinear_arith)
            requires
                n == b * q + m,
                n == -a,
                c == -q,
                b < 0 ==> b < m <= 0,
        ;
        assert(i64::MIN <= c <= i64::MAX) by (nonlinear_arith)
            requires
                n == b * q + m,
                n == -a,
                c == -q,
                b != 0,
                b > 0 ==> 0 <= m < b,
                b < 0 ==> b < m <= 0,
                i64::MIN <= a <= i64::MAX,
                !(a == i64::MIN && b == -1),
        ;
    }
    if y != 0 {
        let (q, m) = (x as int / y as int, x as int % y as int);
        vstd::arithmetic::div_mod::lemma_fundamental_div_mod(x as int, y as int);
        let c = q + if m != 0 { 1int } else { 0int };
        assert((c - 1) * y < x <= c * y) by (nonlinear_arith)
            requires
                x == y * q + m,
                0 <= m < y,
                c == q + if m != 0 { 1int } else { 0int },
        ;
        assert(0 <= c <= u64::MAX) by (nonlinear_arith)
            requires
                x == y * q + m,
                0 <= m < y,
                c == q + if m != 0 { 1int } else { 0int },
                0 <= x <= u64::MAX,
        ;
    }
}

/// Quotient and remainder come together: they give the dividend back.
pub proof fn law_divmod(t: Answers, a: i64, b: i64)
    requires
        b != 0,
        !(a == i64::MIN && b == -1),
    ensures
        divmod_outcome(t, ValueModel::Int(a), ValueModel::Int(b)) matches Ok(ValueModel::Tuple(parts))
            && parts.len() == 2
            && parts[0] is Int && parts[1] is Int && a == parts[0]->Int_0 * b + parts[1]->Int_0,
{
    law_int_division(t, a, b);
}

/// Rounding leaves whole numbers alone and asks for a floating-point number's whole part
/// in the direction that the method names.
pub proof fn law_rounding(t: Answers, n: i64, u: u64, bits: u64, r: u64, method: Seq<char>)
    ensures
        rounded(t, method, ValueModel::Int(n)) == Ok::<ValueModel, StopModel>(ValueModel::Int(n)),
        rounded(t, method, ValueModel::UInt(u)) == Ok::<ValueModel, StopModel>(ValueModel::UInt(u)),
        float_result(t, FloatTaskModel::Whole { rounding: Rounding::Floor, a: bits }) == Ok::<u64, StopModel>(r)
            ==> rounded(t, "__floor__"@, ValueModel::Float64(bits)) == Ok::<ValueModel, StopModel>(
            ValueModel::Float64(r),
        ),
        float_result(t, FloatTaskModel::Whole { rounding: Rounding::Ceil, a: bits }) == Ok::<u64, StopModel>(r)
            ==> rounded(t, "__ceil__"@, ValueModel::Float64(bits)) == Ok::<ValueModel, StopModel>(
            ValueModel::Float64(r),
        ),
        float_result(t, FloatTaskModel::Whole { rounding: Rounding::Trunc, a: bits }) == Ok::<u64, StopModel>(r)
            ==> rounded(t, "__trunc__"@, ValueModel::Float64(bits)) == Ok::<ValueModel, StopModel>(
            ValueModel::Float64(r),
        ),
{
    reveal_strlit("__floor__");
    reveal_strlit("__ceil__");
    reveal_strlit("__trunc__");
    assert("__floor__"@.len() == 9 && "__ceil__"@.len() == 8 && "__trunc__"@.len() == 9);
    assert("__trunc__"@[2] == 't' && "__floor__"@[2] == 'f');
}

/// A whole number converted to its own kind is itself; to the other kind it keeps its low
/// bits, so that converting back gives the number.
pub proof fn law_whole_conversion(t: Answers, n: i64, u: u64)
    ensures
        converted(t, "Int"@, ValueModel::Int(n)) == Ok::<ValueModel, StopModel>(ValueModel::Int(n)),
        converted(t, "UInt"@, ValueModel::UInt(u)) == Ok::<ValueModel, StopModel>(ValueModel::UInt(u)),
        converted(t, "UInt"@, ValueModel::Int(n)) matches Ok(ValueModel::UInt(m)) && same_low(m as int, n as int)
            && converted(t, "Int"@, ValueModel::UInt(m)) == Ok::<ValueModel, StopModel>(ValueModel::Int(n)),
        converted(t, "Bool"@, ValueModel::Int(n)) == Ok::<ValueModel, StopModel>(ValueModel::Bool(n != 0)),
        converted(t, "Bool"@, ValueModel::UInt(u)) == Ok::<ValueModel, StopModel>(ValueModel::Bool(u != 0)),
{
    reveal(converted);
    lemma_scalar_names();
    let m = wrap_unsigned(n as int);
    assert(wrap64(n as int) == n);
    assert(wrap_unsigned(u as int) == u);
    assert(wrap64(m as int) == n);
    assert(same_low(m as int, n as int));
}

/// A literal converted to a whole kind keeps its low bits; to `Bool` it tells whether it
/// is not zero.
pub proof fn law_literal_conversion(t: Answers, v: int)
    ensures
        converted(t, "Int"@, exact_int(v)) matches Ok(ValueModel::Int(m)) && same_low(m as int, v),
        converted(t, "UInt"@, exact_int(v)) matches Ok(ValueModel::UInt(m)) && same_low(m as int, v),
        converted(t, "Bool"@, exact_int(v)) == Ok::<ValueModel, StopModel>(ValueModel::Bool(v != 0)),
{
    reveal(converted);
    law_literal_of(v);
    lemma_scalar_names();
    assert(same_low(wrap64(v) as int, v));
    assert(same_low(wrap_unsigned(v) as int, v));
}

/// A truth value converts to one or zero, and to itself.
pub proof fn law_truth_conversion(t: Answers, b: bool)
    ensures
        converted(t, "Int"@, ValueModel::Bool(b)) == Ok::<ValueModel, StopModel>(
            ValueModel::Int(if b { 1 } else { 0 }),
        ),
        converted(t, "UInt"@, ValueModel::Bool(b)) == Ok::<ValueModel, StopModel>(
            ValueModel::UInt(if b { 1 } else { 0 }),
        ),
        converted(t, "Bool"@, ValueModel::Bool(b)) == Ok::<ValueModel, StopModel>(ValueModel::Bool(b)),
{
    reveal(converted);
    lemma_scalar_names();
}

proof fn lemma_scalar_names()
    ensures
        scalar_of("Int"@) is Int,
        scalar_of("UInt"@) is UInt,
        scalar_of("Bool"@) is Bool,
        scalar_of("Float64"@) is Float64,
{
    reveal_strlit("Int");
    reveal_strlit("UInt");
    reveal_strlit("Bool");
    reveal_strlit("Float64");
    assert("Int"@.len() == 3 && "UInt"@.len() == 4 && "Bool"@.len() == 4 && "Float64"@.len() == 7);
    assert("UInt"@[0] == 'U' && "Bool"@[0] == 'B');
}

/// A fraction becomes whole by dropping what is behind the point: never past it, and by
/// less than one.
pub proof fn law_fraction_truncates(t: Answers, n: int, d: int)
    requires
        d > 0,
    ensures
        ({
            let l = exact_fraction(n, d)->FloatLiteral_0;
            let w = truncated_fraction(l);
            &&& n >= 0 ==> 0 <= w * d <= n < w * d + d
            &&& n <= 0 ==> w * d - d < n <= w * d <= 0
            &&& (converted(t, "Int"@, exact_fraction(n, d)) matches Ok(ValueModel::Int(m)) && same_low(m as int, w))
            &&& converted(t, "Bool"@, exact_fraction(n, d)) == Ok::<ValueModel, StopModel>(ValueModel::Bool(n != 0))
        }),
{
    reveal(converted);
    law_literal_of(n);
    law_literal_of(d);
    lemma_scalar_names();
    let a = if n < 0 { -n } else { n };
    let (q, m) = (a / d, a % d);
    vstd::arithmetic::div_mod::lemma_fundamental_div_mod(a, d);
    vstd::arithmetic::div_mod::lemma_mod_bound(a, d);
    assert(0 <= q * d <= a < q * d + d) by (nonlinear_arith)
        requires
            a == d * q + m,
            0 <= m < d,
            0 <= a,
            d > 0,
    ;
    assert((-q) * d == -(q * d)) by (nonlinear_arith);
}

/// An index is an `Int`, or a literal that fits one.
pub proof fn law_index(n: i64, v: int, x: ValueModel)
    ensures
        index_outcome(ValueModel::Int(n)) == Ok::<i64, StopModel>(n),
        index_outcome(exact_int(v)) is Ok <==> i64::MIN <= v <= i64::MAX,
        index_outcome(exact_int(v)) is Ok ==> index_outcome(exact_int(v))->Ok_0 == v,
        !(x is Int || x is IntLiteral) ==> index_outcome(x) is Err,
{
    law_literal_of(v);
}

proof fn lemma_steps(start: int, stop: int, step: int, i: int)
    requires
        step != 0,
        0 <= i < stepped_positions(start, stop, step).len(),
    ensures
        stepped_positions(start, stop, step)[i] == (start + i * step) as usize,
        step > 0 ==> start + i * step < stop,
        step < 0 ==> start + i * step > stop,
    decreases i,
{
    let rest = stepped_positions(start + step, stop, step);
    if i > 0 {
        lemma_steps(start + step, stop, step, i - 1);
        assert(start + step + (i - 1) * step == start + i * step) by (nonlinear_arith);
        assert(stepped_positions(start, stop, step)[i] == rest[i - 1]);
    } else {
        assert(0 * step == 0);
    }
}

proof fn lemma_all_steps(start: int, stop: int, step: int)
    requires
        step != 0,
    ensures
        ({
            let n = stepped_positions(start, stop, step).len();
            &&& step > 0 ==> start + n * step >= stop
            &&& step < 0 ==> start + n * step <= stop
        }),
    decreases crate::runtime::builtins::distance(start, stop, step),
{
    if (step > 0 && start < stop) || (step < 0 && start > stop) {
        lemma_all_steps(start + step, stop, step);
        let rest = stepped_positions(start + step, stop, step);
        let n = rest.len() as int;
        assert(start + step + n * step == start + (n + 1) * step) by (nonlinear_arith);
    } else {
        assert(0 * step == 0);
    }
}

/// A slice takes every position from its start by its step, and stops only where the next
/// one would be at or past the stop.
pub proof fn law_slice_steps(len: i64, lower: Option<i64>, upper: Option<i64>, step: Option<i64>, i: int)
    requires
        slice_bounds(len, lower, upper, step) is Ok,
        0 <= i < slice_positions(len, lower, upper, step)->Ok_0.len(),
    ensures
        ({
            let (start, stop, by) = slice_bounds(len, lower, upper, step)->Ok_0;
            let p = slice_positions(len, lower, upper, step)->Ok_0;
            &&& p[i] == (start + i * by) as usize
            &&& by > 0 ==> start + i * by < stop
            &&& by < 0 ==> start + i * by > stop
            &&& by > 0 ==> start + p.len() * by >= stop
            &&& by < 0 ==> start + p.len() * by <= stop
        }),
{
    let (start, stop, by) = slice_bounds(len, lower, upper, step)->Ok_0;
    lemma_steps(start as int, stop as int, by as int, i);
    lemma_all_steps(start as int, stop as int, by as int);
}

/// A slice bound that is not negative and not past the end is where it says; one below
/// zero counts from the end; a missing step is one, and a missing bound the end that
/// the step comes from or goes to. Only a zero step or a negative length has no slice.
pub proof fn law_slice_bounds(len: i64, i: i64, j: i64, step: i64)
    requires
        len >= 0,
    ensures
        slice_bounds(len, Some(i), Some(j), Some(0)) is Err,
        step != 0 ==> slice_bounds(len, Some(i), Some(j), Some(step)) is Ok,
        slice_bounds(len, Some(i), Some(j), None) == slice_bounds(len, Some(i), Some(j), Some(1)),
        0 <= i <= len && 0 <= j <= len && step > 0 ==> slice_bounds(len, Some(i), Some(j), Some(step)) == Ok::<
            (i64, i64, i64),
            StopModel,
        >((i, j, step)),
        -len <= i < 0 && -len <= j < 0 && step != 0 ==> slice_bounds(len, Some(i), Some(j), Some(step)) == slice_bounds(
            len,
            Some((i + len) as i64),
            Some((j + len) as i64),
            Some(step),
        ),
        step > 0 ==> slice_bounds(len, None, None, Some(step)) == Ok::<(i64, i64, i64), StopModel>((0, len, step)),
        step < 0 ==> slice_bounds(len, None, None, Some(step)) == Ok::<(i64, i64, i64), StopModel>(
            ((len - 1) as i64, -1i64, step),
        ),
        i > len && step > 0 ==> slice_bounds(len, Some(i), None, Some(step)) == slice_bounds(
            len,
            Some(len),
            None,
            Some(step),
        ),
        0 <= i < len && 0 <= j < len && step < 0 ==> slice_bounds(len, Some(i), Some(j), Some(step)) == Ok::<
            (i64, i64, i64),
            StopModel,
        >((i, j, step)),
{
}

/// Cutting at a position and putting the pieces together gives the whole.
pub proof fn law_slice_pieces(len: i64, k: i64)
    requires
        0 <= k <= len,
    ensures
        slice_positions(len, None, Some(k), None) is Ok,
        slice_positions(len, Some(k), None, None) is Ok,
        slice_positions(len, None, None, None) == Ok::<Seq<usize>, StopModel>(
            slice_positions(len, None, Some(k), None)->Ok_0 + slice_positions(len, Some(k), None, None)->Ok_0,
        ),
{
    lemma_pieces(0, k as int, len as int);
}

proof fn lemma_pieces(start: int, k: int, stop: int)
    requires
        start <= k <= stop,
    ensures
        stepped_positions(start, stop, 1) == stepped_positions(start, k, 1) + stepped_positions(k, stop, 1),
    decreases k - start,
{
    if start < k {
        lemma_pieces(start + 1, k, stop);
        assert(stepped_positions(start, stop, 1) =~= stepped_positions(start, k, 1) + stepped_positions(k, stop, 1));
    } else {
        assert(stepped_positions(start, k, 1) =~= Seq::<usize>::empty());
        assert(stepped_positions(start, stop, 1) =~= stepped_positions(start, k, 1) + stepped_positions(k, stop, 1));
    }
}

/// A line loses its line end, with a carriage return ahead of it, and nothing else.
pub proof fn law_line_ending(line: Seq<char>)
    ensures
        line.len() == 0 || line.last() != '\n' ==> without_ending(line) == line,
        line.len() == 0 || line.last() != '\r' ==> without_ending(line.push('\n')) == line && without_ending(
            line.push('\r').push('\n'),
        ) == line,
{
    assert(line.push('\n').drop_last() =~= line);
    assert(line.push('\r').push('\n').drop_last() =~= line.push('\r'));
    assert(line.push('\r').drop_last() =~= line);
}

/// A literal materializes as a whole number with its low bits, as that number where it
/// fits; a fraction as no whole number.
pub proof fn law_literal_materializes(t: Answers, v: int, n: int, d: int)
    ensures
        literal_materialized(t, exact_int(v), TyModel::Int) matches Ok(ValueModel::Int(m)) && same_low(m as int, v),
        literal_materialized(t, exact_int(v), TyModel::UInt) matches Ok(ValueModel::UInt(m)) && same_low(m as int, v),
        literal_materialized(t, exact_fraction(n, d), TyModel::Int) is Err,
        literal_materialized(t, exact_fraction(n, d), TyModel::UInt) is Err,
        literal_materialized(t, exact_int(v), TyModel::Bool) is Err,
{
    reveal(literal_materialized);
    law_literal_of(v);
}

/// Coercing to a checked type keeps what needs no change: only `UInt`, `Float64` and
/// vectors change a number, and a pack is coerced element by element.
#[verifier::rlimit(40)]
pub proof fn law_checked_coercion(
    t: Answers,
    v: ValueModel,
    ty: TyModel,
    items: Seq<ValueModel>,
    types: Seq<TyModel>,
    i: int,
)
    ensures
        !is_exact(v) && !(ty is UInt || ty is Float64 || ty is Simd || ty is Tuple || ty is ComptimeList || ty is Variant)
            ==> checked_coerced(t, v, ty) == Ok::<ValueModel, StopModel>(v),
        v is Int ==> (checked_coerced(t, v, TyModel::UInt) matches Ok(ValueModel::UInt(u)) && same_low(
            u as int,
            v->Int_0 as int,
        )),
        v is UInt ==> checked_coerced(t, v, TyModel::UInt) == Ok::<ValueModel, StopModel>(v),
        v is Float64 ==> checked_coerced(t, v, TyModel::Float64) == Ok::<ValueModel, StopModel>(v),
        v is Str ==> checked_coerced(t, v, TyModel::UInt) == Ok::<ValueModel, StopModel>(v) && checked_coerced(
            t,
            v,
            TyModel::Float64,
        ) == Ok::<ValueModel, StopModel>(v),
        items.len() == types.len() && 0 <= i < items.len() && checked_coerced(
            t,
            ValueModel::Tuple(items),
            TyModel::Tuple(types),
        ) is Ok ==> (checked_coerced(t, ValueModel::Tuple(items), TyModel::Tuple(types))->Ok_0 matches ValueModel::Tuple(xs)
            && xs.len() == items.len() && checked_coerced(t, items[i], types[i]) == Ok::<ValueModel, StopModel>(xs[i])),
{
    let whole = checked_coerced(t, ValueModel::Tuple(items), TyModel::Tuple(types));
    assert(whole == plainly_coerced(t, ValueModel::Tuple(items), TyModel::Tuple(types)));
    if items.len() == types.len() && 0 <= i < items.len() && whole is Ok {
        let results = pack_coerced(t, items, types);
        lemma_pack_collected(results, i);
        assert(results[i] == checked_coerced(t, items[i], types[i]));
    }
    assert(!is_exact(v) ==> checked_coerced(t, v, ty) == plainly_coerced(t, v, ty));
    assert(!is_exact(v) ==> checked_coerced(t, v, TyModel::UInt) == plainly_coerced(t, v, TyModel::UInt));
    assert(!is_exact(v) ==> checked_coerced(t, v, TyModel::Float64) == plainly_coerced(t, v, TyModel::Float64));
}

proof fn lemma_pack_collected<T, E>(results: Seq<Result<T, E>>, i: int)
    requires
        collect(results) is Ok,
        0 <= i < results.len(),
    ensures
        results[i] is Ok,
        collect(results)->Ok_0.len() == results.len(),
        collect(results)->Ok_0[i] == results[i]->Ok_0,
    decreases results.len(),
{
    let shorter = results.drop_last();
    assert(collect(shorter) is Ok);
    if shorter.len() > 0 {
        lemma_pack_collected(shorter, if i < shorter.len() { i } else { 0 });
    }
}

} // verus!
