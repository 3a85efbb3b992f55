//! Slices, conversions and the numeric builtins.

use crate::ast::InfixOp;
use crate::ct::wrap64;
use crate::literal::{
    FloatLiteralModel, IntLiteral, denominator, floor_quotient, fraction_order, literal_value,
    numerator,
};
use crate::order::Order;
use crate::runtime::{
    FloatOp, FloatTable, FloatTask, FloatTaskModel, Outcome, Rounding, SimdLanes, SimdLanesModel,
    Stop, StopModel, Value, ValueModel, ask_float, ask_integer, fail_type, float_magnitude,
    float_result, integer_result, kind_name, lane_count, outcome_view, type_error, value_kind,
    values_list_view,
};
use crate::runtime::operators::{
    apply_infix, as_fraction, exact_fraction, exact_int, fraction_from, give_fraction, give_int,
    infix_outcome, literal_like, literal_to_signed, literal_to_unsigned, num_like, numeric_pair,
};
use crate::runtime::scalar::{
    Answers, Num, as_float, as_num, ask_binary, bits_view, compare_floats, division_by_zero,
    float_binary, float_compares, floats_of_nums, give_float, low_signed, low_unsigned, nonzero_u,
    num_floats, num_of, num_unsigned, unsigned_of_num, wrap_unsigned,
};
use crate::runtime::simd::{
    float_content, fraction_rounded, int_rounded, lane_view, lanes_view,
    literal_materialization_error, round_fraction, round_int_literal, unrepresentable,
    value_to_float,
};
use crate::runtime::values::{holds_exact, holds_num, is_exact};
use crate::text::{cat2, cat3, cat4, chars_of, dec_int, str_eq, string_of};
use vstd::prelude::*;

verus! {

/// A value used as an index.
pub open spec fn index_outcome(v: ValueModel) -> Result<i64, StopModel> {
    match v {
        ValueModel::Int(n) => Ok(n),
        ValueModel::IntLiteral(l) => if i64::MIN <= literal_value(l) <= i64::MAX {
            Ok(literal_value(l) as i64)
        } else {
            Err(unrepresentable(dec_int(literal_value(l)), "Int index"@))
        },
        _ => Err(type_error("index must be Int, got "@ + value_kind(v))),
    }
}

/// A value used as an index, which has to be an `Int`.
pub fn value_as_index(v: &Value) -> (r: Result<i64, Stop>)
    ensures
        lane_view(r) == index_outcome(v@),
{
    match v {
        Value::Int(n) => Ok(*n),
        Value::IntLiteral(l) => match l.to_i64() {
            Some(n) => Ok(n),
            None => Err(literal_materialization_error(&l.text(), "Int index")),
        },
        _ => Err(fail_type(cat2("index must be Int, got ", &kind_name(v)))),
    }
}

/// An explicit slice bound: negative ones count from the end, once, and all are
/// clamped to where a slice in the direction can start or stop.
pub open spec fn slice_bound(i: int, len: int, step: int) -> int {
    let j = if i < 0 { i + len } else { i };
    let (least, most) = if step > 0 { (0int, len) } else { (-1int, len - 1) };
    if j < least {
        least
    } else if j > most {
        most
    } else {
        j
    }
}

/// The start, the stop and the step of a slice of a sequence of `len` elements.
pub open spec fn slice_bounds(len: i64, lower: Option<i64>, upper: Option<i64>, step: Option<i64>) -> Result<
    (i64, i64, i64),
    StopModel,
> {
    let by = match step {
        Some(s) => s,
        None => 1,
    };
    if len < 0 {
        Err(type_error("slice length cannot be negative"@))
    } else if by == 0 {
        Err(type_error("slice step cannot be zero"@))
    } else {
        let start = match lower {
            Some(i) => slice_bound(i as int, len as int, by as int) as i64,
            None => if by > 0 { 0 } else { (len - 1) as i64 },
        };
        let stop = match upper {
            Some(i) => slice_bound(i as int, len as int, by as int) as i64,
            None => if by > 0 { len } else { -1i64 },
        };
        Ok((start, stop, by))
    }
}

fn adjust_bound(i: i64, len: i64, step: i64) -> (r: i64)
    requires
        len >= 0,
    ensures
        r == slice_bound(i as int, len as int, step as int),
{
    let j: i64 = if i < 0 { i + len } else { i };
    let (least, most): (i64, i64) = if step > 0 { (0, len) } else { (-1, len - 1) };
    if j < least {
        least
    } else if j > most {
        most
    } else {
        j
    }
}

/// Normalizes a slice against a concrete length.
pub fn normalize_slice_bounds(len: i64, lower: Option<i64>, upper: Option<i64>, step: Option<i64>) -> (r: Result<
    (i64, i64, i64),
    Stop,
>)
    ensures
        lane_view(r) == slice_bounds(len, lower, upper, step),
{
    if len < 0 {
        return Err(fail_type("slice length cannot be negative".to_owned()));
    }
    let by: i64 = match step {
        Some(s) => s,
        None => 1,
    };
    if by == 0 {
        return Err(fail_type("slice step cannot be zero".to_owned()));
    }
    let start: i64 = match lower {
        Some(i) => adjust_bound(i, len, by),
        None => if by > 0 { 0 } else { len - 1 },
    };
    let stop: i64 = match upper {
        Some(i) => adjust_bound(i, len, by),
        None => if by > 0 { len } else { -1 },
    };
    Ok((start, stop, by))
}

/// How far it is from `start` to `stop` in the direction of `step`.
pub open spec fn distance(start: int, stop: int, step: int) -> nat {
    let d = if step > 0 { stop - start } else { start - stop };
    if d > 0 { d as nat } else { 0 }
}

/// The positions from `start` on by `step`, short of `stop`.
pub open spec fn stepped_positions(start: int, stop: int, step: int) -> Seq<usize>
    decreases distance(start, stop, step),
{
    if (step > 0 && start < stop) || (step < 0 && start > stop) {
        seq![start as usize] + stepped_positions(start + step, stop, step)
    } else {
        Seq::empty()
    }
}

/// The positions that a slice selects, or why it selects none.
pub open spec fn slice_positions(
    len: i64,
    lower: Option<i64>,
    upper: Option<i64>,
    step: Option<i64>,
) -> Result<
    Seq<usize>,
    StopModel,
> {
    match slice_bounds(len, lower, upper, step) {
        Ok(b) => Ok(stepped_positions(b.0 as int, b.1 as int, b.2 as int)),
        Err(s) => Err(s),
    }
}

fn walk_positions(start: i64, stop: i64, step: i64) -> (r: Vec<usize>)
    requires
        step != 0,
        step > 0 ==> 0 <= start,
        -1 <= stop <= usize::MAX,
        start <= usize::MAX,
    ensures
        r@ == stepped_positions(start as int, stop as int, step as int),
{
    let mut out: Vec<usize> = Vec::new();
    let mut i: i64 = start;
    let ghost wanted = stepped_positions(start as int, stop as int, step as int);
    assert(out@ + stepped_positions(i as int, stop as int, step as int) =~= wanted);
    while (step > 0 && i < stop) || (step < 0 && i > stop)
        invariant
            step != 0,
            -1 <= stop <= usize::MAX,
            step > 0 ==> 0 <= i,
            step < 0 ==> i <= usize::MAX,
            wanted == out@ + stepped_positions(i as int, stop as int, step as int),
            wanted == stepped_positions(start as int, stop as int, step as int),
        decreases distance(i as int, stop as int, step as int),
    {
        out.push(i as usize);
        let next: i128 = i as i128 + step as i128;
        if next > 0x7fff_ffff_ffff_ffff || next < -0x8000_0000_0000_0000 {
            assert(stepped_positions(next as int, stop as int, step as int) =~= Seq::empty());
            assert(out@ =~= wanted);
            return out;
        }
        i = next as i64;
        assert(out@ + stepped_positions(i as int, stop as int, step as int) =~= wanted);
    }
    assert(out@ =~= wanted);
    out
}

/// The positions that a slice selects from a sequence of `len` elements.
pub fn slice_indices(
    len: i64,
    lower: Option<i64>,
    upper: Option<i64>,
    step: Option<i64>,
) -> (r: Result<Vec<usize>, Stop>)
    requires
        len <= usize::MAX,
    ensures
        lanes_view(r) == slice_positions(len, lower, upper, step),
{
    match normalize_slice_bounds(len, lower, upper, step) {
        Ok(b) => Ok(walk_positions(b.0, b.1, b.2)),
        Err(s) => Err(s),
    }
}

/// Every position that a slice selects is one of the sequence.
pub proof fn law_slice_in_bounds(len: i64, lower: Option<i64>, upper: Option<i64>, step: Option<i64>, i: int)
    requires
        0 <= len <= usize::MAX,
        slice_positions(len, lower, upper, step) is Ok,
        0 <= i < slice_positions(len, lower, upper, step)->Ok_0.len(),
    ensures
        slice_positions(len, lower, upper, step)->Ok_0[i] < len,
{
    let b = slice_bounds(len, lower, upper, step)->Ok_0;
    lemma_positions_between(b.0 as int, b.1 as int, b.2 as int, len as int, i);
}

proof fn lemma_positions_between(start: int, stop: int, step: int, len: int, i: int)
    requires
        step > 0 ==> 0 <= start && stop <= len,
        step < 0 ==> start < len && -1 <= stop,
        0 <= len <= usize::MAX,
        0 <= i < stepped_positions(start, stop, step).len(),
    ensures
        stepped_positions(start, stop, step)[i] < len,
    decreases i,
{
    if i > 0 {
        lemma_positions_between(start + step, stop, step, len, i - 1);
    }
}

/// A whole slice selects every position once, in order.
pub proof fn law_whole_slice(len: i64)
    requires
        0 <= len <= usize::MAX,
    ensures
        slice_positions(len, None, None, None) == Ok::<Seq<usize>, StopModel>(
            Seq::new(len as nat, |i: int| i as usize),
        ),
{
    lemma_positions_from(0, len as int);
    assert(Seq::new(len as nat, |i: int| (0 + i) as usize) =~= Seq::new(len as nat, |i: int| i as usize));
}

proof fn lemma_positions_from(start: int, stop: int)
    requires
        0 <= start <= stop <= usize::MAX,
    ensures
        stepped_positions(start, stop, 1) == Seq::new((stop - start) as nat, |i: int| (start + i) as usize),
    decreases stop - start,
{
    if start < stop {
        lemma_positions_from(start + 1, stop);
    }
    assert(
        stepped_positions(start, stop, 1) =~= Seq::new((stop - start) as nat, |i: int| (start + i) as usize)
    );
}

/// What `String::from_utf8_lossy` reads from bytes.
pub uninterp spec fn lossy_text(bytes: Seq<u8>) -> Seq<char>;

/// `String::from_utf8_lossy`: the text of the bytes where they are UTF-8; else the
/// bytes that are not are replaced, and the contract only names the text.
#[verifier::external_body]
fn read_lossy(bytes: &Vec<u8>) -> (r: String)
    ensures
        r@ == lossy_text(bytes@),
        vstd::utf8::valid_utf8(bytes@) ==> r@ == vstd::utf8::decode_utf8(bytes@),
{
    String::from_utf8_lossy(bytes).into_owned()
}

/// The bytes at positions.
pub open spec fn bytes_at(bytes: Seq<u8>, positions: Seq<usize>) -> Seq<u8> {
    Seq::new(positions.len(), |i: int| bytes[positions[i] as int])
}

/// The bytes that a slice selects, or why it selects none.
pub open spec fn sliced_bytes(
    bytes: Seq<u8>,
    lower: Option<i64>,
    upper: Option<i64>,
    step: Option<i64>,
) -> Result<
    Seq<u8>,
    StopModel,
> {
    match slice_positions(bytes.len() as i64, lower, upper, step) {
        Ok(positions) => Ok(bytes_at(bytes, positions)),
        Err(s) => Err(s),
    }
}

/// The bytes that a slice selects.
pub fn slice_bytes(
    bytes: &Vec<u8>,
    lower: Option<i64>,
    upper: Option<i64>,
    step: Option<i64>,
) -> (r: Result<Vec<u8>, Stop>)
    requires
        bytes@.len() <= i64::MAX,
    ensures
        lanes_view(r) == sliced_bytes(bytes@, lower, upper, step),
{
    let positions: Vec<usize> = match slice_indices(bytes.len() as i64, lower, upper, step) {
        Ok(p) => p,
        Err(s) => return Err(s),
    };
    let mut out: Vec<u8> = Vec::new();
    let len: usize = bytes.len();
    for i in 0..positions.len()
        invariant
            len == bytes@.len(),
            bytes@.len() <= i64::MAX,
            slice_positions(
                bytes@.len() as i64,
                lower,
                upper,
                step,
            ) == Ok::<Seq<usize>, StopModel>(positions@),
            out@.len() == i,
            forall|j: int| 0 <= j < i ==> #[trigger] out@[j] == bytes@[positions@[j] as int],
    {
        proof {
            law_slice_in_bounds(bytes@.len() as i64, lower, upper, step, i as int);
        }
        out.push(bytes[positions[i]]);
    }
    assert(out@ =~= bytes_at(bytes@, positions@));
    Ok(out)
}

/// The text of bytes: what they spell, or where they spell nothing, what a lossy
/// reading makes of them.
pub open spec fn text_of_bytes(bytes: Seq<u8>) -> Seq<char> {
    if vstd::utf8::valid_utf8(bytes) { vstd::utf8::decode_utf8(bytes) } else { lossy_text(bytes) }
}

/// A slice of a text, over its bytes.
#[verifier::opaque]
pub open spec fn sliced(v: ValueModel, lower: Option<i64>, upper: Option<i64>, step: Option<i64>) -> Outcome {
    match v {
        ValueModel::Str(s) => if vstd::utf8::encode_utf8(s).len() > i64::MAX {
            Err(type_error("text is too long to slice"@))
        } else {
            match sliced_bytes(vstd::utf8::encode_utf8(s), lower, upper, step) {
                Ok(bytes) => Ok(ValueModel::Str(text_of_bytes(bytes))),
                Err(e) => Err(e),
            }
        },
        _ => Err(type_error("cannot slice "@ + value_kind(v))),
    }
}

/// Slices a text over its bytes; a character that is split is replaced.
pub fn slice_value(
    v: &Value,
    lower: Option<i64>,
    upper: Option<i64>,
    step: Option<i64>,
) -> (r: Result<Value, Stop>)
    ensures
        outcome_view(r) == sliced(v@, lower, upper, step),
{
    proof {
        reveal(sliced);
    }
    match v {
        Value::Str(s) => {
            let bytes: Vec<u8> = s.as_str().as_bytes_vec();
            if bytes.len() as u64 > 0x7fff_ffff_ffff_ffff {
                return Err(fail_type("text is too long to slice".to_owned()));
            }
            match slice_bytes(&bytes, lower, upper, step) {
                Ok(picked) => Ok(Value::Str(read_lossy(&picked))),
                Err(e) => Err(e),
            }
        },
        _ => Err(fail_type(cat2("cannot slice ", &kind_name(v)))),
    }
}

/// A whole slice gives the text back.
pub proof fn law_whole_slice_is_the_text(s: Seq<char>)
    requires
        vstd::utf8::encode_utf8(s).len() <= i64::MAX,
        vstd::utf8::encode_utf8(s).len() <= usize::MAX,
    ensures
        sliced(ValueModel::Str(s), None, None, None) == Ok::<ValueModel, StopModel>(ValueModel::Str(s)),
{
    reveal(sliced);
    let bytes = vstd::utf8::encode_utf8(s);
    law_whole_slice(bytes.len() as i64);
    assert(bytes_at(bytes, Seq::new(bytes.len(), |i: int| i as usize)) =~= bytes);
    vstd::utf8::encode_utf8_valid_utf8(s);
    vstd::utf8::encode_utf8_decode_utf8(s);
}

/// The smaller or the larger of two runtime numbers, in their common kind.
pub open spec fn num_extreme(t: Answers, is_min: bool, a: Num, b: Num) -> Outcome {
    if a is F || b is F {
        match num_floats(t, a, b) {
            Err(s) => Err(s),
            Ok(p) => Ok(
                ValueModel::Float64(if float_compares(InfixOp::Le, p.0, p.1) == is_min { p.0 } else { p.1 }),
            ),
        }
    } else {
        match (a, b) {
            (Num::I(x), Num::I(y)) => Ok(ValueModel::Int(if (x <= y) == is_min { x } else { y })),
            _ => {
                let (x, y) = (num_unsigned(a), num_unsigned(b));
                Ok(ValueModel::UInt(if (x <= y) == is_min { x } else { y }))
            },
        }
    }
}

fn extreme_floats(t: &FloatTable, is_min: bool, a: Num, b: Num) -> (r: Result<Value, Stop>)
    requires
        a is F || b is F,
    ensures
        outcome_view(r) == num_extreme(t@, is_min, a, b),
{
    match floats_of_nums(t, a, b) {
        Err(s) => Err(s),
        Ok(p) => Ok(Value::Float64(if compare_floats(InfixOp::Le, p.0, p.1) == is_min { p.0 } else { p.1 })),
    }
}

fn extreme_num(t: &FloatTable, is_min: bool, a: Num, b: Num) -> (r: Result<Value, Stop>)
    ensures
        outcome_view(r) == num_extreme(t@, is_min, a, b),
{
    match (a, b) {
        (Num::F(_), _) => extreme_floats(t, is_min, a, b),
        (_, Num::F(_)) => extreme_floats(t, is_min, a, b),
        (Num::I(x), Num::I(y)) => Ok(Value::Int(if (x <= y) == is_min { x } else { y })),
        _ => {
            let (x, y): (u64, u64) = (unsigned_of_num(a), unsigned_of_num(b));
            Ok(Value::UInt(if (x <= y) == is_min { x } else { y }))
        },
    }
}

/// `min` and `max` of two numbers. Literals are compared exactly and stay what they
/// are; a literal next to a runtime number takes its kind.
#[verifier::opaque]
pub open spec fn extreme(t: Answers, is_min: bool, a: ValueModel, b: ValueModel) -> Outcome {
    if is_exact(a) && is_exact(b) {
        let left = (!(fraction_order(as_fraction(a), as_fraction(b)) is Greater)) == is_min;
        Ok(if left { a } else { b })
    } else if !numeric_pair(a, b) {
        Err(type_error("min()/max() expect numeric values, got "@ + value_kind(a) + " and "@ + value_kind(b)))
    } else if is_exact(a) {
        match num_like(t, a, b) {
            Ok(n) => num_extreme(t, is_min, n, num_of(b)->Some_0),
            Err(s) => Err(s),
        }
    } else if is_exact(b) {
        match num_like(t, b, a) {
            Ok(n) => num_extreme(t, is_min, num_of(a)->Some_0, n),
            Err(s) => Err(s),
        }
    } else {
        num_extreme(t, is_min, num_of(a)->Some_0, num_of(b)->Some_0)
    }
}

/// `min(a, b)` and `max(a, b)`.
pub fn builtin_min_max(t: &FloatTable, is_min: bool, a: &Value, b: &Value) -> (r: Result<Value, Stop>)
    ensures
        outcome_view(r) == extreme(t@, is_min, a@, b@),
{
    proof {
        reveal(extreme);
    }
    if let (Some(x), Some(y)) = (fraction_from(a), fraction_from(b)) {
        let above: bool = match x.numeric_order(&y) {
            Order::Greater => true,
            _ => false,
        };
        return if !above == is_min { Ok(a.copy()) } else { Ok(b.copy()) };
    }
    if !((holds_exact(a) || holds_num(a)) && (holds_exact(b) || holds_num(b))) {
        return Err(
            fail_type(
                cat4("min()/max() expect numeric values, got ", &kind_name(a), " and ", &kind_name(b)),
            ),
        );
    }
    let x: Num = if holds_exact(a) {
        match literal_like(t, a, b) {
            Ok(n) => n,
            Err(s) => return Err(s),
        }
    } else {
        match as_num(a) {
            Some(n) => n,
            None => Num::I(0),
        }
    };
    let y: Num = if holds_exact(b) {
        match literal_like(t, b, a) {
            Ok(n) => n,
            Err(s) => return Err(s),
        }
    } else {
        match as_num(b) {
            Some(n) => n,
            None => Num::I(0),
        }
    };
    extreme_num(t, is_min, x, y)
}

/// A number rounded to a whole one.
pub open spec fn float_whole(t: Answers, rounding: Rounding, r: Result<u64, StopModel>) -> Outcome {
    match r {
        Ok(bits) => as_float(float_result(t, FloatTaskModel::Whole { rounding, a: bits })),
        Err(s) => Err(s),
    }
}

fn give_whole(t: &FloatTable, rounding: Rounding, r: Result<u64, Stop>) -> (v: Result<Value, Stop>)
    ensures
        outcome_view(v) == float_whole(t@, rounding, bits_view(r)),
{
    match r {
        Ok(bits) => give_float(ask_float(t, FloatTask::Whole { rounding, a: bits })),
        Err(s) => Err(s),
    }
}

/// `round(x)`: the nearest whole number, ties away from zero.
pub fn builtin_round(t: &FloatTable, v: &Value) -> (r: Result<Value, Stop>)
    ensures
        outcome_view(r) == float_whole(t@, Rounding::Nearest, float_content(t@, v@)),
{
    give_whole(t, Rounding::Nearest, value_to_float(t, v))
}

/// The direction that a rounding method means.
pub open spec fn direction_of(method: Seq<char>) -> Rounding {
    if method == "__floor__"@ {
        Rounding::Floor
    } else if method == "__ceil__"@ {
        Rounding::Ceil
    } else {
        Rounding::Trunc
    }
}

/// A number rounded in a direction, in its own kind: integers are whole already.
pub open spec fn rounded(t: Answers, method: Seq<char>, v: ValueModel) -> Outcome {
    match v {
        ValueModel::Int(_) => Ok(v),
        ValueModel::UInt(_) => Ok(v),
        ValueModel::Float64(bits) => float_whole(t, direction_of(method), Ok(bits)),
        _ => Err(type_error(method + "() expects a numeric value, got "@ + value_kind(v))),
    }
}

/// Rounds a number in the direction that a method means.
pub fn builtin_round_dir(t: &FloatTable, method: &str, v: &Value) -> (r: Result<Value, Stop>)
    ensures
        outcome_view(r) == rounded(t@, method@, v@),
{
    match v {
        Value::Int(_) => Ok(v.copy()),
        Value::UInt(_) => Ok(v.copy()),
        Value::Float64(bits) => {
            let rounding: Rounding = if str_eq(method, "__floor__") {
                Rounding::Floor
            } else if str_eq(method, "__ceil__") {
                Rounding::Ceil
            } else {
                Rounding::Trunc
            };
            give_whole(t, rounding, Ok(*bits))
        },
        _ => Err(fail_type(cat3(method, "() expects a numeric value, got ", &kind_name(v)))),
    }
}

/// The quotient rounded towards positive infinity.
pub open spec fn ceil_quotient(a: int, b: int) -> int {
    -floor_quotient(-a, b)
}

/// Ceiling division of two numbers of one kind. It wraps.
#[verifier::opaque]
pub open spec fn ceil_outcome(t: Answers, a: ValueModel, b: ValueModel) -> Outcome {
    match (a, b) {
        (ValueModel::Int(x), ValueModel::Int(y)) => if y == 0 {
            Err(division_by_zero())
        } else {
            Ok(ValueModel::Int(wrap64(ceil_quotient(x as int, y as int))))
        },
        (ValueModel::UInt(x), ValueModel::UInt(y)) => if y == 0 {
            Err(division_by_zero())
        } else {
            Ok(ValueModel::UInt((x / y + if x % y != 0 { 1int } else { 0int }) as u64))
        },
        (ValueModel::Float64(x), ValueModel::Float64(y)) => float_whole(
            t,
            Rounding::Ceil,
            float_binary(t, FloatOp::Div, x, y),
        ),
        _ => Err(
            type_error(
                "__ceildiv__ expects two numeric values of the same type, got "@ + value_kind(a) + " and "@ + value_kind(b),
            ),
        ),
    }
}

/// `ceildiv(a, b)`.
pub fn builtin_ceildiv(t: &FloatTable, a: &Value, b: &Value) -> (r: Result<Value, Stop>)
    ensures
        outcome_view(r) == ceil_outcome(t@, a@, b@),
{
    proof {
        reveal(ceil_outcome);
    }
    match (a, b) {
        (Value::Int(x), Value::Int(y)) => {
            let divisor: IntLiteral = IntLiteral::from_i64(*y);
            match IntLiteral::from_i64(*x).neg().floor_div(&divisor) {
                Some(q) => Ok(Value::Int(literal_to_signed(&q.neg()))),
                None => Err(fail_type("integer division or modulo by zero".to_owned())),
            }
        },
        (Value::UInt(x), Value::UInt(y)) => match nonzero_u(*y) {
            Ok(y) => {
                let (x, q): (u64, u64) = (*x, *x / y);
                if x % y != 0 {
                    assert(q < u64::MAX) by (nonlinear_arith)
                        requires
                            q == x as int / y as int,
                            x as int % y as int != 0,
                            y > 0,
                            x <= u64::MAX,
                    ;
                    Ok(Value::UInt(q + 1))
                } else {
                    Ok(Value::UInt(q))
                }
            },
            Err(s) => Err(s),
        },
        (Value::Float64(x), Value::Float64(y)) => give_whole(
            t,
            Rounding::Ceil,
            ask_binary(t, FloatOp::Div, *x, *y),
        ),
        _ => Err(
            fail_type(
                cat4(
                    "__ceildiv__ expects two numeric values of the same type, got ",
                    &kind_name(a),
                    " and ",
                    &kind_name(b),
                ),
            ),
        ),
    }
}

/// The floored quotient and the remainder, as a pack.
pub open spec fn divmod_outcome(t: Answers, a: ValueModel, b: ValueModel) -> Outcome {
    match infix_outcome(t, InfixOp::FloorDiv, a, b) {
        Err(s) => Err(s),
        Ok(q) => match infix_outcome(t, InfixOp::Mod, a, b) {
            Err(s) => Err(s),
            Ok(r) => Ok(ValueModel::Tuple(seq![q, r])),
        },
    }
}

/// `divmod(a, b)` in internal pack storage.
pub fn builtin_divmod(t: &FloatTable, a: &Value, b: &Value) -> (r: Result<Value, Stop>)
    ensures
        outcome_view(r) == divmod_outcome(t@, a@, b@),
{
    let q: Value = match apply_infix(t, InfixOp::FloorDiv, a, b) {
        Ok(q) => q,
        Err(s) => return Err(s),
    };
    let m: Value = match apply_infix(t, InfixOp::Mod, a, b) {
        Ok(m) => m,
        Err(s) => return Err(s),
    };
    let mut parts: Vec<Value> = Vec::new();
    let ghost (x, y) = (q@, m@);
    parts.push(q);
    parts.push(m);
    assert(values_list_view(parts) =~= seq![x, y]);
    Ok(Value::Tuple(parts))
}

/// `Error(msg)`: an error value of a text.
pub fn builtin_error(v: &Value) -> (r: Result<Value, Stop>)
    ensures
        outcome_view(r) == (match v@ {
            ValueModel::Str(s) => Ok::<ValueModel, StopModel>(ValueModel::Error(s)),
            _ => Err(type_error("Error() expects a String, got "@ + value_kind(v@))),
        }),
{
    match v {
        Value::Str(s) => Ok(Value::Error(s.clone())),
        _ => Err(fail_type(cat2("Error() expects a String, got ", &kind_name(v)))),
    }
}

/// The magnitude of a number. The least `Int` is its own.
#[verifier::opaque]
pub open spec fn abs_outcome(v: ValueModel) -> Outcome {
    match v {
        ValueModel::Int(n) => Ok(ValueModel::Int(wrap64(if n < 0 { -n } else { n as int }))),
        ValueModel::UInt(_) => Ok(v),
        ValueModel::Float64(bits) => Ok(ValueModel::Float64(float_magnitude(bits) as u64)),
        ValueModel::IntLiteral(l) => Ok(
            exact_int(if literal_value(l) < 0 { -literal_value(l) } else { literal_value(l) }),
        ),
        ValueModel::FloatLiteral(l) => Ok(
            exact_fraction(if numerator(l) < 0 { -numerator(l) } else { numerator(l) }, denominator(l)),
        ),
        _ => Err(type_error("abs() expects a numeric value, got "@ + value_kind(v))),
    }
}

/// `abs(x)`.
pub fn builtin_abs(v: &Value) -> (r: Result<Value, Stop>)
    ensures
        outcome_view(r) == abs_outcome(v@),
{
    proof {
        reveal(abs_outcome);
    }
    match v {
        Value::Int(n) => {
            let wide: i128 = *n as i128;
            Ok(Value::Int(low_signed(if wide < 0 { -wide } else { wide })))
        },
        Value::UInt(_) => Ok(v.copy()),
        Value::Float64(bits) => Ok(Value::Float64(*bits % 0x8000_0000_0000_0000)),
        Value::IntLiteral(l) => if l.is_negative() { Ok(give_int(&l.neg())) } else { Ok(give_int(l)) },
        Value::FloatLiteral(l) => Ok(give_fraction(&l.abs())),
        _ => Err(fail_type(cat2("abs() expects a numeric value, got ", &kind_name(v)))),
    }
}

/// The scalar that a conversion makes.
#[derive(Debug, Clone, Copy, PartialEq, Eq, Structural)]
pub enum Scalar {
    Int,
    UInt,
    Bool,
    Float64,
}

/// The scalar that a conversion of this name makes.
pub open spec fn scalar_of(name: Seq<char>) -> Scalar {
    if name == "Int"@ {
        Scalar::Int
    } else if name == "UInt"@ {
        Scalar::UInt
    } else if name == "Bool"@ {
        Scalar::Bool
    } else {
        Scalar::Float64
    }
}

fn find_scalar(name: &str) -> (r: Scalar)
    ensures
        r == scalar_of(name@),
{
    if str_eq(name, "Int") {
        Scalar::Int
    } else if str_eq(name, "UInt") {
        Scalar::UInt
    } else if str_eq(name, "Bool") {
        Scalar::Bool
    } else {
        Scalar::Float64
    }
}

/// An integer as a scalar: integers keep their low bits, and a truth value is
/// whether it is not zero.
pub open spec fn int_as(t: Answers, to: Scalar, n: int, float: FloatTaskModel) -> Outcome {
    match to {
        Scalar::Int => Ok(ValueModel::Int(wrap64(n))),
        Scalar::UInt => Ok(ValueModel::UInt(wrap_unsigned(n))),
        Scalar::Bool => Ok(ValueModel::Bool(n != 0)),
        Scalar::Float64 => as_float(float_result(t, float)),
    }
}

fn wide_as(t: &FloatTable, to: Scalar, n: i128, float: FloatTask) -> (r: Result<Value, Stop>)
    ensures
        outcome_view(r) == int_as(t@, to, n as int, float@),
{
    match to {
        Scalar::Int => Ok(Value::Int(low_signed(n))),
        Scalar::UInt => Ok(Value::UInt(low_unsigned(n))),
        Scalar::Bool => Ok(Value::Bool(n != 0)),
        Scalar::Float64 => give_float(ask_float(t, float)),
    }
}

/// A literal as a scalar: its integer part and its rounding are given.
pub open spec fn literal_converted(to: Scalar, n: int, rounded: Result<u64, StopModel>) -> Outcome {
    match to {
        Scalar::Int => Ok(ValueModel::Int(wrap64(n))),
        Scalar::UInt => Ok(ValueModel::UInt(wrap_unsigned(n))),
        Scalar::Bool => Ok(ValueModel::Bool(n != 0)),
        Scalar::Float64 => as_float(rounded),
    }
}

fn literal_as(to: Scalar, n: &IntLiteral) -> (r: Value)
    requires
        !(to is Float64),
    ensures
        forall|rounded: Result<u64, StopModel>|
            #[trigger] literal_converted(to, literal_value(n@), rounded) == Ok::<ValueModel, StopModel>(r@),
{
    match to {
        Scalar::Int => Value::Int(literal_to_signed(n)),
        Scalar::UInt => Value::UInt(literal_to_unsigned(n)),
        _ => Value::Bool(!n.is_zero()),
    }
}

/// A fraction rounded towards zero.
pub open spec fn truncated_fraction(l: FloatLiteralModel) -> int {
    if numerator(l) < 0 { -((-numerator(l)) / denominator(l)) } else { numerator(l) / denominator(l) }
}

/// A floating-point number as a scalar: integers truncate and saturate, and a truth
/// value is whether it is not zero.
pub open spec fn float_as(t: Answers, to: Scalar, bits: u64) -> Outcome {
    match to {
        Scalar::Int => match integer_result(t, FloatTaskModel::ToInt(bits)) {
            Ok(v) => Ok(ValueModel::Int(wrap64(v as int))),
            Err(s) => Err(s),
        },
        Scalar::UInt => match integer_result(t, FloatTaskModel::ToUInt(bits)) {
            Ok(v) => Ok(ValueModel::UInt(wrap_unsigned(v as int))),
            Err(s) => Err(s),
        },
        Scalar::Bool => Ok(ValueModel::Bool(float_compares(InfixOp::Ne, bits, 0))),
        Scalar::Float64 => Ok(ValueModel::Float64(bits)),
    }
}

fn bits_as(t: &FloatTable, to: Scalar, bits: u64) -> (r: Result<Value, Stop>)
    ensures
        outcome_view(r) == float_as(t@, to, bits),
{
    match to {
        Scalar::Int => match ask_integer(t, FloatTask::ToInt(bits)) {
            Ok(v) => Ok(Value::Int(low_signed(v))),
            Err(s) => Err(s),
        },
        Scalar::UInt => match ask_integer(t, FloatTask::ToUInt(bits)) {
            Ok(v) => Ok(Value::UInt(low_unsigned(v))),
            Err(s) => Err(s),
        },
        Scalar::Bool => Ok(Value::Bool(compare_floats(InfixOp::Ne, bits, 0))),
        Scalar::Float64 => Ok(Value::Float64(bits)),
    }
}

/// One, as binary64 bits.
pub open spec fn float_one() -> u64 {
    0x3ff0_0000_0000_0000
}

/// A truth value as a scalar.
pub open spec fn truth_as(to: Scalar, b: bool) -> ValueModel {
    match to {
        Scalar::Int => ValueModel::Int(if b { 1 } else { 0 }),
        Scalar::UInt => ValueModel::UInt(if b { 1 } else { 0 }),
        Scalar::Bool => ValueModel::Bool(b),
        Scalar::Float64 => ValueModel::Float64(if b { float_one() } else { 0 }),
    }
}

fn bool_as(to: Scalar, b: bool) -> (r: Value)
    ensures
        r@ == truth_as(to, b),
{
    match to {
        Scalar::Int => Value::Int(if b { 1 } else { 0 }),
        Scalar::UInt => Value::UInt(if b { 1 } else { 0 }),
        Scalar::Bool => Value::Bool(b),
        Scalar::Float64 => Value::Float64(if b { 0x3ff0_0000_0000_0000 } else { 0 }),
    }
}

/// The failure of a conversion.
pub open spec fn inconvertible(name: Seq<char>, v: ValueModel) -> StopModel {
    type_error(name + "() expects a numeric or Bool value, got "@ + value_kind(v))
}

/// A conversion of a number or a truth value to a scalar. One lane of a vector is a
/// scalar.
#[verifier::opaque]
pub open spec fn converted(t: Answers, name: Seq<char>, v: ValueModel) -> Outcome {
    let to = scalar_of(name);
    match v {
        ValueModel::IntLiteral(l) => literal_converted(
            to,
            literal_value(l),
            int_rounded(t, l, false, "Float64"@),
        ),
        ValueModel::FloatLiteral(l) => if to is Bool {
            Ok(ValueModel::Bool(numerator(l) != 0))
        } else {
            literal_converted(to, truncated_fraction(l), fraction_rounded(t, l, false, "Float64"@))
        },
        ValueModel::Int(n) => int_as(t, to, n as int, FloatTaskModel::FromInt(n)),
        ValueModel::UInt(n) => int_as(t, to, n as int, FloatTaskModel::FromUInt(n)),
        ValueModel::Float64(bits) => float_as(t, to, bits),
        ValueModel::Bool(b) => Ok(truth_as(to, b)),
        ValueModel::Simd { lanes, .. } => if lane_count(lanes) != 1 {
            Err(inconvertible(name, v))
        } else {
            match lanes {
                SimdLanesModel::Int(l) => int_as(t, to, l[0] as int, FloatTaskModel::FromWide(l[0])),
                SimdLanesModel::Float(l) => float_as(t, to, l[0]),
                SimdLanesModel::Bool(l) => Ok(truth_as(to, l[0])),
            }
        },
        _ => Err(inconvertible(name, v)),
    }
}

/// `Int(x)`, `UInt(x)`, `Float64(x)` and `Bool(x)`.
pub fn builtin_convert(t: &FloatTable, name: &str, v: &Value) -> (r: Result<Value, Stop>)
    ensures
        outcome_view(r) == converted(t@, name@, v@),
{
    proof {
        reveal(converted);
    }
    let to: Scalar = find_scalar(name);
    match v {
        Value::IntLiteral(l) => match to {
            Scalar::Float64 => give_float(round_int_literal(t, l, false, "Float64")),
            _ => Ok(literal_as(to, l)),
        },
        Value::FloatLiteral(l) => {
            if let Scalar::Bool = to {
                return Ok(Value::Bool(!l.is_zero()));
            }
            match to {
                Scalar::Float64 => give_float(round_fraction(t, l, false, "Float64")),
                _ => Ok(literal_as(to, &l.trunc_to_int())),
            }
        },
        Value::Int(n) => wide_as(t, to, *n as i128, FloatTask::FromInt(*n)),
        Value::UInt(n) => wide_as(t, to, *n as i128, FloatTask::FromUInt(*n)),
        Value::Float64(bits) => bits_as(t, to, *bits),
        Value::Bool(b) => Ok(bool_as(to, *b)),
        Value::Simd { lanes, .. } => {
            if lanes.width() != 1 {
                return Err(fail_type(cat3(name, "() expects a numeric or Bool value, got ", &kind_name(v))));
            }
            match lanes {
                SimdLanes::Int(l) => wide_as(t, to, l[0], FloatTask::FromWide(l[0])),
                SimdLanes::Float(l) => bits_as(t, to, l[0]),
                SimdLanes::Bool(l) => Ok(bool_as(to, l[0])),
            }
        },
        _ => Err(fail_type(cat3(name, "() expects a numeric or Bool value, got ", &kind_name(v)))),
    }
}

/// What reading a line gives: the line without its ending.
pub open spec fn without_ending(line: Seq<char>) -> Seq<char> {
    if line.len() > 0 && line.last() == '\n' {
        let rest = line.drop_last();
        if rest.len() > 0 && rest.last() == '\r' { rest.drop_last() } else { rest }
    } else {
        line
    }
}

/// The line without its ending.
pub fn trim_ending(line: &str) -> (r: String)
    ensures
        r@ == without_ending(line@),
{
    let mut v: Vec<char> = chars_of(line);
    let n: usize = v.len();
    if n > 0 && v[n - 1] == '\n' {
        v.pop();
        assert(v@ =~= line@.drop_last());
        let m: usize = v.len();
        if m > 0 && v[m - 1] == '\r' {
            v.pop();
            assert(v@ =~= line@.drop_last().drop_last());
        }
    }
    string_of(&v)
}

/// The prompt of `input`, which has to be a text.
pub open spec fn prompt_outcome(v: ValueModel) -> Result<Seq<char>, StopModel> {
    match v {
        ValueModel::Str(s) => Ok(s),
        _ => Err(type_error("input() expects a String prompt, got "@ + value_kind(v))),
    }
}

/// The prompt of `input`.
pub fn prompt_of(v: &Value) -> (r: Result<String, Stop>)
    ensures
        match r {
            Ok(s) => prompt_outcome(v@) == Ok::<Seq<char>, StopModel>(s@),
            Err(e) => prompt_outcome(v@) == Err::<Seq<char>, StopModel>(e@),
        },
{
    match v {
        Value::Str(s) => Ok(s.clone()),
        _ => Err(fail_type(cat2("input() expects a String prompt, got ", &kind_name(v)))),
    }
}

} // verus!
