//! Vectors and their operators.

use crate::ast::{Dtype, InfixOp, dtype_is_float};
use crate::ct::wrap64;
use crate::data::{copy_bools, copy_i128s, copy_u64s};
use crate::debug::{debug_of_dtype, dtype_debug};
use crate::literal::{
    FloatLiteral, FloatLiteralModel, IntLiteral, IntLiteralModel, fraction_of, fraction_text,
    int_pow, law_floor_parts, lemma_pow_values, literal_value, signed_low,
};
use crate::mir::verify::instantiate::shorter;
use crate::order::{Order, int_order};
use crate::outcome::{collect, lemma_collect_err, lemma_collect_ok};
use crate::runtime::{
    FloatOp, FloatTable, FloatTask, FloatTaskModel, Outcome, SimdLanes, SimdLanesModel, Stop,
    StopModel, Value, ValueModel, answer_to, ask_float, fail_type, float_result, kind_name,
    lane_count, outcome_view, type_error, value_kind,
};
use crate::runtime::scalar::{
    Answers, ask_binary, bits_view, compare_floats, compares, float_binary, float_compares,
    holds_in_order, is_comparison, low_signed, order_holds,
};
use crate::text::{cat2, cat4, cat5, dec_int};
use vstd::prelude::*;

verus! {

/// The bits and the signedness of an integer element type.
pub open spec fn dtype_bits(dtype: Dtype) -> Option<(u32, bool)> {
    match dtype {
        Dtype::Int => Some((64, true)),
        Dtype::Int8 => Some((8, true)),
        Dtype::Int16 => Some((16, true)),
        Dtype::Int32 => Some((32, true)),
        Dtype::Int64 => Some((64, true)),
        Dtype::UInt8 => Some((8, false)),
        Dtype::UInt16 => Some((16, false)),
        Dtype::UInt32 => Some((32, false)),
        Dtype::UInt64 => Some((64, false)),
        _ => None,
    }
}

/// The bits and the signedness of an integer element type.
pub fn integer_dtype_bits(dtype: Dtype) -> (r: Option<(u32, bool)>)
    ensures
        r == dtype_bits(dtype),
{
    match dtype {
        Dtype::Int => Some((64, true)),
        Dtype::Int8 => Some((8, true)),
        Dtype::Int16 => Some((16, true)),
        Dtype::Int32 => Some((32, true)),
        Dtype::Int64 => Some((64, true)),
        Dtype::UInt8 => Some((8, false)),
        Dtype::UInt16 => Some((16, false)),
        Dtype::UInt32 => Some((32, false)),
        Dtype::UInt64 => Some((64, false)),
        _ => None,
    }
}

/// An integer wrapped to the width of an element type; `int` lanes have 64 bits.
pub open spec fn wrapped(dtype: Dtype, v: int) -> int {
    match dtype {
        Dtype::Int8 => signed_low(v, 8),
        Dtype::Int16 => signed_low(v, 16),
        Dtype::Int32 => signed_low(v, 32),
        Dtype::Int | Dtype::Int64 => signed_low(v, 64),
        Dtype::UInt8 => v % int_pow(2, 8),
        Dtype::UInt16 => v % int_pow(2, 16),
        Dtype::UInt32 => v % int_pow(2, 32),
        Dtype::UInt64 => v % int_pow(2, 64),
        _ => v,
    }
}

fn low_bits(v: i128, modulus: i128) -> (r: i128)
    requires
        0 < modulus <= 0x1_0000_0000_0000_0000,
    ensures
        r == v as int % modulus as int,
        0 <= r < modulus,
{
    if v >= 0 {
        return (v as u128 % modulus as u128) as i128;
    }
    let over: u128 = (-(v + 1)) as u128;
    let rest: i128 = (over % modulus as u128) as i128;
    proof {
        let (m, k) = (modulus as int, over as int / modulus as int);
        vstd::arithmetic::div_mod::lemma_fundamental_div_mod(over as int, m);
        vstd::arithmetic::div_mod::lemma_mod_bound(over as int, m);
        assert(v == (-k - 1) * m + (m - 1 - rest)) by (nonlinear_arith)
            requires
                over == m * k + rest,
                v == -over - 1,
        ;
        vstd::arithmetic::div_mod::lemma_fundamental_div_mod_converse(v as int, m, -k - 1, m - 1 - rest);
    }
    modulus - 1 - rest
}

fn low_signed_bits(v: i128, modulus: i128, Ghost(bits): Ghost<nat>) -> (r: i128)
    requires
        0 < modulus <= 0x1_0000_0000_0000_0000,
        modulus == int_pow(2, bits),
    ensures
        r == signed_low(v as int, bits),
{
    let low: i128 = low_bits(v, modulus);
    if 2 * low < modulus { low } else { low - modulus }
}

/// Wraps an integer to the width of an element type.
pub fn wrap(dtype: Dtype, v: i128) -> (r: i128)
    ensures
        r == wrapped(dtype, v as int),
{
    proof {
        lemma_pow_values();
    }
    match dtype {
        Dtype::Int8 => low_signed_bits(v, 0x100, Ghost(8)),
        Dtype::Int16 => low_signed_bits(v, 0x1_0000, Ghost(16)),
        Dtype::Int32 => low_signed_bits(v, 0x1_0000_0000, Ghost(32)),
        Dtype::Int | Dtype::Int64 => low_signed_bits(v, 0x1_0000_0000_0000_0000, Ghost(64)),
        Dtype::UInt8 => low_bits(v, 0x100),
        Dtype::UInt16 => low_bits(v, 0x1_0000),
        Dtype::UInt32 => low_bits(v, 0x1_0000_0000),
        Dtype::UInt64 => low_bits(v, 0x1_0000_0000_0000_0000),
        _ => v,
    }
}

/// Wrapping twice is wrapping once.
pub proof fn law_wrap_idempotent(dtype: Dtype, v: int)
    ensures
        wrapped(dtype, wrapped(dtype, v)) == wrapped(dtype, v),
{
    lemma_pow_values();
}

/// A wrapped integer lies in the range of a sized element type.
pub proof fn law_wrap_range(dtype: Dtype, v: int)
    requires
        dtype_bits(dtype) is Some,
    ensures
        ({
            let (bits, signed) = dtype_bits(dtype)->Some_0;
            let w = wrapped(dtype, v);
            if signed {
                -int_pow(2, (bits - 1) as nat) <= w < int_pow(2, (bits - 1) as nat)
            } else {
                0 <= w < int_pow(2, bits as nat)
            }
        }),
{
    lemma_pow_values();
}

/// A vector as a value: one lane of `float64` or `int` is the native scalar.
pub open spec fn vector_value(dtype: Dtype, lanes: SimdLanesModel) -> ValueModel {
    match lanes {
        SimdLanesModel::Float(v) => if dtype == Dtype::Float64 && v.len() == 1 {
            ValueModel::Float64(v[0])
        } else {
            ValueModel::Simd { dtype, lanes }
        },
        SimdLanesModel::Int(v) => if dtype == Dtype::Int && v.len() == 1 {
            ValueModel::Int(wrap64(v[0] as int))
        } else {
            ValueModel::Simd { dtype, lanes }
        },
        _ => ValueModel::Simd { dtype, lanes },
    }
}

/// A vector as a value.
pub fn simd_value(dtype: Dtype, lanes: SimdLanes) -> (r: Value)
    ensures
        r@ == vector_value(dtype, lanes@),
{
    match &lanes {
        SimdLanes::Float(v) => {
            if dtype == Dtype::Float64 && v.len() == 1 {
                return Value::Float64(v[0]);
            }
        },
        SimdLanes::Int(v) => {
            if dtype == Dtype::Int && v.len() == 1 {
                return Value::Int(low_signed(v[0]));
            }
        },
        SimdLanes::Bool(_) => {},
    }
    Value::Simd { dtype, lanes }
}

/// The failure of a literal that a destination cannot represent.
pub open spec fn unrepresentable(text: Seq<char>, destination: Seq<char>) -> StopModel {
    type_error("literal value "@ + text + " cannot be represented as "@ + destination)
}

/// Fails because a destination cannot represent a literal.
pub fn literal_materialization_error(text: &str, destination: &str) -> (r: Stop)
    ensures
        r@ == unrepresentable(text@, destination@),
{
    fail_type(cat4("literal value ", text, " cannot be represented as ", destination))
}

/// The task of rounding a fraction to binary64, or to binary32.
pub open spec fn rounding_task(l: FloatLiteralModel, single: bool) -> FloatTaskModel {
    if single { FloatTaskModel::SingleExact(l) } else { FloatTaskModel::FromExact(l) }
}

/// A fraction, spelled as it is, rounded for a destination. A negative result says that
/// the destination has no number near it.
pub open spec fn rounded_for(
    t: Answers,
    l: FloatLiteralModel,
    text: Seq<char>,
    single: bool,
    destination: Seq<char>,
) -> Result<u64, StopModel> {
    match answer_to(t, rounding_task(l, single)) {
        Some(v) => if v < 0 {
            Err(unrepresentable(text, destination))
        } else {
            float_result(t, rounding_task(l, single))
        },
        None => float_result(t, rounding_task(l, single)),
    }
}

fn round_for(
    t: &FloatTable,
    l: FloatLiteral,
    text: &str,
    single: bool,
    destination: &str,
) -> (r: Result<u64, Stop>)
    ensures
        bits_view(r) == rounded_for(t@, l@, text@, single, destination@),
{
    let task: FloatTask = if single { FloatTask::SingleExact(l) } else { FloatTask::FromExact(l) };
    if let Some(v) = t.get(&task) {
        if v < 0 {
            return Err(literal_materialization_error(text, destination));
        }
    }
    ask_float(t, task)
}

/// An integer literal rounded for a destination.
pub open spec fn int_rounded(t: Answers, l: IntLiteralModel, single: bool, destination: Seq<char>) -> Result<
    u64,
    StopModel,
> {
    rounded_for(t, fraction_of(literal_value(l), 1), dec_int(literal_value(l)), single, destination)
}

/// Rounds an integer literal for a destination.
pub fn round_int_literal(
    t: &FloatTable,
    l: &IntLiteral,
    single: bool,
    destination: &str,
) -> (r: Result<u64, Stop>)
    ensures
        bits_view(r) == int_rounded(t@, l@, single, destination@),
{
    round_for(t, whole_fraction(l), &l.text(), single, destination)
}

/// A fraction rounded for a destination.
pub open spec fn fraction_rounded(
    t: Answers,
    l: FloatLiteralModel,
    single: bool,
    destination: Seq<char>,
) -> Result<
    u64,
    StopModel,
> {
    rounded_for(t, l, fraction_text(l), single, destination)
}

/// Rounds a fraction for a destination.
pub fn round_fraction(
    t: &FloatTable,
    l: &FloatLiteral,
    single: bool,
    destination: &str,
) -> (r: Result<u64, Stop>)
    ensures
        bits_view(r) == fraction_rounded(t@, l@, single, destination@),
{
    round_for(t, l.copy(), &l.text(), single, destination)
}

/// The failure of a value that is no lane.
pub open spec fn bad_lane_value(v: ValueModel, kind: Seq<char>) -> StopModel {
    type_error("cannot use "@ + value_kind(v) + " as "@ + kind + " SIMD element"@)
}

fn reject_lane(v: &Value, kind: &str) -> (r: Stop)
    ensures
        r@ == bad_lane_value(v@, kind@),
{
    fail_type(cat5("cannot use ", &kind_name(v), " as ", kind, " SIMD element"))
}

/// The model of an outcome that gives a lane.
pub open spec fn lane_view<T>(r: Result<T, Stop>) -> Result<T, StopModel> {
    match r {
        Ok(v) => Ok(v),
        Err(s) => Err(s@),
    }
}

/// The one integer lane of a vector.
pub open spec fn single_int(v: ValueModel) -> Option<i128> {
    match v {
        ValueModel::Simd {
            lanes: SimdLanesModel::Int(l),
            ..
        } => if l.len() == 1 { Some(l[0]) } else { None },
        _ => None,
    }
}

fn one_int(v: &Value) -> (r: Option<i128>)
    ensures
        r == single_int(v@),
{
    match v {
        Value::Simd { lanes, .. } => match lanes {
            SimdLanes::Int(l) => if l.len() == 1 { Some(l[0]) } else { None },
            _ => None,
        },
        _ => None,
    }
}

/// The integer content of a scalar.
pub open spec fn int_content(v: ValueModel) -> Result<i128, StopModel> {
    match v {
        ValueModel::Int(n) => Ok(n as i128),
        ValueModel::IntLiteral(l) => if i128::MIN <= literal_value(l) <= i128::MAX {
            Ok(literal_value(l) as i128)
        } else {
            Err(unrepresentable(dec_int(literal_value(l)), "integer SIMD lane"@))
        },
        ValueModel::UInt(n) => Ok(n as i128),
        ValueModel::Bool(b) => Ok(if b { 1i128 } else { 0i128 }),
        _ => match single_int(v) {
            Some(n) => Ok(n),
            None => Err(bad_lane_value(v, "an integer"@)),
        },
    }
}

fn literal_to_wide(l: &IntLiteral) -> (r: Option<i128>)
    ensures
        match r {
            Some(v) => v == literal_value(l@),
            None => !(i128::MIN <= literal_value(l@) <= i128::MAX),
        },
{
    let two: IntLiteral = IntLiteral::from_u64(2);
    let modulus: IntLiteral = two.raised(64);
    proof {
        lemma_pow_values();
        law_floor_parts(literal_value(l@), 0x1_0000_0000_0000_0000);
    }
    match (l.floor_div(&modulus), l.floor_mod(&modulus)) {
        (Some(high), Some(low)) => {
            let low: u64 = match low.to_u64() {
                Some(v) => v,
                None => 0,
            };
            match high.to_i64() {
                Some(h) => Some(h as i128 * 0x1_0000_0000_0000_0000i128 + low as i128),
                None => None,
            }
        },
        _ => None,
    }
}

/// The integer content of a scalar.
pub fn value_to_int(v: &Value) -> (r: Result<i128, Stop>)
    ensures
        lane_view(r) == int_content(v@),
{
    match v {
        Value::Int(n) => Ok(*n as i128),
        Value::IntLiteral(l) => match literal_to_wide(l) {
            Some(n) => Ok(n),
            None => Err(literal_materialization_error(&l.text(), "integer SIMD lane")),
        },
        Value::UInt(n) => Ok(*n as i128),
        Value::Bool(b) => Ok(if *b { 1 } else { 0 }),
        _ => match one_int(v) {
            Some(n) => Ok(n),
            None => Err(reject_lane(v, "an integer")),
        },
    }
}

/// A literal as an integer lane.
pub open spec fn literal_lane(l: IntLiteralModel, dtype: Dtype) -> Option<i128> {
    match dtype_bits(dtype) {
        Some((bits, signed)) => Some(
            if signed {
                signed_low(literal_value(l), bits as nat) as i128
            } else {
                (literal_value(l) % int_pow(2, bits as nat)) as i128
            },
        ),
        None => None,
    }
}

/// A literal as an integer lane; none, unless the element type is an integer one.
pub fn materialize_literal_int_lane(l: &IntLiteral, dtype: Dtype) -> (r: Option<i128>)
    ensures
        r == literal_lane(l@, dtype),
{
    match integer_dtype_bits(dtype) {
        Some((bits, signed)) => {
            if signed {
                Some(l.wrapping_signed(bits) as i128)
            } else {
                Some(l.wrapping_unsigned(bits) as i128)
            }
        },
        None => None,
    }
}

/// A value as an integer lane.
pub open spec fn int_lane(v: ValueModel, dtype: Dtype) -> Result<i128, StopModel> {
    match v {
        ValueModel::IntLiteral(l) => match literal_lane(l, dtype) {
            Some(n) => Ok(n),
            None => Err(type_error(dtype_debug(dtype) + " is not an integer SIMD dtype"@)),
        },
        _ => match int_content(v) {
            Ok(n) => Ok(wrapped(dtype, n as int) as i128),
            Err(s) => Err(s),
        },
    }
}

/// A value as an integer lane.
pub fn value_to_int_lane(v: &Value, dtype: Dtype) -> (r: Result<i128, Stop>)
    ensures
        lane_view(r) == int_lane(v@, dtype),
{
    match v {
        Value::IntLiteral(l) => match materialize_literal_int_lane(l, dtype) {
            Some(n) => Ok(n),
            None => Err(fail_type(cat2(debug_of_dtype(dtype), " is not an integer SIMD dtype"))),
        },
        _ => match value_to_int(v) {
            Ok(n) => Ok(wrap(dtype, n)),
            Err(s) => Err(s),
        },
    }
}

/// The floating-point content of a scalar.
pub open spec fn float_content(t: Answers, v: ValueModel) -> Result<u64, StopModel> {
    match v {
        ValueModel::Int(n) => float_result(t, FloatTaskModel::FromInt(n)),
        ValueModel::UInt(n) => float_result(t, FloatTaskModel::FromUInt(n)),
        ValueModel::Float64(bits) => Ok(bits),
        ValueModel::IntLiteral(l) => int_rounded(t, l, false, "floating SIMD lane"@),
        ValueModel::FloatLiteral(l) => fraction_rounded(t, l, false, "floating SIMD lane"@),
        ValueModel::Simd { lanes, .. } => match lanes {
            SimdLanesModel::Float(l) => if l.len() == 1 { Ok(l[0]) } else { Err(bad_lane_value(v, "a float"@)) },
            SimdLanesModel::Int(l) => if l.len() == 1 {
                float_result(t, FloatTaskModel::FromWide(l[0]))
            } else {
                Err(bad_lane_value(v, "a float"@))
            },
            _ => Err(bad_lane_value(v, "a float"@)),
        },
        _ => Err(bad_lane_value(v, "a float"@)),
    }
}

/// The exact fraction of an integer literal.
pub fn whole_fraction(l: &IntLiteral) -> (r: FloatLiteral)
    ensures
        r@ == fraction_of(literal_value(l@), 1),
{
    FloatLiteral::from_int(l).canonical()
}

/// The floating-point content of a scalar.
pub fn value_to_float(t: &FloatTable, v: &Value) -> (r: Result<u64, Stop>)
    ensures
        bits_view(r) == float_content(t@, v@),
{
    match v {
        Value::Int(n) => ask_float(t, FloatTask::FromInt(*n)),
        Value::UInt(n) => ask_float(t, FloatTask::FromUInt(*n)),
        Value::Float64(bits) => Ok(*bits),
        Value::IntLiteral(l) => round_int_literal(t, l, false, "floating SIMD lane"),
        Value::FloatLiteral(l) => round_fraction(t, l, false, "floating SIMD lane"),
        Value::Simd { lanes, .. } => match lanes {
            SimdLanes::Float(l) => if l.len() == 1 { Ok(l[0]) } else { Err(reject_lane(v, "a float")) },
            SimdLanes::Int(l) => if l.len() == 1 {
                ask_float(t, FloatTask::FromWide(l[0]))
            } else {
                Err(reject_lane(v, "a float"))
            },
            _ => Err(reject_lane(v, "a float")),
        },
        _ => Err(reject_lane(v, "a float")),
    }
}

/// A number rounded to the precision of its lane.
pub open spec fn lane_rounded(t: Answers, dtype: Dtype, r: Result<u64, StopModel>) -> Result<u64, StopModel> {
    match r {
        Ok(bits) => if dtype == Dtype::Float32 { float_result(t, FloatTaskModel::Single(bits)) } else { Ok(bits) },
        Err(s) => Err(s),
    }
}

/// Rounds a number to the precision of its lane.
pub fn round_lane(t: &FloatTable, dtype: Dtype, x: Result<u64, Stop>) -> (r: Result<u64, Stop>)
    ensures
        bits_view(r) == lane_rounded(t@, dtype, bits_view(x)),
{
    match x {
        Ok(bits) => if dtype == Dtype::Float32 { ask_float(t, FloatTask::Single(bits)) } else { Ok(bits) },
        Err(s) => Err(s),
    }
}

/// A value as a floating-point lane. A literal is rounded once.
pub open spec fn float_lane(t: Answers, v: ValueModel, dtype: Dtype) -> Result<u64, StopModel> {
    match v {
        ValueModel::IntLiteral(l) => if dtype == Dtype::Float32 {
            int_rounded(t, l, true, "Float32"@)
        } else {
            float_content(t, v)
        },
        ValueModel::FloatLiteral(l) => if dtype == Dtype::Float32 {
            fraction_rounded(t, l, true, "Float32"@)
        } else {
            float_content(t, v)
        },
        _ => lane_rounded(t, dtype, float_content(t, v)),
    }
}

/// A value as a floating-point lane.
pub fn value_to_float_lane(t: &FloatTable, v: &Value, dtype: Dtype) -> (r: Result<u64, Stop>)
    ensures
        bits_view(r) == float_lane(t@, v@, dtype),
{
    match v {
        Value::IntLiteral(l) => if dtype == Dtype::Float32 {
            round_int_literal(t, l, true, "Float32")
        } else {
            value_to_float(t, v)
        },
        Value::FloatLiteral(l) => if dtype == Dtype::Float32 {
            round_fraction(t, l, true, "Float32")
        } else {
            value_to_float(t, v)
        },
        _ => round_lane(t, dtype, value_to_float(t, v)),
    }
}

/// A value as a truth lane.
pub open spec fn bool_lane(v: ValueModel) -> Result<bool, StopModel> {
    match v {
        ValueModel::Bool(b) => Ok(b),
        ValueModel::Simd { lanes: SimdLanesModel::Bool(l), .. } => if l.len() == 1 {
            Ok(l[0])
        } else {
            Err(bad_lane_value(v, "a bool"@))
        },
        _ => Err(bad_lane_value(v, "a bool"@)),
    }
}

/// A value as a truth lane.
pub fn value_to_bool_lane(v: &Value) -> (r: Result<bool, Stop>)
    ensures
        lane_view(r) == bool_lane(v@),
{
    match v {
        Value::Bool(b) => Ok(*b),
        Value::Simd { lanes, .. } => match lanes {
            SimdLanes::Bool(l) => if l.len() == 1 { Ok(l[0]) } else { Err(reject_lane(v, "a bool")) },
            _ => Err(reject_lane(v, "a bool")),
        },
        _ => Err(reject_lane(v, "a bool")),
    }
}

/// The same lane everywhere.
pub open spec fn splat<T>(r: Result<T, StopModel>, width: nat) -> Result<Seq<T>, StopModel> {
    match r {
        Ok(x) => Ok(Seq::new(width, |i: int| x)),
        Err(s) => Err(s),
    }
}

/// The same lane everywhere.
pub fn repeat_lane<T: Copy>(x: T, width: usize) -> (r: Vec<T>)
    ensures
        r@ == Seq::new(width as nat, |i: int| x),
{
    let mut out: Vec<T> = Vec::new();
    for i in 0..width
        invariant
            out@ == Seq::new(i as nat, |j: int| x),
    {
        out.push(x);
        assert(out@ =~= Seq::new((i + 1) as nat, |j: int| x));
    }
    out
}

/// The model of an outcome that gives lanes.
pub open spec fn lanes_view<T>(r: Result<Vec<T>, Stop>) -> Result<Seq<T>, StopModel> {
    match r {
        Ok(v) => Ok(v@),
        Err(s) => Err(s@),
    }
}

/// An operand as integer lanes: its own, or a scalar everywhere.
pub open spec fn int_lanes(v: ValueModel, dtype: Dtype, width: nat) -> Result<Seq<i128>, StopModel> {
    match v {
        ValueModel::Simd { lanes: SimdLanesModel::Int(l), .. } => Ok(l),
        _ => splat(int_lane(v, dtype), width),
    }
}

/// An operand as integer lanes.
pub fn to_int_lanes(v: &Value, dtype: Dtype, width: usize) -> (r: Result<Vec<i128>, Stop>)
    ensures
        lanes_view(r) == int_lanes(v@, dtype, width as nat),
{
    if let Value::Simd { lanes, .. } = v {
        if let SimdLanes::Int(l) = lanes {
            return Ok(copy_i128s(l));
        }
    }
    match value_to_int_lane(v, dtype) {
        Ok(x) => Ok(repeat_lane(x, width)),
        Err(s) => Err(s),
    }
}

/// An operand as floating-point lanes: its own, or a scalar everywhere.
pub open spec fn float_lanes(
    t: Answers,
    v: ValueModel,
    dtype: Dtype,
    width: nat,
) -> Result<Seq<u64>, StopModel> {
    match v {
        ValueModel::Simd { lanes: SimdLanesModel::Float(l), .. } => Ok(l),
        _ => splat(float_lane(t, v, dtype), width),
    }
}

/// An operand as floating-point lanes.
pub fn to_float_lanes(t: &FloatTable, v: &Value, dtype: Dtype, width: usize) -> (r: Result<Vec<u64>, Stop>)
    ensures
        lanes_view(r) == float_lanes(t@, v@, dtype, width as nat),
{
    if let Value::Simd { lanes, .. } = v {
        if let SimdLanes::Float(l) = lanes {
            return Ok(copy_u64s(l));
        }
    }
    match value_to_float_lane(t, v, dtype) {
        Ok(x) => Ok(repeat_lane(x, width)),
        Err(s) => Err(s),
    }
}

/// An operand as truth lanes: its own, or a scalar everywhere.
pub open spec fn bool_lanes(v: ValueModel, width: nat) -> Result<Seq<bool>, StopModel> {
    match v {
        ValueModel::Simd { lanes: SimdLanesModel::Bool(l), .. } => Ok(l),
        _ => splat(bool_lane(v), width),
    }
}

/// An operand as truth lanes.
pub fn to_bool_lanes(v: &Value, width: usize) -> (r: Result<Vec<bool>, Stop>)
    ensures
        lanes_view(r) == bool_lanes(v@, width as nat),
{
    if let Value::Simd { lanes, .. } = v {
        if let SimdLanes::Bool(l) = lanes {
            return Ok(copy_bools(l));
        }
    }
    match value_to_bool_lane(v) {
        Ok(x) => Ok(repeat_lane(x, width)),
        Err(s) => Err(s),
    }
}

/// The element type and the width of a vector.
pub open spec fn vector_shape(v: ValueModel) -> Option<(Dtype, nat)> {
    match v {
        ValueModel::Simd { dtype, lanes } => Some((dtype, lane_count(lanes))),
        _ => None,
    }
}

/// The element type and the width of a vector.
pub fn simd_shape(v: &Value) -> (r: Option<(Dtype, usize)>)
    ensures
        match r {
            Some(s) => vector_shape(v@) == Some((s.0, s.1 as nat)),
            None => vector_shape(v@) is None,
        },
{
    match v {
        Value::Simd { dtype, lanes } => Some((*dtype, lanes.width())),
        _ => None,
    }
}

/// Arithmetic on integer lanes, before it wraps to the width. Other operators give
/// zero.
pub open spec fn lane_arith(op: InfixOp, a: i128, b: i128) -> i128 {
    match op {
        InfixOp::Add => vstd::wrapping::i128_specs::wrapping_add(a, b),
        InfixOp::Sub => vstd::wrapping::i128_specs::wrapping_sub(a, b),
        InfixOp::Mul => vstd::wrapping::i128_specs::wrapping_mul(a, b),
        _ => 0,
    }
}

/// Arithmetic on integer lanes.
pub fn int_arith(op: InfixOp, a: i128, b: i128) -> (r: i128)
    ensures
        r == lane_arith(op, a, b),
{
    match op {
        InfixOp::Add => a.wrapping_add(b),
        InfixOp::Sub => a.wrapping_sub(b),
        InfixOp::Mul => a.wrapping_mul(b),
        _ => 0,
    }
}

/// Comparison of integer lanes.
pub fn compare_lanes(op: InfixOp, a: i128, b: i128) -> (r: bool)
    ensures
        r == order_holds(op, int_order(a as int, b as int)),
{
    let order: Order = if a < b {
        Order::Less
    } else if a == b {
        Order::Same
    } else {
        Order::Greater
    };
    holds_in_order(op, order)
}

/// Arithmetic on floating-point lanes. Other operators give zero.
pub open spec fn float_lane_arith(t: Answers, op: InfixOp, a: u64, b: u64) -> Result<u64, StopModel> {
    match op {
        InfixOp::Add => float_binary(t, FloatOp::Add, a, b),
        InfixOp::Sub => float_binary(t, FloatOp::Sub, a, b),
        InfixOp::Mul => float_binary(t, FloatOp::Mul, a, b),
        InfixOp::Div => float_binary(t, FloatOp::Div, a, b),
        _ => Ok(0),
    }
}

/// Arithmetic on floating-point lanes.
pub fn float_arith(t: &FloatTable, op: InfixOp, a: u64, b: u64) -> (r: Result<u64, Stop>)
    ensures
        bits_view(r) == float_lane_arith(t@, op, a, b),
{
    match op {
        InfixOp::Add => ask_binary(t, FloatOp::Add, a, b),
        InfixOp::Sub => ask_binary(t, FloatOp::Sub, a, b),
        InfixOp::Mul => ask_binary(t, FloatOp::Mul, a, b),
        InfixOp::Div => ask_binary(t, FloatOp::Div, a, b),
        _ => Ok(0),
    }
}

fn shorter_of(a: usize, b: usize) -> (r: usize)
    ensures
        r == shorter(a as nat, b as nat),
{
    if a < b { a } else { b }
}

/// An operator on integer lanes: comparisons give a mask.
pub open spec fn int_lanes_op(op: InfixOp, dtype: Dtype, xs: Seq<i128>, ys: Seq<i128>) -> ValueModel {
    let n = shorter(xs.len(), ys.len());
    if is_comparison(op) {
        ValueModel::Simd {
            dtype: Dtype::Bool,
            lanes: SimdLanesModel::Bool(
                Seq::new(n, |i: int| order_holds(op, int_order(xs[i] as int, ys[i] as int))),
            ),
        }
    } else {
        ValueModel::Simd {
            dtype,
            lanes: SimdLanesModel::Int(
                Seq::new(n, |i: int| wrapped(dtype, lane_arith(op, xs[i], ys[i]) as int) as i128),
            ),
        }
    }
}

fn op_int_lanes(op: InfixOp, dtype: Dtype, xs: &Vec<i128>, ys: &Vec<i128>) -> (r: Value)
    ensures
        r@ == int_lanes_op(op, dtype, xs@, ys@),
{
    let n: usize = shorter_of(xs.len(), ys.len());
    if compares(op) {
        let mut out: Vec<bool> = Vec::new();
        for i in 0..n
            invariant
                n == shorter(xs@.len(), ys@.len()),
                out@.len() == i,
                forall|j: int|
                    0 <= j < i ==> #[trigger] out@[j] == order_holds(
                        op,
                        int_order(xs@[j] as int, ys@[j] as int),
                    ),
        {
            out.push(compare_lanes(op, xs[i], ys[i]));
        }
        let ghost wanted = Seq::new(
            n as nat,
            |i: int| order_holds(op, int_order(xs@[i] as int, ys@[i] as int)),
        );
        assert(out@ =~= wanted);
        Value::Simd { dtype: Dtype::Bool, lanes: SimdLanes::Bool(out) }
    } else {
        let mut out: Vec<i128> = Vec::new();
        for i in 0..n
            invariant
                n == shorter(xs@.len(), ys@.len()),
                out@.len() == i,
                forall|j: int|
                    0 <= j < i ==> #[trigger] out@[j] == wrapped(
                        dtype,
                        lane_arith(op, xs@[j], ys@[j]) as int,
                    ) as i128,
        {
            out.push(wrap(dtype, int_arith(op, xs[i], ys[i])));
        }
        let ghost wanted = Seq::new(
            n as nat,
            |i: int| wrapped(dtype, lane_arith(op, xs@[i], ys@[i]) as int) as i128,
        );
        assert(out@ =~= wanted);
        Value::Simd { dtype, lanes: SimdLanes::Int(out) }
    }
}

/// An operator on truth lanes.
pub open spec fn bool_lanes_op(op: InfixOp, xs: Seq<bool>, ys: Seq<bool>) -> ValueModel {
    ValueModel::Simd {
        dtype: Dtype::Bool,
        lanes: SimdLanesModel::Bool(
            Seq::new(
                shorter(xs.len(), ys.len()),
                |i: int|
                    match op {
                        InfixOp::Eq => xs[i] == ys[i],
                        InfixOp::Ne => xs[i] != ys[i],
                        _ => false,
                    },
            ),
        ),
    }
}

fn op_bool_lanes(op: InfixOp, xs: &Vec<bool>, ys: &Vec<bool>) -> (r: Value)
    ensures
        r@ == bool_lanes_op(op, xs@, ys@),
{
    let n: usize = shorter_of(xs.len(), ys.len());
    let mut out: Vec<bool> = Vec::new();
    for i in 0..n
        invariant
            n == shorter(xs@.len(), ys@.len()),
            out@.len() == i,
            forall|j: int|
                0 <= j < i ==> #[trigger] out@[j] == (match op {
                    InfixOp::Eq => xs@[j] == ys@[j],
                    InfixOp::Ne => xs@[j] != ys@[j],
                    _ => false,
                }),
    {
        out.push(
            match op {
                InfixOp::Eq => xs[i] == ys[i],
                InfixOp::Ne => xs[i] != ys[i],
                _ => false,
            },
        );
    }
    let ghost wanted = Seq::new(
        n as nat,
        |i: int|
            match op {
                InfixOp::Eq => xs@[i] == ys@[i],
                InfixOp::Ne => xs@[i] != ys@[i],
                _ => false,
            },
    );
    assert(out@ =~= wanted);
    Value::Simd { dtype: Dtype::Bool, lanes: SimdLanes::Bool(out) }
}

/// The results of arithmetic on floating-point lanes.
pub open spec fn float_lane_results(t: Answers, op: InfixOp, dtype: Dtype, xs: Seq<u64>, ys: Seq<u64>) -> Seq<
    Result<u64, StopModel>,
> {
    Seq::new(
        shorter(xs.len(), ys.len()),
        |i: int| lane_rounded(t, dtype, float_lane_arith(t, op, xs[i], ys[i])),
    )
}

/// An operator on floating-point lanes.
pub open spec fn float_lanes_op(t: Answers, op: InfixOp, dtype: Dtype, xs: Seq<u64>, ys: Seq<u64>) -> Outcome {
    if is_comparison(op) {
        Ok(
            ValueModel::Simd {
                dtype: Dtype::Bool,
                lanes: SimdLanesModel::Bool(
                    Seq::new(shorter(xs.len(), ys.len()), |i: int| float_compares(op, xs[i], ys[i])),
                ),
            },
        )
    } else {
        match collect(float_lane_results(t, op, dtype, xs, ys)) {
            Ok(v) => Ok(ValueModel::Simd { dtype, lanes: SimdLanesModel::Float(v) }),
            Err(s) => Err(s),
        }
    }
}

fn op_float_lanes(
    t: &FloatTable,
    op: InfixOp,
    dtype: Dtype,
    xs: &Vec<u64>,
    ys: &Vec<u64>,
) -> (r: Result<Value, Stop>)
    ensures
        outcome_view(r) == float_lanes_op(t@, op, dtype, xs@, ys@),
{
    let n: usize = shorter_of(xs.len(), ys.len());
    if compares(op) {
        let mut out: Vec<bool> = Vec::new();
        for i in 0..n
            invariant
                n == shorter(xs@.len(), ys@.len()),
                out@.len() == i,
                forall|j: int| 0 <= j < i ==> #[trigger] out@[j] == float_compares(op, xs@[j], ys@[j]),
        {
            out.push(compare_floats(op, xs[i], ys[i]));
        }
        let ghost wanted = Seq::new(n as nat, |i: int| float_compares(op, xs@[i], ys@[i]));
        assert(out@ =~= wanted);
        return Ok(Value::Simd { dtype: Dtype::Bool, lanes: SimdLanes::Bool(out) });
    }
    let ghost results = float_lane_results(t@, op, dtype, xs@, ys@);
    let mut out: Vec<u64> = Vec::new();
    for i in 0..n
        invariant
            n == shorter(xs@.len(), ys@.len()),
            !is_comparison(op),
            results == float_lane_results(t@, op, dtype, xs@, ys@),
            out@.len() == i,
            forall|j: int| 0 <= j < i ==> #[trigger] results[j] == Ok::<u64, StopModel>(out@[j]),
    {
        match round_lane(t, dtype, float_arith(t, op, xs[i], ys[i])) {
            Ok(bits) => {
                assert(results[i as int] == Ok::<u64, StopModel>(bits));
                out.push(bits);
            },
            Err(s) => {
                assert(results[i as int] == Err::<u64, StopModel>(s@));
                proof {
                    lemma_collect_err(results, i as int, s@);
                }
                return Err(s);
            },
        }
    }
    proof {
        lemma_collect_ok(results, out@);
    }
    Ok(Value::Simd { dtype, lanes: SimdLanes::Float(out) })
}

/// An operator on vectors; a scalar operand splats to the other's type and width.
#[verifier::opaque]
pub open spec fn vector_outcome(t: Answers, op: InfixOp, l: ValueModel, r: ValueModel) -> Outcome {
    let shape = match vector_shape(l) {
        Some(s) => Some(s),
        None => vector_shape(r),
    };
    match shape {
        None => Err(type_error("SIMD dispatch requires at least one SIMD operand"@)),
        Some((dtype, width)) => if dtype == Dtype::Bool {
            match bool_lanes(l, width) {
                Err(s) => Err(s),
                Ok(xs) => match bool_lanes(r, width) {
                    Err(s) => Err(s),
                    Ok(ys) => Ok(bool_lanes_op(op, xs, ys)),
                },
            }
        } else if dtype_is_float(dtype) {
            match float_lanes(t, l, dtype, width) {
                Err(s) => Err(s),
                Ok(xs) => match float_lanes(t, r, dtype, width) {
                    Err(s) => Err(s),
                    Ok(ys) => float_lanes_op(t, op, dtype, xs, ys),
                },
            }
        } else {
            match int_lanes(l, dtype, width) {
                Err(s) => Err(s),
                Ok(xs) => match int_lanes(r, dtype, width) {
                    Err(s) => Err(s),
                    Ok(ys) => Ok(int_lanes_op(op, dtype, xs, ys)),
                },
            }
        },
    }
}

/// Applies an operator to vectors, lane by lane.
pub fn simd_binop(t: &FloatTable, op: InfixOp, l: &Value, r: &Value) -> (v: Result<Value, Stop>)
    ensures
        outcome_view(v) == vector_outcome(t@, op, l@, r@),
{
    proof {
        reveal(vector_outcome);
    }
    let shape: Option<(Dtype, usize)> = match simd_shape(l) {
        Some(s) => Some(s),
        None => simd_shape(r),
    };
    let (dtype, width): (Dtype, usize) = match shape {
        Some(s) => s,
        None => return Err(fail_type("SIMD dispatch requires at least one SIMD operand".to_owned())),
    };
    if dtype == Dtype::Bool {
        let xs: Vec<bool> = match to_bool_lanes(l, width) {
            Ok(v) => v,
            Err(s) => return Err(s),
        };
        match to_bool_lanes(r, width) {
            Ok(ys) => Ok(op_bool_lanes(op, &xs, &ys)),
            Err(s) => Err(s),
        }
    } else if dtype.is_float() {
        let xs: Vec<u64> = match to_float_lanes(t, l, dtype, width) {
            Ok(v) => v,
            Err(s) => return Err(s),
        };
        match to_float_lanes(t, r, dtype, width) {
            Ok(ys) => op_float_lanes(t, op, dtype, &xs, &ys),
            Err(s) => Err(s),
        }
    } else {
        let xs: Vec<i128> = match to_int_lanes(l, dtype, width) {
            Ok(v) => v,
            Err(s) => return Err(s),
        };
        match to_int_lanes(r, dtype, width) {
            Ok(ys) => Ok(op_int_lanes(op, dtype, &xs, &ys)),
            Err(s) => Err(s),
        }
    }
}

} // verus!
