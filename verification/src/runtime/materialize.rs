//! Giving literals and numbers their checked types.

use crate::ast::{Dtype, dtype_is_float};
use crate::ct::wrap64;
use crate::debug::{debug_of_dtype, dtype_debug};
use crate::literal::literal_value;
use crate::mir::verify::instantiate::shorter;
use crate::outcome::{collect, lemma_collect_err, lemma_collect_ok};
use crate::runtime::{
    FloatTable, FloatTask, FloatTaskModel, Outcome, SimdLanes, SimdLanesModel, Stop, StopModel,
    Value, ValueModel, ask_float, fail_type, float_result, kind_name, outcome_view, type_error,
    value_kind, values_list_view,
};
use crate::runtime::lanes::{simd_from_values, vector_of};
use crate::runtime::operators::{literal_to_signed, literal_to_unsigned};
use crate::runtime::scalar::{Answers, as_float, bits_view, give_float, to_unsigned, wrap_unsigned};
use crate::runtime::simd::{
    fraction_rounded, int_rounded, literal_lane, literal_materialization_error,
    materialize_literal_int_lane, repeat_lane, round_fraction, round_int_literal, simd_value,
    unrepresentable, vector_value,
};
use crate::runtime::values::{holds_exact, is_exact};
use crate::text::{cat4, dec_int};
use crate::types::{Ty, TyModel, copy_tys, same_tys, ty_text, tys_view};
use vstd::prelude::*;

verus! {

/// A floating-point lane as a vector of one lane.
pub open spec fn as_lane(dtype: Dtype, r: Result<u64, StopModel>) -> Outcome {
    match r {
        Ok(bits) => Ok(vector_value(dtype, SimdLanesModel::Float(seq![bits]))),
        Err(s) => Err(s),
    }
}

fn give_lane(dtype: Dtype, r: Result<u64, Stop>) -> (v: Result<Value, Stop>)
    ensures
        outcome_view(v) == as_lane(dtype, bits_view(r)),
{
    match r {
        Ok(bits) => {
            let one: Vec<u64> = repeat_lane(bits, 1);
            assert(one@ =~= seq![bits]);
            Ok(simd_value(dtype, SimdLanes::Float(one)))
        },
        Err(s) => Err(s),
    }
}

/// A literal as one lane of an element type.
pub open spec fn literal_as_lane(t: Answers, v: ValueModel, dtype: Dtype) -> Option<Outcome> {
    match v {
        ValueModel::IntLiteral(l) => Some(
            if dtype_is_float(dtype) {
                as_lane(dtype, int_rounded(t, l, dtype == Dtype::Float32, dtype_debug(dtype)))
            } else {
                match literal_lane(l, dtype) {
                    Some(n) => Ok(vector_value(dtype, SimdLanesModel::Int(seq![n]))),
                    None => Err(unrepresentable(dec_int(literal_value(l)), dtype_debug(dtype))),
                }
            },
        ),
        ValueModel::FloatLiteral(l) => if dtype_is_float(dtype) {
            Some(as_lane(dtype, fraction_rounded(t, l, dtype == Dtype::Float32, dtype_debug(dtype))))
        } else {
            None
        },
        _ => None,
    }
}

/// The failure of a value that is no literal of the type.
pub open spec fn immaterial(v: ValueModel, target: TyModel) -> StopModel {
    type_error("cannot materialize "@ + value_kind(v) + " as "@ + ty_text(target))
}

/// A literal given the runtime type that checking selected.
#[verifier::opaque]
pub open spec fn literal_materialized(t: Answers, v: ValueModel, target: TyModel) -> Outcome {
    match (v, target) {
        (ValueModel::IntLiteral(l), TyModel::Int) => Ok(ValueModel::Int(wrap64(literal_value(l)))),
        (ValueModel::IntLiteral(l), TyModel::UInt) => Ok(ValueModel::UInt(wrap_unsigned(literal_value(l)))),
        (ValueModel::IntLiteral(l), TyModel::Float64) => as_float(
            int_rounded(t, l, false, "Float64"@),
        ),
        (
            ValueModel::FloatLiteral(l),
            TyModel::Float64,
        ) => as_float(fraction_rounded(t, l, false, "Float64"@)),
        (_, TyModel::Simd { dtype, width }) => match literal_as_lane(t, v, dtype) {
            Some(o) => if width == 1 { o } else { Err(immaterial(v, target)) },
            None => Err(immaterial(v, target)),
        },
        _ => Err(immaterial(v, target)),
    }
}

fn reject_literal(v: &Value, target: &Ty) -> (r: Stop)
    ensures
        r@ == immaterial(v@, target@),
{
    fail_type(cat4("cannot materialize ", &kind_name(v), " as ", &target.text()))
}

/// Gives a literal the runtime type that checking selected.
pub fn materialize_literal(t: &FloatTable, v: &Value, target: &Ty) -> (r: Result<Value, Stop>)
    ensures
        outcome_view(r) == literal_materialized(t@, v@, target@),
{
    proof {
        reveal(literal_materialized);
    }
    match (v, target) {
        (Value::IntLiteral(l), Ty::Int) => Ok(Value::Int(literal_to_signed(l))),
        (Value::IntLiteral(l), Ty::UInt) => Ok(Value::UInt(literal_to_unsigned(l))),
        (Value::IntLiteral(l), Ty::Float64) => give_float(round_int_literal(t, l, false, "Float64")),
        (Value::FloatLiteral(l), Ty::Float64) => give_float(round_fraction(t, l, false, "Float64")),
        (Value::IntLiteral(l), Ty::Simd { dtype, width }) => {
            if *width != 1 {
                Err(reject_literal(v, target))
            } else if dtype.is_float() {
                give_lane(*dtype, round_int_literal(t, l, *dtype == Dtype::Float32, debug_of_dtype(*dtype)))
            } else {
                match materialize_literal_int_lane(l, *dtype) {
                    Some(n) => {
                        let one: Vec<i128> = repeat_lane(n, 1);
                        assert(one@ =~= seq![n]);
                        Ok(simd_value(*dtype, SimdLanes::Int(one)))
                    },
                    None => Err(literal_materialization_error(&l.text(), debug_of_dtype(*dtype))),
                }
            }
        },
        (Value::FloatLiteral(l), Ty::Simd { dtype, width }) => {
            if *width == 1 && dtype.is_float() {
                give_lane(*dtype, round_fraction(t, l, *dtype == Dtype::Float32, debug_of_dtype(*dtype)))
            } else {
                Err(reject_literal(v, target))
            }
        },
        _ => Err(reject_literal(v, target)),
    }
}

/// An outcome, or something else where it failed. A result that is still needed is
/// still needed.
pub open spec fn or_else(o: Outcome, other: Outcome) -> Outcome {
    match o {
        Ok(v) => Ok(v),
        Err(StopModel::Need(task)) => Err(StopModel::Need(task)),
        Err(StopModel::Error(_)) => other,
    }
}

/// A value coerced to a checked type at a boundary: literals materialize, numbers
/// widen, and packs, lists and variants do so inside. What cannot stays as it is.
pub open spec fn checked_coerced(t: Answers, v: ValueModel, ty: TyModel) -> Outcome
    decreases ty, 1int,
{
    if is_exact(v) {
        or_else(literal_materialized(t, v, ty), plainly_coerced(t, v, ty))
    } else {
        plainly_coerced(t, v, ty)
    }
}

/// The coercion of a value that does not materialize.
pub open spec fn plainly_coerced(t: Answers, v: ValueModel, ty: TyModel) -> Outcome
    decreases ty, 0int,
{
    match ty {
        TyModel::UInt => match v {
            ValueModel::Int(n) => Ok(ValueModel::UInt(wrap_unsigned(n as int))),
            _ => Ok(v),
        },
        TyModel::Float64 => match v {
            ValueModel::Int(n) => as_float(float_result(t, FloatTaskModel::FromInt(n))),
            ValueModel::UInt(n) => as_float(float_result(t, FloatTaskModel::FromUInt(n))),
            _ => Ok(v),
        },
        TyModel::Simd { dtype, width } => if width == 1 {
            or_else(vector_of(t, dtype, 1, seq![v]), Ok(v))
        } else {
            Ok(v)
        },
        TyModel::Tuple(types) => match v {
            ValueModel::Tuple(items) => match collect(pack_coerced(t, items, types)) {
                Ok(xs) => Ok(ValueModel::Tuple(xs)),
                Err(s) => Err(s),
            },
            _ => Ok(v),
        },
        TyModel::ComptimeList(element) => match v {
            ValueModel::ComptimeList(items) => match collect(list_coerced(t, items, *element)) {
                Ok(xs) => Ok(ValueModel::ComptimeList(xs)),
                Err(s) => Err(s),
            },
            _ => Ok(v),
        },
        TyModel::Variant(types) => match v {
            ValueModel::Variant { alternatives, index, value } => if alternatives == types && index < types.len() {
                match alternative_coerced(t, *value, types, index as int) {
                    Ok(x) => Ok(ValueModel::Variant { alternatives, index, value: Box::new(x) }),
                    Err(s) => Err(s),
                }
            } else {
                Ok(v)
            },
            _ => Ok(v),
        },
        _ => Ok(v),
    }
}

/// The elements of a pack, each coerced to its type; elements without a type go.
pub open spec fn pack_coerced(t: Answers, items: Seq<ValueModel>, types: Seq<TyModel>) -> Seq<Outcome>
    decreases types, 0int,
{
    Seq::new(
        shorter(items.len(), types.len()),
        |i: int| if 0 <= i < types.len() { checked_coerced(t, items[i], types[i]) } else { arbitrary() },
    )
}

/// The elements of a list, each coerced to the element type.
pub open spec fn list_coerced(t: Answers, items: Seq<ValueModel>, element: TyModel) -> Seq<Outcome>
    decreases element, 2int,
{
    Seq::new(items.len(), |i: int| checked_coerced(t, items[i], element))
}

/// What a variant holds, coerced to its alternative.
pub open spec fn alternative_coerced(
    t: Answers,
    value: ValueModel,
    types: Seq<TyModel>,
    index: int,
) -> Outcome
    decreases types, 0int,
{
    if 0 <= index < types.len() { checked_coerced(t, value, types[index]) } else { Ok(value) }
}

fn coerce_pack(t: &FloatTable, items: &Vec<Value>, types: &Vec<Ty>) -> (r: Result<Vec<Value>, Stop>)
    ensures
        ({
            let wanted = collect(pack_coerced(t@, values_list_view(*items), tys_view(*types)));
            match r {
                Ok(v) => wanted == Ok::<Seq<ValueModel>, StopModel>(values_list_view(v)),
                Err(s) => wanted == Err::<Seq<ValueModel>, StopModel>(s@),
            }
        }),
    decreases types, 0int,
{
    let ghost (im, tm) = (values_list_view(*items), tys_view(*types));
    assert(im.len() == items@.len() && tm.len() == types@.len());
    let ghost results = pack_coerced(t@, im, tm);
    let n: usize = if items.len() < types.len() { items.len() } else { types.len() };
    let mut out: Vec<Value> = Vec::new();
    for i in 0..n
        invariant
            im == values_list_view(*items),
            tm == tys_view(*types),
            im.len() == items@.len(),
            tm.len() == types@.len(),
            n == shorter(items@.len(), types@.len()),
            results == pack_coerced(t@, im, tm),
            out@.len() == i,
            forall|j: int| 0 <= j < i ==> #[trigger] results[j] == Ok::<ValueModel, StopModel>(values_list_view(out)[j]),
    {
        assert(im[i as int] == items@[i as int]@);
        assert(tm[i as int] == types@[i as int]@);
        match coerce_checked(t, &items[i], &types[i]) {
            Ok(v) => {
                assert(results[i as int] == Ok::<ValueModel, StopModel>(v@));
                let ghost before = out;
                out.push(v);
                assert forall|j: int| 0 <= j < i + 1 implies #[trigger] results[j] == Ok::<ValueModel, StopModel>(
                    values_list_view(out)[j],
                ) by {
                    if j < i {
                        assert(values_list_view(before)[j] == values_list_view(out)[j]);
                    }
                }
            },
            Err(s) => {
                assert(results[i as int] == Err::<ValueModel, StopModel>(s@));
                proof {
                    lemma_collect_err(results, i as int, s@);
                }
                return Err(s);
            },
        }
    }
    proof {
        lemma_collect_ok(results, values_list_view(out));
    }
    Ok(out)
}

fn coerce_list(t: &FloatTable, items: &Vec<Value>, element: &Ty) -> (r: Result<Vec<Value>, Stop>)
    ensures
        ({
            let wanted = collect(list_coerced(t@, values_list_view(*items), element@));
            match r {
                Ok(v) => wanted == Ok::<Seq<ValueModel>, StopModel>(values_list_view(v)),
                Err(s) => wanted == Err::<Seq<ValueModel>, StopModel>(s@),
            }
        }),
    decreases element, 2int,
{
    let ghost im = values_list_view(*items);
    assert(im.len() == items@.len());
    let ghost results = list_coerced(t@, im, element@);
    let mut out: Vec<Value> = Vec::new();
    for i in 0..items.len()
        invariant
            im == values_list_view(*items),
            im.len() == items@.len(),
            results == list_coerced(t@, im, element@),
            out@.len() == i,
            forall|j: int| 0 <= j < i ==> #[trigger] results[j] == Ok::<ValueModel, StopModel>(values_list_view(out)[j]),
    {
        assert(im[i as int] == items@[i as int]@);
        match coerce_checked(t, &items[i], element) {
            Ok(v) => {
                assert(results[i as int] == Ok::<ValueModel, StopModel>(v@));
                let ghost before = out;
                out.push(v);
                assert forall|j: int| 0 <= j < i + 1 implies #[trigger] results[j] == Ok::<ValueModel, StopModel>(
                    values_list_view(out)[j],
                ) by {
                    if j < i {
                        assert(values_list_view(before)[j] == values_list_view(out)[j]);
                    }
                }
            },
            Err(s) => {
                assert(results[i as int] == Err::<ValueModel, StopModel>(s@));
                proof {
                    lemma_collect_err(results, i as int, s@);
                }
                return Err(s);
            },
        }
    }
    proof {
        lemma_collect_ok(results, values_list_view(out));
    }
    Ok(out)
}

fn coerce_alternative(
    t: &FloatTable,
    value: &Value,
    types: &Vec<Ty>,
    index: usize,
) -> (r: Result<Value, Stop>)
    requires
        index < types@.len(),
    ensures
        outcome_view(r) == alternative_coerced(t@, value@, tys_view(*types), index as int),
    decreases types, 0int,
{
    assert(tys_view(*types)[index as int] == types@[index as int]@);
    coerce_checked(t, value, &types[index])
}

fn coerce_plainly(t: &FloatTable, v: &Value, ty: &Ty) -> (r: Result<Value, Stop>)
    ensures
        outcome_view(r) == plainly_coerced(t@, v@, ty@),
    decreases ty, 0int,
{
    match ty {
        Ty::UInt => match v {
            Value::Int(n) => Ok(Value::UInt(to_unsigned(*n))),
            _ => Ok(v.copy()),
        },
        Ty::Float64 => match v {
            Value::Int(n) => give_float(ask_float(t, FloatTask::FromInt(*n))),
            Value::UInt(n) => give_float(ask_float(t, FloatTask::FromUInt(*n))),
            _ => Ok(v.copy()),
        },
        Ty::Simd { dtype, width } => {
            if *width != 1 {
                return Ok(v.copy());
            }
            let mut one: Vec<Value> = Vec::new();
            one.push(v.copy());
            assert(values_list_view(one) =~= seq![v@]);
            match simd_from_values(t, *dtype, 1, &one) {
                Ok(m) => Ok(m),
                Err(s) => match s {
                    Stop::Need(task) => Err(Stop::Need(task)),
                    Stop::Error(_) => Ok(v.copy()),
                },
            }
        },
        Ty::Tuple(types) => match v {
            Value::Tuple(items) => match coerce_pack(t, items, types) {
                Ok(xs) => Ok(Value::Tuple(xs)),
                Err(s) => Err(s),
            },
            _ => Ok(v.copy()),
        },
        Ty::ComptimeList(element) => match v {
            Value::ComptimeList(items) => match coerce_list(t, items, element) {
                Ok(xs) => Ok(Value::ComptimeList(xs)),
                Err(s) => Err(s),
            },
            _ => Ok(v.copy()),
        },
        Ty::Variant(types) => match v {
            Value::Variant { alternatives, index, value } => {
                assert(tys_view(*types).len() == types@.len());
                if same_tys(alternatives, types) && *index < types.len() {
                    match coerce_alternative(t, value, types, *index) {
                        Ok(x) => Ok(
                            Value::Variant {
                                alternatives: copy_tys(alternatives),
                                index: *index,
                                value: Box::new(x),
                            },
                        ),
                        Err(s) => Err(s),
                    }
                } else {
                    Ok(v.copy())
                }
            },
            _ => Ok(v.copy()),
        },
        _ => Ok(v.copy()),
    }
}

/// Coerces a value to a checked type at a boundary.
pub fn coerce_checked(t: &FloatTable, v: &Value, ty: &Ty) -> (r: Result<Value, Stop>)
    ensures
        outcome_view(r) == checked_coerced(t@, v@, ty@),
    decreases ty, 1int,
{
    if holds_exact(v) {
        match materialize_literal(t, v, ty) {
            Ok(m) => return Ok(m),
            Err(s) => {
                if let Stop::Need(task) = s {
                    return Err(Stop::Need(task));
                }
            },
        }
    }
    coerce_plainly(t, v, ty)
}

} // verus!
