//! Building, reading and reducing vectors.

use crate::ast::{Dtype, dtype_is_float, dtype_name};
use crate::data::{copy_bools, copy_i128s, copy_u64s};
use crate::outcome::{collect, lemma_collect_err, lemma_collect_ok};
use crate::runtime::{
    FloatOp, FloatTable, FloatTask, FloatTaskModel, Outcome, RuntimeError, RuntimeErrorModel,
    SimdLanes, SimdLanesModel, Stop, StopModel, Value, ValueModel, ask_float, ask_integer,
    fail_type, float_result, integer_result, kind_name, lane_count, outcome_view, type_error,
    value_kind, values_list_view,
};
use crate::runtime::scalar::{Answers, ask_binary, bits_view, float_binary};
use crate::runtime::simd::{
    bool_lane, bool_lanes, float_lane, float_lanes, int_lane, int_lanes, lane_rounded, lanes_view,
    repeat_lane, round_lane, simd_shape, simd_value, to_bool_lanes, to_float_lanes, to_int_lanes,
    value_to_bool_lane, value_to_float_lane, value_to_int_lane, vector_shape, vector_value, wrap,
    wrapped,
};
use crate::text::{cat2, cat3, cat4, cat5, cat7, dec, dec_int, dec_text_i64, dec_text_usize, str_eq};
use vstd::prelude::*;

verus! {

/// The failure of an index out of bounds.
pub open spec fn out_of_bounds(what: Seq<char>, idx: int, len: nat) -> StopModel {
    type_error(what + " index "@ + dec_int(idx) + " out of range 0.."@ + dec(len))
}

/// A signed index as a position, where it is one.
pub fn bounds_check(idx: i64, len: usize, what: &str) -> (r: Result<usize, Stop>)
    ensures
        match r {
            Ok(i) => i == idx && 0 <= idx < len,
            Err(s) => !(0 <= idx < len) && s@ == out_of_bounds(what@, idx as int, len as nat),
        },
{
    if idx < 0 || idx as u64 >= len as u64 {
        Err(fail_type(cat5(what, " index ", &dec_text_i64(idx), " out of range 0..", &dec_text_usize(len))))
    } else {
        Ok(idx as usize)
    }
}

/// The value that fills a lane: the only one, or the one at its place.
pub open spec fn lane_source(values: Seq<ValueModel>, i: int) -> ValueModel {
    if values.len() == 1 { values[0] } else { values[i] }
}

fn source_of_lane(values: &Vec<Value>, i: usize) -> (r: &Value)
    requires
        values@.len() == 1 || i < values@.len(),
    ensures
        r@ == lane_source(values_list_view(*values), i as int),
{
    let ghost model = values_list_view(*values);
    assert(model.len() == values@.len());
    if values.len() == 1 {
        assert(model[0] == values@[0]@);
        &values[0]
    } else {
        assert(model[i as int] == values@[i as int]@);
        &values[i]
    }
}

/// The lanes that values give, for each kind of lane.
pub open spec fn bool_sources(values: Seq<ValueModel>, width: nat) -> Seq<Result<bool, StopModel>> {
    Seq::new(width, |i: int| bool_lane(lane_source(values, i)))
}

/// The lanes that values give, for each kind of lane.
pub open spec fn float_sources(t: Answers, values: Seq<ValueModel>, dtype: Dtype, width: nat) -> Seq<
    Result<u64, StopModel>,
> {
    Seq::new(width, |i: int| float_lane(t, lane_source(values, i), dtype))
}

/// The lanes that values give, for each kind of lane.
pub open spec fn int_sources(
    values: Seq<ValueModel>,
    dtype: Dtype,
    width: nat,
) -> Seq<Result<i128, StopModel>> {
    Seq::new(width, |i: int| int_lane(lane_source(values, i), dtype))
}

/// A vector of values: one for each lane, or one for all.
#[verifier::opaque]
pub open spec fn vector_of(t: Answers, dtype: Dtype, width: nat, values: Seq<ValueModel>) -> Outcome {
    if dtype == Dtype::Bool {
        match collect(bool_sources(values, width)) {
            Ok(v) => Ok(vector_value(dtype, SimdLanesModel::Bool(v))),
            Err(s) => Err(s),
        }
    } else if dtype_is_float(dtype) {
        match collect(float_sources(t, values, dtype, width)) {
            Ok(v) => Ok(vector_value(dtype, SimdLanesModel::Float(v))),
            Err(s) => Err(s),
        }
    } else {
        match collect(int_sources(values, dtype, width)) {
            Ok(v) => Ok(vector_value(dtype, SimdLanesModel::Int(v))),
            Err(s) => Err(s),
        }
    }
}

fn gather_bools(values: &Vec<Value>, width: usize) -> (r: Result<Vec<bool>, Stop>)
    requires
        values@.len() == 1 || width <= values@.len(),
    ensures
        lanes_view(r) == collect(bool_sources(values_list_view(*values), width as nat)),
{
    let ghost model = values_list_view(*values);
    let ghost results = bool_sources(model, width as nat);
    let mut out: Vec<bool> = Vec::new();
    for i in 0..width
        invariant
            values@.len() == 1 || width <= values@.len(),
            model == values_list_view(*values),
            results == bool_sources(model, width as nat),
            out@.len() == i,
            forall|j: int| 0 <= j < i ==> #[trigger] results[j] == Ok::<bool, StopModel>(out@[j]),
    {
        match value_to_bool_lane(source_of_lane(values, i)) {
            Ok(x) => {
                assert(results[i as int] == Ok::<bool, StopModel>(x));
                out.push(x);
            },
            Err(s) => {
                assert(results[i as int] == Err::<bool, StopModel>(s@));
                proof {
                    lemma_collect_err(results, i as int, s@);
                }
                return Err(s);
            },
        }
    }
    proof {
        lemma_collect_ok(results, out@);
    }
    Ok(out)
}

fn gather_floats(
    t: &FloatTable,
    values: &Vec<Value>,
    dtype: Dtype,
    width: usize,
) -> (r: Result<Vec<u64>, Stop>)
    requires
        values@.len() == 1 || width <= values@.len(),
    ensures
        lanes_view(r) == collect(float_sources(t@, values_list_view(*values), dtype, width as nat)),
{
    let ghost model = values_list_view(*values);
    let ghost results = float_sources(t@, model, dtype, width as nat);
    let mut out: Vec<u64> = Vec::new();
    for i in 0..width
        invariant
            values@.len() == 1 || width <= values@.len(),
            model == values_list_view(*values),
            results == float_sources(t@, model, dtype, width as nat),
            out@.len() == i,
            forall|j: int| 0 <= j < i ==> #[trigger] results[j] == Ok::<u64, StopModel>(out@[j]),
    {
        match value_to_float_lane(t, source_of_lane(values, i), dtype) {
            Ok(x) => {
                assert(results[i as int] == Ok::<u64, StopModel>(x));
                out.push(x);
            },
            Err(s) => {
                assert(results[i as int] == Err::<u64, StopModel>(s@));
                proof {
                    lemma_collect_err(results, i as int, s@);
                }
                return Err(s);
            },
        }
    }
    proof {
        lemma_collect_ok(results, out@);
    }
    Ok(out)
}

fn gather_ints(values: &Vec<Value>, dtype: Dtype, width: usize) -> (r: Result<Vec<i128>, Stop>)
    requires
        values@.len() == 1 || width <= values@.len(),
    ensures
        lanes_view(r) == collect(int_sources(values_list_view(*values), dtype, width as nat)),
{
    let ghost model = values_list_view(*values);
    let ghost results = int_sources(model, dtype, width as nat);
    let mut out: Vec<i128> = Vec::new();
    for i in 0..width
        invariant
            values@.len() == 1 || width <= values@.len(),
            model == values_list_view(*values),
            results == int_sources(model, dtype, width as nat),
            out@.len() == i,
            forall|j: int| 0 <= j < i ==> #[trigger] results[j] == Ok::<i128, StopModel>(out@[j]),
    {
        match value_to_int_lane(source_of_lane(values, i), dtype) {
            Ok(x) => {
                assert(results[i as int] == Ok::<i128, StopModel>(x));
                out.push(x);
            },
            Err(s) => {
                assert(results[i as int] == Err::<i128, StopModel>(s@));
                proof {
                    lemma_collect_err(results, i as int, s@);
                }
                return Err(s);
            },
        }
    }
    proof {
        lemma_collect_ok(results, out@);
    }
    Ok(out)
}

/// Builds a vector: one value for each lane, or one for all.
pub fn simd_from_values(
    t: &FloatTable,
    dtype: Dtype,
    width: usize,
    values: &Vec<Value>,
) -> (r: Result<Value, Stop>)
    requires
        values@.len() == 1 || width <= values@.len(),
    ensures
        outcome_view(r) == vector_of(t@, dtype, width as nat, values_list_view(*values)),
{
    proof {
        reveal(vector_of);
    }
    if dtype == Dtype::Bool {
        match gather_bools(values, width) {
            Ok(v) => Ok(simd_value(dtype, SimdLanes::Bool(v))),
            Err(s) => Err(s),
        }
    } else if dtype.is_float() {
        match gather_floats(t, values, dtype, width) {
            Ok(v) => Ok(simd_value(dtype, SimdLanes::Float(v))),
            Err(s) => Err(s),
        }
    } else {
        match gather_ints(values, dtype, width) {
            Ok(v) => Ok(simd_value(dtype, SimdLanes::Int(v))),
            Err(s) => Err(s),
        }
    }
}

/// One lane of a vector.
pub open spec fn lane_of(lanes: SimdLanesModel, i: int) -> SimdLanesModel {
    match lanes {
        SimdLanesModel::Int(v) => SimdLanesModel::Int(seq![v[i]]),
        SimdLanesModel::Float(v) => SimdLanesModel::Float(seq![v[i]]),
        SimdLanesModel::Bool(v) => SimdLanesModel::Bool(seq![v[i]]),
    }
}

/// Reads a lane, as a vector of one lane.
pub fn read_simd_lane(dtype: Dtype, lanes: &SimdLanes, i: i64) -> (r: Result<Value, Stop>)
    ensures
        outcome_view(r) == (if 0 <= i < lane_count(lanes@) {
            Ok::<ValueModel, StopModel>(vector_value(dtype, lane_of(lanes@, i as int)))
        } else {
            Err(out_of_bounds("SIMD lane"@, i as int, lane_count(lanes@)))
        }),
{
    let at: usize = match bounds_check(i, lanes.width(), "SIMD lane") {
        Ok(at) => at,
        Err(s) => return Err(s),
    };
    let one: SimdLanes = match lanes {
        SimdLanes::Int(v) => {
            let w: Vec<i128> = repeat_lane(v[at], 1);
            assert(w@ =~= seq![v@[at as int]]);
            SimdLanes::Int(w)
        },
        SimdLanes::Float(v) => {
            let w: Vec<u64> = repeat_lane(v[at], 1);
            assert(w@ =~= seq![v@[at as int]]);
            SimdLanes::Float(w)
        },
        SimdLanes::Bool(v) => {
            let w: Vec<bool> = repeat_lane(v[at], 1);
            assert(w@ =~= seq![v@[at as int]]);
            SimdLanes::Bool(w)
        },
    };
    Ok(simd_value(dtype, one))
}

/// Writing a lane: the value wraps or rounds as construction does.
#[verifier::opaque]
pub open spec fn lane_written(
    t: Answers,
    dtype: Dtype,
    lanes: SimdLanesModel,
    i: int,
    value: ValueModel,
) -> Result<
    SimdLanesModel,
    StopModel,
> {
    if !(0 <= i < lane_count(lanes)) {
        Err(out_of_bounds("SIMD lane"@, i, lane_count(lanes)))
    } else {
        match lanes {
            SimdLanesModel::Int(v) => match int_lane(value, dtype) {
                Ok(x) => Ok(SimdLanesModel::Int(v.update(i, x))),
                Err(s) => Err(s),
            },
            SimdLanesModel::Float(v) => match float_lane(t, value, dtype) {
                Ok(x) => Ok(SimdLanesModel::Float(v.update(i, x))),
                Err(s) => Err(s),
            },
            SimdLanesModel::Bool(v) => match bool_lane(value) {
                Ok(x) => Ok(SimdLanesModel::Bool(v.update(i, x))),
                Err(s) => Err(s),
            },
        }
    }
}

/// Writes a lane, and gives the new lanes.
pub fn set_simd_lane(
    t: &FloatTable,
    dtype: Dtype,
    lanes: &SimdLanes,
    i: i64,
    value: &Value,
) -> (r: Result<SimdLanes, Stop>)
    ensures
        match r {
            Ok(l) => lane_written(t@, dtype, lanes@, i as int, value@) == Ok::<SimdLanesModel, StopModel>(l@),
            Err(s) => lane_written(
                t@,
                dtype,
                lanes@,
                i as int,
                value@,
            ) == Err::<SimdLanesModel, StopModel>(s@),
        },
{
    proof {
        reveal(lane_written);
    }
    let at: usize = match bounds_check(i, lanes.width(), "SIMD lane") {
        Ok(at) => at,
        Err(s) => return Err(s),
    };
    match lanes {
        SimdLanes::Int(v) => match value_to_int_lane(value, dtype) {
            Ok(x) => {
                let mut w: Vec<i128> = copy_i128s(v);
                w.set(at, x);
                Ok(SimdLanes::Int(w))
            },
            Err(s) => Err(s),
        },
        SimdLanes::Float(v) => match value_to_float_lane(t, value, dtype) {
            Ok(x) => {
                let mut w: Vec<u64> = copy_u64s(v);
                w.set(at, x);
                Ok(SimdLanes::Float(w))
            },
            Err(s) => Err(s),
        },
        SimdLanes::Bool(v) => match value_to_bool_lane(value) {
            Ok(x) => {
                let mut w: Vec<bool> = copy_bools(v);
                w.set(at, x);
                Ok(SimdLanes::Bool(w))
            },
            Err(s) => Err(s),
        },
    }
}

/// The first lane at or past `from` that a vector of the width does not have.
pub open spec fn missing_lane(mask: Seq<usize>, width: nat, from: int) -> Option<usize>
    decreases mask.len() - from,
{
    if from < 0 || from >= mask.len() {
        None
    } else if mask[from] >= width {
        Some(mask[from])
    } else {
        missing_lane(mask, width, from + 1)
    }
}

/// Lanes in the order of a mask.
pub open spec fn picked<T>(v: Seq<T>, mask: Seq<usize>) -> Seq<T> {
    Seq::new(mask.len(), |i: int| v[mask[i] as int])
}

fn pick_lanes<T: Copy>(v: &Vec<T>, mask: &Vec<usize>) -> (r: Vec<T>)
    requires
        forall|i: int| 0 <= i < mask@.len() ==> #[trigger] mask@[i] < v@.len(),
    ensures
        r@ == picked(v@, mask@),
{
    let mut out: Vec<T> = Vec::new();
    for i in 0..mask.len()
        invariant
            forall|k: int| 0 <= k < mask@.len() ==> #[trigger] mask@[k] < v@.len(),
            out@.len() == i,
            forall|j: int| 0 <= j < i ==> #[trigger] out@[j] == v@[mask@[j] as int],
    {
        out.push(v[mask[i]]);
    }
    assert(out@ =~= picked(v@, mask@));
    out
}

fn find_missing_lane(mask: &Vec<usize>, width: usize) -> (r: Option<usize>)
    ensures
        r == missing_lane(mask@, width as nat, 0),
        r is None ==> forall|i: int| 0 <= i < mask@.len() ==> #[trigger] mask@[i] < width,
{
    for i in 0..mask.len()
        invariant
            missing_lane(mask@, width as nat, 0) == missing_lane(mask@, width as nat, i as int),
            forall|j: int| 0 <= j < i ==> #[trigger] mask@[j] < width,
    {
        if mask[i] >= width {
            return Some(mask[i]);
        }
    }
    None
}

/// A lane gather: lane `i` of the result is the lane that the mask names there.
#[verifier::opaque]
pub open spec fn shuffled(value: ValueModel, mask: Seq<usize>) -> Outcome {
    match value {
        ValueModel::Simd { dtype, lanes } => match missing_lane(mask, lane_count(lanes), 0) {
            Some(bad) => Err(
                type_error(
                    "shuffle lane "@ + dec(bad as nat) + " is out of range for width "@ + dec(lane_count(lanes)),
                ),
            ),
            None => Ok(
                vector_value(
                    dtype,
                    match lanes {
                        SimdLanesModel::Int(v) => SimdLanesModel::Int(picked(v, mask)),
                        SimdLanesModel::Float(v) => SimdLanesModel::Float(picked(v, mask)),
                        SimdLanesModel::Bool(v) => SimdLanesModel::Bool(picked(v, mask)),
                    },
                ),
            ),
        },
        _ => Err(type_error("cannot shuffle "@ + value_kind(value) + " as a SIMD value"@)),
    }
}

/// Gathers the lanes that a mask names.
pub fn simd_shuffle(value: &Value, mask: &Vec<usize>) -> (r: Result<Value, Stop>)
    ensures
        outcome_view(r) == shuffled(value@, mask@),
{
    proof {
        reveal(shuffled);
    }
    match value {
        Value::Simd { dtype, lanes } => {
            if let Some(bad) = find_missing_lane(mask, lanes.width()) {
                return Err(
                    fail_type(
                        cat4(
                            "shuffle lane ",
                            &dec_text_usize(bad),
                            " is out of range for width ",
                            &dec_text_usize(lanes.width()),
                        ),
                    ),
                );
            }
            let gathered: SimdLanes = match lanes {
                SimdLanes::Int(v) => SimdLanes::Int(pick_lanes(v, mask)),
                SimdLanes::Float(v) => SimdLanes::Float(pick_lanes(v, mask)),
                SimdLanes::Bool(v) => SimdLanes::Bool(pick_lanes(v, mask)),
            };
            Ok(simd_value(*dtype, gathered))
        },
        _ => Err(fail_type(cat3("cannot shuffle ", &kind_name(value), " as a SIMD value"))),
    }
}

/// The lanes that a cast starts from: those of a vector, or a native scalar.
pub open spec fn cast_source(value: ValueModel) -> Option<SimdLanesModel> {
    match value {
        ValueModel::Simd { lanes, .. } => Some(lanes),
        ValueModel::Int(n) => Some(SimdLanesModel::Int(seq![n as i128])),
        ValueModel::Float64(bits) => Some(SimdLanesModel::Float(seq![bits])),
        _ => None,
    }
}

fn source_of_cast(value: &Value) -> (r: Option<SimdLanes>)
    ensures
        match r {
            Some(l) => cast_source(value@) == Some(l@),
            None => cast_source(value@) is None,
        },
{
    match value {
        Value::Simd { lanes, .. } => Some(lanes.copy()),
        Value::Int(n) => {
            let v: Vec<i128> = repeat_lane(*n as i128, 1);
            assert(v@ =~= seq![*n as i128]);
            Some(SimdLanes::Int(v))
        },
        Value::Float64(bits) => {
            let v: Vec<u64> = repeat_lane(*bits, 1);
            assert(v@ =~= seq![*bits]);
            Some(SimdLanes::Float(v))
        },
        _ => None,
    }
}

/// An integer lane as a floating-point one.
pub open spec fn widened(t: Answers, target: Dtype, v: i128) -> Result<u64, StopModel> {
    lane_rounded(t, target, float_result(t, FloatTaskModel::FromWide(v)))
}

/// A floating-point lane as an integer one: towards zero, then wrapping.
pub open spec fn truncated(t: Answers, target: Dtype, bits: u64) -> Result<i128, StopModel> {
    match integer_result(t, FloatTaskModel::ToWide(bits)) {
        Ok(v) => Ok(wrapped(target, v as int) as i128),
        Err(s) => Err(s),
    }
}

/// Lanes converted to another element type.
pub open spec fn lanes_cast(
    t: Answers,
    target: Dtype,
    lanes: SimdLanesModel,
) -> Result<SimdLanesModel, StopModel> {
    match lanes {
        SimdLanesModel::Int(v) => if dtype_is_float(target) {
            match collect(Seq::new(v.len(), |i: int| widened(t, target, v[i]))) {
                Ok(w) => Ok(SimdLanesModel::Float(w)),
                Err(s) => Err(s),
            }
        } else {
            Ok(SimdLanesModel::Int(Seq::new(v.len(), |i: int| wrapped(target, v[i] as int) as i128)))
        },
        SimdLanesModel::Float(v) => if dtype_is_float(target) {
            match collect(Seq::new(v.len(), |i: int| lane_rounded(t, target, Ok(v[i])))) {
                Ok(w) => Ok(SimdLanesModel::Float(w)),
                Err(s) => Err(s),
            }
        } else {
            match collect(Seq::new(v.len(), |i: int| truncated(t, target, v[i]))) {
                Ok(w) => Ok(SimdLanesModel::Int(w)),
                Err(s) => Err(s),
            }
        },
        SimdLanesModel::Bool(_) => Err(type_error("bool SIMD dtype casts are not supported"@)),
    }
}

fn widen_lanes(t: &FloatTable, target: Dtype, v: &Vec<i128>) -> (r: Result<Vec<u64>, Stop>)
    ensures
        lanes_view(r) == collect(Seq::new(v@.len(), |i: int| widened(t@, target, v@[i]))),
{
    let ghost results = Seq::new(v@.len(), |i: int| widened(t@, target, v@[i]));
    let mut out: Vec<u64> = Vec::new();
    for i in 0..v.len()
        invariant
            results == Seq::new(v@.len(), |i: int| widened(t@, target, v@[i])),
            out@.len() == i,
            forall|j: int| 0 <= j < i ==> #[trigger] results[j] == Ok::<u64, StopModel>(out@[j]),
    {
        match round_lane(t, target, ask_float(t, FloatTask::FromWide(v[i]))) {
            Ok(x) => {
                assert(results[i as int] == Ok::<u64, StopModel>(x));
                out.push(x);
            },
            Err(s) => {
                assert(results[i as int] == Err::<u64, StopModel>(s@));
                proof {
                    lemma_collect_err(results, i as int, s@);
                }
                return Err(s);
            },
        }
    }
    proof {
        lemma_collect_ok(results, out@);
    }
    Ok(out)
}

fn round_lanes(t: &FloatTable, target: Dtype, v: &Vec<u64>) -> (r: Result<Vec<u64>, Stop>)
    ensures
        lanes_view(r) == collect(Seq::new(v@.len(), |i: int| lane_rounded(t@, target, Ok(v@[i])))),
{
    let ghost results = Seq::new(v@.len(), |i: int| lane_rounded(t@, target, Ok(v@[i])));
    let mut out: Vec<u64> = Vec::new();
    for i in 0..v.len()
        invariant
            results == Seq::new(v@.len(), |i: int| lane_rounded(t@, target, Ok(v@[i]))),
            out@.len() == i,
            forall|j: int| 0 <= j < i ==> #[trigger] results[j] == Ok::<u64, StopModel>(out@[j]),
    {
        match round_lane(t, target, Ok(v[i])) {
            Ok(x) => {
                assert(results[i as int] == Ok::<u64, StopModel>(x));
                out.push(x);
            },
            Err(s) => {
                assert(results[i as int] == Err::<u64, StopModel>(s@));
                proof {
                    lemma_collect_err(results, i as int, s@);
                }
                return Err(s);
            },
        }
    }
    proof {
        lemma_collect_ok(results, out@);
    }
    Ok(out)
}

fn truncate_lanes(t: &FloatTable, target: Dtype, v: &Vec<u64>) -> (r: Result<Vec<i128>, Stop>)
    ensures
        lanes_view(r) == collect(Seq::new(v@.len(), |i: int| truncated(t@, target, v@[i]))),
{
    let ghost results = Seq::new(v@.len(), |i: int| truncated(t@, target, v@[i]));
    let mut out: Vec<i128> = Vec::new();
    for i in 0..v.len()
        invariant
            results == Seq::new(v@.len(), |i: int| truncated(t@, target, v@[i])),
            out@.len() == i,
            forall|j: int| 0 <= j < i ==> #[trigger] results[j] == Ok::<i128, StopModel>(out@[j]),
    {
        match ask_integer(t, FloatTask::ToWide(v[i])) {
            Ok(x) => {
                let w: i128 = wrap(target, x);
                assert(results[i as int] == Ok::<i128, StopModel>(w));
                out.push(w);
            },
            Err(s) => {
                assert(results[i as int] == Err::<i128, StopModel>(s@));
                proof {
                    lemma_collect_err(results, i as int, s@);
                }
                return Err(s);
            },
        }
    }
    proof {
        lemma_collect_ok(results, out@);
    }
    Ok(out)
}

fn rewrap_lanes(target: Dtype, v: &Vec<i128>) -> (r: Vec<i128>)
    ensures
        r@ == Seq::new(v@.len(), |i: int| wrapped(target, v@[i] as int) as i128),
{
    let mut out: Vec<i128> = Vec::new();
    for i in 0..v.len()
        invariant
            out@.len() == i,
            forall|j: int| 0 <= j < i ==> #[trigger] out@[j] == wrapped(target, v@[j] as int) as i128,
    {
        out.push(wrap(target, v[i]));
    }
    assert(out@ =~= Seq::new(v@.len(), |i: int| wrapped(target, v@[i] as int) as i128));
    out
}

/// A vector converted to another element type.
#[verifier::opaque]
pub open spec fn vector_cast(t: Answers, target: Dtype, value: ValueModel) -> Outcome {
    match cast_source(value) {
        None => Err(type_error("cannot cast "@ + value_kind(value) + " as a SIMD value"@)),
        Some(lanes) => match lanes_cast(t, target, lanes) {
            Ok(l) => Ok(vector_value(target, l)),
            Err(s) => Err(s),
        },
    }
}

/// Converts a vector to another element type, lane by lane.
pub fn simd_cast(t: &FloatTable, target: Dtype, value: &Value) -> (r: Result<Value, Stop>)
    ensures
        outcome_view(r) == vector_cast(t@, target, value@),
{
    proof {
        reveal(vector_cast);
    }
    let lanes: SimdLanes = match source_of_cast(value) {
        Some(l) => l,
        None => return Err(fail_type(cat3("cannot cast ", &kind_name(value), " as a SIMD value"))),
    };
    match &lanes {
        SimdLanes::Int(v) => if target.is_float() {
            match widen_lanes(t, target, v) {
                Ok(w) => Ok(simd_value(target, SimdLanes::Float(w))),
                Err(s) => Err(s),
            }
        } else {
            Ok(simd_value(target, SimdLanes::Int(rewrap_lanes(target, v))))
        },
        SimdLanes::Float(v) => if target.is_float() {
            match round_lanes(t, target, v) {
                Ok(w) => Ok(simd_value(target, SimdLanes::Float(w))),
                Err(s) => Err(s),
            }
        } else {
            match truncate_lanes(t, target, v) {
                Ok(w) => Ok(simd_value(target, SimdLanes::Int(w))),
                Err(s) => Err(s),
            }
        },
        SimdLanes::Bool(_) => Err(fail_type("bool SIMD dtype casts are not supported".to_owned())),
    }
}

/// Lanes of one vector where the mask is set, and of the other where it is not.
pub open spec fn blended<T>(mask: Seq<bool>, t: Seq<T>, f: Seq<T>) -> Seq<T> {
    Seq::new(mask.len(), |i: int| if mask[i] { t[i] } else { f[i] })
}

fn blend<T: Copy>(mask: &Vec<bool>, t: &Vec<T>, f: &Vec<T>) -> (r: Vec<T>)
    requires
        t@.len() >= mask@.len(),
        f@.len() >= mask@.len(),
    ensures
        r@ == blended(mask@, t@, f@),
{
    let mut out: Vec<T> = Vec::new();
    for i in 0..mask.len()
        invariant
            t@.len() >= mask@.len(),
            f@.len() >= mask@.len(),
            out@.len() == i,
            forall|j: int| 0 <= j < i ==> #[trigger] out@[j] == (if mask@[j] { t@[j] } else { f@[j] }),
    {
        out.push(if mask[i] { t[i] } else { f[i] });
    }
    assert(out@ =~= blended(mask@, t@, f@));
    out
}

/// Whether two operands that convert to lanes have as many as the mask.
pub open spec fn both_cover<T>(width: nat, x: Result<Seq<T>, StopModel>, y: Result<Seq<T>, StopModel>) -> bool {
    x is Ok && y is Ok ==> x->Ok_0.len() >= width && y->Ok_0.len() >= width
}

/// Whether the operands of a blend have the lanes that the mask picks from.
pub open spec fn blends(t: Answers, mask: SimdLanesModel, a: ValueModel, b: ValueModel) -> bool {
    match (mask, blend_dtype(a, b)) {
        (SimdLanesModel::Bool(m), Some(dtype)) => if dtype == Dtype::Bool {
            both_cover(m.len(), bool_lanes(a, m.len()), bool_lanes(b, m.len()))
        } else if dtype_is_float(dtype) {
            both_cover(m.len(), float_lanes(t, a, dtype, m.len()), float_lanes(t, b, dtype, m.len()))
        } else {
            both_cover(m.len(), int_lanes(a, dtype, m.len()), int_lanes(b, dtype, m.len()))
        },
        _ => true,
    }
}

/// The element type that a blend has.
pub open spec fn blend_dtype(a: ValueModel, b: ValueModel) -> Option<Dtype> {
    match (vector_shape(a), vector_shape(b)) {
        (Some(s), _) => Some(s.0),
        (None, Some(s)) => Some(s.0),
        (None, None) => None,
    }
}

/// A blend of two operands through a mask. A scalar splats.
#[verifier::opaque]
pub open spec fn selected(t: Answers, mask: SimdLanesModel, a: ValueModel, b: ValueModel) -> Outcome {
    match mask {
        SimdLanesModel::Bool(m) => match blend_dtype(a, b) {
            None => Err(type_error("select() requires a SIMD case operand"@)),
            Some(dtype) => if dtype == Dtype::Bool {
                match bool_lanes(a, m.len()) {
                    Err(s) => Err(s),
                    Ok(x) => match bool_lanes(b, m.len()) {
                        Err(s) => Err(s),
                        Ok(y) => Ok(vector_value(dtype, SimdLanesModel::Bool(blended(m, x, y)))),
                    },
                }
            } else if dtype_is_float(dtype) {
                match float_lanes(t, a, dtype, m.len()) {
                    Err(s) => Err(s),
                    Ok(x) => match float_lanes(t, b, dtype, m.len()) {
                        Err(s) => Err(s),
                        Ok(y) => Ok(vector_value(dtype, SimdLanesModel::Float(blended(m, x, y)))),
                    },
                }
            } else {
                match int_lanes(a, dtype, m.len()) {
                    Err(s) => Err(s),
                    Ok(x) => match int_lanes(b, dtype, m.len()) {
                        Err(s) => Err(s),
                        Ok(y) => Ok(vector_value(dtype, SimdLanesModel::Int(blended(m, x, y)))),
                    },
                }
            },
        },
        _ => Err(type_error("select() requires a bool-mask receiver"@)),
    }
}

/// Blends two operands through a mask.
pub fn simd_select(t: &FloatTable, mask: &SimdLanes, a: &Value, b: &Value) -> (r: Result<Value, Stop>)
    requires
        blends(t@, mask@, a@, b@),
    ensures
        outcome_view(r) == selected(t@, mask@, a@, b@),
{
    proof {
        reveal(selected);
    }
    let m: &Vec<bool> = match mask {
        SimdLanes::Bool(m) => m,
        _ => return Err(fail_type("select() requires a bool-mask receiver".to_owned())),
    };
    let width: usize = m.len();
    let dtype: Dtype = match (simd_shape(a), simd_shape(b)) {
        (Some(s), _) => s.0,
        (None, Some(s)) => s.0,
        (None, None) => return Err(fail_type("select() requires a SIMD case operand".to_owned())),
    };
    if dtype == Dtype::Bool {
        let x: Vec<bool> = match to_bool_lanes(a, width) {
            Ok(v) => v,
            Err(s) => return Err(s),
        };
        match to_bool_lanes(b, width) {
            Ok(y) => Ok(simd_value(dtype, SimdLanes::Bool(blend(m, &x, &y)))),
            Err(s) => Err(s),
        }
    } else if dtype.is_float() {
        let x: Vec<u64> = match to_float_lanes(t, a, dtype, width) {
            Ok(v) => v,
            Err(s) => return Err(s),
        };
        match to_float_lanes(t, b, dtype, width) {
            Ok(y) => Ok(simd_value(dtype, SimdLanes::Float(blend(m, &x, &y)))),
            Err(s) => Err(s),
        }
    } else {
        let x: Vec<i128> = match to_int_lanes(a, dtype, width) {
            Ok(v) => v,
            Err(s) => return Err(s),
        };
        match to_int_lanes(b, dtype, width) {
            Ok(y) => Ok(simd_value(dtype, SimdLanes::Int(blend(m, &x, &y)))),
            Err(s) => Err(s),
        }
    }
}

/// A reduction of the lanes of a vector.
#[derive(Debug, Clone, Copy, PartialEq, Eq, Structural)]
pub enum Reduction {
    Add,
    Mul,
    Min,
    Max,
}

/// The name of a reduction.
pub open spec fn reduction_name(r: Reduction) -> Seq<char> {
    match r {
        Reduction::Add => "reduce_add"@,
        Reduction::Mul => "reduce_mul"@,
        Reduction::Min => "reduce_min"@,
        Reduction::Max => "reduce_max"@,
    }
}

fn name_of_reduction(r: Reduction) -> (n: &'static str)
    ensures
        n@ == reduction_name(r),
{
    match r {
        Reduction::Add => "reduce_add",
        Reduction::Mul => "reduce_mul",
        Reduction::Min => "reduce_min",
        Reduction::Max => "reduce_max",
    }
}

/// One step of a reduction of integers: sums and products wrap at the element width.
pub open spec fn int_step(how: Reduction, dtype: Dtype, acc: i128, x: i128) -> i128 {
    match how {
        Reduction::Add => wrapped(dtype, vstd::wrapping::i128_specs::wrapping_add(acc, x) as int) as i128,
        Reduction::Mul => wrapped(dtype, vstd::wrapping::i128_specs::wrapping_mul(acc, x) as int) as i128,
        Reduction::Min => if acc < x { acc } else { x },
        Reduction::Max => if acc > x { acc } else { x },
    }
}

/// The first `n` integer lanes, reduced.
pub open spec fn int_reduced(how: Reduction, dtype: Dtype, v: Seq<i128>, n: nat) -> i128
    decreases n,
{
    if n <= 1 {
        v[0]
    } else {
        int_step(how, dtype, int_reduced(how, dtype, v, (n - 1) as nat), v[n - 1])
    }
}

/// One step of a reduction of floating-point numbers: sums and products round to
/// the element precision.
pub open spec fn float_step(
    t: Answers,
    how: Reduction,
    dtype: Dtype,
    acc: u64,
    x: u64,
) -> Result<u64, StopModel> {
    match how {
        Reduction::Add => lane_rounded(t, dtype, float_binary(t, FloatOp::Add, acc, x)),
        Reduction::Mul => lane_rounded(t, dtype, float_binary(t, FloatOp::Mul, acc, x)),
        Reduction::Min => float_binary(t, FloatOp::Min, acc, x),
        Reduction::Max => float_binary(t, FloatOp::Max, acc, x),
    }
}

/// The first `n` floating-point lanes, reduced.
pub open spec fn float_reduced(
    t: Answers,
    how: Reduction,
    dtype: Dtype,
    v: Seq<u64>,
    n: nat,
) -> Result<u64, StopModel>
    decreases n,
{
    if n <= 1 {
        Ok(v[0])
    } else {
        match float_reduced(t, how, dtype, v, (n - 1) as nat) {
            Err(s) => Err(s),
            Ok(acc) => float_step(t, how, dtype, acc, v[n - 1]),
        }
    }
}

proof fn lemma_float_reduced_error(t: Answers, how: Reduction, dtype: Dtype, v: Seq<u64>, n: nat, m: nat)
    requires
        n <= m,
        float_reduced(t, how, dtype, v, n) is Err,
    ensures
        float_reduced(t, how, dtype, v, m) == float_reduced(t, how, dtype, v, n),
    decreases m,
{
    if n < m {
        lemma_float_reduced_error(t, how, dtype, v, n, (m - 1) as nat);
    }
}

fn reduce_ints(how: Reduction, dtype: Dtype, v: &Vec<i128>) -> (r: i128)
    requires
        v@.len() > 0,
    ensures
        r == int_reduced(how, dtype, v@, v@.len()),
{
    let mut acc: i128 = v[0];
    let mut i: usize = 1;
    while i < v.len()
        invariant
            1 <= i <= v@.len(),
            acc == int_reduced(how, dtype, v@, i as nat),
        decreases v@.len() - i,
    {
        let x: i128 = v[i];
        acc = match how {
            Reduction::Add => wrap(dtype, acc.wrapping_add(x)),
            Reduction::Mul => wrap(dtype, acc.wrapping_mul(x)),
            Reduction::Min => if acc < x { acc } else { x },
            Reduction::Max => if acc > x { acc } else { x },
        };
        i = i + 1;
    }
    acc
}

fn reduce_floats(t: &FloatTable, how: Reduction, dtype: Dtype, v: &Vec<u64>) -> (r: Result<u64, Stop>)
    requires
        v@.len() > 0,
    ensures
        bits_view(r) == float_reduced(t@, how, dtype, v@, v@.len()),
{
    let mut acc: u64 = v[0];
    let mut i: usize = 1;
    while i < v.len()
        invariant
            1 <= i <= v@.len(),
            float_reduced(t@, how, dtype, v@, i as nat) == Ok::<u64, StopModel>(acc),
        decreases v@.len() - i,
    {
        let x: u64 = v[i];
        let next: Result<u64, Stop> = match how {
            Reduction::Add => round_lane(t, dtype, ask_binary(t, FloatOp::Add, acc, x)),
            Reduction::Mul => round_lane(t, dtype, ask_binary(t, FloatOp::Mul, acc, x)),
            Reduction::Min => ask_binary(t, FloatOp::Min, acc, x),
            Reduction::Max => ask_binary(t, FloatOp::Max, acc, x),
        };
        match next {
            Ok(bits) => {
                acc = bits;
            },
            Err(s) => {
                proof {
                    assert(float_reduced(t@, how, dtype, v@, (i + 1) as nat) == Err::<u64, StopModel>(s@));
                    lemma_float_reduced_error(t@, how, dtype, v@, (i + 1) as nat, v@.len());
                }
                return Err(s);
            },
        }
        i = i + 1;
    }
    Ok(acc)
}

/// A vector reduced to one lane.
#[verifier::opaque]
pub open spec fn reduced(t: Answers, dtype: Dtype, lanes: SimdLanesModel, how: Reduction) -> Outcome {
    match lanes {
        SimdLanesModel::Int(v) => Ok(
            vector_value(dtype, SimdLanesModel::Int(seq![int_reduced(how, dtype, v, v.len())])),
        ),
        SimdLanesModel::Float(v) => match float_reduced(t, how, dtype, v, v.len()) {
            Ok(bits) => Ok(vector_value(dtype, SimdLanesModel::Float(seq![bits]))),
            Err(s) => Err(s),
        },
        SimdLanesModel::Bool(_) => Err(type_error(reduction_name(how) + "() requires numeric lanes"@)),
    }
}

/// Reduces a vector to one lane.
pub fn simd_reduce(
    t: &FloatTable,
    dtype: Dtype,
    lanes: &SimdLanes,
    how: Reduction,
) -> (r: Result<Value, Stop>)
    requires
        lanes@ is Bool || lane_count(lanes@) > 0,
    ensures
        outcome_view(r) == reduced(t@, dtype, lanes@, how),
{
    proof {
        reveal(reduced);
    }
    match lanes {
        SimdLanes::Int(v) => {
            let one: Vec<i128> = repeat_lane(reduce_ints(how, dtype, v), 1);
            assert(one@ =~= seq![int_reduced(how, dtype, v@, v@.len())]);
            Ok(simd_value(dtype, SimdLanes::Int(one)))
        },
        SimdLanes::Float(v) => match reduce_floats(t, how, dtype, v) {
            Ok(bits) => {
                let one: Vec<u64> = repeat_lane(bits, 1);
                assert(one@ =~= seq![bits]);
                Ok(simd_value(dtype, SimdLanes::Float(one)))
            },
            Err(s) => Err(s),
        },
        SimdLanes::Bool(_) => Err(fail_type(cat2(name_of_reduction(how), "() requires numeric lanes"))),
    }
}

/// The reduction that a method name means.
pub open spec fn reduction_of(method: Seq<char>) -> Option<Reduction> {
    if method == "reduce_add"@ {
        Some(Reduction::Add)
    } else if method == "reduce_mul"@ {
        Some(Reduction::Mul)
    } else if method == "reduce_min"@ {
        Some(Reduction::Min)
    } else if method == "reduce_max"@ {
        Some(Reduction::Max)
    } else {
        None
    }
}

fn find_reduction(method: &str) -> (r: Option<Reduction>)
    ensures
        r == reduction_of(method@),
{
    if str_eq(method, "reduce_add") {
        Some(Reduction::Add)
    } else if str_eq(method, "reduce_mul") {
        Some(Reduction::Mul)
    } else if str_eq(method, "reduce_min") {
        Some(Reduction::Min)
    } else if str_eq(method, "reduce_max") {
        Some(Reduction::Max)
    } else {
        None
    }
}

/// Whether every lane, or some lane, is set.
pub open spec fn mask_holds(v: Seq<bool>, all: bool) -> bool {
    if all {
        forall|i: int| 0 <= i < v.len() ==> #[trigger] v[i]
    } else {
        exists|i: int| 0 <= i < v.len() && #[trigger] v[i]
    }
}

fn holds_mask(v: &Vec<bool>, all: bool) -> (r: bool)
    ensures
        r == mask_holds(v@, all),
{
    for i in 0..v.len()
        invariant
            forall|j: int| 0 <= j < i ==> #[trigger] v@[j] == all,
    {
        if v[i] != all {
            assert(v@[i as int] != all);
            return !all;
        }
    }
    all
}

/// A method call on a vector: `select` on masks, and the reductions.
#[verifier::opaque]
pub open spec fn vector_method(
    t: Answers,
    dtype: Dtype,
    lanes: SimdLanesModel,
    method: Seq<char>,
    args: Seq<ValueModel>,
) -> Outcome {
    if method == "select"@ && args.len() == 2 {
        selected(t, lanes, args[0], args[1])
    } else if reduction_of(method) is Some && args.len() == 0 {
        reduced(t, dtype, lanes, reduction_of(method)->Some_0)
    } else if (method == "reduce_and"@ || method == "reduce_or"@) && args.len() == 0 {
        match lanes {
            SimdLanesModel::Bool(v) => Ok(ValueModel::Bool(mask_holds(v, method == "reduce_and"@))),
            _ => Err(type_error(method + "() requires bool lanes"@)),
        }
    } else {
        Err(
            StopModel::Error(
                RuntimeErrorModel::Unsupported(
                    "vm: SIMD[DType."@ + dtype_name(dtype) + ", "@ + dec(lane_count(lanes)) + "] has no method '"@ + method
                        + "'"@,
                ),
            ),
        )
    }
}

/// Calls a method on a vector.
pub fn simd_method(
    t: &FloatTable,
    dtype: Dtype,
    lanes: &SimdLanes,
    method: &str,
    args: &Vec<Value>,
) -> (r: Result<Value, Stop>)
    requires
        method@ == "select"@ && args@.len() == 2 ==> blends(t@, lanes@, args@[0]@, args@[1]@),
        reduction_of(method@) is Some && args@.len() == 0 ==> lanes@ is Bool || lane_count(lanes@) > 0,
    ensures
        outcome_view(r) == vector_method(t@, dtype, lanes@, method@, values_list_view(*args)),
{
    proof {
        reveal(vector_method);
    }
    assert(values_list_view(*args).len() == args@.len());
    if str_eq(method, "select") && args.len() == 2 {
        assert(values_list_view(*args)[0] == args@[0]@);
        assert(values_list_view(*args)[1] == args@[1]@);
        return simd_select(t, lanes, &args[0], &args[1]);
    }
    if args.len() == 0 {
        if let Some(how) = find_reduction(method) {
            return simd_reduce(t, dtype, lanes, how);
        }
        if str_eq(method, "reduce_and") || str_eq(method, "reduce_or") {
            return match lanes {
                SimdLanes::Bool(v) => Ok(Value::Bool(holds_mask(v, str_eq(method, "reduce_and")))),
                _ => Err(fail_type(cat2(method, "() requires bool lanes"))),
            };
        }
    }
    Err(
        Stop::Error(
            RuntimeError::Unsupported(
                cat7(
                    "vm: SIMD[DType.",
                    dtype.name(),
                    ", ",
                    &dec_text_usize(lanes.width()),
                    "] has no method '",
                    method,
                    "'",
                ),
            ),
        ),
    )
}

} // verus!
