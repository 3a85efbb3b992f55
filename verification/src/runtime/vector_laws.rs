//! What vector operations promise, lane by lane.

use crate::ast::{Dtype, InfixOp, dtype_is_float, dtype_name};
use crate::literal::{int_pow, lemma_pow_positive, lemma_pow_values};
use crate::outcome::collect;
use crate::runtime::{Outcome, SimdLanesModel, StopModel, ValueModel};
use crate::runtime::lanes::{
    Reduction, int_reduced, int_sources, lane_of, lane_written, lanes_cast, missing_lane, reduced,
    selected, shuffled, vector_method, vector_of,
};
use crate::runtime::number_laws::{floats, truth};
use crate::runtime::operators::{any_numeric_outcome, infix_outcome, lanes_negated};
use crate::runtime::scalar::{Answers, float_outcome, numeric_outcome};
use crate::runtime::simd::{
    dtype_bits, float_lane_results, int_lane, int_lanes_op, law_wrap_range, vector_outcome,
    vector_value, wrapped,
};
use crate::text::dec;
use vstd::arithmetic::div_mod::{lemma_fundamental_div_mod, lemma_fundamental_div_mod_converse};
use vstd::prelude::*;

verus! {

/// A lane of a type holds the number that agrees with what is put into it in as many low
/// bits as the type has, and is the number itself where it is in range.
pub proof fn law_wrapped_agrees(dtype: Dtype, v: int)
    requires
        dtype_bits(dtype) is Some,
    ensures
        (wrapped(dtype, v) - v) % int_pow(2, dtype_bits(dtype)->Some_0.0 as nat) == 0,
        dtype_bits(dtype)->Some_0.1 && -int_pow(2, (dtype_bits(dtype)->Some_0.0 - 1) as nat) <= v < int_pow(
            2,
            (dtype_bits(dtype)->Some_0.0 - 1) as nat,
        ) ==> wrapped(dtype, v) == v,
        !dtype_bits(dtype)->Some_0.1 && 0 <= v < int_pow(2, dtype_bits(dtype)->Some_0.0 as nat) ==> wrapped(dtype, v)
            == v,
{
    let bits = dtype_bits(dtype)->Some_0.0 as nat;
    let m = int_pow(2, bits);
    lemma_pow_positive(2, bits);
    lemma_pow_positive(2, (bits - 1) as nat);
    assert(m == 2 * int_pow(2, (bits - 1) as nat));
    let (q, r) = (v / m, v % m);
    lemma_fundamental_div_mod(v, m);
    let w = wrapped(dtype, v);
    let k = if w == r { -q } else { -q - 1 };
    assert(w == r || w == r - m);
    assert(w - v == k * m + 0) by (nonlinear_arith)
        requires
            v == m * q + r,
            w == r && k == -q || w == r - m && k == -q - 1,
    ;
    lemma_fundamental_div_mod_converse(w - v, m, k, 0);
    let h = int_pow(2, (bits - 1) as nat);
    if dtype_bits(dtype)->Some_0.1 && -h <= v < h {
        if v >= 0 {
            vstd::arithmetic::div_mod::lemma_small_mod(v as nat, m as nat);
        } else {
            assert(v == (-1) * m + (v + m)) by (nonlinear_arith);
            lemma_fundamental_div_mod_converse(v, m, -1, v + m);
        }
    }
    if !dtype_bits(dtype)->Some_0.1 && 0 <= v < m {
        vstd::arithmetic::div_mod::lemma_small_mod(v as nat, m as nat);
    }
}

/// The name of an integer lane type tells its sign and its width.
pub proof fn law_dtype_names(dtype: Dtype)
    ensures
        dtype_bits(dtype) is Some && dtype != Dtype::Int ==> dtype_name(dtype) == (if dtype_bits(dtype)->Some_0.1 {
            "int"@
        } else {
            "uint"@
        }) + dec(dtype_bits(dtype)->Some_0.0 as nat),
        dtype_bits(dtype) is None <==> dtype_is_float(dtype) || dtype == Dtype::Bool,
        dtype_bits(Dtype::Int) == dtype_bits(Dtype::Int64),
{
    lemma_dec_values();
    reveal_strlit("int");
    reveal_strlit("uint");
    reveal_strlit("int8");
    reveal_strlit("int16");
    reveal_strlit("int32");
    reveal_strlit("int64");
    reveal_strlit("uint8");
    reveal_strlit("uint16");
    reveal_strlit("uint32");
    reveal_strlit("uint64");
    assert("int"@ + dec(8) =~= "int8"@);
    assert("int"@ + dec(16) =~= "int16"@);
    assert("int"@ + dec(32) =~= "int32"@);
    assert("int"@ + dec(64) =~= "int64"@);
    assert("uint"@ + dec(8) =~= "uint8"@);
    assert("uint"@ + dec(16) =~= "uint16"@);
    assert("uint"@ + dec(32) =~= "uint32"@);
    assert("uint"@ + dec(64) =~= "uint64"@);
}

proof fn lemma_dec_values()
    ensures
        dec(8) =~= seq!['8'],
        dec(16) =~= seq!['1', '6'],
        dec(32) =~= seq!['3', '2'],
        dec(64) =~= seq!['6', '4'],
{
    reveal_with_fuel(crate::text::digits, 3);
}

/// Two vectors of integer lanes.
pub open spec fn int_vector(dtype: Dtype, v: Seq<i128>) -> ValueModel {
    ValueModel::Simd { dtype, lanes: SimdLanesModel::Int(v) }
}

proof fn lemma_int_vectors(t: Answers, op: InfixOp, dtype: Dtype, x: Seq<i128>, y: Seq<i128>)
    requires
        dtype_bits(dtype) is Some,
        !(op is In || op is NotIn),
    ensures
        infix_outcome(t, op, int_vector(dtype, x), int_vector(dtype, y)) == Ok::<ValueModel, StopModel>(
            int_lanes_op(op, dtype, x, y),
        ),
{
    reveal(infix_outcome);
    reveal(vector_outcome);
}

/// Vectors add, subtract and multiply lane by lane, in the low bits of their lane type.
pub proof fn law_vector_arithmetic(t: Answers, dtype: Dtype, x: Seq<i128>, y: Seq<i128>, i: int)
    requires
        dtype_bits(dtype) is Some,
        x.len() == y.len(),
        0 <= i < x.len(),
        -0x1_0000_0000_0000_0000 < x[i] < 0x1_0000_0000_0000_0000,
        -0x1_0000_0000_0000_0000 < y[i] < 0x1_0000_0000_0000_0000,
    ensures
        ({
            let s = infix_outcome(t, InfixOp::Add, int_vector(dtype, x), int_vector(dtype, y));
            let d = infix_outcome(t, InfixOp::Sub, int_vector(dtype, x), int_vector(dtype, y));
            let m = int_pow(2, dtype_bits(dtype)->Some_0.0 as nat);
            &&& s is Ok && s->Ok_0 is Simd && s->Ok_0->Simd_dtype == dtype && s->Ok_0->Simd_lanes is Int
            &&& d is Ok && d->Ok_0 is Simd && d->Ok_0->Simd_dtype == dtype && d->Ok_0->Simd_lanes is Int
            &&& s->Ok_0->Simd_lanes->Int_0.len() == x.len() && d->Ok_0->Simd_lanes->Int_0.len() == x.len()
            &&& (s->Ok_0->Simd_lanes->Int_0[i] - (x[i] + y[i])) % m == 0
            &&& (d->Ok_0->Simd_lanes->Int_0[i] - (x[i] - y[i])) % m == 0
        }),
{
    lemma_int_vectors(t, InfixOp::Add, dtype, x, y);
    lemma_int_vectors(t, InfixOp::Sub, dtype, x, y);
    law_wrapped_agrees(dtype, x[i] + y[i]);
    law_wrapped_agrees(dtype, x[i] - y[i]);
    lemma_lane_fits(dtype, x[i] + y[i]);
    lemma_lane_fits(dtype, x[i] - y[i]);
}

/// Vectors multiply lane by lane, in the low bits of their lane type.
pub proof fn law_vector_products(t: Answers, dtype: Dtype, x: Seq<i128>, y: Seq<i128>, i: int)
    requires
        dtype_bits(dtype) is Some,
        x.len() == y.len(),
        0 <= i < x.len(),
        i128::MIN <= x[i] * y[i] <= i128::MAX,
    ensures
        ({
            let p = infix_outcome(t, InfixOp::Mul, int_vector(dtype, x), int_vector(dtype, y));
            let m = int_pow(2, dtype_bits(dtype)->Some_0.0 as nat);
            &&& p is Ok && p->Ok_0 is Simd && p->Ok_0->Simd_dtype == dtype && p->Ok_0->Simd_lanes is Int
            &&& p->Ok_0->Simd_lanes->Int_0.len() == x.len()
            &&& (p->Ok_0->Simd_lanes->Int_0[i] - x[i] * y[i]) % m == 0
        }),
{
    lemma_int_vectors(t, InfixOp::Mul, dtype, x, y);
    law_wrapped_agrees(dtype, x[i] * y[i]);
    lemma_lane_fits(dtype, x[i] * y[i]);
}

proof fn lemma_lane_fits(dtype: Dtype, v: int)
    requires
        dtype_bits(dtype) is Some,
    ensures
        i128::MIN <= wrapped(dtype, v) <= i128::MAX,
{
    law_wrap_range(dtype, v);
    lemma_pow_values();
    let bits = dtype_bits(dtype)->Some_0.0 as nat;
    lemma_pow_monotone(bits, 64);
    lemma_pow_monotone((bits - 1) as nat, 64);
    lemma_pow_positive(2, (bits - 1) as nat);
}

proof fn lemma_pow_monotone(a: nat, b: nat)
    requires
        a <= b,
    ensures
        int_pow(2, a) <= int_pow(2, b),
    decreases b,
{
    if a < b {
        lemma_pow_monotone(a, (b - 1) as nat);
        lemma_pow_positive(2, (b - 1) as nat);
    }
}

/// Vectors compare lane by lane, and give a mask.
pub proof fn law_vector_comparison(t: Answers, dtype: Dtype, x: Seq<i128>, y: Seq<i128>, i: int)
    requires
        dtype_bits(dtype) is Some,
        x.len() == y.len(),
        0 <= i < x.len(),
    ensures
        mask_at(infix_outcome(t, InfixOp::Lt, int_vector(dtype, x), int_vector(dtype, y)), i) == Some(x[i] < y[i]),
        mask_at(infix_outcome(t, InfixOp::Gt, int_vector(dtype, x), int_vector(dtype, y)), i) == Some(y[i] < x[i]),
        mask_at(infix_outcome(t, InfixOp::Le, int_vector(dtype, x), int_vector(dtype, y)), i) == Some(!(y[i] < x[i])),
        mask_at(infix_outcome(t, InfixOp::Ge, int_vector(dtype, x), int_vector(dtype, y)), i) == Some(!(x[i] < y[i])),
        mask_at(infix_outcome(t, InfixOp::Eq, int_vector(dtype, x), int_vector(dtype, y)), i) == Some(x[i] == y[i]),
        mask_at(infix_outcome(t, InfixOp::Ne, int_vector(dtype, x), int_vector(dtype, y)), i) == Some(x[i] != y[i]),
{
    lemma_int_vectors(t, InfixOp::Lt, dtype, x, y);
    lemma_int_vectors(t, InfixOp::Gt, dtype, x, y);
    lemma_int_vectors(t, InfixOp::Le, dtype, x, y);
    lemma_int_vectors(t, InfixOp::Ge, dtype, x, y);
    lemma_int_vectors(t, InfixOp::Eq, dtype, x, y);
    lemma_int_vectors(t, InfixOp::Ne, dtype, x, y);
}

/// The truth value in a lane of a mask.
pub open spec fn mask_at(o: Outcome, i: int) -> Option<bool> {
    match o {
        Ok(ValueModel::Simd { dtype: Dtype::Bool, lanes: SimdLanesModel::Bool(v) }) => if 0 <= i < v.len() {
            Some(v[i])
        } else {
            None
        },
        _ => None,
    }
}

/// Selecting takes each lane from the first case where the mask holds and from the second
/// where it does not.
pub proof fn law_select(t: Answers, mask: Seq<bool>, dtype: Dtype, x: Seq<i128>, y: Seq<i128>, i: int)
    requires
        dtype_bits(dtype) is Some,
        x.len() == mask.len(),
        y.len() == mask.len(),
        mask.len() > 1,
        0 <= i < mask.len(),
    ensures
        selected(t, SimdLanesModel::Bool(mask), int_vector(dtype, x), int_vector(dtype, y)) matches Ok(ValueModel::Simd {
            dtype: found,
            lanes: SimdLanesModel::Int(v),
        }) && found == dtype && v.len() == mask.len() && v[i] == if mask[i] { x[i] } else { y[i] },
{
    reveal(selected);
}

/// Shuffling puts into each lane the lane that the mask names; a mask that names a lane
/// that is not there is refused.
pub proof fn law_shuffle(dtype: Dtype, x: Seq<i128>, mask: Seq<usize>, i: int)
    requires
        mask.len() > 1,
        0 <= i < mask.len(),
    ensures
        shuffled(int_vector(dtype, x), mask) is Ok <==> forall|k: int|
            0 <= k < mask.len() ==> #[trigger] mask[k] < x.len(),
        shuffled(int_vector(dtype, x), mask) is Ok
            ==> (shuffled(int_vector(dtype, x), mask)->Ok_0 matches ValueModel::Simd {
            dtype: found,
            lanes: SimdLanesModel::Int(v),
        } && found == dtype && v.len() == mask.len() && v[i] == x[mask[i] as int]),
{
    reveal(shuffled);
    lemma_missing_lane(mask, x.len(), 0);
}

proof fn lemma_missing_lane(mask: Seq<usize>, width: nat, from: int)
    requires
        0 <= from <= mask.len(),
    ensures
        missing_lane(mask, width, from) is None <==> forall|k: int|
            from <= k < mask.len() ==> #[trigger] mask[k] < width,
    decreases mask.len() - from,
{
    if from < mask.len() {
        lemma_missing_lane(mask, width, from + 1);
    }
}

/// Writing a lane changes that lane alone, and only lanes that are there are written.
pub proof fn law_lane_written(t: Answers, dtype: Dtype, x: Seq<i128>, i: int, n: i64, j: int)
    requires
        dtype_bits(dtype) is Some,
        0 <= j < x.len(),
    ensures
        lane_written(t, dtype, SimdLanesModel::Int(x), i, ValueModel::Int(n)) is Ok <==> 0 <= i < x.len(),
        0 <= i < x.len() ==> (lane_written(t, dtype, SimdLanesModel::Int(x), i, ValueModel::Int(n))->Ok_0 matches SimdLanesModel::Int(
            v,
        ) && v.len() == x.len() && (j != i ==> v[j] == x[j]) && (v[i] - n) % int_pow(
            2,
            dtype_bits(dtype)->Some_0.0 as nat,
        ) == 0 && lane_of(SimdLanesModel::Int(v), i) == SimdLanesModel::Int(seq![v[i]])),
{
    reveal(lane_written);
    law_wrapped_agrees(dtype, n as int);
    lemma_lane_fits(dtype, n as int);
}

/// The least lane is one of the lanes and above none; the greatest below none.
pub proof fn law_extreme_lanes(dtype: Dtype, v: Seq<i128>, n: nat, i: int)
    requires
        1 <= n <= v.len(),
        0 <= i < n,
    ensures
        int_reduced(Reduction::Min, dtype, v, n) <= v[i],
        int_reduced(Reduction::Max, dtype, v, n) >= v[i],
        exists|k: int| 0 <= k < n && int_reduced(Reduction::Min, dtype, v, n) == #[trigger] v[k],
        exists|k: int| 0 <= k < n && int_reduced(Reduction::Max, dtype, v, n) == #[trigger] v[k],
    decreases n,
{
    if n > 1 {
        law_extreme_lanes(dtype, v, (n - 1) as nat, if i < n - 1 { i } else { 0 });
        let a = choose|k: int| 0 <= k < n - 1
            && int_reduced(Reduction::Min, dtype, v, (n - 1) as nat) == #[trigger] v[k];
        let b = choose|k: int| 0 <= k < n - 1
            && int_reduced(Reduction::Max, dtype, v, (n - 1) as nat) == #[trigger] v[k];
        assert(int_reduced(Reduction::Min, dtype, v, n) == v[a] || int_reduced(Reduction::Min, dtype, v, n) == v[n - 1]);
        assert(int_reduced(Reduction::Max, dtype, v, n) == v[b] || int_reduced(Reduction::Max, dtype, v, n) == v[n - 1]);
    } else {
        assert(v[0] == v[i]);
    }
}

/// Adding up one lane more adds that lane.
pub proof fn law_lane_sums(dtype: Dtype, v: Seq<i128>, n: nat)
    requires
        dtype_bits(dtype) is Some,
        1 <= n < v.len(),
        -0x1_0000_0000_0000_0000 < v[n as int] < 0x1_0000_0000_0000_0000,
        -0x1_0000_0000_0000_0000 < int_reduced(Reduction::Add, dtype, v, n) < 0x1_0000_0000_0000_0000,
    ensures
        int_reduced(Reduction::Add, dtype, v, 1) == v[0],
        int_reduced(Reduction::Mul, dtype, v, 1) == v[0],
        (int_reduced(Reduction::Add, dtype, v, n + 1) - (int_reduced(Reduction::Add, dtype, v, n) + v[n as int])) % int_pow(
            2,
            dtype_bits(dtype)->Some_0.0 as nat,
        ) == 0,
        i128::MIN <= int_reduced(Reduction::Mul, dtype, v, n) * v[n as int] <= i128::MAX ==> (int_reduced(
            Reduction::Mul,
            dtype,
            v,
            n + 1,
        ) - int_reduced(Reduction::Mul, dtype, v, n) * v[n as int]) % int_pow(2, dtype_bits(dtype)->Some_0.0 as nat) == 0,
{
    let s = int_reduced(Reduction::Add, dtype, v, n) + v[n as int];
    law_wrapped_agrees(dtype, s);
    lemma_lane_fits(dtype, s);
    let p = int_reduced(Reduction::Mul, dtype, v, n) * v[n as int];
    law_wrapped_agrees(dtype, p);
    lemma_lane_fits(dtype, p);
}

/// The reductions by name: a vector's method gives the reduction that it names; a mask
/// holds altogether where every lane does, and at all where one does.
pub proof fn law_reduction_methods(t: Answers, dtype: Dtype, v: Seq<i128>, m: Seq<bool>)
    requires
        v.len() > 0,
    ensures
        vector_method(t, dtype, SimdLanesModel::Int(v), "reduce_add"@, Seq::empty()) == reduced(
            t,
            dtype,
            SimdLanesModel::Int(v),
            Reduction::Add,
        ),
        vector_method(t, dtype, SimdLanesModel::Int(v), "reduce_mul"@, Seq::empty()) == reduced(
            t,
            dtype,
            SimdLanesModel::Int(v),
            Reduction::Mul,
        ),
        vector_method(t, dtype, SimdLanesModel::Int(v), "reduce_min"@, Seq::empty()) == reduced(
            t,
            dtype,
            SimdLanesModel::Int(v),
            Reduction::Min,
        ),
        vector_method(t, dtype, SimdLanesModel::Int(v), "reduce_max"@, Seq::empty()) == reduced(
            t,
            dtype,
            SimdLanesModel::Int(v),
            Reduction::Max,
        ),
        vector_method(t, dtype, SimdLanesModel::Bool(m), "reduce_and"@, Seq::empty()) == Ok::<ValueModel, StopModel>(
            ValueModel::Bool(forall|i: int| 0 <= i < m.len() ==> #[trigger] m[i]),
        ),
        vector_method(t, dtype, SimdLanesModel::Bool(m), "reduce_or"@, Seq::empty()) == Ok::<ValueModel, StopModel>(
            ValueModel::Bool(exists|i: int| 0 <= i < m.len() && #[trigger] m[i]),
        ),
{
    reveal(vector_method);
    reveal_strlit("select");
    reveal_strlit("reduce_add");
    reveal_strlit("reduce_mul");
    reveal_strlit("reduce_min");
    reveal_strlit("reduce_max");
    reveal_strlit("reduce_and");
    reveal_strlit("reduce_or");
    assert("select"@.len() == 6 && "reduce_or"@.len() == 9 && "reduce_and"@.len() == 10);
    assert("reduce_add"@[8] == 'd' && "reduce_and"@[8] == 'n' && "reduce_mul"@[7] == 'm' && "reduce_min"@[8] == 'i'
        && "reduce_max"@[8] == 'a' && "reduce_mul"@[8] == 'u' && "reduce_min"@[7] == 'm' && "reduce_max"@[7] == 'm'
        && "reduce_add"@[7] == 'a' && "reduce_and"@[7] == 'a');
}

/// Negating a vector negates each lane, and casting one keeps the low bits of each.
pub proof fn law_lanes_change(t: Answers, dtype: Dtype, x: Seq<i128>, i: int)
    requires
        dtype_bits(dtype) is Some,
        0 <= i < x.len(),
        i128::MIN < x[i],
    ensures
        lanes_negated(dtype, SimdLanesModel::Int(x)) matches Ok(SimdLanesModel::Int(v)) && v.len() == x.len() && (v[i]
            + x[i]) % int_pow(2, dtype_bits(dtype)->Some_0.0 as nat) == 0,
        lanes_cast(t, dtype, SimdLanesModel::Int(x)) matches Ok(SimdLanesModel::Int(v)) && v.len() == x.len() && (v[i]
            - x[i]) % int_pow(2, dtype_bits(dtype)->Some_0.0 as nat) == 0,
{
    law_wrapped_agrees(dtype, -(x[i] as int));
    lemma_lane_fits(dtype, -(x[i] as int));
    law_wrapped_agrees(dtype, x[i] as int);
    lemma_lane_fits(dtype, x[i] as int);
    assert(vstd::wrapping::i128_specs::wrapping_sub(0, x[i]) == -x[i]);
}

/// A vector is built lane by lane from its values; one value fills every lane.
pub proof fn law_vector_built(t: Answers, dtype: Dtype, values: Seq<ValueModel>, width: nat, i: int)
    requires
        dtype_bits(dtype) is Some,
        values.len() == 1 || values.len() == width,
        width > 1,
        0 <= i < width,
        vector_of(t, dtype, width, values) is Ok,
    ensures
        vector_of(t, dtype, width, values)->Ok_0 matches ValueModel::Simd { dtype: found, lanes: SimdLanesModel::Int(v) }
            && found == dtype && v.len() == width && int_lane(
            if values.len() == 1 { values[0] } else { values[i] },
            dtype,
        ) == Ok::<i128, StopModel>(v[i]),
{
    reveal(vector_of);
    let results = int_sources(values, dtype, width);
    lemma_lane_collected(results, i);
    assert(results[i] == int_lane(crate::runtime::lanes::lane_source(values, i), dtype));
}

proof fn lemma_lane_collected<T, E>(results: Seq<Result<T, E>>, i: int)
    requires
        collect(results) is Ok,
        0 <= i < results.len(),
    ensures
        results[i] is Ok,
        collect(results)->Ok_0.len() == results.len(),
        collect(results)->Ok_0[i] == results[i]->Ok_0,
    decreases results.len(),
{
    let shorter = results.drop_last();
    assert(collect(shorter) is Ok);
    if shorter.len() > 0 {
        lemma_lane_collected(shorter, if i < shorter.len() { i } else { 0 });
    }
}

/// A lane holds the low bits of what is put into it, a truth value as one or zero.
pub proof fn law_lane_content(dtype: Dtype, n: i64, u: u64, b: bool, v: int)
    requires
        dtype_bits(dtype) is Some,
    ensures
        ({
            let m = int_pow(2, dtype_bits(dtype)->Some_0.0 as nat);
            &&& (int_lane(ValueModel::Int(n), dtype) matches Ok(x) && (x - n) % m == 0)
            &&& (int_lane(ValueModel::UInt(u), dtype) matches Ok(x) && (x - u) % m == 0)
            &&& (int_lane(ValueModel::Bool(b), dtype) matches Ok(x) && (x - if b { 1int } else { 0int }) % m == 0)
        }),
        int_lane(ValueModel::Str(Seq::empty()), dtype) is Err,
{
    law_wrapped_agrees(dtype, n as int);
    lemma_lane_fits(dtype, n as int);
    law_wrapped_agrees(dtype, u as int);
    lemma_lane_fits(dtype, u as int);
    law_wrapped_agrees(dtype, if b { 1int } else { 0int });
    lemma_lane_fits(dtype, if b { 1int } else { 0int });
}

/// A vector of one `Int` or `Float64` lane is that number; every other stays a vector.
pub proof fn law_single_lanes(dtype: Dtype, x: i128, bits: u64, v: Seq<i128>)
    ensures
        i64::MIN <= x <= i64::MAX ==> vector_value(Dtype::Int, SimdLanesModel::Int(seq![x])) == ValueModel::Int(x as i64),
        vector_value(Dtype::Float64, SimdLanesModel::Float(seq![bits])) == ValueModel::Float64(bits),
        v.len() != 1 || dtype != Dtype::Int ==> vector_value(dtype, SimdLanesModel::Int(v)) == int_vector(dtype, v),
        dtype != Dtype::Float64 ==> vector_value(dtype, SimdLanesModel::Float(seq![bits])) is Simd,
{
}

/// A vector of floating lanes.
pub open spec fn float_vector(dtype: Dtype, v: Seq<u64>) -> ValueModel {
    ValueModel::Simd { dtype, lanes: SimdLanesModel::Float(v) }
}

/// Whether an operator compares.
pub open spec fn orders(op: InfixOp) -> bool {
    op is Lt || op is Gt || op is Le || op is Ge || op is Eq || op is Ne
}

/// Floating lanes compare as floating-point numbers do, and in `Float64` vectors they are
/// added, subtracted, multiplied and divided as those are.
#[verifier::rlimit(40)]
pub proof fn law_float_vectors(t: Answers, op: InfixOp, dtype: Dtype, x: Seq<u64>, y: Seq<u64>, i: int)
    requires
        dtype_is_float(dtype),
        x.len() == y.len(),
        0 <= i < x.len(),
    ensures
        orders(op) ==> mask_at(infix_outcome(t, op, float_vector(dtype, x), float_vector(dtype, y)), i) == truth(
            floats(t, op, x[i], y[i]),
        ) && truth(floats(t, op, x[i], y[i])) is Some,
        (op is Add || op is Sub || op is Mul || op is Div) && dtype == Dtype::Float64 && infix_outcome(
            t,
            op,
            float_vector(dtype, x),
            float_vector(dtype, y),
        ) is Ok ==> (infix_outcome(t, op, float_vector(dtype, x), float_vector(dtype, y))->Ok_0 matches ValueModel::Simd {
            dtype: found,
            lanes: SimdLanesModel::Float(v),
        } && found == dtype && v.len() == x.len() && floats(t, op, x[i], y[i]) == Ok::<ValueModel, StopModel>(
            ValueModel::Float64(v[i]),
        )),
{
    reveal(infix_outcome);
    reveal(vector_outcome);
    reveal(any_numeric_outcome);
    reveal(numeric_outcome);
    reveal(float_outcome);
    if (op is Add || op is Sub || op is Mul || op is Div) && dtype == Dtype::Float64 {
        let results = float_lane_results(t, op, dtype, x, y);
        if collect(results) is Ok {
            lemma_lane_collected(results, i);
        }
    }
}

/// Masks are equal lane by lane.
pub proof fn law_mask_equality(t: Answers, x: Seq<bool>, y: Seq<bool>, i: int)
    requires
        x.len() == y.len(),
        0 <= i < x.len(),
    ensures
        ({
            let a = ValueModel::Simd { dtype: Dtype::Bool, lanes: SimdLanesModel::Bool(x) };
            let b = ValueModel::Simd { dtype: Dtype::Bool, lanes: SimdLanesModel::Bool(y) };
            &&& mask_at(infix_outcome(t, InfixOp::Eq, a, b), i) == Some(x[i] == y[i])
            &&& mask_at(infix_outcome(t, InfixOp::Ne, a, b), i) == Some(x[i] != y[i])
        }),
{
    reveal(infix_outcome);
    reveal(vector_outcome);
}

/// A number beside a vector stands for a vector of that number in every lane.
pub proof fn law_scalar_beside_vector(t: Answers, op: InfixOp, dtype: Dtype, x: Seq<i128>, n: i64)
    requires
        dtype_bits(dtype) is Some,
        !(op is In || op is NotIn),
        int_lane(ValueModel::Int(n), dtype) is Ok,
    ensures
        infix_outcome(t, op, int_vector(dtype, x), ValueModel::Int(n)) == infix_outcome(
            t,
            op,
            int_vector(dtype, x),
            int_vector(dtype, Seq::new(x.len(), |i: int| int_lane(ValueModel::Int(n), dtype)->Ok_0)),
        ),
        infix_outcome(t, op, ValueModel::Int(n), int_vector(dtype, x)) == infix_outcome(
            t,
            op,
            int_vector(dtype, Seq::new(x.len(), |i: int| int_lane(ValueModel::Int(n), dtype)->Ok_0)),
            int_vector(dtype, x),
        ),
{
    reveal(infix_outcome);
    reveal(vector_outcome);
    let l = int_lane(ValueModel::Int(n), dtype)->Ok_0;
    assert(Seq::new(x.len(), |i: int| l) =~= Seq::new(
        x.len(),
        |i: int| int_lane(ValueModel::Int(n), dtype)->Ok_0,
    ));
    lemma_int_vectors(t, op, dtype, x, Seq::new(x.len(), |i: int| l));
    lemma_int_vectors(t, op, dtype, Seq::new(x.len(), |i: int| l), x);
}

} // verus!
