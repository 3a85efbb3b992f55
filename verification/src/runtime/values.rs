//! Equality and text of values.

use crate::data::{same_bools, same_i128s};
use crate::literal::{
    FloatLiteral, FloatLiteralModel, IntLiteral, denominator, fraction_order, fraction_text,
    literal_value, numerator,
};
use crate::order::Order;
use crate::runtime::{
    ClosureCaptureModel, SimdLanes, SimdLanesModel, Stop, StopModel, Value, ValueModel, fail_type,
    float_equal, float_finite, float_nan, float_parts, floats_equal, kind_name, lane_count,
    name_of_slice_kind, same_ref_projections, slice_kind_name, string_values_view, type_error,
    value_kind, values_list_view,
};
use crate::text::{
    cat2, cat3, cat4, cat5, cat8, dec, dec_int, dec_text, dec_text_i64, dec_text_usize, digit,
    digits, push_digits, quoted, quoted_text, str_eq,
};
use crate::types::same_tys;
use vstd::prelude::*;

verus! {

/// Equality of lanes: floating ones compare as numbers.
pub open spec fn lanes_eq(a: SimdLanesModel, b: SimdLanesModel) -> bool {
    match (a, b) {
        (SimdLanesModel::Int(x), SimdLanesModel::Int(y)) => x == y,
        (SimdLanesModel::Float(x), SimdLanesModel::Float(y)) => x.len() == y.len() && forall|i: int|
            0 <= i < x.len() ==> float_equal(#[trigger] x[i], y[i]),
        (SimdLanesModel::Bool(x), SimdLanesModel::Bool(y)) => x == y,
        _ => false,
    }
}

fn same_lanes(a: &SimdLanes, b: &SimdLanes) -> (r: bool)
    ensures
        r == lanes_eq(a@, b@),
{
    match (a, b) {
        (SimdLanes::Int(x), SimdLanes::Int(y)) => same_i128s(x, y),
        (SimdLanes::Float(x), SimdLanes::Float(y)) => {
            if x.len() != y.len() {
                return false;
            }
            for i in 0..x.len()
                invariant
                    a@ == SimdLanesModel::Float(x@),
                    b@ == SimdLanesModel::Float(y@),
                    x@.len() == y@.len(),
                    forall|j: int| 0 <= j < i ==> float_equal(#[trigger] x@[j], y@[j]),
            {
                if !floats_equal(x[i], y[i]) {
                    assert(!float_equal(x@[i as int], y@[i as int]));
                    return false;
                }
            }
            true
        },
        (SimdLanes::Bool(x), SimdLanes::Bool(y)) => same_bools(x, y),
        _ => false,
    }
}

impl PartialEq for SimdLanes {
    /// Lanes are equal lane by lane; floating ones compare as numbers.
    fn eq(&self, other: &SimdLanes) -> (r: bool) {
        same_lanes(self, other)
    }
}

impl vstd::std_specs::cmp::PartialEqSpecImpl for SimdLanes {
    open spec fn obeys_eq_spec() -> bool {
        true
    }

    open spec fn eq_spec(&self, other: &SimdLanes) -> bool {
        lanes_eq(self@, other@)
    }
}

/// Structural equality of values. Floating-point numbers compare as numbers, and
/// functions, closures and moved values equal nothing.
pub open spec fn value_eq(a: ValueModel, b: ValueModel) -> bool
    decreases a,
{
    match (a, b) {
        (ValueModel::Int(x), ValueModel::Int(y)) => x == y,
        (ValueModel::UInt(x), ValueModel::UInt(y)) => x == y,
        (ValueModel::Float64(x), ValueModel::Float64(y)) => float_equal(x, y),
        (ValueModel::IntLiteral(x), ValueModel::IntLiteral(y)) => literal_value(x) == literal_value(y),
        (ValueModel::FloatLiteral(x), ValueModel::FloatLiteral(y)) => fraction_order(x, y) is Same,
        (ValueModel::Bool(x), ValueModel::Bool(y)) => x == y,
        (ValueModel::Str(x), ValueModel::Str(y)) => x == y,
        (
            ValueModel::Pointer { allocation: x, offset: i },
            ValueModel::Pointer { allocation: y, offset: j },
        ) => x == y && i
            == j,
        (ValueModel::NoneValue, ValueModel::NoneValue) => true,
        (
            ValueModel::Slice { kind: ka, start: sa, end: ea, step: ta },
            ValueModel::Slice { kind: kb, start: sb, end: eb, step: tb },
        ) => ka == kb && sa == sb && ea == eb && ta == tb,
        (
            ValueModel::Struct { name: na, fields: fa, value_params: pa },
            ValueModel::Struct { name: nb, fields: fb, value_params: pb },
        ) => na == nb && named_eq(fa, fb) && named_eq(pa, pb),
        (ValueModel::Simd { dtype: da, lanes: la }, ValueModel::Simd { dtype: db, lanes: lb }) => da == db && lanes_eq(
            la,
            lb,
        ),
        (ValueModel::Error(x), ValueModel::Error(y)) => x == y,
        (ValueModel::ComptimeList(x), ValueModel::ComptimeList(y)) => items_eq(x, y),
        (ValueModel::Tuple(x), ValueModel::Tuple(y)) => items_eq(x, y),
        (
            ValueModel::Variant { alternatives: aa, index: ia, value: va },
            ValueModel::Variant { alternatives: ab, index: ib, value: vb },
        ) => aa == ab && ia == ib && value_eq(*va, *vb),
        (
            ValueModel::Ref { frame: fa, slot: sa, projection: pa },
            ValueModel::Ref { frame: fb, slot: sb, projection: pb },
        ) => fa == fb && sa == sb && pa == pb,
        _ => false,
    }
}

/// Equality of values in order.
pub open spec fn items_eq(a: Seq<ValueModel>, b: Seq<ValueModel>) -> bool
    decreases a,
{
    a.len() == b.len() && forall|i: int| 0 <= i < a.len() ==> value_eq(#[trigger] a[i], b[i])
}

/// Equality of named values in order.
pub open spec fn named_eq(a: Seq<(Seq<char>, ValueModel)>, b: Seq<(Seq<char>, ValueModel)>) -> bool
    decreases a,
{
    a.len() == b.len() && forall|i: int|
        0 <= i < a.len() ==> (#[trigger] a[i]).0 == b[i].0 && value_eq(a[i].1, b[i].1)
}

fn equal_items(a: &Vec<Value>, b: &Vec<Value>) -> (r: bool)
    ensures
        r == items_eq(values_list_view(*a), values_list_view(*b)),
    decreases a,
{
    let ghost (x, y) = (values_list_view(*a), values_list_view(*b));
    assert(x.len() == a@.len() && y.len() == b@.len());
    if a.len() != b.len() {
        return false;
    }
    for i in 0..a.len()
        invariant
            a@.len() == b@.len(),
            x == values_list_view(*a),
            y == values_list_view(*b),
            forall|j: int| 0 <= j < i ==> value_eq(#[trigger] x[j], y[j]),
    {
        assert(x[i as int] == a@[i as int]@);
        assert(y[i as int] == b@[i as int]@);
        if !a[i].equals(&b[i]) {
            return false;
        }
    }
    true
}

fn equal_named(a: &Vec<(String, Value)>, b: &Vec<(String, Value)>) -> (r: bool)
    ensures
        r == named_eq(string_values_view(*a), string_values_view(*b)),
    decreases a,
{
    let ghost (x, y) = (string_values_view(*a), string_values_view(*b));
    assert(x.len() == a@.len() && y.len() == b@.len());
    if a.len() != b.len() {
        return false;
    }
    for i in 0..a.len()
        invariant
            a@.len() == b@.len(),
            x == string_values_view(*a),
            y == string_values_view(*b),
            forall|j: int| 0 <= j < i ==> (#[trigger] x[j]).0 == y[j].0 && value_eq(x[j].1, y[j].1),
    {
        assert(x[i as int] == (a@[i as int].0@, a@[i as int].1@));
        assert(y[i as int] == (b@[i as int].0@, b@[i as int].1@));
        if a[i].0 != b[i].0 || !a[i].1.equals(&b[i].1) {
            assert(x[i as int].0 != y[i as int].0 || !value_eq(x[i as int].1, y[i as int].1));
            return false;
        }
    }
    true
}

impl Value {
    /// Structural equality.
    pub fn equals(&self, other: &Value) -> (r: bool)
        ensures
            r == value_eq(self@, other@),
        decreases self,
    {
        match (self, other) {
            (Value::Int(x), Value::Int(y)) => *x == *y,
            (Value::UInt(x), Value::UInt(y)) => *x == *y,
            (Value::Float64(x), Value::Float64(y)) => floats_equal(*x, *y),
            (Value::IntLiteral(x), Value::IntLiteral(y)) => match x.compare(y) {
                Order::Same => true,
                _ => false,
            },
            (Value::FloatLiteral(x), Value::FloatLiteral(y)) => match x.numeric_order(y) {
                Order::Same => true,
                _ => false,
            },
            (Value::Bool(x), Value::Bool(y)) => *x == *y,
            (Value::Str(x), Value::Str(y)) => str_eq(x, y),
            (
                Value::Pointer { allocation: x, offset: i },
                Value::Pointer { allocation: y, offset: j },
            ) => *x == *y && *i
                == *j,
            (Value::NoneValue, Value::NoneValue) => true,
            (
                Value::Slice { kind: ka, start: sa, end: ea, step: ta },
                Value::Slice { kind: kb, start: sb, end: eb, step: tb },
            ) => *ka == *kb && *sa == *sb && *ea == *eb && *ta == *tb,
            (
                Value::Struct { name: na, fields: fa, value_params: pa },
                Value::Struct { name: nb, fields: fb, value_params: pb },
            ) => str_eq(na, nb) && equal_named(fa, fb) && equal_named(pa, pb),
            (
                Value::Simd { dtype: da, lanes: la },
                Value::Simd { dtype: db, lanes: lb },
            ) => *da == *db && same_lanes(la, lb),
            (Value::Error(x), Value::Error(y)) => str_eq(x, y),
            (Value::ComptimeList(x), Value::ComptimeList(y)) => equal_items(x, y),
            (Value::Tuple(x), Value::Tuple(y)) => equal_items(x, y),
            (
                Value::Variant { alternatives: aa, index: ia, value: va },
                Value::Variant { alternatives: ab, index: ib, value: vb },
            ) => same_tys(aa, ab) && *ia == *ib && va.equals(vb),
            (
                Value::Ref { frame: fa, slot: sa, projection: pa },
                Value::Ref { frame: fb, slot: sb, projection: pb },
            ) => *fa == *fb && *sa == *sb && same_ref_projections(pa, pb),
            _ => false,
        }
    }
}

impl PartialEq for Value {
    fn eq(&self, other: &Value) -> (r: bool) {
        self.equals(other)
    }
}

impl vstd::std_specs::cmp::PartialEqSpecImpl for Value {
    open spec fn obeys_eq_spec() -> bool {
        true
    }

    open spec fn eq_spec(&self, other: &Value) -> bool {
        value_eq(self@, other@)
    }
}

/// Functions and closures equal nothing, themselves included; a number that is none is
/// unequal to itself, and the two zeros are equal.
pub proof fn law_values_without_identity(
    name: Seq<char>,
    captures: Seq<ClosureCaptureModel>,
    other: ValueModel,
    nan: u64,
)
    requires
        float_nan(nan),
    ensures
        !value_eq(ValueModel::Function(name), other),
        !value_eq(ValueModel::Closure { function: name, captures }, other),
        !value_eq(ValueModel::Float64(nan), ValueModel::Float64(nan)),
        value_eq(ValueModel::Float64(0), ValueModel::Float64(0x8000_0000_0000_0000)),
{
}

/// A finite number as a numerator and a denominator.
pub open spec fn exact_parts(v: ValueModel) -> Option<(int, int)> {
    match v {
        ValueModel::Int(n) => Some((n as int, 1)),
        ValueModel::UInt(n) => Some((n as int, 1)),
        ValueModel::Float64(bits) => if float_finite(bits) { Some(float_parts(bits)) } else { None },
        ValueModel::IntLiteral(l) => Some((literal_value(l), 1)),
        ValueModel::FloatLiteral(l) => Some((numerator(l), denominator(l))),
        _ => None,
    }
}

/// A finite number as an exact literal.
pub fn as_finite_numeric(v: &Value) -> (r: Option<FloatLiteral>)
    ensures
        match r {
            Some(l) => exact_parts(v@) == Some((numerator(l@), denominator(l@))),
            None => exact_parts(v@) is None,
        },
{
    match v {
        Value::Int(n) => Some(FloatLiteral::from_int(&IntLiteral::from_i64(*n))),
        Value::UInt(n) => Some(FloatLiteral::from_int(&IntLiteral::from_u64(*n))),
        Value::Float64(bits) => FloatLiteral::from_bits(*bits),
        Value::IntLiteral(l) => Some(FloatLiteral::from_int(l)),
        Value::FloatLiteral(l) => Some(l.copy()),
        _ => None,
    }
}

/// Whether a value is an exact literal.
pub open spec fn is_exact(v: ValueModel) -> bool {
    v is IntLiteral || v is FloatLiteral
}

/// Whether a value is a runtime number.
pub open spec fn is_num(v: ValueModel) -> bool {
    v is Int || v is UInt || v is Float64
}

/// Whether a value is an exact literal.
pub fn holds_exact(v: &Value) -> (r: bool)
    ensures
        r == is_exact(v@),
{
    match v {
        Value::IntLiteral(_) => true,
        Value::FloatLiteral(_) => true,
        _ => false,
    }
}

/// Whether a value is a runtime number.
pub fn holds_num(v: &Value) -> (r: bool)
    ensures
        r == is_num(v@),
{
    match v {
        Value::Int(_) => true,
        Value::UInt(_) => true,
        Value::Float64(_) => true,
        _ => false,
    }
}

/// Equality for the operators: numbers compare by value whatever their kinds,
/// packs and lists element by element, and elements that do not compare make them
/// unequal. Other values need the same kind.
pub open spec fn operator_equal(a: ValueModel, b: ValueModel) -> Result<bool, StopModel>
    decreases a,
{
    match (exact_parts(a), exact_parts(b)) {
        (Some(x), Some(y)) => Ok(x.0 * y.1 == y.0 * x.1),
        _ => if (is_exact(a) || is_num(a)) && (is_exact(b) || is_num(b)) {
            Ok(a is Float64 && b is Float64 && float_equal(a->Float64_0, b->Float64_0))
        } else {
            match (a, b) {
                (ValueModel::Bool(x), ValueModel::Bool(y)) => Ok(x == y),
                (ValueModel::Str(x), ValueModel::Str(y)) => Ok(x == y),
                (ValueModel::NoneValue, ValueModel::NoneValue) => Ok(true),
                (
                    ValueModel::Variant { alternatives: aa, index: ia, value: va },
                    ValueModel::Variant { alternatives: ab, index: ib, value: vb },
                ) => if aa != ab {
                    Err(incomparable(a, b))
                } else if ia != ib {
                    Ok(false)
                } else {
                    operator_equal(*va, *vb)
                },
                (ValueModel::Tuple(x), ValueModel::Tuple(y)) => Ok(all_operator_equal(x, y)),
                (ValueModel::ComptimeList(x), ValueModel::ComptimeList(y)) => Ok(all_operator_equal(x, y)),
                _ => Err(incomparable(a, b)),
            }
        },
    }
}

/// Whether values are equal in order.
pub open spec fn all_operator_equal(a: Seq<ValueModel>, b: Seq<ValueModel>) -> bool
    decreases a,
{
    a.len() == b.len() && forall|i: int|
        0 <= i < a.len() ==> operator_equal(#[trigger] a[i], b[i]) == Ok::<bool, StopModel>(true)
}

/// The failure of comparing two values.
pub open spec fn incomparable(a: ValueModel, b: ValueModel) -> StopModel {
    type_error("cannot compare "@ + value_kind(a) + " and "@ + value_kind(b))
}

fn all_values_equal(a: &Vec<Value>, b: &Vec<Value>) -> (r: bool)
    ensures
        r == all_operator_equal(values_list_view(*a), values_list_view(*b)),
    decreases a,
{
    let ghost (x, y) = (values_list_view(*a), values_list_view(*b));
    assert(x.len() == a@.len() && y.len() == b@.len());
    if a.len() != b.len() {
        return false;
    }
    for i in 0..a.len()
        invariant
            a@.len() == b@.len(),
            x == values_list_view(*a),
            y == values_list_view(*b),
            forall|j: int| 0 <= j < i ==> operator_equal(#[trigger] x[j], y[j]) == Ok::<bool, StopModel>(true),
    {
        assert(x[i as int] == a@[i as int]@);
        assert(y[i as int] == b@[i as int]@);
        match values_equal(&a[i], &b[i]) {
            Ok(true) => {},
            _ => return false,
        }
    }
    true
}

/// The model of an outcome that gives a truth value.
pub open spec fn truth_view(r: Result<bool, Stop>) -> Result<bool, StopModel> {
    match r {
        Ok(b) => Ok(b),
        Err(s) => Err(s@),
    }
}

fn cannot_compare(a: &Value, b: &Value) -> (r: Stop)
    ensures
        r@ == incomparable(a@, b@),
{
    fail_type(cat4("cannot compare ", &kind_name(a), " and ", &kind_name(b)))
}

/// Equality for `==` and `!=`.
pub fn values_equal(a: &Value, b: &Value) -> (r: Result<bool, Stop>)
    ensures
        truth_view(r) == operator_equal(a@, b@),
    decreases a,
{
    if let (Some(x), Some(y)) = (as_finite_numeric(a), as_finite_numeric(b)) {
        return match x.numeric_order(&y) {
            Order::Same => Ok(true),
            _ => Ok(false),
        };
    }
    if (holds_exact(a) || holds_num(a)) && (holds_exact(b) || holds_num(b)) {
        return match (a, b) {
            (Value::Float64(x), Value::Float64(y)) => Ok(floats_equal(*x, *y)),
            _ => Ok(false),
        };
    }
    match (a, b) {
        (Value::Bool(x), Value::Bool(y)) => Ok(*x == *y),
        (Value::Str(x), Value::Str(y)) => Ok(str_eq(x, y)),
        (Value::NoneValue, Value::NoneValue) => Ok(true),
        (
            Value::Variant { alternatives: aa, index: ia, value: va },
            Value::Variant { alternatives: ab, index: ib, value: vb },
        ) => if !same_tys(aa, ab) {
            Err(cannot_compare(a, b))
        } else if *ia != *ib {
            Ok(false)
        } else {
            values_equal(va, vb)
        },
        (Value::Tuple(x), Value::Tuple(y)) => Ok(all_values_equal(x, y)),
        (Value::ComptimeList(x), Value::ComptimeList(y)) => Ok(all_values_equal(x, y)),
        _ => Err(cannot_compare(a, b)),
    }
}

/// Equality of finite numbers does not depend on their kinds, and is symmetric.
pub proof fn law_numeric_equality_symmetric(a: ValueModel, b: ValueModel)
    requires
        exact_parts(a) is Some,
        exact_parts(b) is Some,
    ensures
        operator_equal(a, b) == operator_equal(b, a),
{
}

/// A finite number equals the exact literal of its value.
pub proof fn law_number_equals_its_literal(v: ValueModel, l: FloatLiteralModel)
    requires
        exact_parts(v) == Some((numerator(l), denominator(l))),
    ensures
        operator_equal(v, ValueModel::FloatLiteral(l)) == Ok::<bool, StopModel>(true),
{
}

/// Part of the text of a value. What only its printer knows is kept as it is: the
/// shortest spelling of a floating-point number.
#[derive(Debug, PartialEq, Eq)]
pub enum TextPart {
    Plain(String),
    Float(u64),
}

/// Mathematical model of [`TextPart`].
#[verifier::ext_equal]
pub enum TextPartModel {
    Plain(Seq<char>),
    Float(u64),
}

impl View for TextPart {
    type V = TextPartModel;

    open spec fn view(&self) -> TextPartModel {
        match self {
            TextPart::Plain(text) => TextPartModel::Plain(text@),
            TextPart::Float(bits) => TextPartModel::Float(*bits),
        }
    }
}

/// The model of parts in order.
pub open spec fn parts_view(parts: Seq<TextPart>) -> Seq<TextPartModel> {
    Seq::new(parts.len(), |i: int| parts[i]@)
}

/// One plain part.
pub open spec fn plain(text: Seq<char>) -> Seq<TextPartModel> {
    seq![TextPartModel::Plain(text)]
}

fn push_plain(out: &mut Vec<TextPart>, text: String)
    ensures
        parts_view(final(out)@) == parts_view(old(out)@) + plain(text@),
{
    out.push(TextPart::Plain(text));
    assert(parts_view(out@) =~= parts_view(old(out)@) + plain(text@));
}

fn push_words(out: &mut Vec<TextPart>, text: &str)
    ensures
        parts_view(final(out)@) == parts_view(old(out)@) + plain(text@),
{
    push_plain(out, text.to_owned());
}

/// An optional bound as it is written.
pub open spec fn bound_text(bound: Option<i64>) -> Seq<char> {
    match bound {
        Some(v) => "Some("@ + dec_int(v as int) + ")"@,
        None => "None"@,
    }
}

fn text_of_bound(bound: &Option<i64>) -> (r: String)
    ensures
        r@ == bound_text(*bound),
{
    match bound {
        Some(v) => cat3("Some(", &dec_text_i64(*v), ")"),
        None => "None".to_owned(),
    }
}

/// The name of a truth value.
pub open spec fn truth_text(b: bool) -> Seq<char> {
    if b { "True"@ } else { "False"@ }
}

/// The parts of one lane.
pub open spec fn lane_parts(lanes: SimdLanesModel, i: int) -> TextPartModel {
    match lanes {
        SimdLanesModel::Int(v) => TextPartModel::Plain(dec_int(v[i] as int)),
        SimdLanesModel::Float(v) => TextPartModel::Float(v[i]),
        SimdLanesModel::Bool(v) => TextPartModel::Plain(truth_text(v[i])),
    }
}

/// The parts of the first `n` lanes, with commas between.
pub open spec fn lanes_parts(lanes: SimdLanesModel, n: nat) -> Seq<TextPartModel>
    decreases n,
{
    if n == 0 {
        Seq::empty()
    } else {
        lanes_parts(lanes, (n - 1) as nat) + (if n == 1 { Seq::empty() } else { plain(", "@) }) + seq![
            lane_parts(lanes, n - 1),
        ]
    }
}

fn push_digits_wide(s: &mut String, n: u128)
    ensures
        final(s)@ == old(s)@ + dec(n as nat),
    decreases n,
{
    if n >= 10 {
        push_digits_wide(s, n / 10);
    }
    s.push(digit((n % 10) as u8, false));
    assert(s@ =~= old(s)@ + dec(n as nat));
}

fn dec_text_wide(n: i128) -> (r: String)
    ensures
        r@ == dec_int(n as int),
{
    let mut s: String = String::new();
    if n < 0 {
        s.push('-');
        let magnitude: u128 = (-(n + 1)) as u128 + 1;
        push_digits_wide(&mut s, magnitude);
    } else {
        push_digits_wide(&mut s, n as u128);
    }
    assert(s@ =~= dec_int(n as int));
    s
}

fn lane_part(lanes: &SimdLanes, i: usize) -> (r: TextPart)
    requires
        i < lane_count(lanes@),
    ensures
        r@ == lane_parts(lanes@, i as int),
{
    match lanes {
        SimdLanes::Int(v) => TextPart::Plain(dec_text_wide(v[i])),
        SimdLanes::Float(v) => TextPart::Float(v[i]),
        SimdLanes::Bool(v) => TextPart::Plain(if v[i] { "True".to_owned() } else { "False".to_owned() }),
    }
}

fn push_lanes(lanes: &SimdLanes, out: &mut Vec<TextPart>)
    ensures
        parts_view(final(out)@) == parts_view(old(out)@) + lanes_parts(lanes@, lane_count(lanes@)),
{
    let ghost start = parts_view(out@);
    let n: usize = lanes.width();
    assert(start =~= start + lanes_parts(lanes@, 0));
    for i in 0..n
        invariant
            n == lane_count(lanes@),
            parts_view(out@) == start + lanes_parts(lanes@, i as nat),
    {
        let ghost before = parts_view(out@);
        if i > 0 {
            push_words(out, ", ");
        }
        let ghost middle = parts_view(out@);
        let part: TextPart = lane_part(lanes, i);
        out.push(part);
        assert(parts_view(out@) =~= middle + seq![lane_parts(lanes@, i as int)]);
        assert(parts_view(out@) =~= start + lanes_parts(lanes@, (i + 1) as nat));
    }
}

/// The parts of a value's text, in order.
pub open spec fn value_parts(v: ValueModel) -> Seq<TextPartModel>
    decreases v, 0int,
{
    match v {
        ValueModel::Int(n) => plain(dec_int(n as int)),
        ValueModel::UInt(n) => plain(dec(n as nat)),
        ValueModel::Float64(bits) => seq![TextPartModel::Float(bits)],
        ValueModel::IntLiteral(l) => plain(dec_int(literal_value(l))),
        ValueModel::FloatLiteral(l) => plain(fraction_text(l)),
        ValueModel::Bool(b) => plain(truth_text(b)),
        ValueModel::Str(s) => plain(s),
        ValueModel::NoneValue => plain("None"@),
        ValueModel::Function(name) => plain("<function "@ + name + ">"@),
        ValueModel::Closure { function, .. } => plain("<closure "@ + function + ">"@),
        ValueModel::Slice { kind, start, end, step } => plain(
            slice_kind_name(kind) + "("@ + bound_text(start) + ", "@ + bound_text(end) + ", "@ + bound_text(step) + ")"@,
        ),
        ValueModel::Struct { name, fields, value_params } => plain(name) + (if value_params.len() == 0 {
            Seq::empty()
        } else {
            plain("["@) + param_parts(value_params) + plain("]"@)
        }) + plain("("@) + field_parts(fields) + plain(")"@),
        ValueModel::Simd { lanes, .. } => if lane_count(lanes) == 1 {
            lanes_parts(lanes, 1)
        } else {
            plain("["@) + lanes_parts(lanes, lane_count(lanes)) + plain("]"@)
        },
        ValueModel::Error(text) => plain("Error("@ + quoted_text(text) + ")"@),
        ValueModel::Pointer { allocation, offset } => plain(
            "UnsafePointer(0x"@ + digits(allocation as nat, 16, false) + "+"@ + dec_int(offset as int) + ")"@,
        ),
        ValueModel::Ref { frame, slot, .. } => plain(
            "<ref "@ + dec(frame as nat) + ":"@ + dec(slot as nat) + ">"@
        ),
        ValueModel::Moved => plain("<moved>"@),
        ValueModel::ComptimeList(items) => plain("<comptime-list ["@) + item_parts(items) + plain("]>"@),
        ValueModel::Tuple(items) => plain("("@) + item_parts(items) + (if items.len() == 1 {
            plain(","@)
        } else {
            Seq::empty()
        }) + plain(")"@),
        ValueModel::Variant { value, .. } => value_parts(*value),
    }
}

/// The parts of values, with commas between.
pub open spec fn item_parts(items: Seq<ValueModel>) -> Seq<TextPartModel>
    decreases items, 0int,
{
    if items.len() == 0 {
        Seq::empty()
    } else {
        item_parts(items.drop_last()) + (if items.len() == 1 { Seq::empty() } else { plain(", "@) }) + value_parts(
            items.last(),
        )
    }
}

/// The parts of value parameters, with commas between.
pub open spec fn param_parts(items: Seq<(Seq<char>, ValueModel)>) -> Seq<TextPartModel>
    decreases items, 0int,
{
    if items.len() == 0 {
        Seq::empty()
    } else {
        param_parts(items.drop_last()) + (if items.len() == 1 { Seq::empty() } else { plain(", "@) }) + value_parts(
            items.last().1,
        )
    }
}

/// The parts of fields, with their names and commas between.
pub open spec fn field_parts(items: Seq<(Seq<char>, ValueModel)>) -> Seq<TextPartModel>
    decreases items, 0int,
{
    if items.len() == 0 {
        Seq::empty()
    } else {
        field_parts(items.drop_last()) + (if items.len() == 1 { Seq::empty() } else { plain(", "@) }) + plain(
            items.last().0 + "="@,
        ) + value_parts(items.last().1)
    }
}

fn push_items(items: &Vec<Value>, out: &mut Vec<TextPart>)
    ensures
        parts_view(final(out)@) == parts_view(old(out)@) + item_parts(values_list_view(*items)),
    decreases items, 0int,
{
    let ghost start = parts_view(out@);
    let ghost model = values_list_view(*items);
    assert(start =~= start + item_parts(model.take(0)));
    for i in 0..items.len()
        invariant
            model == values_list_view(*items),
            parts_view(out@) == start + item_parts(model.take(i as int)),
    {
        assert(model.take(i + 1).drop_last() =~= model.take(i as int));
        assert(model[i as int] == items@[i as int]@);
        if i > 0 {
            push_words(out, ", ");
        }
        items[i].push_parts(out);
        assert(parts_view(out@) =~= start + item_parts(model.take(i + 1)));
    }
    assert(model.take(model.len() as int) =~= model);
}

fn push_params(items: &Vec<(String, Value)>, out: &mut Vec<TextPart>)
    ensures
        parts_view(final(out)@) == parts_view(old(out)@) + param_parts(string_values_view(*items)),
    decreases items, 0int,
{
    let ghost start = parts_view(out@);
    let ghost model = string_values_view(*items);
    assert(start =~= start + param_parts(model.take(0)));
    for i in 0..items.len()
        invariant
            model == string_values_view(*items),
            parts_view(out@) == start + param_parts(model.take(i as int)),
    {
        assert(model.take(i + 1).drop_last() =~= model.take(i as int));
        assert(model[i as int] == (items@[i as int].0@, items@[i as int].1@));
        if i > 0 {
            push_words(out, ", ");
        }
        items[i].1.push_parts(out);
        assert(parts_view(out@) =~= start + param_parts(model.take(i + 1)));
    }
    assert(model.take(model.len() as int) =~= model);
}

fn push_fields(items: &Vec<(String, Value)>, out: &mut Vec<TextPart>)
    ensures
        parts_view(final(out)@) == parts_view(old(out)@) + field_parts(string_values_view(*items)),
    decreases items, 0int,
{
    let ghost start = parts_view(out@);
    let ghost model = string_values_view(*items);
    assert(start =~= start + field_parts(model.take(0)));
    for i in 0..items.len()
        invariant
            model == string_values_view(*items),
            parts_view(out@) == start + field_parts(model.take(i as int)),
    {
        assert(model.take(i + 1).drop_last() =~= model.take(i as int));
        assert(model[i as int] == (items@[i as int].0@, items@[i as int].1@));
        if i > 0 {
            push_words(out, ", ");
        }
        push_plain(out, cat2(&items[i].0, "="));
        items[i].1.push_parts(out);
        assert(parts_view(out@) =~= start + field_parts(model.take(i + 1)));
    }
    assert(model.take(model.len() as int) =~= model);
}

fn hex_text(n: u64) -> (r: String)
    ensures
        r@ == digits(n as nat, 16, false),
{
    let mut s: String = String::new();
    push_digits(&mut s, n, 16, false);
    assert(s@ =~= digits(n as nat, 16, false));
    s
}

impl Value {
    fn push_parts(&self, out: &mut Vec<TextPart>)
        ensures
            parts_view(final(out)@) == parts_view(old(out)@) + value_parts(self@),
        decreases self, 0int,
    {
        let ghost start = parts_view(out@);
        match self {
            Value::Int(n) => push_plain(out, dec_text_i64(*n)),
            Value::UInt(n) => push_plain(out, dec_text(*n)),
            Value::Float64(bits) => {
                out.push(TextPart::Float(*bits));
                assert(parts_view(out@) =~= start + value_parts(self@));
            },
            Value::IntLiteral(l) => push_plain(out, l.text()),
            Value::FloatLiteral(l) => push_plain(out, l.text()),
            Value::Bool(b) => push_words(out, if *b { "True" } else { "False" }),
            Value::Str(s) => push_plain(out, s.clone()),
            Value::NoneValue => push_words(out, "None"),
            Value::Function(name) => push_plain(out, cat3("<function ", name, ">")),
            Value::Closure { function, .. } => push_plain(out, cat3("<closure ", function, ">")),
            Value::Slice { kind, start: from, end, step } => push_plain(
                out,
                cat8(
                    name_of_slice_kind(*kind),
                    "(",
                    &text_of_bound(from),
                    ", ",
                    &text_of_bound(end),
                    ", ",
                    &text_of_bound(step),
                    ")",
                ),
            ),
            Value::Struct { name, fields, value_params } => {
                assert(string_values_view(*value_params).len() == value_params@.len());
                push_plain(out, name.clone());
                if value_params.len() > 0 {
                    push_words(out, "[");
                    push_params(value_params, out);
                    push_words(out, "]");
                }
                push_words(out, "(");
                push_fields(fields, out);
                push_words(out, ")");
                assert(parts_view(out@) =~= start + value_parts(self@));
            },
            Value::Simd { lanes, .. } => {
                if lanes.width() == 1 {
                    push_lanes(lanes, out);
                } else {
                    push_words(out, "[");
                    push_lanes(lanes, out);
                    push_words(out, "]");
                    assert(parts_view(out@) =~= start + value_parts(self@));
                }
            },
            Value::Error(text) => push_plain(out, cat3("Error(", &quoted(text), ")")),
            Value::Pointer { allocation, offset } => push_plain(
                out,
                cat5("UnsafePointer(0x", &hex_text(*allocation), "+", &dec_text_i64(*offset), ")"),
            ),
            Value::Ref { frame, slot, .. } => push_plain(
                out,
                cat5("<ref ", &dec_text(*frame), ":", &dec_text_usize(*slot), ">"),
            ),
            Value::Moved => push_words(out, "<moved>"),
            Value::ComptimeList(items) => {
                push_words(out, "<comptime-list [");
                push_items(items, out);
                push_words(out, "]>");
                assert(parts_view(out@) =~= start + value_parts(self@));
            },
            Value::Tuple(items) => {
                assert(values_list_view(*items).len() == items@.len());
                push_words(out, "(");
                push_items(items, out);
                if items.len() == 1 {
                    push_words(out, ",");
                }
                push_words(out, ")");
                assert(parts_view(out@) =~= start + value_parts(self@));
            },
            Value::Variant { value, .. } => value.push_parts(out),
        }
    }

    /// The parts of the value's text.
    pub fn parts(&self) -> (r: Vec<TextPart>)
        ensures
            parts_view(r@) == value_parts(self@),
    {
        let mut out: Vec<TextPart> = Vec::new();
        self.push_parts(&mut out);
        assert(parts_view(out@) =~= value_parts(self@));
        out
    }
}

} // verus!
