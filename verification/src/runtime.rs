//! Runtime values and their operations.
//!
//! Floating-point numbers are carried as binary64 bits. What floating-point hardware
//! has to compute is asked of a table of results: an operation whose result is not in
//! it stops with the task, and is run again once the table has the answer.

pub mod builtin_laws;
pub mod builtins;
pub mod equality_laws;
pub mod hash;
pub mod lanes;
pub mod laws;
pub mod materialize;
pub mod number_laws;
pub mod operators;
pub mod scalar;
pub mod simd;
pub mod values;
pub mod vector_laws;

use crate::ast::{Dtype, dtype_name, dtype_scalar_alias};
use crate::data::{copy_bools, copy_i128s, copy_u64s, same_bools, same_i128s, same_u64s};
use crate::literal::{
    FloatLiteral, FloatLiteralModel, IntLiteral, IntLiteralModel, float_literal_view,
    int_literal_view, int_pow, is_fraction, lemma_pow_positive, literal_value,
};
use crate::order::{Order, int_order};
use crate::text::{cat3, cat5, dec, dec_text_usize, join, join_push};
use crate::types::{SliceKind, Ty, TyModel, copy_tys, same_tys, ty_text, ty_texts, tys_view};
use vstd::prelude::*;

verus! {

/// One step of a reference into a live frame.
#[derive(Debug, PartialEq, Eq)]
pub enum RefProjection {
    Field(String),
    Index(usize),
    Variant(usize),
    /// One owned slot in a closure's environment.
    Capture(usize),
}

/// Mathematical model of [`RefProjection`].
#[verifier::ext_equal]
pub enum RefProjectionModel {
    Field(Seq<char>),
    Index(usize),
    Variant(usize),
    Capture(usize),
}

/// The lanes of a vector. Integer lanes hold the number after wrapping, so an
/// unsigned lane is never negative; floating lanes hold binary64 bits.
#[derive(Debug)]
pub enum SimdLanes {
    Int(Vec<i128>),
    Float(Vec<u64>),
    Bool(Vec<bool>),
}

/// Mathematical model of [`SimdLanes`].
#[verifier::ext_equal]
pub enum SimdLanesModel {
    Int(Seq<i128>),
    Float(Seq<u64>),
    Bool(Seq<bool>),
}

/// One slot of a closure's environment: a reference to a frame, or a value of its
/// own.
#[derive(Debug)]
pub struct ClosureCapture {
    pub value: Value,
    pub owned: bool,
}

/// Mathematical model of [`ClosureCapture`].
#[verifier::ext_equal]
pub struct ClosureCaptureModel {
    pub value: ValueModel,
    pub owned: bool,
}

/// A runtime value. Floating-point numbers are their binary64 bits.
#[derive(Debug)]
#[allow(inconsistent_fields)]
pub enum Value {
    Int(i64),
    UInt(u64),
    Float64(u64),
    /// A compile-time integer of any size.
    IntLiteral(IntLiteral),
    /// An exact finite compile-time fraction.
    FloatLiteral(FloatLiteral),
    Bool(bool),
    Str(String),
    NoneValue,
    /// A function without captures, by its symbol.
    Function(String),
    /// A lifted function with its environment.
    Closure { function: String, captures: Vec<ClosureCapture> },
    /// A slice descriptor; omitted bounds stay omitted.
    Slice { kind: SliceKind, start: Option<i64>, end: Option<i64>, step: Option<i64> },
    /// A struct: its type name, its fields in declaration order, and its value
    /// parameters.
    Struct { name: String, fields: Vec<(String, Value)>, value_params: Vec<(String, Value)> },
    Simd { dtype: Dtype, lanes: SimdLanes },
    Error(String),
    /// A list that crosses into compile-time evaluation.
    ComptimeList(Vec<Value>),
    /// Internal pack storage.
    Tuple(Vec<Value>),
    /// A tagged union: the checked alternatives, and which one it holds.
    Variant { alternatives: Vec<Ty>, index: usize, value: Box<Value> },
    Pointer { allocation: u64, offset: i64 },
    /// A reference to a variable slot of a live frame.
    Ref { frame: u64, slot: usize, projection: Vec<RefProjection> },
    /// What a moved value leaves behind.
    Moved,
}

/// Mathematical model of [`Value`].
#[verifier::ext_equal]
#[allow(inconsistent_fields)]
pub enum ValueModel {
    Int(i64),
    UInt(u64),
    Float64(u64),
    IntLiteral(IntLiteralModel),
    FloatLiteral(FloatLiteralModel),
    Bool(bool),
    Str(Seq<char>),
    NoneValue,
    Function(Seq<char>),
    Closure { function: Seq<char>, captures: Seq<ClosureCaptureModel> },
    Slice { kind: SliceKind, start: Option<i64>, end: Option<i64>, step: Option<i64> },
    Struct {
        name: Seq<char>,
        fields: Seq<(Seq<char>, ValueModel)>,
        value_params: Seq<(Seq<char>, ValueModel)>,
    },
    Simd { dtype: Dtype, lanes: SimdLanesModel },
    Error(Seq<char>),
    ComptimeList(Seq<ValueModel>),
    Tuple(Seq<ValueModel>),
    Variant { alternatives: Seq<TyModel>, index: usize, value: Box<ValueModel> },
    Pointer { allocation: u64, offset: i64 },
    Ref { frame: u64, slot: usize, projection: Seq<RefProjectionModel> },
    Moved,
}

/// How a floating-point number is rounded to a whole one.
#[derive(Debug, Clone, Copy, PartialEq, Eq, Hash, Structural)]
pub enum Rounding {
    Floor,
    Ceil,
    Trunc,
    Nearest,
}

/// A floating-point operation on two numbers.
#[derive(Debug, Clone, Copy, PartialEq, Eq, Hash, Structural)]
pub enum FloatOp {
    Add,
    Sub,
    Mul,
    Div,
    Pow,
    Min,
    Max,
}

/// One floating-point computation. Numbers are binary64 bits.
#[derive(Debug, PartialEq, Eq)]
pub enum FloatTask {
    FromInt(i64),
    FromUInt(u64),
    FromWide(i128),
    /// The nearest number to an exact fraction, or a negative answer where none is near.
    FromExact(FloatLiteral),
    /// A number rounded to binary32 and back.
    Single(u64),
    /// The nearest binary32 number to an exact fraction, as binary64, or a negative
    /// answer where none is near.
    SingleExact(FloatLiteral),
    Binary { op: FloatOp, a: u64, b: u64 },
    Whole { rounding: Rounding, a: u64 },
    /// A number truncated to an integer type, saturating.
    ToInt(u64),
    ToUInt(u64),
    ToWide(u64),
}

/// Mathematical model of [`FloatTask`].
#[verifier::ext_equal]
pub enum FloatTaskModel {
    FromInt(i64),
    FromUInt(u64),
    FromWide(i128),
    FromExact(FloatLiteralModel),
    Single(u64),
    SingleExact(FloatLiteralModel),
    Binary { op: FloatOp, a: u64, b: u64 },
    Whole { rounding: Rounding, a: u64 },
    ToInt(u64),
    ToUInt(u64),
    ToWide(u64),
}

/// The model of a [`RefProjection`].
pub open spec fn ref_projection_view(x: RefProjection) -> RefProjectionModel
    decreases x,
{
    match x {
        RefProjection::Field(a0) => RefProjectionModel::Field(a0@),
        RefProjection::Index(a0) => RefProjectionModel::Index(a0),
        RefProjection::Variant(a0) => RefProjectionModel::Variant(a0),
        RefProjection::Capture(a0) => RefProjectionModel::Capture(a0),
    }
}

impl View for RefProjection {
    type V = RefProjectionModel;

    open spec fn view(&self) -> RefProjectionModel {
        ref_projection_view(*self)
    }
}

impl RefProjection {
    /// A structural copy.
    pub fn copy(&self) -> (r: RefProjection)
        ensures
            r@ == self@,
        decreases self,
    {
        match self {
            RefProjection::Field(a0) => RefProjection::Field(a0.clone()),
            RefProjection::Index(a0) => RefProjection::Index(*a0),
            RefProjection::Variant(a0) => RefProjection::Variant(*a0),
            RefProjection::Capture(a0) => RefProjection::Capture(*a0),
        }
    }

    /// Structural equality.
    pub fn same(&self, other: &RefProjection) -> (r: bool)
        ensures
            r == (self@ == other@),
        decreases self,
    {
        match self {
            RefProjection::Field(a0) => match other {
                RefProjection::Field(a02) => *a0 == *a02,
                _ => false,
            },
            RefProjection::Index(a0) => match other {
                RefProjection::Index(a02) => *a0 == *a02,
                _ => false,
            },
            RefProjection::Variant(a0) => match other {
                RefProjection::Variant(a02) => *a0 == *a02,
                _ => false,
            },
            RefProjection::Capture(a0) => match other {
                RefProjection::Capture(a02) => *a0 == *a02,
                _ => false,
            },
        }
    }
}

impl Clone for RefProjection {
    fn clone(&self) -> (r: RefProjection)
        ensures
            r@ == self@,
    {
        self.copy()
    }
}

/// The model of a [`SimdLanes`].
pub open spec fn simd_lanes_view(x: SimdLanes) -> SimdLanesModel
    decreases x,
{
    match x {
        SimdLanes::Int(a0) => SimdLanesModel::Int(a0@),
        SimdLanes::Float(a0) => SimdLanesModel::Float(a0@),
        SimdLanes::Bool(a0) => SimdLanesModel::Bool(a0@),
    }
}

impl View for SimdLanes {
    type V = SimdLanesModel;

    open spec fn view(&self) -> SimdLanesModel {
        simd_lanes_view(*self)
    }
}

impl SimdLanes {
    /// A structural copy.
    pub fn copy(&self) -> (r: SimdLanes)
        ensures
            r@ == self@,
        decreases self,
    {
        match self {
            SimdLanes::Int(a0) => SimdLanes::Int(copy_i128s(a0)),
            SimdLanes::Float(a0) => SimdLanes::Float(copy_u64s(a0)),
            SimdLanes::Bool(a0) => SimdLanes::Bool(copy_bools(a0)),
        }
    }

    /// Structural equality.
    pub fn same(&self, other: &SimdLanes) -> (r: bool)
        ensures
            r == (self@ == other@),
        decreases self,
    {
        match self {
            SimdLanes::Int(a0) => match other {
                SimdLanes::Int(a02) => same_i128s(a0, a02),
                _ => false,
            },
            SimdLanes::Float(a0) => match other {
                SimdLanes::Float(a02) => same_u64s(a0, a02),
                _ => false,
            },
            SimdLanes::Bool(a0) => match other {
                SimdLanes::Bool(a02) => same_bools(a0, a02),
                _ => false,
            },
        }
    }
}

impl Clone for SimdLanes {
    fn clone(&self) -> (r: SimdLanes)
        ensures
            r@ == self@,
    {
        self.copy()
    }
}

/// The model of a [`ClosureCapture`].
pub open spec fn closure_capture_view(x: ClosureCapture) -> ClosureCaptureModel
    decreases x,
{
    ClosureCaptureModel {
        value: value_view(x.value),
        owned: x.owned,
    }
}

impl View for ClosureCapture {
    type V = ClosureCaptureModel;

    open spec fn view(&self) -> ClosureCaptureModel {
        closure_capture_view(*self)
    }
}

impl ClosureCapture {
    /// A structural copy.
    pub fn copy(&self) -> (r: ClosureCapture)
        ensures
            r@ == self@,
        decreases self,
    {
        ClosureCapture {
            value: self.value.copy(),
            owned: self.owned,
        }
    }

    /// Structural equality.
    pub fn same(&self, other: &ClosureCapture) -> (r: bool)
        ensures
            r == (self@ == other@),
        decreases self,
    {
        self.value.same(&other.value)
            && self.owned == other.owned
    }
}

impl Clone for ClosureCapture {
    fn clone(&self) -> (r: ClosureCapture)
        ensures
            r@ == self@,
    {
        self.copy()
    }
}

/// The model of a [`Value`].
pub open spec fn value_view(x: Value) -> ValueModel
    decreases x,
{
    match x {
        Value::Int(a0) => ValueModel::Int(a0),
        Value::UInt(a0) => ValueModel::UInt(a0),
        Value::Float64(a0) => ValueModel::Float64(a0),
        Value::IntLiteral(a0) => ValueModel::IntLiteral(int_literal_view(a0)),
        Value::FloatLiteral(a0) => ValueModel::FloatLiteral(float_literal_view(a0)),
        Value::Bool(a0) => ValueModel::Bool(a0),
        Value::Str(a0) => ValueModel::Str(a0@),
        Value::NoneValue => ValueModel::NoneValue,
        Value::Function(a0) => ValueModel::Function(a0@),
        Value::Closure { function, captures } => ValueModel::Closure {
            function: function@,
            captures: closure_captures_view(captures),
        },
        Value::Slice { kind, start, end, step } => ValueModel::Slice { kind, start, end, step },
        Value::Struct { name, fields, value_params } => ValueModel::Struct {
            name: name@,
            fields: string_values_view(fields),
            value_params: string_values_view(value_params),
        },
        Value::Simd { dtype, lanes } => ValueModel::Simd { dtype, lanes: simd_lanes_view(lanes) },
        Value::Error(a0) => ValueModel::Error(a0@),
        Value::ComptimeList(a0) => ValueModel::ComptimeList(values_list_view(a0)),
        Value::Tuple(a0) => ValueModel::Tuple(values_list_view(a0)),
        Value::Variant { alternatives, index, value } => ValueModel::Variant {
            alternatives: tys_view(alternatives),
            index,
            value: Box::new(value_view(*value)),
        },
        Value::Pointer { allocation, offset } => ValueModel::Pointer { allocation, offset },
        Value::Ref { frame, slot, projection } => ValueModel::Ref {
            frame,
            slot,
            projection: ref_projections_view(projection),
        },
        Value::Moved => ValueModel::Moved,
    }
}

impl View for Value {
    type V = ValueModel;

    open spec fn view(&self) -> ValueModel {
        value_view(*self)
    }
}

impl Value {
    /// A structural copy.
    pub fn copy(&self) -> (r: Value)
        ensures
            r@ == self@,
        decreases self,
    {
        match self {
            Value::Int(a0) => Value::Int(*a0),
            Value::UInt(a0) => Value::UInt(*a0),
            Value::Float64(a0) => Value::Float64(*a0),
            Value::IntLiteral(a0) => Value::IntLiteral(a0.copy()),
            Value::FloatLiteral(a0) => Value::FloatLiteral(a0.copy()),
            Value::Bool(a0) => Value::Bool(*a0),
            Value::Str(a0) => Value::Str(a0.clone()),
            Value::NoneValue => Value::NoneValue,
            Value::Function(a0) => Value::Function(a0.clone()),
            Value::Closure { function, captures } => Value::Closure {
                function: function.clone(),
                captures: copy_closure_captures(captures),
            },
            Value::Slice { kind, start, end, step } => Value::Slice {
                kind: *kind,
                start: *start,
                end: *end,
                step: *step,
            },
            Value::Struct { name, fields, value_params } => Value::Struct {
                name: name.clone(),
                fields: copy_string_values(fields),
                value_params: copy_string_values(value_params),
            },
            Value::Simd { dtype, lanes } => Value::Simd { dtype: *dtype, lanes: lanes.copy() },
            Value::Error(a0) => Value::Error(a0.clone()),
            Value::ComptimeList(a0) => Value::ComptimeList(copy_values_list(a0)),
            Value::Tuple(a0) => Value::Tuple(copy_values_list(a0)),
            Value::Variant { alternatives, index, value } => Value::Variant {
                alternatives: copy_tys(alternatives),
                index: *index,
                value: Box::new(value.copy()),
            },
            Value::Pointer { allocation, offset } => Value::Pointer {
                allocation: *allocation,
                offset: *offset,
            },
            Value::Ref { frame, slot, projection } => Value::Ref {
                frame: *frame,
                slot: *slot,
                projection: copy_ref_projections(projection),
            },
            Value::Moved => Value::Moved,
        }
    }

    /// Structural equality.
    pub fn same(&self, other: &Value) -> (r: bool)
        ensures
            r == (self@ == other@),
        decreases self,
    {
        match self {
            Value::Int(a0) => match other {
                Value::Int(a02) => *a0 == *a02,
                _ => false,
            },
            Value::UInt(a0) => match other {
                Value::UInt(a02) => *a0 == *a02,
                _ => false,
            },
            Value::Float64(a0) => match other {
                Value::Float64(a02) => *a0 == *a02,
                _ => false,
            },
            Value::IntLiteral(a0) => match other {
                Value::IntLiteral(a02) => a0.same(a02),
                _ => false,
            },
            Value::FloatLiteral(a0) => match other {
                Value::FloatLiteral(a02) => a0.same(a02),
                _ => false,
            },
            Value::Bool(a0) => match other {
                Value::Bool(a02) => *a0 == *a02,
                _ => false,
            },
            Value::Str(a0) => match other {
                Value::Str(a02) => *a0 == *a02,
                _ => false,
            },
            Value::NoneValue => match other { Value::NoneValue => true, _ => false },
            Value::Function(a0) => match other {
                Value::Function(a02) => *a0 == *a02,
                _ => false,
            },
            Value::Closure { function, captures } => match other {
                Value::Closure {
                    function: function2,
                    captures: captures2,
                } => *function == *function2 && same_closure_captures(captures, captures2),
                _ => false,
            },
            Value::Slice { kind, start, end, step } => match other {
                Value::Slice {
                    kind: kind2,
                    start: start2,
                    end: end2,
                    step: step2,
                } => *kind == *kind2 && *start == *start2 && *end == *end2 && *step == *step2,
                _ => false,
            },
            Value::Struct { name, fields, value_params } => match other {
                Value::Struct {
                    name: name2,
                    fields: fields2,
                    value_params: value_params2,
                } => *name == *name2
                    && same_string_values(fields, fields2)
                    && same_string_values(value_params, value_params2),
                _ => false,
            },
            Value::Simd { dtype, lanes } => match other {
                Value::Simd { dtype: dtype2, lanes: lanes2 } => *dtype == *dtype2 && lanes.same(lanes2),
                _ => false,
            },
            Value::Error(a0) => match other {
                Value::Error(a02) => *a0 == *a02,
                _ => false,
            },
            Value::ComptimeList(a0) => match other {
                Value::ComptimeList(a02) => same_values_list(a0, a02),
                _ => false,
            },
            Value::Tuple(a0) => match other {
                Value::Tuple(a02) => same_values_list(a0, a02),
                _ => false,
            },
            Value::Variant { alternatives, index, value } => match other {
                Value::Variant {
                    alternatives: alternatives2,
                    index: index2,
                    value: value2,
                } => same_tys(alternatives, alternatives2) && *index == *index2 && value.same(value2),
                _ => false,
            },
            Value::Pointer { allocation, offset } => match other {
                Value::Pointer {
                    allocation: allocation2,
                    offset: offset2,
                } => *allocation == *allocation2 && *offset == *offset2,
                _ => false,
            },
            Value::Ref { frame, slot, projection } => match other {
                Value::Ref {
                    frame: frame2,
                    slot: slot2,
                    projection: projection2,
                } => *frame == *frame2 && *slot == *slot2 && same_ref_projections(projection, projection2),
                _ => false,
            },
            Value::Moved => match other { Value::Moved => true, _ => false },
        }
    }
}

impl Clone for Value {
    fn clone(&self) -> (r: Value)
        ensures
            r@ == self@,
    {
        self.copy()
    }
}

/// The model of a [`FloatTask`].
pub open spec fn float_task_view(x: FloatTask) -> FloatTaskModel
    decreases x,
{
    match x {
        FloatTask::FromInt(a0) => FloatTaskModel::FromInt(a0),
        FloatTask::FromUInt(a0) => FloatTaskModel::FromUInt(a0),
        FloatTask::FromWide(a0) => FloatTaskModel::FromWide(a0),
        FloatTask::FromExact(a0) => FloatTaskModel::FromExact(float_literal_view(a0)),
        FloatTask::Single(a0) => FloatTaskModel::Single(a0),
        FloatTask::SingleExact(a0) => FloatTaskModel::SingleExact(float_literal_view(a0)),
        FloatTask::Binary { op, a, b } => FloatTaskModel::Binary { op, a, b },
        FloatTask::Whole { rounding, a } => FloatTaskModel::Whole { rounding, a },
        FloatTask::ToInt(a0) => FloatTaskModel::ToInt(a0),
        FloatTask::ToUInt(a0) => FloatTaskModel::ToUInt(a0),
        FloatTask::ToWide(a0) => FloatTaskModel::ToWide(a0),
    }
}

impl View for FloatTask {
    type V = FloatTaskModel;

    open spec fn view(&self) -> FloatTaskModel {
        float_task_view(*self)
    }
}

impl FloatTask {
    /// A structural copy.
    pub fn copy(&self) -> (r: FloatTask)
        ensures
            r@ == self@,
        decreases self,
    {
        match self {
            FloatTask::FromInt(a0) => FloatTask::FromInt(*a0),
            FloatTask::FromUInt(a0) => FloatTask::FromUInt(*a0),
            FloatTask::FromWide(a0) => FloatTask::FromWide(*a0),
            FloatTask::FromExact(a0) => FloatTask::FromExact(a0.copy()),
            FloatTask::Single(a0) => FloatTask::Single(*a0),
            FloatTask::SingleExact(a0) => FloatTask::SingleExact(a0.copy()),
            FloatTask::Binary { op, a, b } => FloatTask::Binary { op: *op, a: *a, b: *b },
            FloatTask::Whole { rounding, a } => FloatTask::Whole { rounding: *rounding, a: *a },
            FloatTask::ToInt(a0) => FloatTask::ToInt(*a0),
            FloatTask::ToUInt(a0) => FloatTask::ToUInt(*a0),
            FloatTask::ToWide(a0) => FloatTask::ToWide(*a0),
        }
    }

    /// Structural equality.
    pub fn same(&self, other: &FloatTask) -> (r: bool)
        ensures
            r == (self@ == other@),
        decreases self,
    {
        match self {
            FloatTask::FromInt(a0) => match other {
                FloatTask::FromInt(a02) => *a0 == *a02,
                _ => false,
            },
            FloatTask::FromUInt(a0) => match other {
                FloatTask::FromUInt(a02) => *a0 == *a02,
                _ => false,
            },
            FloatTask::FromWide(a0) => match other {
                FloatTask::FromWide(a02) => *a0 == *a02,
                _ => false,
            },
            FloatTask::FromExact(a0) => match other {
                FloatTask::FromExact(a02) => a0.same(a02),
                _ => false,
            },
            FloatTask::Single(a0) => match other {
                FloatTask::Single(a02) => *a0 == *a02,
                _ => false,
            },
            FloatTask::SingleExact(a0) => match other {
                FloatTask::SingleExact(a02) => a0.same(a02),
                _ => false,
            },
            FloatTask::Binary { op, a, b } => match other {
                FloatTask::Binary { op: op2, a: a2, b: b2 } => *op == *op2 && *a == *a2 && *b == *b2,
                _ => false,
            },
            FloatTask::Whole { rounding, a } => match other {
                FloatTask::Whole { rounding: rounding2, a: a2 } => *rounding == *rounding2 && *a == *a2,
                _ => false,
            },
            FloatTask::ToInt(a0) => match other {
                FloatTask::ToInt(a02) => *a0 == *a02,
                _ => false,
            },
            FloatTask::ToUInt(a0) => match other {
                FloatTask::ToUInt(a02) => *a0 == *a02,
                _ => false,
            },
            FloatTask::ToWide(a0) => match other {
                FloatTask::ToWide(a02) => *a0 == *a02,
                _ => false,
            },
        }
    }
}

impl Clone for FloatTask {
    fn clone(&self) -> (r: FloatTask)
        ensures
            r@ == self@,
    {
        self.copy()
    }
}

/// Model of a `Vec<ClosureCapture>`.
pub open spec fn closure_captures_view(v: Vec<ClosureCapture>) -> Seq<ClosureCaptureModel>
    decreases v,
{
    Seq::new(v@.len(), |i: int| if 0 <= i < v@.len() { closure_capture_view(v@[i]) } else { arbitrary() })
}

pub fn copy_closure_captures(v: &Vec<ClosureCapture>) -> (r: Vec<ClosureCapture>)
    ensures
        closure_captures_view(r) == closure_captures_view(*v),
    decreases v,
{
    let mut out: Vec<ClosureCapture> = Vec::new();
    for i in 0..v.len()
        invariant
            out@.len() == i,
            forall|j: int| 0 <= j < i ==> closure_captures_view(out)[j] == closure_captures_view(*v)[j],
    {
        let ghost before = out;
        out.push(v[i].copy());
        assert forall|j: int| 0 <= j < i + 1 implies closure_captures_view(out)[j] == closure_captures_view(*v)[j] by {
            if j < i {
                assert(out@[j] == before@[j]);
                assert(closure_captures_view(before)[j] == closure_captures_view(*v)[j]);
            }
        }
    }
    assert(closure_captures_view(out) =~= closure_captures_view(*v));
    out
}

pub fn same_closure_captures(a: &Vec<ClosureCapture>, b: &Vec<ClosureCapture>) -> (r: bool)
    ensures
        r == (closure_captures_view(*a) == closure_captures_view(*b)),
    decreases a,
{
    if a.len() != b.len() {
        assert(closure_captures_view(*a).len() != closure_captures_view(*b).len());
        return false;
    }
    for i in 0..a.len()
        invariant
            a@.len() == b@.len(),
            forall|j: int| 0 <= j < i ==> closure_captures_view(*a)[j] == closure_captures_view(*b)[j],
    {
        if !(a[i].same(&b[i])) {
            assert(closure_captures_view(*a)[i as int] != closure_captures_view(*b)[i as int]);
            return false;
        }
    }
    assert(closure_captures_view(*a) =~= closure_captures_view(*b));
    true
}

/// Model of a `Vec<(String, Value)>`.
pub open spec fn string_values_view(v: Vec<(String, Value)>) -> Seq<(Seq<char>, ValueModel)>
    decreases v,
{
    Seq::new(v@.len(), |i: int| if 0 <= i < v@.len() { (v@[i].0@, value_view(v@[i].1)) } else { arbitrary() })
}

pub fn copy_string_values(v: &Vec<(String, Value)>) -> (r: Vec<(String, Value)>)
    ensures
        string_values_view(r) == string_values_view(*v),
    decreases v,
{
    let mut out: Vec<(String, Value)> = Vec::new();
    for i in 0..v.len()
        invariant
            out@.len() == i,
            forall|j: int| 0 <= j < i ==> string_values_view(out)[j] == string_values_view(*v)[j],
    {
        let ghost before = out;
        out.push((v[i].0.clone(), v[i].1.copy()));
        assert forall|j: int| 0 <= j < i + 1 implies string_values_view(out)[j] == string_values_view(*v)[j] by {
            if j < i {
                assert(out@[j] == before@[j]);
                assert(string_values_view(before)[j] == string_values_view(*v)[j]);
            }
        }
    }
    assert(string_values_view(out) =~= string_values_view(*v));
    out
}

pub fn same_string_values(a: &Vec<(String, Value)>, b: &Vec<(String, Value)>) -> (r: bool)
    ensures
        r == (string_values_view(*a) == string_values_view(*b)),
    decreases a,
{
    if a.len() != b.len() {
        assert(string_values_view(*a).len() != string_values_view(*b).len());
        return false;
    }
    for i in 0..a.len()
        invariant
            a@.len() == b@.len(),
            forall|j: int| 0 <= j < i ==> string_values_view(*a)[j] == string_values_view(*b)[j],
    {
        if !(a[i].0 == b[i].0 && a[i].1.same(&b[i].1)) {
            assert(string_values_view(*a)[i as int] != string_values_view(*b)[i as int]);
            return false;
        }
    }
    assert(string_values_view(*a) =~= string_values_view(*b));
    true
}

/// Model of a `Vec<Value>`.
pub open spec fn values_list_view(v: Vec<Value>) -> Seq<ValueModel>
    decreases v,
{
    Seq::new(v@.len(), |i: int| if 0 <= i < v@.len() { value_view(v@[i]) } else { arbitrary() })
}

pub fn copy_values_list(v: &Vec<Value>) -> (r: Vec<Value>)
    ensures
        values_list_view(r) == values_list_view(*v),
    decreases v,
{
    let mut out: Vec<Value> = Vec::new();
    for i in 0..v.len()
        invariant
            out@.len() == i,
            forall|j: int| 0 <= j < i ==> values_list_view(out)[j] == values_list_view(*v)[j],
    {
        let ghost before = out;
        out.push(v[i].copy());
        assert forall|j: int| 0 <= j < i + 1 implies values_list_view(out)[j] == values_list_view(*v)[j] by {
            if j < i {
                assert(out@[j] == before@[j]);
                assert(values_list_view(before)[j] == values_list_view(*v)[j]);
            }
        }
    }
    assert(values_list_view(out) =~= values_list_view(*v));
    out
}

pub fn same_values_list(a: &Vec<Value>, b: &Vec<Value>) -> (r: bool)
    ensures
        r == (values_list_view(*a) == values_list_view(*b)),
    decreases a,
{
    if a.len() != b.len() {
        assert(values_list_view(*a).len() != values_list_view(*b).len());
        return false;
    }
    for i in 0..a.len()
        invariant
            a@.len() == b@.len(),
            forall|j: int| 0 <= j < i ==> values_list_view(*a)[j] == values_list_view(*b)[j],
    {
        if !(a[i].same(&b[i])) {
            assert(values_list_view(*a)[i as int] != values_list_view(*b)[i as int]);
            return false;
        }
    }
    assert(values_list_view(*a) =~= values_list_view(*b));
    true
}

/// Model of a `Vec<RefProjection>`.
pub open spec fn ref_projections_view(v: Vec<RefProjection>) -> Seq<RefProjectionModel>
    decreases v,
{
    Seq::new(v@.len(), |i: int| if 0 <= i < v@.len() { ref_projection_view(v@[i]) } else { arbitrary() })
}

pub fn copy_ref_projections(v: &Vec<RefProjection>) -> (r: Vec<RefProjection>)
    ensures
        ref_projections_view(r) == ref_projections_view(*v),
    decreases v,
{
    let mut out: Vec<RefProjection> = Vec::new();
    for i in 0..v.len()
        invariant
            out@.len() == i,
            forall|j: int| 0 <= j < i ==> ref_projections_view(out)[j] == ref_projections_view(*v)[j],
    {
        let ghost before = out;
        out.push(v[i].copy());
        assert forall|j: int| 0 <= j < i + 1 implies ref_projections_view(out)[j] == ref_projections_view(*v)[j] by {
            if j < i {
                assert(out@[j] == before@[j]);
                assert(ref_projections_view(before)[j] == ref_projections_view(*v)[j]);
            }
        }
    }
    assert(ref_projections_view(out) =~= ref_projections_view(*v));
    out
}

pub fn same_ref_projections(a: &Vec<RefProjection>, b: &Vec<RefProjection>) -> (r: bool)
    ensures
        r == (ref_projections_view(*a) == ref_projections_view(*b)),
    decreases a,
{
    if a.len() != b.len() {
        assert(ref_projections_view(*a).len() != ref_projections_view(*b).len());
        return false;
    }
    for i in 0..a.len()
        invariant
            a@.len() == b@.len(),
            forall|j: int| 0 <= j < i ==> ref_projections_view(*a)[j] == ref_projections_view(*b)[j],
    {
        if !(a[i].same(&b[i])) {
            assert(ref_projections_view(*a)[i as int] != ref_projections_view(*b)[i as int]);
            return false;
        }
    }
    assert(ref_projections_view(*a) =~= ref_projections_view(*b));
    true
}

/// The bits below the sign of a binary64 number.
pub open spec fn float_magnitude(bits: u64) -> int {
    bits as int % 0x8000_0000_0000_0000
}

/// Whether a binary64 number is no number.
pub open spec fn float_nan(bits: u64) -> bool {
    float_magnitude(bits) > 0x7ff0_0000_0000_0000
}

/// Whether a binary64 number is finite.
pub open spec fn float_finite(bits: u64) -> bool {
    float_magnitude(bits) < 0x7ff0_0000_0000_0000
}

/// The place of a binary64 number among the others; both zeros have the same.
pub open spec fn float_rank(bits: u64) -> int {
    if bits >= 0x8000_0000_0000_0000 { -float_magnitude(bits) } else { float_magnitude(bits) }
}

/// Equality of binary64 numbers.
pub open spec fn float_equal(a: u64, b: u64) -> bool {
    !float_nan(a) && !float_nan(b) && float_rank(a) == float_rank(b)
}

/// Order of binary64 numbers; those that are no numbers have none.
pub open spec fn float_order(a: u64, b: u64) -> Option<Order> {
    if float_nan(a) || float_nan(b) { None } else { Some(int_order(float_rank(a), float_rank(b))) }
}

/// The digits of a finite binary64 number.
pub open spec fn float_digits(bits: u64) -> int {
    let m = float_magnitude(bits);
    let fraction = m % 0x10_0000_0000_0000;
    if m < 0x10_0000_0000_0000 { fraction } else { 0x10_0000_0000_0000 + fraction }
}

/// The power of two that the digits of a binary64 number are scaled by.
pub open spec fn float_scale(bits: u64) -> int {
    let e = float_magnitude(bits) / 0x10_0000_0000_0000;
    if e == 0 { -1074 } else { e - 1075 }
}

/// A finite binary64 number as a numerator and a denominator.
pub open spec fn float_parts(bits: u64) -> (int, int) {
    let digits = if bits >= 0x8000_0000_0000_0000 { -float_digits(bits) } else { float_digits(bits) };
    let scale = float_scale(bits);
    if scale >= 0 { (digits * int_pow(2, scale as nat), 1) } else { (digits, int_pow(2, (-scale) as nat)) }
}

fn magnitude_of(bits: u64) -> (r: u64)
    ensures
        r == float_magnitude(bits),
{
    bits % 0x8000_0000_0000_0000
}

/// Equality of binary64 numbers.
pub fn floats_equal(a: u64, b: u64) -> (r: bool)
    ensures
        r == float_equal(a, b),
{
    match order_floats(a, b) {
        Some(Order::Same) => true,
        _ => false,
    }
}

/// Order of binary64 numbers.
pub fn order_floats(a: u64, b: u64) -> (r: Option<Order>)
    ensures
        r == float_order(a, b),
{
    let (x, y): (u64, u64) = (magnitude_of(a), magnitude_of(b));
    if x > 0x7ff0_0000_0000_0000 || y > 0x7ff0_0000_0000_0000 {
        return None;
    }
    let x: i64 = if a >= 0x8000_0000_0000_0000 { -(x as i64) } else { x as i64 };
    let y: i64 = if b >= 0x8000_0000_0000_0000 { -(y as i64) } else { y as i64 };
    if x < y {
        Some(Order::Less)
    } else if x == y {
        Some(Order::Same)
    } else {
        Some(Order::Greater)
    }
}

impl FloatLiteral {
    /// The exact literal of a binary64 number; none, unless it is finite.
    pub fn from_bits(bits: u64) -> (r: Option<FloatLiteral>)
        ensures
            match r {
                Some(l) => float_finite(bits) && is_fraction(l@, float_parts(bits).0, float_parts(bits).1),
                None => !float_finite(bits),
            },
    {
        let m: u64 = magnitude_of(bits);
        if m >= 0x7ff0_0000_0000_0000 {
            return None;
        }
        let fraction: u64 = m % 0x10_0000_0000_0000;
        let e: u64 = m / 0x10_0000_0000_0000;
        let digits: u64 = if m < 0x10_0000_0000_0000 { fraction } else { 0x10_0000_0000_0000 + fraction };
        let negative: bool = bits >= 0x8000_0000_0000_0000;
        let positive: IntLiteral = IntLiteral::from_u64(digits);
        let signed: IntLiteral = if negative { positive.neg() } else { positive };
        let up: u32 = if e >= 1075 { (e - 1075) as u32 } else { 0 };
        let down: u32 = if e == 0 {
            1074
        } else if e < 1075 {
            (1075 - e) as u32
        } else {
            0
        };
        let two: IntLiteral = IntLiteral::from_u64(2);
        let over: IntLiteral = two.raised(up);
        let under: IntLiteral = two.raised(down);
        let top: IntLiteral = signed.mul(&over);
        proof {
            lemma_pow_positive(2, down as nat);
            let s = literal_value(signed@);
            assert(s * 1 == s) by (nonlinear_arith);
        }
        let mut l: FloatLiteral = FloatLiteral::fraction(top, under);
        l.negative_zero = negative && digits == 0;
        Some(l)
    }
}

/// Why an operation gives no value.
#[derive(Debug, PartialEq, Eq)]
pub enum RuntimeError {
    TypeError(String),
    Unsupported(String),
}

/// Mathematical model of [`RuntimeError`].
#[verifier::ext_equal]
pub enum RuntimeErrorModel {
    TypeError(Seq<char>),
    Unsupported(Seq<char>),
}

impl View for RuntimeError {
    type V = RuntimeErrorModel;

    open spec fn view(&self) -> RuntimeErrorModel {
        match self {
            RuntimeError::TypeError(text) => RuntimeErrorModel::TypeError(text@),
            RuntimeError::Unsupported(text) => RuntimeErrorModel::Unsupported(text@),
        }
    }
}

/// Why an operation stops: an error, or a floating-point result that it was not
/// given.
#[derive(Debug)]
pub enum Stop {
    Error(RuntimeError),
    Need(FloatTask),
}

/// Mathematical model of [`Stop`].
#[verifier::ext_equal]
pub enum StopModel {
    Error(RuntimeErrorModel),
    Need(FloatTaskModel),
}

impl View for Stop {
    type V = StopModel;

    open spec fn view(&self) -> StopModel {
        match self {
            Stop::Error(e) => StopModel::Error(e@),
            Stop::Need(task) => StopModel::Need(task@),
        }
    }
}

/// An operation that fails with a type error.
pub open spec fn type_error(text: Seq<char>) -> StopModel {
    StopModel::Error(RuntimeErrorModel::TypeError(text))
}

/// Fails with a type error.
pub fn fail_type(text: String) -> (r: Stop)
    ensures
        r@ == type_error(text@),
{
    Stop::Error(RuntimeError::TypeError(text))
}

/// The outcome of an operation that gives a value.
pub type Outcome = Result<ValueModel, StopModel>;

/// The model of an outcome.
pub open spec fn outcome_view(r: Result<Value, Stop>) -> Outcome {
    match r {
        Ok(v) => Ok(v@),
        Err(s) => Err(s@),
    }
}

/// The floating-point results that are known: binary64 results as their bits,
/// integer ones as they are.
#[derive(Debug)]
pub struct FloatTable {
    pub answers: Vec<(FloatTask, i128)>,
}

impl View for FloatTable {
    type V = Seq<(FloatTaskModel, i128)>;

    open spec fn view(&self) -> Seq<(FloatTaskModel, i128)> {
        Seq::new(self.answers@.len(), |i: int| (self.answers@[i].0@, self.answers@[i].1))
    }
}

/// The first answer to a task.
pub open spec fn answer_to(t: Seq<(FloatTaskModel, i128)>, task: FloatTaskModel) -> Option<i128>
    decreases t.len(),
{
    if t.len() == 0 {
        None
    } else if t[0].0 == task {
        Some(t[0].1)
    } else {
        answer_to(t.skip(1), task)
    }
}

impl FloatTable {
    pub fn new() -> (r: FloatTable)
        ensures
            r@ == Seq::<(FloatTaskModel, i128)>::empty(),
    {
        let r: FloatTable = FloatTable { answers: Vec::new() };
        assert(r@ =~= Seq::empty());
        r
    }

    /// Adds an answer.
    pub fn put(&mut self, task: FloatTask, answer: i128)
        ensures
            final(self)@ == old(self)@.push((task@, answer)),
    {
        let ghost before = self@;
        let ghost key = task@;
        self.answers.push((task, answer));
        assert(self@ =~= before.push((key, answer)));
    }

    /// The first answer to a task.
    pub fn get(&self, task: &FloatTask) -> (r: Option<i128>)
        ensures
            r == answer_to(self@, task@),
    {
        let ghost model = self@;
        assert(model.skip(0) =~= model);
        for i in 0..self.answers.len()
            invariant
                model == self@,
                answer_to(model, task@) == answer_to(model.skip(i as int), task@),
        {
            assert(model.skip(i as int)[0] == (self.answers@[i as int].0@, self.answers@[i as int].1));
            assert(model.skip(i as int).skip(1) =~= model.skip(i + 1));
            if self.answers[i].0.same(task) {
                return Some(self.answers[i].1);
            }
        }
        None
    }
}

/// A binary64 result. An answer that is no 64 bits counts as none.
pub open spec fn float_result(t: Seq<(FloatTaskModel, i128)>, task: FloatTaskModel) -> Result<u64, StopModel> {
    match answer_to(t, task) {
        Some(v) => if 0 <= v <= u64::MAX { Ok(v as u64) } else { Err(StopModel::Need(task)) },
        None => Err(StopModel::Need(task)),
    }
}

/// An integer result.
pub open spec fn integer_result(
    t: Seq<(FloatTaskModel, i128)>,
    task: FloatTaskModel,
) -> Result<i128, StopModel> {
    match answer_to(t, task) {
        Some(v) => Ok(v),
        None => Err(StopModel::Need(task)),
    }
}

/// A binary64 result.
pub fn ask_float(t: &FloatTable, task: FloatTask) -> (r: Result<u64, Stop>)
    ensures
        match r {
            Ok(bits) => float_result(t@, task@) == Ok::<u64, StopModel>(bits),
            Err(s) => float_result(t@, task@) == Err::<u64, StopModel>(s@),
        },
{
    match t.get(&task) {
        Some(v) => if 0 <= v && v <= 0xffff_ffff_ffff_ffff { Ok(v as u64) } else { Err(Stop::Need(task)) },
        None => Err(Stop::Need(task)),
    }
}

/// An integer result.
pub fn ask_integer(t: &FloatTable, task: FloatTask) -> (r: Result<i128, Stop>)
    ensures
        match r {
            Ok(v) => integer_result(t@, task@) == Ok::<i128, StopModel>(v),
            Err(s) => integer_result(t@, task@) == Err::<i128, StopModel>(s@),
        },
{
    match t.get(&task) {
        Some(v) => Ok(v),
        None => Err(Stop::Need(task)),
    }
}

/// The answers that a table has stay as it grows.
pub proof fn law_answers_stay(
    t: Seq<(FloatTaskModel, i128)>,
    task: FloatTaskModel,
    other: FloatTaskModel,
    answer: i128,
)
    requires
        answer_to(t, task) is Some,
    ensures
        answer_to(t.push((other, answer)), task) == answer_to(t, task),
    decreases t.len(),
{
    let more = t.push((other, answer));
    if t.len() > 0 {
        assert(more[0] == t[0]);
        assert(more.skip(1) =~= t.skip(1).push((other, answer)));
        if t[0].0 != task {
            law_answers_stay(t.skip(1), task, other, answer);
        }
    }
}

/// A task that had no answer has the one that is put.
pub proof fn law_put_answers(t: Seq<(FloatTaskModel, i128)>, task: FloatTaskModel, answer: i128)
    requires
        answer_to(t, task) is None,
    ensures
        answer_to(t.push((task, answer)), task) == Some(answer),
    decreases t.len(),
{
    let more = t.push((task, answer));
    if t.len() > 0 {
        assert(more[0] == t[0]);
        assert(more.skip(1) =~= t.skip(1).push((task, answer)));
        law_put_answers(t.skip(1), task, answer);
    }
}

/// How many lanes a vector has.
pub open spec fn lane_count(lanes: SimdLanesModel) -> nat {
    match lanes {
        SimdLanesModel::Int(v) => v.len(),
        SimdLanesModel::Float(v) => v.len(),
        SimdLanesModel::Bool(v) => v.len(),
    }
}

impl SimdLanes {
    /// How many lanes the vector has.
    pub fn width(&self) -> (r: usize)
        ensures
            r == lane_count(self@),
    {
        match self {
            SimdLanes::Int(v) => v.len(),
            SimdLanes::Float(v) => v.len(),
            SimdLanes::Bool(v) => v.len(),
        }
    }
}

/// The name of a slice descriptor.
pub open spec fn slice_kind_name(kind: SliceKind) -> Seq<char> {
    match kind {
        SliceKind::Slice => "Slice"@,
        SliceKind::Contiguous => "ContiguousSlice"@,
        SliceKind::Strided => "StridedSlice"@,
    }
}

/// The name of a slice descriptor.
pub fn name_of_slice_kind(kind: SliceKind) -> (r: &'static str)
    ensures
        r@ == slice_kind_name(kind),
{
    match kind {
        SliceKind::Slice => "Slice",
        SliceKind::Contiguous => "ContiguousSlice",
        SliceKind::Strided => "StridedSlice",
    }
}

/// The name of a vector's type.
pub open spec fn vector_name(dtype: Dtype, width: nat) -> Seq<char> {
    if width == 1 {
        match dtype_scalar_alias(dtype) {
            Some(name) => name,
            None => "SIMD"@,
        }
    } else {
        "SIMD[DType."@ + dtype_name(dtype) + ", "@ + dec(width) + "]"@
    }
}

fn name_of_vector(dtype: Dtype, width: usize) -> (r: String)
    ensures
        r@ == vector_name(dtype, width as nat),
{
    if width == 1 {
        match dtype.scalar_alias() {
            Some(name) => name.to_owned(),
            None => "SIMD".to_owned(),
        }
    } else {
        cat5("SIMD[DType.", dtype.name(), ", ", &dec_text_usize(width), "]")
    }
}

/// The name of a value's type, for messages.
pub open spec fn value_kind(v: ValueModel) -> Seq<char>
    decreases v,
{
    match v {
        ValueModel::Int(_) => "Int"@,
        ValueModel::UInt(_) => "UInt"@,
        ValueModel::Float64(_) => "Float64"@,
        ValueModel::IntLiteral(_) => "IntLiteral"@,
        ValueModel::FloatLiteral(_) => "FloatLiteral"@,
        ValueModel::Bool(_) => "Bool"@,
        ValueModel::Str(_) => "String"@,
        ValueModel::NoneValue => "None"@,
        ValueModel::Function(_) => "function"@,
        ValueModel::Closure { .. } => "function"@,
        ValueModel::Slice { kind, .. } => slice_kind_name(kind),
        ValueModel::Struct { name, .. } => name,
        ValueModel::Simd { dtype, lanes } => vector_name(dtype, lane_count(lanes)),
        ValueModel::Error(_) => "Error"@,
        ValueModel::Pointer { .. } => "UnsafePointer"@,
        ValueModel::Ref { .. } => "ref"@,
        ValueModel::Moved => "<moved>"@,
        ValueModel::ComptimeList(_) => "<comptime-list>"@,
        ValueModel::Tuple(items) => "Tuple["@ + join(value_kinds(items), ", "@) + "]"@,
        ValueModel::Variant { alternatives, .. } => "Variant["@ + join(ty_texts(alternatives), ", "@) + "]"@,
    }
}

/// The names of the types of values.
pub open spec fn value_kinds(items: Seq<ValueModel>) -> Seq<Seq<char>>
    decreases items,
{
    Seq::new(items.len(), |i: int| if 0 <= i < items.len() { value_kind(items[i]) } else { arbitrary() })
}

fn join_kinds(items: &Vec<Value>) -> (r: String)
    ensures
        r@ == join(value_kinds(values_list_view(*items)), ", "@),
    decreases items,
{
    let mut s: String = String::new();
    let ghost texts = value_kinds(values_list_view(*items));
    for i in 0..items.len()
        invariant
            texts == value_kinds(values_list_view(*items)),
            s@ == join(texts.take(i as int), ", "@),
    {
        assert(texts[i as int] == value_kind(items@[i as int]@));
        assert(texts.take(i + 1) =~= texts.take(i as int).push(texts[i as int]));
        let kind: String = kind_name(&items[i]);
        join_push(&mut s, i == 0, ", ", &kind, Ghost(texts.take(i as int)));
    }
    assert(texts.take(texts.len() as int) =~= texts);
    s
}

fn join_types(tys: &Vec<Ty>) -> (r: String)
    ensures
        r@ == join(ty_texts(tys_view(*tys)), ", "@),
{
    let mut s: String = String::new();
    let ghost texts = ty_texts(tys_view(*tys));
    for i in 0..tys.len()
        invariant
            texts == ty_texts(tys_view(*tys)),
            s@ == join(texts.take(i as int), ", "@),
    {
        assert(texts[i as int] == ty_text(tys@[i as int]@));
        assert(texts.take(i + 1) =~= texts.take(i as int).push(texts[i as int]));
        join_push(&mut s, i == 0, ", ", &tys[i].text(), Ghost(texts.take(i as int)));
    }
    assert(texts.take(texts.len() as int) =~= texts);
    s
}

/// The name of a value's type, for messages.
pub fn kind_name(v: &Value) -> (r: String)
    ensures
        r@ == value_kind(v@),
    decreases v,
{
    match v {
        Value::Int(_) => "Int".to_owned(),
        Value::UInt(_) => "UInt".to_owned(),
        Value::Float64(_) => "Float64".to_owned(),
        Value::IntLiteral(_) => "IntLiteral".to_owned(),
        Value::FloatLiteral(_) => "FloatLiteral".to_owned(),
        Value::Bool(_) => "Bool".to_owned(),
        Value::Str(_) => "String".to_owned(),
        Value::NoneValue => "None".to_owned(),
        Value::Function(_) => "function".to_owned(),
        Value::Closure { .. } => "function".to_owned(),
        Value::Slice { kind, .. } => name_of_slice_kind(*kind).to_owned(),
        Value::Struct { name, .. } => name.clone(),
        Value::Simd { dtype, lanes } => name_of_vector(*dtype, lanes.width()),
        Value::Error(_) => "Error".to_owned(),
        Value::Pointer { .. } => "UnsafePointer".to_owned(),
        Value::Ref { .. } => "ref".to_owned(),
        Value::Moved => "<moved>".to_owned(),
        Value::ComptimeList(_) => "<comptime-list>".to_owned(),
        Value::Tuple(items) => cat3("Tuple[", &join_kinds(items), "]"),
        Value::Variant { alternatives, .. } => cat3("Variant[", &join_types(alternatives), "]"),
    }
}

} // verus!
