//! Compile-time values and expressions.

use crate::data::strings_view;
use crate::literal::{IntLiteral, IntLiteralModel, int_literal_view, literal_value};
use crate::table::NameMap;
use crate::text::{dec, dec_int, dec_text, dec_text_i64};
use vstd::prelude::*;

verus! {

/// A compile-time value.
#[derive(Debug, PartialEq, Eq)]
pub enum CtValue {
    Int(i64),
    UInt(u64),
    IntLiteral(IntLiteral),
    Bool(bool),
    Str(String),
    /// A compile-time parameter that has no value yet.
    Param(String),
}

/// Mathematical model of [`CtValue`].
#[verifier::ext_equal]
pub enum CtValueModel {
    Int(i64),
    UInt(u64),
    IntLiteral(IntLiteralModel),
    Bool(bool),
    Str(Seq<char>),
    Param(Seq<char>),
}

/// A compile-time integer expression over named parameters.
#[derive(Debug, PartialEq, Eq)]
pub enum CtExpr {
    Value(CtValue),
    Param(String),
    Neg(Box<CtExpr>),
    Add(Box<CtExpr>, Box<CtExpr>),
    Sub(Box<CtExpr>, Box<CtExpr>),
    Mul(Box<CtExpr>, Box<CtExpr>),
    FloorDiv(Box<CtExpr>, Box<CtExpr>),
    Mod(Box<CtExpr>, Box<CtExpr>),
    Pow(Box<CtExpr>, Box<CtExpr>),
}

/// Mathematical model of [`CtExpr`].
#[verifier::ext_equal]
pub enum CtExprModel {
    Value(CtValueModel),
    Param(Seq<char>),
    Neg(Box<CtExprModel>),
    Add(Box<CtExprModel>, Box<CtExprModel>),
    Sub(Box<CtExprModel>, Box<CtExprModel>),
    Mul(Box<CtExprModel>, Box<CtExprModel>),
    FloorDiv(Box<CtExprModel>, Box<CtExprModel>),
    Mod(Box<CtExprModel>, Box<CtExprModel>),
    Pow(Box<CtExprModel>, Box<CtExprModel>),
}

/// The model of a [`CtValue`].
pub open spec fn ct_value_view(x: CtValue) -> CtValueModel
    decreases x,
{
    match x {
        CtValue::Int(a0) => CtValueModel::Int(a0),
        CtValue::UInt(a0) => CtValueModel::UInt(a0),
        CtValue::IntLiteral(a0) => CtValueModel::IntLiteral(int_literal_view(a0)),
        CtValue::Bool(a0) => CtValueModel::Bool(a0),
        CtValue::Str(a0) => CtValueModel::Str(a0@),
        CtValue::Param(a0) => CtValueModel::Param(a0@),
    }
}

impl View for CtValue {
    type V = CtValueModel;

    open spec fn view(&self) -> CtValueModel {
        ct_value_view(*self)
    }
}

impl CtValue {
    /// A structural copy.
    pub fn copy(&self) -> (r: CtValue)
        ensures
            r@ == self@,
        decreases self,
    {
        match self {
            CtValue::Int(a0) => CtValue::Int(*a0),
            CtValue::UInt(a0) => CtValue::UInt(*a0),
            CtValue::IntLiteral(a0) => CtValue::IntLiteral(a0.copy()),
            CtValue::Bool(a0) => CtValue::Bool(*a0),
            CtValue::Str(a0) => CtValue::Str(a0.clone()),
            CtValue::Param(a0) => CtValue::Param(a0.clone()),
        }
    }

    /// Structural equality.
    pub fn same(&self, other: &CtValue) -> (r: bool)
        ensures
            r == (self@ == other@),
        decreases self,
    {
        match self {
            CtValue::Int(a0) => match other {
                CtValue::Int(a02) => *a0 == *a02,
                _ => false,
            },
            CtValue::UInt(a0) => match other {
                CtValue::UInt(a02) => *a0 == *a02,
                _ => false,
            },
            CtValue::IntLiteral(a0) => match other {
                CtValue::IntLiteral(a02) => a0.same(a02),
                _ => false,
            },
            CtValue::Bool(a0) => match other {
                CtValue::Bool(a02) => *a0 == *a02,
                _ => false,
            },
            CtValue::Str(a0) => match other {
                CtValue::Str(a02) => *a0 == *a02,
                _ => false,
            },
            CtValue::Param(a0) => match other {
                CtValue::Param(a02) => *a0 == *a02,
                _ => false,
            },
        }
    }
}

impl Clone for CtValue {
    fn clone(&self) -> (r: CtValue)
        ensures
            r@ == self@,
    {
        self.copy()
    }
}

/// The model of a [`CtExpr`].
pub open spec fn ct_expr_view(x: CtExpr) -> CtExprModel
    decreases x,
{
    match x {
        CtExpr::Value(a0) => CtExprModel::Value(ct_value_view(a0)),
        CtExpr::Param(a0) => CtExprModel::Param(a0@),
        CtExpr::Neg(a0) => CtExprModel::Neg(Box::new(ct_expr_view(*a0))),
        CtExpr::Add(a0, a1) => CtExprModel::Add(Box::new(ct_expr_view(*a0)), Box::new(ct_expr_view(*a1))),
        CtExpr::Sub(a0, a1) => CtExprModel::Sub(Box::new(ct_expr_view(*a0)), Box::new(ct_expr_view(*a1))),
        CtExpr::Mul(a0, a1) => CtExprModel::Mul(Box::new(ct_expr_view(*a0)), Box::new(ct_expr_view(*a1))),
        CtExpr::FloorDiv(a0, a1) => CtExprModel::FloorDiv(
            Box::new(ct_expr_view(*a0)),
            Box::new(ct_expr_view(*a1)),
        ),
        CtExpr::Mod(a0, a1) => CtExprModel::Mod(Box::new(ct_expr_view(*a0)), Box::new(ct_expr_view(*a1))),
        CtExpr::Pow(a0, a1) => CtExprModel::Pow(Box::new(ct_expr_view(*a0)), Box::new(ct_expr_view(*a1))),
    }
}

impl View for CtExpr {
    type V = CtExprModel;

    open spec fn view(&self) -> CtExprModel {
        ct_expr_view(*self)
    }
}

impl CtExpr {
    /// A structural copy.
    pub fn copy(&self) -> (r: CtExpr)
        ensures
            r@ == self@,
        decreases self,
    {
        match self {
            CtExpr::Value(a0) => CtExpr::Value(a0.copy()),
            CtExpr::Param(a0) => CtExpr::Param(a0.clone()),
            CtExpr::Neg(a0) => CtExpr::Neg(Box::new(a0.copy())),
            CtExpr::Add(a0, a1) => CtExpr::Add(Box::new(a0.copy()), Box::new(a1.copy())),
            CtExpr::Sub(a0, a1) => CtExpr::Sub(Box::new(a0.copy()), Box::new(a1.copy())),
            CtExpr::Mul(a0, a1) => CtExpr::Mul(Box::new(a0.copy()), Box::new(a1.copy())),
            CtExpr::FloorDiv(a0, a1) => CtExpr::FloorDiv(Box::new(a0.copy()), Box::new(a1.copy())),
            CtExpr::Mod(a0, a1) => CtExpr::Mod(Box::new(a0.copy()), Box::new(a1.copy())),
            CtExpr::Pow(a0, a1) => CtExpr::Pow(Box::new(a0.copy()), Box::new(a1.copy())),
        }
    }

    /// Structural equality.
    pub fn same(&self, other: &CtExpr) -> (r: bool)
        ensures
            r == (self@ == other@),
        decreases self,
    {
        match self {
            CtExpr::Value(a0) => match other {
                CtExpr::Value(a02) => a0.same(a02),
                _ => false,
            },
            CtExpr::Param(a0) => match other {
                CtExpr::Param(a02) => *a0 == *a02,
                _ => false,
            },
            CtExpr::Neg(a0) => match other {
                CtExpr::Neg(a02) => a0.same(a02),
                _ => false,
            },
            CtExpr::Add(a0, a1) => match other {
                CtExpr::Add(a02, a12) => a0.same(a02) && a1.same(a12),
                _ => false,
            },
            CtExpr::Sub(a0, a1) => match other {
                CtExpr::Sub(a02, a12) => a0.same(a02) && a1.same(a12),
                _ => false,
            },
            CtExpr::Mul(a0, a1) => match other {
                CtExpr::Mul(a02, a12) => a0.same(a02) && a1.same(a12),
                _ => false,
            },
            CtExpr::FloorDiv(a0, a1) => match other {
                CtExpr::FloorDiv(a02, a12) => a0.same(a02) && a1.same(a12),
                _ => false,
            },
            CtExpr::Mod(a0, a1) => match other {
                CtExpr::Mod(a02, a12) => a0.same(a02) && a1.same(a12),
                _ => false,
            },
            CtExpr::Pow(a0, a1) => match other {
                CtExpr::Pow(a02, a12) => a0.same(a02) && a1.same(a12),
                _ => false,
            },
        }
    }
}

impl Clone for CtExpr {
    fn clone(&self) -> (r: CtExpr)
        ensures
            r@ == self@,
    {
        self.copy()
    }
}

/// Model of an `Option<CtExpr>`.
pub open spec fn opt_ct_expr_view(v: Option<CtExpr>) -> Option<CtExprModel> {
    match v {
        Some(x) => Some(ct_expr_view(x)),
        None => None,
    }
}

pub fn copy_opt_ct_expr(v: &Option<CtExpr>) -> (r: Option<CtExpr>)
    ensures
        opt_ct_expr_view(r) == opt_ct_expr_view(*v),
    decreases v,
{
    match v {
        Some(x) => Some(x.copy()),
        None => None,
    }
}

pub fn same_opt_ct_expr(a: &Option<CtExpr>, b: &Option<CtExpr>) -> (r: bool)
    ensures
        r == (opt_ct_expr_view(*a) == opt_ct_expr_view(*b)),
    decreases a,
{
    match a {
        Some(x) => match b {
            Some(y) => x.same(y),
            None => false,
        },
        None => match b {
            Some(_) => false,
            None => true,
        },
    }
}

/// Why a compile-time expression has no value.
#[derive(Debug, PartialEq, Eq)]
pub enum CtError {
    /// A parameter has no value.
    Unresolved(String),
    /// An operand is not an `Int`.
    NotInt,
    /// A quotient or remainder that no `Int` holds.
    Undefined,
    /// An exponent below zero or above 32 bits.
    Exponent,
}

/// Mathematical model of [`CtError`].
#[verifier::ext_equal]
pub enum CtErrorModel {
    Unresolved(Seq<char>),
    NotInt,
    Undefined,
    Exponent,
}

impl View for CtError {
    type V = CtErrorModel;

    open spec fn view(&self) -> CtErrorModel {
        match *self {
            CtError::Unresolved(name) => CtErrorModel::Unresolved(name@),
            CtError::NotInt => CtErrorModel::NotInt,
            CtError::Undefined => CtErrorModel::Undefined,
            CtError::Exponent => CtErrorModel::Exponent,
        }
    }
}

/// The 64-bit integer that is congruent to `n` modulo 2^64.
pub open spec fn wrap64(n: int) -> i64 {
    let low = n % 0x1_0000_0000_0000_0000;
    if low < 0x8000_0000_0000_0000 {
        low as i64
    } else {
        (low - 0x1_0000_0000_0000_0000) as i64
    }
}

/// `i64::wrapping_pow` is exponentiation modulo 2^64.
pub assume_specification[ i64::wrapping_pow ](base: i64, exponent: u32) -> (r: i64)
    ensures
        r == wrap64(vstd::arithmetic::power::pow(base as int, exponent as nat)),
;

/// The values that parameters stand for.
pub open spec fn values_view(values: Map<Seq<char>, CtValue>) -> Map<Seq<char>, CtValueModel> {
    values.map_values(|v: CtValue| v@)
}

/// The operand as an `Int`.
pub open spec fn int_operand(value: Result<CtValueModel, CtErrorModel>) -> Result<i64, CtErrorModel> {
    match value {
        Ok(CtValueModel::Int(v)) => Ok(v),
        Ok(_) => Err(CtErrorModel::NotInt),
        Err(e) => Err(e),
    }
}

/// Both operands as `Int`s; the left one's error comes first.
pub open spec fn int_operands(
    left: Result<CtValueModel, CtErrorModel>,
    right: Result<CtValueModel, CtErrorModel>,
) -> Result<(i64, i64), CtErrorModel> {
    match int_operand(left) {
        Err(e) => Err(e),
        Ok(a) => match int_operand(right) {
            Err(e) => Err(e),
            Ok(b) => Ok((a, b)),
        },
    }
}

/// The value of a parameter.
pub open spec fn parameter_value(
    name: Seq<char>,
    values: Map<Seq<char>, CtValueModel>,
) -> Result<CtValueModel, CtErrorModel> {
    if values.dom().contains(name) {
        Ok(values[name])
    } else {
        Err(CtErrorModel::Unresolved(name))
    }
}

/// Whether `a / b` with a non-negative remainder is an `Int`.
pub open spec fn quotient_defined(a: i64, b: i64) -> bool {
    b != 0 && !(a == i64::MIN && b == -1)
}

/// The value of a compile-time expression: 64-bit wrapping arithmetic, with the
/// division whose remainder is not negative.
pub open spec fn ct_eval(
    expr: CtExprModel,
    values: Map<Seq<char>, CtValueModel>,
) -> Result<CtValueModel, CtErrorModel>
    decreases expr,
{
    match expr {
        CtExprModel::Value(CtValueModel::Param(name)) => parameter_value(name, values),
        CtExprModel::Param(name) => parameter_value(name, values),
        CtExprModel::Value(value) => Ok(value),
        CtExprModel::Neg(x) => match int_operand(ct_eval(*x, values)) {
            Ok(v) => Ok(CtValueModel::Int(wrap64(-v))),
            Err(e) => Err(e),
        },
        CtExprModel::Add(x, y) => match int_operands(ct_eval(*x, values), ct_eval(*y, values)) {
            Ok((a, b)) => Ok(CtValueModel::Int(wrap64(a + b))),
            Err(e) => Err(e),
        },
        CtExprModel::Sub(x, y) => match int_operands(ct_eval(*x, values), ct_eval(*y, values)) {
            Ok((a, b)) => Ok(CtValueModel::Int(wrap64(a - b))),
            Err(e) => Err(e),
        },
        CtExprModel::Mul(x, y) => match int_operands(ct_eval(*x, values), ct_eval(*y, values)) {
            Ok((a, b)) => Ok(CtValueModel::Int(wrap64(a * b))),
            Err(e) => Err(e),
        },
        CtExprModel::FloorDiv(x, y) => match int_operands(ct_eval(*x, values), ct_eval(*y, values)) {
            Ok((a, b)) => if quotient_defined(a, b) {
                Ok(CtValueModel::Int((a as int / b as int) as i64))
            } else {
                Err(CtErrorModel::Undefined)
            },
            Err(e) => Err(e),
        },
        CtExprModel::Mod(x, y) => match int_operands(ct_eval(*x, values), ct_eval(*y, values)) {
            Ok((a, b)) => if quotient_defined(a, b) {
                Ok(CtValueModel::Int((a as int % b as int) as i64))
            } else {
                Err(CtErrorModel::Undefined)
            },
            Err(e) => Err(e),
        },
        CtExprModel::Pow(x, y) => match int_operands(ct_eval(*x, values), ct_eval(*y, values)) {
            Ok((a, b)) => if 0 <= b <= u32::MAX {
                Ok(CtValueModel::Int(wrap64(vstd::arithmetic::power::pow(a as int, b as nat))))
            } else {
                Err(CtErrorModel::Exponent)
            },
            Err(e) => Err(e),
        },
    }
}

/// The quotient of two 64-bit integers is one, with a single exception; the
/// remainder always is.
pub proof fn lemma_quotient(a: int, b: int)
    requires
        i64::MIN <= a <= i64::MAX,
        i64::MIN <= b <= i64::MAX,
        b != 0,
    ensures
        (i64::MIN <= a / b <= i64::MAX) == !(a == i64::MIN && b == -1),
        i64::MIN <= a % b <= i64::MAX,
{
    assert(0 <= a % b && (b > 0 ==> a % b < b) && (b < 0 ==> a % b < -b)) by (nonlinear_arith)
        requires
            b != 0,
    ;
    assert(a == b * (a / b) + a % b) by (nonlinear_arith)
        requires
            b != 0,
    ;
    let q = a / b;
    let r = a % b;
    if b >= 1 {
        assert(-0x8000_0000_0000_0000 <= q <= 0x7fff_ffff_ffff_ffff) by (nonlinear_arith)
            requires
                a == b * q + r,
                0 <= r < b,
                b >= 1,
                -0x8000_0000_0000_0000 <= a <= 0x7fff_ffff_ffff_ffff,
        ;
    } else if b == -1 {
        assert(b * q == -q) by (nonlinear_arith)
            requires
                b == -1,
        ;
        assert(q == -a);
    } else {
        assert(-0x8000_0000_0000_0000 <= q <= 0x7fff_ffff_ffff_ffff) by (nonlinear_arith)
            requires
                a == b * q + r,
                0 <= r < -b,
                b <= -2,
                -0x8000_0000_0000_0000 <= a <= 0x7fff_ffff_ffff_ffff,
        ;
    }
}

/// The model of an evaluation.
pub open spec fn ct_result_view(r: Result<CtValue, CtError>) -> Result<CtValueModel, CtErrorModel> {
    match r {
        Ok(v) => Ok(v@),
        Err(e) => Err(e@),
    }
}

fn parameter(name: &String, values: &NameMap<CtValue>) -> (r: Result<CtValue, CtError>)
    ensures
        ct_result_view(r) == parameter_value(name@, values_view(values@)),
{
    match values.get(name) {
        Some(value) => Ok(value.copy()),
        None => Err(CtError::Unresolved(name.clone())),
    }
}

fn operand(value: Result<CtValue, CtError>) -> (r: Result<i64, CtError>)
    ensures
        match r {
            Ok(v) => int_operand(ct_result_view(value)) == Ok::<i64, CtErrorModel>(v),
            Err(e) => int_operand(ct_result_view(value)) == Err::<i64, CtErrorModel>(e@),
        },
{
    match value {
        Ok(CtValue::Int(v)) => Ok(v),
        Ok(_) => Err(CtError::NotInt),
        Err(e) => Err(e),
    }
}

fn operands(
    left: Result<CtValue, CtError>,
    right: Result<CtValue, CtError>,
) -> (r: Result<(i64, i64), CtError>)
    ensures
        match r {
            Ok(p) => int_operands(
                ct_result_view(left),
                ct_result_view(right),
            ) == Ok::<(i64, i64), CtErrorModel>(p),
            Err(e) => int_operands(
                ct_result_view(left),
                ct_result_view(right),
            ) == Err::<(i64, i64), CtErrorModel>(e@),
        },
{
    match operand(left) {
        Err(e) => Err(e),
        Ok(a) => match operand(right) {
            Err(e) => Err(e),
            Ok(b) => Ok((a, b)),
        },
    }
}

impl CtExpr {
    /// The value of the expression where parameters stand for `values`.
    pub fn eval(&self, values: &NameMap<CtValue>) -> (r: Result<CtValue, CtError>)
        ensures
            ct_result_view(r) == ct_eval(self@, values_view(values@)),
        decreases self,
    {
        match self {
            CtExpr::Value(value) => match value {
                CtValue::Param(name) => parameter(name, values),
                _ => Ok(value.copy()),
            },
            CtExpr::Param(name) => parameter(name, values),
            CtExpr::Neg(x) => match operand(x.eval(values)) {
                Ok(v) => Ok(CtValue::Int(0i64.wrapping_sub(v))),
                Err(e) => Err(e),
            },
            CtExpr::Add(x, y) => match operands(x.eval(values), y.eval(values)) {
                Ok((a, b)) => Ok(CtValue::Int(a.wrapping_add(b))),
                Err(e) => Err(e),
            },
            CtExpr::Sub(x, y) => match operands(x.eval(values), y.eval(values)) {
                Ok((a, b)) => Ok(CtValue::Int(a.wrapping_sub(b))),
                Err(e) => Err(e),
            },
            CtExpr::Mul(x, y) => match operands(x.eval(values), y.eval(values)) {
                Ok((a, b)) => Ok(CtValue::Int(a.wrapping_mul(b))),
                Err(e) => Err(e),
            },
            CtExpr::FloorDiv(x, y) => match operands(x.eval(values), y.eval(values)) {
                Ok((a, b)) => {
                    proof {
                        if b != 0 {
                            lemma_quotient(a as int, b as int);
                        }
                    }
                    match a.checked_div_euclid(b) {
                        Some(v) => Ok(CtValue::Int(v)),
                        None => Err(CtError::Undefined),
                    }
                },
                Err(e) => Err(e),
            },
            CtExpr::Mod(x, y) => match operands(x.eval(values), y.eval(values)) {
                Ok((a, b)) => {
                    proof {
                        if b != 0 {
                            lemma_quotient(a as int, b as int);
                        }
                    }
                    match a.checked_rem_euclid(b) {
                        Some(v) => Ok(CtValue::Int(v)),
                        None => Err(CtError::Undefined),
                    }
                },
                Err(e) => Err(e),
            },
            CtExpr::Pow(x, y) => match operands(x.eval(values), y.eval(values)) {
                Ok((a, b)) => if 0 <= b && b <= 0xffff_ffff {
                    Ok(CtValue::Int(a.wrapping_pow(b as u32)))
                } else {
                    Err(CtError::Exponent)
                },
                Err(e) => Err(e),
            },
        }
    }
}

/// The spelling of a compile-time value.
pub open spec fn ct_value_text(value: CtValueModel) -> Seq<char> {
    match value {
        CtValueModel::Int(v) => dec_int(v as int),
        CtValueModel::UInt(v) => dec(v as nat),
        CtValueModel::IntLiteral(literal) => dec_int(literal_value(literal)),
        CtValueModel::Bool(v) => if v { "True"@ } else { "False"@ },
        CtValueModel::Str(text) => text,
        CtValueModel::Param(name) => name,
    }
}

impl CtValue {
    /// The spelling of the value.
    pub fn text(&self) -> (r: String)
        ensures
            r@ == ct_value_text(self@),
    {
        match self {
            CtValue::Int(v) => dec_text_i64(*v),
            CtValue::UInt(v) => dec_text(*v),
            CtValue::IntLiteral(literal) => literal.text(),
            CtValue::Bool(v) => if *v { "True".to_owned() } else { "False".to_owned() },
            CtValue::Str(text) => text.clone(),
            CtValue::Param(name) => name.clone(),
        }
    }
}

/// The parameters an expression names, in order.
pub open spec fn ct_params(expr: CtExprModel) -> Seq<Seq<char>>
    decreases expr,
{
    match expr {
        CtExprModel::Value(CtValueModel::Param(name)) => seq![name],
        CtExprModel::Value(_) => Seq::empty(),
        CtExprModel::Param(name) => seq![name],
        CtExprModel::Neg(x) => ct_params(*x),
        CtExprModel::Add(x, y) => ct_params(*x) + ct_params(*y),
        CtExprModel::Sub(x, y) => ct_params(*x) + ct_params(*y),
        CtExprModel::Mul(x, y) => ct_params(*x) + ct_params(*y),
        CtExprModel::FloorDiv(x, y) => ct_params(*x) + ct_params(*y),
        CtExprModel::Mod(x, y) => ct_params(*x) + ct_params(*y),
        CtExprModel::Pow(x, y) => ct_params(*x) + ct_params(*y),
    }
}

impl CtExpr {
    /// Pushes the parameters the expression names, in order.
    pub fn referenced_parameters(&self, out: &mut Vec<String>)
        ensures
            strings_view(*final(out)) == strings_view(*old(out)) + ct_params(self@),
        decreases self,
    {
        let ghost start = strings_view(*out);
        match self {
            CtExpr::Value(value) => {
                if let CtValue::Param(name) = value {
                    out.push(name.clone());
                }
            },
            CtExpr::Param(name) => {
                out.push(name.clone());
            },
            CtExpr::Neg(x) => x.referenced_parameters(out),
            CtExpr::Add(x, y) => {
                x.referenced_parameters(out);
                y.referenced_parameters(out);
            },
            CtExpr::Sub(x, y) => {
                x.referenced_parameters(out);
                y.referenced_parameters(out);
            },
            CtExpr::Mul(x, y) => {
                x.referenced_parameters(out);
                y.referenced_parameters(out);
            },
            CtExpr::FloorDiv(x, y) => {
                x.referenced_parameters(out);
                y.referenced_parameters(out);
            },
            CtExpr::Mod(x, y) => {
                x.referenced_parameters(out);
                y.referenced_parameters(out);
            },
            CtExpr::Pow(x, y) => {
                x.referenced_parameters(out);
                y.referenced_parameters(out);
            },
        }
        assert(strings_view(*out) =~= start + ct_params(self@));
    }
}

} // verus!
