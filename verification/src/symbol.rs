//! Canonical overload identity and lowered-symbol formatting.

use crate::ast::{
    ArgConvention, Dtype, Expr, ExprKind, ExprKindModel, ExprModel, FnParam, FnParamModel, InfixOp,
    Method, MethodModel, ParamArg, ParamArgModel, ParamKind, PlainArg, PlainArgModel, PrefixOp,
    Stmt, StmtKind, StmtKindModel, StmtModel, Type, TypeModel, TypeParam, TypeParamModel,
    dtype_name, expr_kind_view, fn_params_view, methods_view, plain_arg_view, source_args_view,
    stmt_kind_view, stmts_view, type_params_view,
};
use crate::ct::{CtValue, CtValueModel, ct_value_text, ct_value_view, lemma_quotient, quotient_defined};
use crate::data::{copy_strings, copy_usizes, opt_string_view, strings_view};
use crate::debug::{debug_type, type_debug};
use crate::literal::literal_value;
use crate::origin::PointerOriginModel;
use crate::table::NameMap;
use crate::text::{
    alnum, cat2, cat3, cat4, cat5, chars_at, chars_of, concat, dec, dec_int, dec_text, dec_text_i64,
    dec_text_usize, digit_char, digits, ends_with, find_first, find_last, first_occurrence,
    is_alnum, join, join_push, last_occurrence, lemma_concat_add, lemma_concat_push,
    lemma_last_occurrence, lemma_occurs_last, lemma_quotient_smaller, occurs_at, push_digits,
    str_eq,
};
use crate::types::{
    Ty, TyArg, TyArgModel, TyModel, simd_spelling, simd_text, ty_args_view, ty_text, ty_view,
    tys_view,
};
use vstd::prelude::*;

verus! {

/// One generic argument of a concrete instance.
#[derive(Debug, PartialEq, Eq)]
pub enum InstanceArg {
    Ty(Ty),
    Value(CtValue),
}

/// Mathematical model of [`InstanceArg`].
#[verifier::ext_equal]
pub enum InstanceArgModel {
    Ty(TyModel),
    Value(CtValueModel),
}

/// The model of a [`InstanceArg`].
pub open spec fn instance_arg_view(x: InstanceArg) -> InstanceArgModel
    decreases x,
{
    match x {
        InstanceArg::Ty(a0) => InstanceArgModel::Ty(ty_view(a0)),
        InstanceArg::Value(a0) => InstanceArgModel::Value(ct_value_view(a0)),
    }
}

impl View for InstanceArg {
    type V = InstanceArgModel;

    open spec fn view(&self) -> InstanceArgModel {
        instance_arg_view(*self)
    }
}

impl InstanceArg {
    /// A structural copy.
    pub fn copy(&self) -> (r: InstanceArg)
        ensures
            r@ == self@,
        decreases self,
    {
        match self {
            InstanceArg::Ty(a0) => InstanceArg::Ty(a0.copy()),
            InstanceArg::Value(a0) => InstanceArg::Value(a0.copy()),
        }
    }

    /// Structural equality.
    pub fn same(&self, other: &InstanceArg) -> (r: bool)
        ensures
            r == (self@ == other@),
        decreases self,
    {
        match self {
            InstanceArg::Ty(a0) => match other {
                InstanceArg::Ty(a02) => a0.same(a02),
                _ => false,
            },
            InstanceArg::Value(a0) => match other {
                InstanceArg::Value(a02) => a0.same(a02),
                _ => false,
            },
        }
    }
}

impl Clone for InstanceArg {
    fn clone(&self) -> (r: InstanceArg)
        ensures
            r@ == self@,
    {
        self.copy()
    }
}

/// Model of a `Vec<InstanceArg>`.
pub open spec fn instance_args_view(v: Vec<InstanceArg>) -> Seq<InstanceArgModel>
    decreases v,
{
    Seq::new(v@.len(), |i: int| if 0 <= i < v@.len() { instance_arg_view(v@[i]) } else { arbitrary() })
}

pub fn copy_instance_args(v: &Vec<InstanceArg>) -> (r: Vec<InstanceArg>)
    ensures
        instance_args_view(r) == instance_args_view(*v),
    decreases v,
{
    let mut out: Vec<InstanceArg> = Vec::new();
    for i in 0..v.len()
        invariant
            out@.len() == i,
            forall|j: int| 0 <= j < i ==> instance_args_view(out)[j] == instance_args_view(*v)[j],
    {
        let ghost before = out;
        out.push(v[i].copy());
        assert forall|j: int| 0 <= j < i + 1 implies instance_args_view(out)[j] == instance_args_view(*v)[j] by {
            if j < i {
                assert(out@[j] == before@[j]);
                assert(instance_args_view(before)[j] == instance_args_view(*v)[j]);
            }
        }
    }
    assert(instance_args_view(out) =~= instance_args_view(*v));
    out
}

pub fn same_instance_args(a: &Vec<InstanceArg>, b: &Vec<InstanceArg>) -> (r: bool)
    ensures
        r == (instance_args_view(*a) == instance_args_view(*b)),
    decreases a,
{
    if a.len() != b.len() {
        assert(instance_args_view(*a).len() != instance_args_view(*b).len());
        return false;
    }
    for i in 0..a.len()
        invariant
            a@.len() == b@.len(),
            forall|j: int| 0 <= j < i ==> instance_args_view(*a)[j] == instance_args_view(*b)[j],
    {
        if !(a[i].same(&b[i])) {
            assert(instance_args_view(*a)[i as int] != instance_args_view(*b)[i as int]);
            return false;
        }
    }
    assert(instance_args_view(*a) =~= instance_args_view(*b));
    true
}

/// The nominal `String` struct of the standard library under its linked module
/// identity.
pub const STDLIB_STRING_STRUCT: &'static str = "__module$std$string$String";

/// The names of the nominal `String` struct: the linked identity, and the bare
/// name in unlinked contexts.
pub open spec fn is_string_struct(name: Seq<char>) -> bool {
    name == "String"@ || name == "__module$std$string$String"@
}

/// Whether `name` is the nominal `String` struct.
pub fn is_stdlib_string_struct(name: &str) -> (r: bool)
    ensures
        r == is_string_struct(name@),
{
    str_eq(name, "String") || str_eq(name, "__module$std$string$String")
}

/// The spelling of one identifier character: itself, or its code point between
/// `$u` and `$`.
pub open spec fn encode_char(c: char) -> Seq<char> {
    if is_alnum(c) {
        seq![c]
    } else {
        "$u"@ + digits(c as u32 as nat, 16, true) + "$"@
    }
}

/// Source-controlled identifier text with everything but ASCII letters and
/// digits spelled by code point.
pub open spec fn encode(name: Seq<char>) -> Seq<char> {
    concat(name.map_values(|c: char| encode_char(c)))
}

/// Encodes identifier text. Structural `$` separators are added only after this
/// encoding.
pub fn encode_identifier(name: &str) -> (r: String)
    ensures
        r@ == encode(name@),
{
    let chars: Vec<char> = chars_of(name);
    let mut encoded: String = String::new();
    let ghost parts = name@.map_values(|c: char| encode_char(c));
    for i in 0..chars.len()
        invariant
            chars@ == name@,
            parts == name@.map_values(|c: char| encode_char(c)),
            encoded@ == concat(parts.take(i as int)),
    {
        let c: char = chars[i];
        proof {
            assert(parts.take(i + 1) =~= parts.take(i as int).push(parts[i as int]));
            lemma_concat_push(parts.take(i as int), parts[i as int]);
        }
        let ghost before = encoded@;
        if alnum(c) {
            encoded.push(c);
            assert(encoded@ =~= before + seq![c]);
        } else {
            encoded.append("$u");
            push_digits(&mut encoded, c as u32 as u64, 16, true);
            encoded.append("$");
            assert(encoded@ =~= before + ("$u"@ + digits(c as u32 as nat, 16, true) + "$"@));
        }
    }
    assert(parts.take(parts.len() as int) =~= parts);
    encoded
}

/// The text with everything but ASCII letters and digits replaced by `$`.
pub open spec fn sanitized(raw: Seq<char>) -> Seq<char> {
    raw.map_values(|c: char| if is_alnum(c) { c } else { '$' })
}

/// Replaces everything but ASCII letters and digits by `$`.
pub fn sanitize(raw: &str) -> (r: String)
    ensures
        r@ == sanitized(raw@),
{
    let chars: Vec<char> = chars_of(raw);
    let mut out: String = String::new();
    for i in 0..chars.len()
        invariant
            chars@ == raw@,
            out@ == sanitized(raw@).take(i as int),
    {
        assert(
            sanitized(raw@).take(i + 1) =~= sanitized(raw@).take(i as int).push(sanitized(raw@)[i as int])
        );
        out.push(if alnum(chars[i]) { chars[i] } else { '$' });
    }
    assert(sanitized(raw@).take(raw@.len() as int) =~= sanitized(raw@));
    out
}

/// The spelling of a type in a symbol, before sanitizing. Origins do not take
/// part; a literal spells as the type it becomes.
pub open spec fn raw_ty(ty: TyModel) -> Seq<char>
    decreases ty,
{
    match ty {
        TyModel::Int | TyModel::IntLiteral => "Int"@,
        TyModel::UInt => "UInt"@,
        TyModel::Float64 | TyModel::FloatLiteral => "Float64"@,
        TyModel::Bool => "Bool"@,
        TyModel::StringLiteral => "String"@,
        TyModel::NoneType => "None"@,
        TyModel::ComptimeList(element) => "__ComptimeList$"@ + raw_ty(*element),
        TyModel::Tuple(elements) => "Tuple$"@ + join(raw_tys(elements), "$"@),
        TyModel::RuntimePack(elements) => "$pack$"@ + join(raw_tys(elements), "$"@),
        TyModel::VariadicPack(element) => "$variadic$"@ + raw_ty(*element),
        TyModel::Variant(elements) => "Variant$"@ + join(raw_tys(elements), "$"@),
        TyModel::Struct(name, args) => if args.len() == 0 && is_string_struct(name) {
            "String"@
        } else {
            encode(name) + concat(raw_args(args))
        },
        TyModel::Param {
            name,
            bounds,
            callable_bound,
        } => encode(name) + concat(raw_bounds(bounds)) + (match callable_bound {
            Some(callable) => "$Callable$"@ + raw_ty(*callable),
            None => Seq::empty(),
        }),
        TyModel::Pointer { element, .. } => "UnsafePointer$"@ + raw_ty(*element),
        TyModel::Assoc { base, name, args } => "Assoc$"@ + raw_ty(*base) + "$"@ + encode(name) + concat(raw_args(args)),
        TyModel::SelfType => "Self"@,
        _ => ty_text(ty),
    }
}

/// The symbol spellings of the types.
pub open spec fn raw_tys(tys: Seq<TyModel>) -> Seq<Seq<char>>
    decreases tys,
{
    Seq::new(tys.len(), |i: int| if 0 <= i < tys.len() { raw_ty(tys[i]) } else { arbitrary() })
}

/// The symbol spelling of one application argument, behind its separator. Every
/// origin spells alike.
pub open spec fn raw_arg(arg: TyArgModel) -> Seq<char>
    decreases arg,
{
    "$"@ + match arg {
        TyArgModel::Ty(ty) => raw_ty(ty),
        TyArgModel::Val(value) => "V"@ + ct_value_text(value),
        TyArgModel::Origin(_) => "O"@,
    }
}

/// The symbol spellings of application arguments.
pub open spec fn raw_args(args: Seq<TyArgModel>) -> Seq<Seq<char>>
    decreases args,
{
    Seq::new(args.len(), |i: int| if 0 <= i < args.len() { raw_arg(args[i]) } else { arbitrary() })
}

/// The symbol spellings of trait bounds.
pub open spec fn raw_bounds(bounds: Seq<Seq<char>>) -> Seq<Seq<char>> {
    bounds.map_values(|bound: Seq<char>| "$"@ + encode(bound))
}

fn joined_raw(tys: &Vec<Ty>) -> (r: String)
    ensures
        r@ == join(raw_tys(tys_view(*tys)), "$"@),
    decreases tys,
{
    let mut s: String = String::new();
    let ghost texts = raw_tys(tys_view(*tys));
    for i in 0..tys.len()
        invariant
            texts == raw_tys(tys_view(*tys)),
            s@ == join(texts.take(i as int), "$"@),
    {
        assert(texts.take(i + 1) =~= texts.take(i as int).push(texts[i as int]));
        let part: String = ty_raw(&tys[i]);
        join_push(&mut s, i == 0, "$", &part, Ghost(texts.take(i as int)));
    }
    assert(texts.take(texts.len() as int) =~= texts);
    s
}

fn push_raw_args(s: &mut String, args: &Vec<TyArg>)
    ensures
        final(s)@ == old(s)@ + concat(raw_args(ty_args_view(*args))),
    decreases args,
{
    let ghost start = s@;
    let ghost model = ty_args_view(*args);
    let ghost texts = raw_args(model);
    assert(texts.take(0) =~= Seq::<Seq<char>>::empty());
    assert(start + concat(texts.take(0)) =~= start);
    for i in 0..args.len()
        invariant
            model == ty_args_view(*args),
            texts == raw_args(model),
            s@ == start + concat(texts.take(i as int)),
    {
        proof {
            assert(texts.take(i + 1) =~= texts.take(i as int).push(texts[i as int]));
            lemma_concat_push(texts.take(i as int), texts[i as int]);
        }
        let part: String = match &args[i] {
            TyArg::Ty(ty) => ty_raw(ty),
            TyArg::Val(value) => cat2("V", &value.text()),
            TyArg::Origin(_) => "O".to_owned(),
        };
        s.append("$");
        s.append(&part);
        assert(s@ =~= start + concat(texts.take(i + 1)));
    }
    assert(texts.take(texts.len() as int) =~= texts);
}

fn push_raw_bounds(s: &mut String, bounds: &Vec<String>)
    ensures
        final(s)@ == old(s)@ + concat(raw_bounds(strings_view(*bounds))),
{
    let ghost start = s@;
    let ghost texts = raw_bounds(strings_view(*bounds));
    assert(texts.take(0) =~= Seq::<Seq<char>>::empty());
    assert(start + concat(texts.take(0)) =~= start);
    for i in 0..bounds.len()
        invariant
            texts == raw_bounds(strings_view(*bounds)),
            s@ == start + concat(texts.take(i as int)),
    {
        proof {
            assert(texts.take(i + 1) =~= texts.take(i as int).push(texts[i as int]));
            lemma_concat_push(texts.take(i as int), texts[i as int]);
        }
        s.append("$");
        s.append(&encode_identifier(&bounds[i]));
        assert(s@ =~= start + concat(texts.take(i + 1)));
    }
    assert(texts.take(texts.len() as int) =~= texts);
}

/// The spelling of a type in a symbol, before sanitizing.
pub fn ty_raw(ty: &Ty) -> (r: String)
    ensures
        r@ == raw_ty(ty@),
    decreases ty,
{
    match ty {
        Ty::Int | Ty::IntLiteral => "Int".to_owned(),
        Ty::UInt => "UInt".to_owned(),
        Ty::Float64 | Ty::FloatLiteral => "Float64".to_owned(),
        Ty::Bool => "Bool".to_owned(),
        Ty::StringLiteral => "String".to_owned(),
        Ty::NoneType => "None".to_owned(),
        Ty::ComptimeList(element) => cat2("__ComptimeList$", &ty_raw(element)),
        Ty::Tuple(elements) => cat2("Tuple$", &joined_raw(elements)),
        Ty::RuntimePack(elements) => cat2("$pack$", &joined_raw(elements)),
        Ty::VariadicPack(element) => cat2("$variadic$", &ty_raw(element)),
        Ty::Variant(alternatives) => cat2("Variant$", &joined_raw(alternatives)),
        Ty::Struct(name, args) => {
            assert(ty_args_view(*args).len() == args@.len());
            if args.len() == 0 && is_stdlib_string_struct(name) {
                return "String".to_owned();
            }
            let mut s: String = encode_identifier(name);
            push_raw_args(&mut s, args);
            s
        },
        Ty::Param { name, bounds, callable_bound } => {
            let mut s: String = encode_identifier(name);
            push_raw_bounds(&mut s, bounds);
            let ghost before = s@;
            match callable_bound {
                Some(callable) => {
                    s.append("$Callable$");
                    s.append(&ty_raw(callable));
                    assert(s@ =~= before + ("$Callable$"@ + raw_ty(callable@)));
                },
                None => {
                    assert(s@ =~= before + Seq::<char>::empty());
                },
            }
            s
        },
        Ty::Pointer { element, .. } => cat2("UnsafePointer$", &ty_raw(element)),
        Ty::Assoc { base, name, args } => {
            let mut s: String = cat4("Assoc$", &ty_raw(base), "$", &encode_identifier(name));
            push_raw_args(&mut s, args);
            s
        },
        Ty::SelfType => "Self".to_owned(),
        _ => ty.text(),
    }
}

/// The spelling of one instance argument, behind its separator.
pub open spec fn instance_part(arg: InstanceArgModel) -> Seq<char> {
    match arg {
        InstanceArgModel::Ty(ty) => "$T"@ + sanitized(raw_ty(ty)),
        InstanceArgModel::Value(value) => "$V"@ + sanitized(ct_value_text(value)),
    }
}

/// The symbol of a concrete instance of a template.
pub open spec fn instance_name(base: Seq<char>, args: Seq<InstanceArgModel>) -> Seq<char> {
    base + "$mono"@ + concat(args.map_values(|arg: InstanceArgModel| instance_part(arg)))
}

/// The symbol of the concrete instance of `base` at `args`: `Box$mono$TInt`.
pub fn instance_symbol(base: &str, args: &Vec<InstanceArg>) -> (r: String)
    ensures
        r@ == instance_name(base@, instance_args_view(*args)),
{
    let mut s: String = cat2(base, "$mono");
    let ghost start = s@;
    let ghost model = instance_args_view(*args);
    let ghost texts = model.map_values(|arg: InstanceArgModel| instance_part(arg));
    assert(texts.take(0) =~= Seq::<Seq<char>>::empty());
    assert(start + concat(texts.take(0)) =~= start);
    for i in 0..args.len()
        invariant
            model == instance_args_view(*args),
            texts == model.map_values(|arg: InstanceArgModel| instance_part(arg)),
            s@ == start + concat(texts.take(i as int)),
    {
        proof {
            assert(texts.take(i + 1) =~= texts.take(i as int).push(texts[i as int]));
            lemma_concat_push(texts.take(i as int), texts[i as int]);
        }
        match &args[i] {
            InstanceArg::Ty(ty) => {
                s.append("$T");
                s.append(&sanitize(&ty_raw(ty)));
            },
            InstanceArg::Value(value) => {
                s.append("$V");
                s.append(&sanitize(&value.text()));
            },
        }
        assert(s@ =~= start + concat(texts.take(i + 1)));
    }
    assert(texts.take(texts.len() as int) =~= texts);
    s
}

/// The template behind a nominal name: the text before its first `$mono`.
pub open spec fn template_of(name: Seq<char>) -> Seq<char> {
    match first_occurrence(name, "$mono"@) {
        Some(at) => name.take(at),
        None => name,
    }
}

/// The template behind a nominal name.
pub fn nominal_template(name: &str) -> (r: &str)
    ensures
        r@ == template_of(name@),
{
    match find_first(name, "$mono") {
        Some(at) => {
            let r: &str = name.substring_char(0, at);
            assert(r@ =~= name@.take(at as int));
            r
        },
        None => name,
    }
}

/// The canonical mangled spelling of one parameter type.
#[derive(Debug, Clone, PartialEq, Eq)]
pub struct TypeKey(pub String);

impl View for TypeKey {
    type V = Seq<char>;

    open spec fn view(&self) -> Seq<char> {
        self.0@
    }
}

/// `i64::checked_pow` is exponentiation where the result fits, else nothing.
pub assume_specification[ i64::checked_pow ](base: i64, exponent: u32) -> (r: Option<i64>)
    ensures
        match r {
            Some(v) => v == vstd::arithmetic::power::pow(base as int, exponent as nat),
            None => vstd::arithmetic::power::pow(base as int, exponent as nat) < i64::MIN
                || vstd::arithmetic::power::pow(base as int, exponent as nat) > i64::MAX,
        },
;

/// The value as an `Int`, where it fits.
pub open spec fn fit_i64(v: int) -> Option<i64> {
    if i64::MIN <= v <= i64::MAX { Some(v as i64) } else { None }
}

/// A binary operator on compile-time integers, where its result is an `Int`.
pub open spec fn comptime_infix(op: InfixOp, left: i64, right: i64) -> Option<i64> {
    match op {
        InfixOp::Add => fit_i64(left + right),
        InfixOp::Sub => fit_i64(left - right),
        InfixOp::Mul => fit_i64(left * right),
        InfixOp::FloorDiv => if quotient_defined(left, right) { fit_i64(left as int / right as int) } else { None },
        InfixOp::Mod => if quotient_defined(left, right) { fit_i64(left as int % right as int) } else { None },
        InfixOp::Pow => if right >= 0 {
            fit_i64(vstd::arithmetic::power::pow(left as int, (right as u32) as nat))
        } else {
            None
        },
        _ => None,
    }
}

/// The value of a compile-time integer expression under named constants.
pub open spec fn comptime_int(expr: ExprModel, comptimes: Map<Seq<char>, i64>) -> Option<i64>
    decreases expr,
{
    match expr.kind {
        ExprKindModel::Int(value) => fit_i64(literal_value(value)),
        ExprKindModel::Identifier(name) => if comptimes.dom().contains(name) { Some(comptimes[name]) } else { None },
        ExprKindModel::Prefix(PrefixOp::Neg, value) => match comptime_int(*value, comptimes) {
            Some(v) => fit_i64(-v),
            None => None,
        },
        ExprKindModel::Infix(op, left, right) => match (
            comptime_int(*left, comptimes),
            comptime_int(*right, comptimes),
        ) {
            (Some(a), Some(b)) => comptime_infix(op, a, b),
            _ => None,
        },
        _ => None,
    }
}

fn apply_comptime_infix(op: InfixOp, left: i64, right: i64) -> (r: Option<i64>)
    ensures
        r == comptime_infix(op, left, right),
{
    match op {
        InfixOp::Add => left.checked_add(right),
        InfixOp::Sub => left.checked_sub(right),
        InfixOp::Mul => left.checked_mul(right),
        InfixOp::FloorDiv => {
            proof {
                if right != 0 {
                    lemma_quotient(left as int, right as int);
                }
            }
            left.checked_div_euclid(right)
        },
        InfixOp::Mod => {
            proof {
                if right != 0 {
                    lemma_quotient(left as int, right as int);
                }
            }
            left.checked_rem_euclid(right)
        },
        InfixOp::Pow => if right >= 0 { left.checked_pow(right as u32) } else { None },
        _ => None,
    }
}

/// The value of a compile-time integer expression under named constants.
pub fn eval_comptime_int(expr: &Expr, comptimes: &NameMap<i64>) -> (r: Option<i64>)
    ensures
        r == comptime_int(expr@, comptimes@),
    decreases expr,
{
    match &expr.kind {
        ExprKind::Int(value) => value.to_i64(),
        ExprKind::Identifier(name) => match comptimes.get(name) {
            Some(v) => Some(*v),
            None => None,
        },
        ExprKind::Prefix(op, value) => match op {
            PrefixOp::Neg => match eval_comptime_int(value, comptimes) {
                Some(v) => if v == i64::MIN { None } else { Some(-v) },
                None => None,
            },
            PrefixOp::Not => None,
        },
        ExprKind::Infix(op, left, right) => {
            let a: i64 = match eval_comptime_int(left, comptimes) {
                Some(v) => v,
                None => return None,
            };
            let b: i64 = match eval_comptime_int(right, comptimes) {
                Some(v) => v,
                None => return None,
            };
            apply_comptime_infix(*op, a, b)
        },
        _ => None,
    }
}

/// The spelling of a compile-time value argument in an annotation. An expression
/// that is not constant has one stable spelling.
pub open spec fn raw_value(expr: ExprModel, comptimes: Map<Seq<char>, i64>) -> Seq<char> {
    match comptime_int(expr, comptimes) {
        Some(v) => dec_int(v as int),
        None => match expr.kind {
            ExprKindModel::Bool(v) => if v { "true"@ } else { "false"@ },
            ExprKindModel::Str(text) => encode(text),
            ExprKindModel::Identifier(name) => encode(name),
            _ => "expr"@,
        },
    }
}

fn value_expr_raw(expr: &Expr, comptimes: &NameMap<i64>) -> (r: String)
    ensures
        r@ == raw_value(expr@, comptimes@),
{
    if let Some(v) = eval_comptime_int(expr, comptimes) {
        return dec_text_i64(v);
    }
    match &expr.kind {
        ExprKind::Bool(v) => if *v { "true".to_owned() } else { "false".to_owned() },
        ExprKind::Str(text) => encode_identifier(text),
        ExprKind::Identifier(name) => encode_identifier(name),
        _ => "expr".to_owned(),
    }
}

/// The trait bounds of type parameters by name.
pub open spec fn bounds_view(bounds: Map<Seq<char>, Vec<String>>) -> Map<Seq<char>, Seq<Seq<char>>> {
    bounds.map_values(|v: Vec<String>| strings_view(v))
}

/// The spelling of a parameter name with its bounds, where it has some.
pub open spec fn raw_parameter(name: Seq<char>, bounds: Map<Seq<char>, Seq<Seq<char>>>) -> Seq<char> {
    if bounds.dom().contains(name) {
        encode(name) + concat(raw_bounds(bounds[name]))
    } else {
        encode(name)
    }
}

fn parameter_raw(name: &str, type_bounds: &NameMap<Vec<String>>) -> (r: String)
    ensures
        r@ == raw_parameter(name@, bounds_view(type_bounds@)),
{
    let mut s: String = encode_identifier(name);
    if let Some(bounds) = type_bounds.get(name) {
        push_raw_bounds(&mut s, bounds);
    }
    s
}

/// The element type that a `DType.<name>` argument denotes.
pub open spec fn arg_dtype(arg: ParamArgModel) -> Option<Dtype> {
    match arg {
        ParamArgModel::Value(expr) => match expr.kind {
            ExprKindModel::Member { object, field } => if object.kind == ExprKindModel::Identifier("DType"@) && (exists|d: Dtype|
                dtype_name(d) == field) {
                Some(choose|d: Dtype| dtype_name(d) == field)
            } else {
                None
            },
            _ => None,
        },
        _ => None,
    }
}

/// Different element types have different names.
pub proof fn law_dtype_names(a: Dtype, b: Dtype)
    requires
        dtype_name(a) == dtype_name(b),
    ensures
        a == b,
{
    reveal_strlit("bool");
    reveal_strlit("int");
    reveal_strlit("int8");
    reveal_strlit("int16");
    reveal_strlit("int32");
    reveal_strlit("int64");
    reveal_strlit("uint8");
    reveal_strlit("uint16");
    reveal_strlit("uint32");
    reveal_strlit("uint64");
    reveal_strlit("float32");
    reveal_strlit("float64");
    let s = dtype_name(a);
    let t = dtype_name(b);
    assert(s.len() == t.len());
    assert(s[0] == t[0]);
    assert(s.len() > 3 ==> s[3] == t[3]);
    assert(s.len() > 4 ==> s[4] == t[4]);
    assert(s.len() > 5 ==> s[5] == t[5]);
}

fn param_arg_dtype(argument: &ParamArg) -> (r: Option<Dtype>)
    ensures
        r == arg_dtype(argument@),
{
    match argument {
        ParamArg::Value(expr) => match &expr.kind {
            ExprKind::Member { object, field } => {
                assert(expr@.kind == expr_kind_view(expr.kind));
                assert(object@.kind == expr_kind_view(object.kind));
                match &object.kind {
                    ExprKind::Identifier(name) => {
                        if !str_eq(name, "DType") {
                            return None;
                        }
                        let found: Option<Dtype> = Dtype::from_name(field);
                        proof {
                            if found is Some {
                                let d = found->Some_0;
                                let c = choose|d: Dtype| dtype_name(d) == field@;
                                assert(dtype_name(d) == field@);
                                law_dtype_names(c, d);
                            }
                        }
                        found
                    },
                    _ => None,
                }
            },
            _ => None,
        },
        _ => None,
    }
}

/// The SIMD width an argument gives, where it is constant.
pub open spec fn arg_width(arg: ParamArgModel, comptimes: Map<Seq<char>, i64>) -> Option<i64> {
    match arg {
        ParamArgModel::Value(expr) => comptime_int(expr, comptimes),
        _ => None,
    }
}

fn param_arg_width(argument: &ParamArg, comptimes: &NameMap<i64>) -> (r: Option<i64>)
    ensures
        r == arg_width(argument@, comptimes@),
{
    match argument {
        ParamArg::Value(expr) => eval_comptime_int(expr, comptimes),
        _ => None,
    }
}

/// The spelling of a scalar or SIMD annotation: one lane of `int` or `float64` is
/// the native scalar.
pub open spec fn raw_simd(dtype: Dtype, width: i64) -> Seq<char> {
    if dtype is Int && width == 1 {
        "Int"@
    } else if dtype is Float64 && width == 1 {
        "Float64"@
    } else {
        simd_text(dtype, width)
    }
}

fn simd_annotation_raw(dtype: Dtype, width: i64) -> (r: String)
    ensures
        r@ == raw_simd(dtype, width),
{
    if dtype == Dtype::Int && width == 1 {
        "Int".to_owned()
    } else if dtype == Dtype::Float64 && width == 1 {
        "Float64".to_owned()
    } else {
        simd_spelling(dtype, width)
    }
}

/// The spelling of an annotation in a symbol, before sanitizing. It agrees with
/// the spelling of the type that the annotation resolves to.
pub open spec fn raw_type(
    ty: TypeModel,
    comptimes: Map<Seq<char>, i64>,
    bounds: Map<Seq<char>, Seq<Seq<char>>>,
) -> Seq<char>
    decreases ty,
{
    match ty {
        TypeModel::Int => "Int"@,
        TypeModel::UInt => "UInt"@,
        TypeModel::Bool => "Bool"@,
        TypeModel::StringLiteral => "String"@,
        TypeModel::Float64 => "Float64"@,
        TypeModel::NoneType => "None"@,
        TypeModel::Named(name, args) => if args.len() == 0 && is_string_struct(name) {
            "String"@
        } else if args.len() == 0 && name == "NoneType"@ {
            "None"@
        } else if name == "Scalar"@ && args.len() == 1 && arg_dtype(args[0]) is Some {
            raw_simd(arg_dtype(args[0])->Some_0, 1)
        } else if name == "SIMD"@ && args.len() == 2 && arg_dtype(args[0]) is Some && arg_width(args[1], comptimes) is Some {
            raw_simd(arg_dtype(args[0])->Some_0, arg_width(args[1], comptimes)->Some_0)
        } else {
            raw_parameter(name, bounds) + concat(raw_source_args(args, comptimes, bounds))
        },
        TypeModel::SelfParam(name) => raw_parameter(name, bounds),
        TypeModel::Assoc { base, name, .. } => "Assoc$"@ + raw_type(*base, comptimes, bounds) + "$"@ + encode(name),
        TypeModel::IndexedProjection { .. } => type_debug(ty),
        TypeModel::SelfType => "Self"@,
        TypeModel::MaterializedCallable(key) => key,
    }
}

/// The spelling of one annotation argument, behind its separator.
pub open spec fn raw_source_arg(
    arg: ParamArgModel,
    comptimes: Map<Seq<char>, i64>,
    bounds: Map<Seq<char>, Seq<Seq<char>>>,
) -> Seq<char>
    decreases arg,
{
    match arg {
        ParamArgModel::Type(ty) => "$"@ + raw_type(ty, comptimes, bounds),
        ParamArgModel::Value(expr) => "$V"@ + raw_value(expr, comptimes),
        ParamArgModel::Named { name, value } => "$"@ + name + "="@ + (match *value {
            PlainArgModel::Type(ty) => raw_type(ty, comptimes, bounds),
            PlainArgModel::Value(expr) => raw_value(expr, comptimes),
        }),
    }
}

/// The spellings of annotation arguments.
pub open spec fn raw_source_args(
    args: Seq<ParamArgModel>,
    comptimes: Map<Seq<char>, i64>,
    bounds: Map<Seq<char>, Seq<Seq<char>>>,
) -> Seq<Seq<char>>
    decreases args,
{
    Seq::new(
        args.len(),
        |i: int| if 0 <= i < args.len() { raw_source_arg(args[i], comptimes, bounds) } else { arbitrary() },
    )
}

fn push_raw_source_args(
    s: &mut String,
    args: &Vec<ParamArg>,
    comptimes: &NameMap<i64>,
    type_bounds: &NameMap<Vec<String>>,
)
    ensures
        final(s)@ == old(s)@ + concat(
            raw_source_args(source_args_view(*args), comptimes@, bounds_view(type_bounds@)),
        ),
    decreases args,
{
    let ghost start = s@;
    let ghost model = source_args_view(*args);
    let ghost texts = raw_source_args(model, comptimes@, bounds_view(type_bounds@));
    assert(texts.take(0) =~= Seq::<Seq<char>>::empty());
    assert(start + concat(texts.take(0)) =~= start);
    for i in 0..args.len()
        invariant
            model == source_args_view(*args),
            texts == raw_source_args(model, comptimes@, bounds_view(type_bounds@)),
            s@ == start + concat(texts.take(i as int)),
    {
        proof {
            assert(texts.take(i + 1) =~= texts.take(i as int).push(texts[i as int]));
            lemma_concat_push(texts.take(i as int), texts[i as int]);
            assert(model[i as int] == args@[i as int]@);
        }
        let part: String = match &args[i] {
            ParamArg::Type(ty) => cat2("$", &ast_raw(ty, comptimes, type_bounds)),
            ParamArg::Value(expr) => cat2("$V", &value_expr_raw(expr, comptimes)),
            ParamArg::Named { name, value } => {
                let plain: &PlainArg = value;
                let text: String = match plain {
                    PlainArg::Type(ty) => ast_raw(ty, comptimes, type_bounds),
                    PlainArg::Value(expr) => value_expr_raw(expr, comptimes),
                };
                assert(plain@ == plain_arg_view(*plain));
                cat4("$", name, "=", &text)
            },
        };
        s.append(&part);
        assert(s@ =~= start + concat(texts.take(i + 1)));
    }
    assert(texts.take(texts.len() as int) =~= texts);
}

/// The spelling of an annotation in a symbol, before sanitizing.
pub fn ast_raw(ty: &Type, comptimes: &NameMap<i64>, type_bounds: &NameMap<Vec<String>>) -> (r: String)
    ensures
        r@ == raw_type(ty@, comptimes@, bounds_view(type_bounds@)),
    decreases ty,
{
    match ty {
        Type::Int => "Int".to_owned(),
        Type::UInt => "UInt".to_owned(),
        Type::Bool => "Bool".to_owned(),
        Type::StringLiteral => "String".to_owned(),
        Type::Float64 => "Float64".to_owned(),
        Type::NoneType => "None".to_owned(),
        Type::Named(name, args) => {
            let ghost model = source_args_view(*args);
            assert(model.len() == args@.len());
            if args.len() == 0 && is_stdlib_string_struct(name) {
                return "String".to_owned();
            }
            if args.len() == 0 && str_eq(name, "NoneType") {
                return "None".to_owned();
            }
            if str_eq(name, "Scalar") && args.len() == 1 {
                assert(model[0] == args@[0]@);
                if let Some(dtype) = param_arg_dtype(&args[0]) {
                    return simd_annotation_raw(dtype, 1);
                }
            }
            if str_eq(name, "SIMD") && args.len() == 2 {
                assert(model[0] == args@[0]@);
                assert(model[1] == args@[1]@);
                if let Some(dtype) = param_arg_dtype(&args[0]) {
                    if let Some(width) = param_arg_width(&args[1], comptimes) {
                        proof {
                            reveal_strlit("Scalar");
                            reveal_strlit("SIMD");
                            assert("Scalar"@.len() == 6);
                            assert("SIMD"@.len() == 4);
                        }
                        return simd_annotation_raw(dtype, width);
                    }
                }
            }
            let mut s: String = parameter_raw(name, type_bounds);
            push_raw_source_args(&mut s, args, comptimes, type_bounds);
            s
        },
        Type::SelfParam(name) => parameter_raw(name, type_bounds),
        Type::Assoc { base, name, .. } => cat4(
            "Assoc$",
            &ast_raw(base, comptimes, type_bounds),
            "$",
            &encode_identifier(name),
        ),
        Type::IndexedProjection { .. } => debug_type(ty),
        Type::SelfType => "Self".to_owned(),
        Type::MaterializedCallable(key) => key.clone(),
    }
}

/// The key of a declared annotation.
pub open spec fn annotation_key(a: TypeModel) -> Seq<char> {
    sanitized(raw_type(a, Map::empty(), Map::empty()))
}

/// The key of a checked type.
pub open spec fn type_key(t: TyModel) -> Seq<char> {
    sanitized(raw_ty(t))
}

impl TypeKey {
    /// Mangles a declared parameter annotation.
    pub fn from_ast(ty: &Type) -> (r: TypeKey)
        ensures
            r@ == annotation_key(ty@),
    {
        let comptimes: NameMap<i64> = NameMap::new();
        let bounds: NameMap<Vec<String>> = NameMap::new();
        assert(bounds_view(bounds@) =~= Map::<Seq<char>, Seq<Seq<char>>>::empty());
        TypeKey(sanitize(&ast_raw(ty, &comptimes, &bounds)))
    }

    /// Mangles a checked type. A struct or parameter spells exactly as its
    /// annotation does.
    pub fn from_ty(ty: &Ty) -> (r: TypeKey)
        ensures
            r@ == type_key(ty@),
    {
        TypeKey(sanitize(&ty_raw(ty)))
    }
}

/// Whether an annotation resolves to a checked type: the structural part of
/// resolution, under named constants and the bounds of type parameters.
pub open spec fn annotates(
    a: TypeModel,
    t: TyModel,
    comptimes: Map<Seq<char>, i64>,
    bounds: Map<Seq<char>, Seq<Seq<char>>>,
) -> bool
    decreases a,
{
    match (a, t) {
        (TypeModel::Int, TyModel::Int) => true,
        (TypeModel::UInt, TyModel::UInt) => true,
        (TypeModel::Bool, TyModel::Bool) => true,
        (TypeModel::StringLiteral, TyModel::StringLiteral) => true,
        (TypeModel::Float64, TyModel::Float64) => true,
        (TypeModel::NoneType, TyModel::NoneType) => true,
        (TypeModel::SelfType, TyModel::SelfType) => true,
        (TypeModel::Named(name, args), TyModel::NoneType) => args.len() == 0 && name == "NoneType"@,
        (
            TypeModel::Named(name, args),
            TyModel::Int,
        ) => names_simd(name, args, comptimes) == Some((Dtype::Int, 1i64)),
        (
            TypeModel::Named(name, args),
            TyModel::Float64,
        ) => names_simd(name, args, comptimes) == Some((Dtype::Float64, 1i64)),
        (TypeModel::Named(name, args), TyModel::Simd { dtype, width }) => names_simd(name, args, comptimes) == Some(
            (dtype, width),
        ) && !(width == 1 && (dtype is Int || dtype is Float64)),
        (
            TypeModel::Named(name, args),
            TyModel::Struct(struct_name, struct_args),
        ) => name == struct_name && args.len()
            == struct_args.len() && !(
                args.len() == 0 && name == "NoneType"@
            ) && names_simd(name, args, comptimes) is None
            && !bounds.dom().contains(name) && annotates_args(args, struct_args, comptimes, bounds),
        (
            TypeModel::Named(name, args),
            TyModel::Param { name: param, bounds: param_bounds, callable_bound },
        ) => name == param
            && args.len() == 0
                && callable_bound is None
                && param_bounds == bounds_of(name, bounds)
                && !is_string_struct(name)
            && name != "NoneType"@,
        (
            TypeModel::SelfParam(name),
            TyModel::Param { name: param, bounds: param_bounds, callable_bound },
        ) => name == param
            && callable_bound is None && param_bounds == bounds_of(name, bounds),
        (
            TypeModel::Assoc { base, name, .. },
            TyModel::Assoc { base: ty_base, name: ty_name, args: ty_args },
        ) => name
            == ty_name && ty_args.len() == 0 && annotates(*base, *ty_base, comptimes, bounds),
        _ => false,
    }
}

/// The bounds of a parameter; none where it has none.
pub open spec fn bounds_of(name: Seq<char>, bounds: Map<Seq<char>, Seq<Seq<char>>>) -> Seq<Seq<char>> {
    if bounds.dom().contains(name) { bounds[name] } else { Seq::empty() }
}

/// The lanes that a `Scalar` or `SIMD` annotation names.
pub open spec fn names_simd(
    name: Seq<char>,
    args: Seq<ParamArgModel>,
    comptimes: Map<Seq<char>, i64>,
) -> Option<(Dtype, i64)> {
    if name == "Scalar"@ && args.len() == 1 && arg_dtype(args[0]) is Some {
        Some((arg_dtype(args[0])->Some_0, 1i64))
    } else if name == "SIMD"@ && args.len() == 2 && arg_dtype(args[0]) is Some && arg_width(args[1], comptimes) is Some {
        Some((arg_dtype(args[0])->Some_0, arg_width(args[1], comptimes)->Some_0))
    } else {
        None
    }
}

/// Whether annotation arguments resolve to application arguments, one by one.
pub open spec fn annotates_args(
    args: Seq<ParamArgModel>,
    ty_args: Seq<TyArgModel>,
    comptimes: Map<Seq<char>, i64>,
    bounds: Map<Seq<char>, Seq<Seq<char>>>,
) -> bool
    decreases args,
{
    args.len() == ty_args.len() && forall|i: int|
        0 <= i < args.len() ==> annotates_arg(#[trigger] args[i], ty_args[i], comptimes, bounds)
}

/// Whether one annotation argument resolves to one application argument: a type
/// to the type it annotates, a constant expression to its value.
pub open spec fn annotates_arg(
    arg: ParamArgModel,
    ty_arg: TyArgModel,
    comptimes: Map<Seq<char>, i64>,
    bounds: Map<Seq<char>, Seq<Seq<char>>>,
) -> bool
    decreases arg,
{
    match (arg, ty_arg) {
        (ParamArgModel::Type(a), TyArgModel::Ty(t)) => annotates(a, t, comptimes, bounds),
        (
            ParamArgModel::Value(expr),
            TyArgModel::Val(CtValueModel::Int(v)),
        ) => comptime_int(expr, comptimes) == Some(v),
        _ => false,
    }
}

/// An annotation and the checked type it resolves to spell the same, so that a
/// recorded callee names a real definition.
pub proof fn law_annotation_spelling(
    a: TypeModel,
    t: TyModel,
    comptimes: Map<Seq<char>, i64>,
    bounds: Map<Seq<char>, Seq<Seq<char>>>,
)
    requires
        annotates(a, t, comptimes, bounds),
    ensures
        raw_type(a, comptimes, bounds) == raw_ty(t),
    decreases a,
{
    match (a, t) {
        (TypeModel::Named(name, args), TyModel::Struct(struct_name, struct_args)) => {
            let texts = raw_source_args(args, comptimes, bounds);
            let ty_texts = raw_args(struct_args);
            assert(annotates_args(args, struct_args, comptimes, bounds));
            assert forall|i: int| 0 <= i < args.len() implies texts[i] == ty_texts[i] by {
                assert(annotates_arg(args[i], struct_args[i], comptimes, bounds));
                lemma_argument_spelling(args[i], struct_args[i], comptimes, bounds);
            }
            assert(texts =~= ty_texts);
        },
        (
            TypeModel::Named(name, args),
            TyModel::Param { name: param, bounds: param_bounds, callable_bound },
        ) => {
            lemma_parameter_spelling(name, bounds);
            let texts = raw_source_args(args, comptimes, bounds);
            assert(texts =~= Seq::<Seq<char>>::empty());
            assert(raw_type(a, comptimes, bounds) =~= raw_parameter(name, bounds));
        },
        (TypeModel::SelfParam(name), TyModel::Param { name: param, bounds: param_bounds, callable_bound }) => {
            lemma_parameter_spelling(name, bounds);
        },
        (
            TypeModel::Assoc { base, name, .. },
            TyModel::Assoc { base: ty_base, name: ty_name, args: ty_args },
        ) => {
            law_annotation_spelling(*base, *ty_base, comptimes, bounds);
            let texts = raw_args(ty_args);
            assert(texts =~= Seq::<Seq<char>>::empty());
            assert(raw_ty(t) =~= raw_type(a, comptimes, bounds));
        },
        (TypeModel::Named(name, args), _) => {
            reveal_strlit("Scalar");
            reveal_strlit("SIMD");
            reveal_strlit("String");
            reveal_strlit("__module$std$string$String");
            reveal_strlit("NoneType");
            assert("Scalar"@.len() == 6);
            assert("SIMD"@.len() == 4);
        },
        _ => {},
    }
}

/// Whether an annotation is plain and a checked type is what it resolves to: a scalar,
/// or a struct without arguments.
pub open spec fn plainly_annotates(a: TypeModel, t: TyModel) -> bool {
    match (a, t) {
        (TypeModel::Int, TyModel::Int) => true,
        (TypeModel::UInt, TyModel::UInt) => true,
        (TypeModel::Bool, TyModel::Bool) => true,
        (TypeModel::Float64, TyModel::Float64) => true,
        (TypeModel::NoneType, TyModel::NoneType) => true,
        (TypeModel::StringLiteral, TyModel::StringLiteral) => true,
        (TypeModel::SelfType, TyModel::SelfType) => true,
        (
            TypeModel::Named(name, args),
            TyModel::Struct(struct_name, struct_args),
        ) => name == struct_name && args.len() == 0
            && struct_args.len() == 0 && name != "NoneType"@,
        _ => false,
    }
}

/// A plain annotation and the checked type it resolves to have one key.
pub proof fn law_plain_keys_agree(a: TypeModel, t: TyModel)
    requires
        plainly_annotates(a, t),
    ensures
        annotation_key(a) == type_key(t),
{
    if let (TypeModel::Named(name, args), TyModel::Struct(_, struct_args)) = (a, t) {
        assert(names_simd(name, args, Map::empty()) is None);
        assert(annotates_args(args, struct_args, Map::empty(), Map::empty()));
    }
    assert(annotates(a, t, Map::empty(), Map::empty()));
    law_annotation_spelling(a, t, Map::empty(), Map::empty());
}

/// An annotation with a constant expression for its argument has the key of the checked
/// type with the value of that expression.
pub proof fn law_constant_argument_key(name: Seq<char>, expr: ExprModel, value: i64)
    requires
        comptime_int(expr, Map::empty()) == Some(value),
    ensures
        annotation_key(TypeModel::Named(name, seq![ParamArgModel::Value(expr)])) == type_key(
            TyModel::Struct(name, seq![TyArgModel::Val(CtValueModel::Int(value))]),
        ),
{
    let a = TypeModel::Named(name, seq![ParamArgModel::Value(expr)]);
    let t = TyModel::Struct(name, seq![TyArgModel::Val(CtValueModel::Int(value))]);
    assert(arg_dtype(ParamArgModel::Value(expr)) is None);
    assert(names_simd(name, seq![ParamArgModel::Value(expr)], Map::empty()) is None);
    assert(annotates_args(
        seq![ParamArgModel::Value(expr)],
        seq![TyArgModel::Val(CtValueModel::Int(value))],
        Map::empty(),
        Map::empty(),
    ));
    assert(annotates(a, t, Map::empty(), Map::empty()));
    law_annotation_spelling(a, t, Map::empty(), Map::empty());
}

/// Constant expressions of one value give annotations of one key.
pub proof fn law_constants_fold(name: Seq<char>, a: ExprModel, b: ExprModel)
    requires
        comptime_int(a, Map::empty()) is Some,
        comptime_int(a, Map::empty()) == comptime_int(b, Map::empty()),
    ensures
        annotation_key(TypeModel::Named(name, seq![ParamArgModel::Value(a)])) == annotation_key(
            TypeModel::Named(name, seq![ParamArgModel::Value(b)]),
        ),
{
    let value = comptime_int(a, Map::empty())->Some_0;
    law_constant_argument_key(name, a, value);
    law_constant_argument_key(name, b, value);
}

/// The origin of a pointer has no part in its key.
pub proof fn law_pointer_origins_erase(element: TyModel, a: PointerOriginModel, b: PointerOriginModel)
    ensures
        type_key(TyModel::Pointer { element: Box::new(element), origin: a }) == type_key(
            TyModel::Pointer { element: Box::new(element), origin: b },
        ),
{
}

proof fn lemma_parameter_spelling(name: Seq<char>, bounds: Map<Seq<char>, Seq<Seq<char>>>)
    ensures
        raw_parameter(name, bounds) == encode(name) + concat(
            raw_bounds(bounds_of(name, bounds))
        ) + Seq::<char>::empty(),
{
    let b = bounds_of(name, bounds);
    if !bounds.dom().contains(name) {
        assert(raw_bounds(b) =~= Seq::<Seq<char>>::empty());
        assert(encode(name) + Seq::<char>::empty() =~= encode(name));
    }
    let text = encode(name) + concat(raw_bounds(b));
    assert(text + Seq::<char>::empty() =~= text);
}

proof fn lemma_argument_spelling(
    arg: ParamArgModel,
    ty_arg: TyArgModel,
    comptimes: Map<Seq<char>, i64>,
    bounds: Map<Seq<char>, Seq<Seq<char>>>,
)
    requires
        annotates_arg(arg, ty_arg, comptimes, bounds),
    ensures
        raw_source_arg(arg, comptimes, bounds) == raw_arg(ty_arg),
    decreases arg,
{
    match (arg, ty_arg) {
        (ParamArgModel::Type(a), TyArgModel::Ty(t)) => {
            law_annotation_spelling(a, t, comptimes, bounds);
        },
        (ParamArgModel::Value(expr), TyArgModel::Val(CtValueModel::Int(v))) => {
            reveal_strlit("$");
            reveal_strlit("V");
            reveal_strlit("$V");
            let text = dec_int(v as int);
            assert("$V"@ + text =~= "$"@ + ("V"@ + text));
        },
        _ => {},
    }
}

/// An overload signature as typed data: the ordered parameter type keys.
#[derive(Debug, PartialEq, Eq)]
pub struct SignatureKey {
    pub types: Vec<TypeKey>,
    /// The keyword-variadic collector type, kept outside the positional sequence
    /// so that `def f(x: T)` and `def f(var **x: T)` cannot collide.
    pub kw_variadic: Option<TypeKey>,
    /// Keyword-only parameter names: overloads whose types agree may still differ
    /// by them.
    pub keywords: Vec<String>,
}

/// Mathematical model of [`SignatureKey`].
#[verifier::ext_equal]
pub struct SignatureModel {
    pub types: Seq<Seq<char>>,
    pub kw_variadic: Option<Seq<char>>,
    pub keywords: Seq<Seq<char>>,
}

/// The spellings of keys.
pub open spec fn keys_view(keys: Seq<TypeKey>) -> Seq<Seq<char>> {
    keys.map_values(|k: TypeKey| k@)
}

/// The spelling of an optional key.
pub open spec fn opt_key_view(key: Option<TypeKey>) -> Option<Seq<char>> {
    match key {
        Some(k) => Some(k@),
        None => None,
    }
}

impl View for SignatureKey {
    type V = SignatureModel;

    open spec fn view(&self) -> SignatureModel {
        SignatureModel {
            types: keys_view(self.types@),
            kw_variadic: opt_key_view(self.kw_variadic),
            keywords: strings_view(self.keywords),
        }
    }
}

/// The symbol suffix of a signature.
pub open spec fn signature_suffix(sig: SignatureModel) -> Seq<char> {
    "$ov$"@ + join(sig.types, "$"@) + (match sig.kw_variadic {
        Some(key) => "$kwv$"@ + key,
        None => Seq::empty(),
    }) + (if sig.keywords.len() > 0 { "$kw$"@ + join(sig.keywords, "$"@) } else { Seq::empty() })
}

/// The signature of declared parameters under named constants and bounds: a
/// keyword-variadic parameter stands apart.
pub open spec fn declared_signature(
    params: Seq<FnParamModel>,
    comptimes: Map<Seq<char>, i64>,
    bounds: Map<Seq<char>, Seq<Seq<char>>>,
) -> SignatureModel {
    SignatureModel {
        types: positional_keys(params, comptimes, bounds),
        kw_variadic: collector_key(params, comptimes, bounds),
        keywords: Seq::empty(),
    }
}

/// The key of one declared parameter.
pub open spec fn param_key(
    param: FnParamModel,
    comptimes: Map<Seq<char>, i64>,
    bounds: Map<Seq<char>, Seq<Seq<char>>>,
) -> Seq<char> {
    sanitized(raw_type(param.ty, comptimes, bounds))
}

/// The keys of the parameters that are no keyword-variadic collector.
pub open spec fn positional_keys(
    params: Seq<FnParamModel>,
    comptimes: Map<Seq<char>, i64>,
    bounds: Map<Seq<char>, Seq<Seq<char>>>,
) -> Seq<Seq<char>>
    decreases params.len(),
{
    if params.len() == 0 {
        Seq::empty()
    } else {
        let before = positional_keys(params.drop_last(), comptimes, bounds);
        if params.last().kind is KwVariadic {
            before
        } else {
            before.push(param_key(params.last(), comptimes, bounds))
        }
    }
}

/// The key of the first keyword-variadic collector.
pub open spec fn collector_key(
    params: Seq<FnParamModel>,
    comptimes: Map<Seq<char>, i64>,
    bounds: Map<Seq<char>, Seq<Seq<char>>>,
) -> Option<Seq<char>>
    decreases params.len(),
{
    if params.len() == 0 {
        None
    } else {
        match collector_key(params.drop_last(), comptimes, bounds) {
            Some(key) => Some(key),
            None => if params.last().kind is KwVariadic {
                Some(param_key(params.last(), comptimes, bounds))
            } else {
                None
            },
        }
    }
}

fn signature_with(
    params: &Vec<FnParam>,
    comptimes: &NameMap<i64>,
    type_bounds: &NameMap<Vec<String>>,
) -> (r: SignatureKey)
    ensures
        r@ == declared_signature(fn_params_view(*params), comptimes@, bounds_view(type_bounds@)),
{
    let mut types: Vec<TypeKey> = Vec::new();
    let mut kw_variadic: Option<TypeKey> = None;
    let ghost model = fn_params_view(*params);
    let ghost bounds = bounds_view(type_bounds@);
    assert(keys_view(types@) =~= Seq::<Seq<char>>::empty());
    for i in 0..params.len()
        invariant
            model == fn_params_view(*params),
            bounds == bounds_view(type_bounds@),
            keys_view(types@) == positional_keys(model.take(i as int), comptimes@, bounds),
            opt_key_view(kw_variadic) == collector_key(model.take(i as int), comptimes@, bounds),
    {
        assert(model.take(i + 1).drop_last() =~= model.take(i as int));
        assert(model[i as int] == params@[i as int]@);
        let key: TypeKey = TypeKey(sanitize(&ast_raw(&params[i].ty, comptimes, type_bounds)));
        if params[i].kind == ParamKind::KwVariadic {
            if kw_variadic.is_none() {
                kw_variadic = Some(key);
            }
        } else {
            let ghost before = keys_view(types@);
            types.push(key);
            assert(keys_view(types@) =~= before.push(key@));
        }
    }
    assert(model.take(model.len() as int) =~= model);
    let keywords: Vec<String> = Vec::new();
    assert(strings_view(keywords) =~= Seq::<Seq<char>>::empty());
    SignatureKey { types, kw_variadic, keywords }
}

fn joined_keys(keys: &Vec<TypeKey>) -> (r: String)
    ensures
        r@ == join(keys_view(keys@), "$"@),
{
    let mut s: String = String::new();
    let ghost texts = keys_view(keys@);
    assert(texts.take(0) =~= Seq::<Seq<char>>::empty());
    for i in 0..keys.len()
        invariant
            texts == keys_view(keys@),
            s@ == join(texts.take(i as int), "$"@),
    {
        assert(texts.take(i + 1) =~= texts.take(i as int).push(texts[i as int]));
        join_push(&mut s, i == 0, "$", &keys[i].0, Ghost(texts.take(i as int)));
    }
    assert(texts.take(texts.len() as int) =~= texts);
    s
}

fn joined_names(names: &Vec<String>) -> (r: String)
    ensures
        r@ == join(strings_view(*names), "$"@),
{
    let mut s: String = String::new();
    let ghost texts = strings_view(*names);
    assert(texts.take(0) =~= Seq::<Seq<char>>::empty());
    for i in 0..names.len()
        invariant
            texts == strings_view(*names),
            s@ == join(texts.take(i as int), "$"@),
    {
        assert(texts.take(i + 1) =~= texts.take(i as int).push(texts[i as int]));
        join_push(&mut s, i == 0, "$", &names[i], Ghost(texts.take(i as int)));
    }
    assert(texts.take(texts.len() as int) =~= texts);
    s
}

/// The spelling of a receiver convention.
pub open spec fn receiver_key(convention: Option<ArgConvention>) -> Seq<char> {
    match convention {
        None => "SelfRead"@,
        Some(ArgConvention::Imm) => "SelfRead"@,
        Some(ArgConvention::Mut) => "SelfMut"@,
        Some(ArgConvention::Var) => "SelfVar"@,
        Some(ArgConvention::Out) => "SelfOut"@,
        Some(ArgConvention::Ref) => "SelfRef"@,
        Some(ArgConvention::Deinit) => "SelfDeinit"@,
    }
}

/// A signature with the receiver convention in front of its types.
pub open spec fn received(sig: SignatureModel, convention: Option<ArgConvention>) -> SignatureModel {
    SignatureModel { types: seq![receiver_key(convention)] + sig.types, ..sig }
}

impl SignatureKey {
    /// The signature of a declared parameter list.
    pub fn from_ast_params(params: &Vec<FnParam>) -> (r: SignatureKey)
        ensures
            r@ == declared_signature(fn_params_view(*params), Map::empty(), Map::empty()),
    {
        let comptimes: NameMap<i64> = NameMap::new();
        let bounds: NameMap<Vec<String>> = NameMap::new();
        assert(bounds_view(bounds@) =~= Map::<Seq<char>, Seq<Seq<char>>>::empty());
        signature_with(params, &comptimes, &bounds)
    }

    /// The signature of a list of checked parameter types.
    pub fn from_tys(tys: &Vec<Ty>) -> (r: SignatureKey)
        ensures
            r@ == (SignatureModel {
                types: tys_view(*tys).map_values(|t: TyModel| sanitized(raw_ty(t))),
                kw_variadic: None,
                keywords: Seq::empty(),
            }),
    {
        let mut types: Vec<TypeKey> = Vec::new();
        let ghost wanted = tys_view(*tys).map_values(|t: TyModel| sanitized(raw_ty(t)));
        for i in 0..tys.len()
            invariant
                wanted == tys_view(*tys).map_values(|t: TyModel| sanitized(raw_ty(t))),
                types@.len() == i,
                forall|j: int| 0 <= j < i ==> (#[trigger] types@[j])@ == wanted[j],
        {
            assert(wanted[i as int] == sanitized(raw_ty(tys@[i as int]@)));
            types.push(TypeKey::from_ty(&tys[i]));
        }
        assert(keys_view(types@) =~= wanted);
        let keywords: Vec<String> = Vec::new();
        assert(strings_view(keywords) =~= Seq::<Seq<char>>::empty());
        SignatureKey { types, kw_variadic: None, keywords }
    }

    /// Attaches the keyword-variadic collector to callable identity.
    pub fn with_kw_variadic(self, ty: Option<&Ty>) -> (r: SignatureKey)
        ensures
            r@ == (SignatureModel {
                kw_variadic: match ty {
                    Some(t) => Some(sanitized(raw_ty(t@))),
                    None => None,
                },
                ..self@
            }),
    {
        SignatureKey {
            types: self.types,
            kw_variadic: match ty {
                Some(t) => Some(TypeKey::from_ty(t)),
                None => None,
            },
            keywords: self.keywords,
        }
    }

    /// Attaches the keyword-only parameter names to callable identity.
    pub fn with_keyword_names(self, names: Vec<String>) -> (r: SignatureKey)
        ensures
            r@ == (SignatureModel { keywords: strings_view(names), ..self@ }),
    {
        SignatureKey { types: self.types, kw_variadic: self.kw_variadic, keywords: names }
    }

    /// The symbol suffix of the signature.
    pub fn suffix(&self) -> (r: String)
        ensures
            r@ == signature_suffix(self@),
    {
        let mut s: String = cat2("$ov$", &joined_keys(&self.types));
        let ghost s1 = s@;
        match &self.kw_variadic {
            Some(key) => {
                s.append("$kwv$");
                s.append(&key.0);
                assert(s@ =~= s1 + ("$kwv$"@ + key@));
            },
            None => {
                assert(s@ =~= s1 + Seq::<char>::empty());
            },
        }
        let ghost s2 = s@;
        assert(strings_view(self.keywords).len() == self.keywords@.len());
        if self.keywords.len() > 0 {
            s.append("$kw$");
            s.append(&joined_names(&self.keywords));
            assert(s@ =~= s2 + ("$kw$"@ + join(self@.keywords, "$"@)));
        } else {
            assert(s@ =~= s2 + Seq::<char>::empty());
        }
        s
    }

    fn with_receiver(&self, convention: Option<ArgConvention>) -> (r: SignatureKey)
        ensures
            r@ == received(self@, convention),
    {
        let receiver: &'static str = match convention {
            None => "SelfRead",
            Some(ArgConvention::Imm) => "SelfRead",
            Some(ArgConvention::Mut) => "SelfMut",
            Some(ArgConvention::Var) => "SelfVar",
            Some(ArgConvention::Out) => "SelfOut",
            Some(ArgConvention::Ref) => "SelfRef",
            Some(ArgConvention::Deinit) => "SelfDeinit",
        };
        let mut types: Vec<TypeKey> = Vec::new();
        types.push(TypeKey(receiver.to_owned()));
        for i in 0..self.types.len()
            invariant
                types@.len() == i + 1,
                types@[0]@ == receiver@,
                forall|j: int| 0 <= j < i ==> (#[trigger] types@[j + 1])@ == self.types@[j]@,
        {
            types.push(TypeKey(self.types[i].0.clone()));
        }
        assert(keys_view(types@) =~= seq![receiver_key(convention)] + self@.types) by {
            assert forall|j: int| 1 <= j < types@.len() implies keys_view(types@)[j] == self@.types[j - 1] by {
                assert(types@[(j - 1) + 1]@ == self.types@[j - 1]@);
            }
        }
        let kw_variadic: Option<TypeKey> = match &self.kw_variadic {
            Some(key) => Some(TypeKey(key.0.clone())),
            None => None,
        };
        SignatureKey { types, kw_variadic, keywords: copy_strings(&self.keywords) }
    }
}

/// The lowered symbol of an overloaded free function: `pick$ov$Int`.
pub fn function_symbol(base: &str, sig: &SignatureKey) -> (r: String)
    ensures
        r@ == base@ + signature_suffix(sig@),
{
    cat2(base, &sig.suffix())
}

/// The symbol of an overloaded method.
pub open spec fn method_name(owner: Seq<char>, method: Seq<char>, sig: SignatureModel) -> Seq<char> {
    owner + "."@ + method + signature_suffix(sig)
}

/// The lowered symbol of an overloaded struct method: `Box.value$ov$Int`.
pub fn method_symbol(owner: &str, method: &str, sig: &SignatureKey) -> (r: String)
    ensures
        r@ == method_name(owner@, method@, sig@),
{
    cat4(owner, ".", method, &sig.suffix())
}

/// Convention-qualified symbol for `__iter__` overloads: borrowed and owned ones
/// may have identical explicit parameters, so the receiver convention is part of
/// the identity.
pub fn iterator_method_symbol(
    owner: &str,
    convention: Option<ArgConvention>,
    sig: &SignatureKey,
) -> (r: String)
    ensures
        r@ == method_name(owner@, "__iter__"@, received(sig@, convention)),
{
    method_symbol(owner, "__iter__", &sig.with_receiver(convention))
}

/// The signature of no parameters.
pub open spec fn no_params() -> SignatureModel {
    SignatureModel { types: Seq::empty(), kw_variadic: None, keywords: Seq::empty() }
}

/// The abstract `__iter__` symbol of a receiver convention.
pub open spec fn dispatch_name(convention: ArgConvention) -> Seq<char> {
    method_name("__trait_dispatch"@, "__iter__"@, received(no_params(), Some(convention)))
}

/// Convention-qualified abstract `__iter__` symbol for a bounded generic receiver.
pub fn iterator_dispatch_symbol(convention: ArgConvention) -> (r: String)
    ensures
        r@ == dispatch_name(convention),
{
    let none: SignatureKey = SignatureKey { types: Vec::new(), kw_variadic: None, keywords: Vec::new() };
    assert(none@ =~~= no_params());
    iterator_method_symbol("__trait_dispatch", Some(convention), &none)
}

/// The sibling borrowed-receiver spelling of an abstract `__iter__` symbol. Owned
/// dispatch has none.
pub fn borrowed_iterator_dispatch_alternate(symbol: &str) -> (r: Option<String>)
    ensures
        opt_string_view(r) == (if symbol@ == dispatch_name(ArgConvention::Imm) {
            Some(dispatch_name(ArgConvention::Ref))
        } else if symbol@ == dispatch_name(ArgConvention::Ref) {
            Some(dispatch_name(ArgConvention::Imm))
        } else {
            None
        }),
{
    let read: String = iterator_dispatch_symbol(ArgConvention::Imm);
    let reference: String = iterator_dispatch_symbol(ArgConvention::Ref);
    if str_eq(symbol, &read) {
        Some(reference)
    } else if str_eq(symbol, &reference) {
        Some(read)
    } else {
        None
    }
}

/// The method and signature part of a symbol: the text behind its last dot.
pub open spec fn member_part(symbol: Seq<char>) -> Option<Seq<char>> {
    match last_occurrence(symbol, "."@) {
        Some(at) => Some(symbol.skip(at + 1)),
        None => None,
    }
}

/// The owner part of a symbol: the text before its last dot.
pub open spec fn owner_part(symbol: Seq<char>) -> Option<Seq<char>> {
    match last_occurrence(symbol, "."@) {
        Some(at) => Some(symbol.take(at)),
        None => None,
    }
}

/// The text behind the last dot.
pub fn member_of(symbol: &str) -> (r: Option<String>)
    ensures
        opt_string_view(r) == member_part(symbol@),
{
    match find_last(symbol, ".") {
        Some(at) => {
            let n: usize = symbol.unicode_len();
            proof {
                reveal_strlit(".");
                assert("."@.len() == 1);
            }
            let rest: &str = symbol.substring_char(at + 1, n);
            assert(rest@ =~= symbol@.skip(at + 1));
            Some(rest.to_owned())
        },
        None => None,
    }
}

/// The text before the last dot.
pub fn owner_of(symbol: &str) -> (r: Option<String>)
    ensures
        opt_string_view(r) == owner_part(symbol@),
{
    match find_last(symbol, ".") {
        Some(at) => {
            let head: &str = symbol.substring_char(0, at);
            assert(head@ =~= symbol@.take(at as int));
            Some(head.to_owned())
        },
        None => None,
    }
}

/// A method symbol with its receiver replaced.
pub open spec fn retargeted(symbol: Seq<char>, owner: Seq<char>) -> Option<Seq<char>> {
    match member_part(symbol) {
        Some(member) => Some(owner + "."@ + member),
        None => None,
    }
}

/// Retargets a selected method symbol to the concrete runtime type while keeping
/// the exact selected method and signature.
pub fn retarget_method_symbol(symbol: &str, owner: &str) -> (r: Option<String>)
    ensures
        opt_string_view(r) == retargeted(symbol@, owner@),
{
    match member_of(symbol) {
        Some(member) => Some(cat3(owner, ".", &member)),
        None => None,
    }
}

/// A symbol has a member exactly where it has a dot, and no dot is in the member.
proof fn lemma_member_part(symbol: Seq<char>)
    ensures
        member_part(symbol) is Some <==> exists|i: int| 0 <= i < symbol.len() && #[trigger] symbol[i] == '.',
        member_part(symbol) matches Some(member) ==> forall|i: int| 0 <= i < member.len() ==> #[trigger] member[i] != '.',
{
    reveal_strlit(".");
    if exists|i: int| 0 <= i < symbol.len() && #[trigger] symbol[i] == '.' {
        let i = choose|i: int| 0 <= i < symbol.len() && #[trigger] symbol[i] == '.';
        assert(symbol.subrange(i, i + 1) =~= "."@);
        lemma_occurs_last(symbol, "."@, i);
        let at = last_occurrence(symbol, "."@)->Some_0;
        let member = symbol.skip(at + 1);
        assert forall|k: int| 0 <= k < member.len() implies #[trigger] member[k] != '.' by {
            if member[k] == '.' {
                let j = at + 1 + k;
                assert(symbol[j] == '.');
                assert(symbol.subrange(j, j + 1) =~= "."@);
                assert(occurs_at(symbol, "."@, j));
            }
        }
    } else {
        assert forall|k: int| !occurs_at(symbol, "."@, k) by {
            if occurs_at(symbol, "."@, k) {
                assert(symbol.subrange(k, k + 1)[0] == '.');
                assert(symbol[k] == '.');
            }
        }
        reveal(last_occurrence);
    }
}

/// A symbol can be retargeted exactly where it has a dot, and retargeting twice is
/// retargeting once.
pub proof fn law_retarget(symbol: Seq<char>, first: Seq<char>, second: Seq<char>)
    ensures
        retargeted(symbol, first) is Some <==> exists|i: int| 0 <= i < symbol.len() && #[trigger] symbol[i] == '.',
        retargeted(symbol, first) matches Some(moved) ==> retargeted(moved, second) == retargeted(symbol, second),
{
    lemma_member_part(symbol);
    if let Some(member) = member_part(symbol) {
        lemma_member_behind(first, member);
    }
}

/// The member behind an owner and a dot, where it holds no dot itself.
proof fn lemma_member_behind(owner: Seq<char>, member: Seq<char>)
    requires
        forall|i: int| 0 <= i < member.len() ==> #[trigger] member[i] != '.',
    ensures
        member_part(owner + "."@ + member) == Some(member),
{
    reveal_strlit(".");
    let symbol = owner + "."@ + member;
    let at = owner.len() as int;
    assert(symbol.subrange(at, at + 1) =~= "."@);
    assert forall|k: int| at < k implies !occurs_at(symbol, "."@, k) by {
        if occurs_at(symbol, "."@, k) {
            assert(symbol.subrange(k, k + 1)[0] == '.');
            assert(symbol[k] == member[k - at - 1]);
        }
    }
    lemma_last_occurrence(symbol, "."@, at);
    assert(symbol.skip(at + 1) =~= member);
}

/// Whether a symbol is a signature-qualified overload of a source name.
pub open spec fn overload_of(symbol: Seq<char>, base: Seq<char>) -> bool {
    occurs_at(symbol, base, 0) && occurs_at(symbol, "$ov$"@, base.len() as int)
}

/// Whether `symbol` is a signature-qualified overload of source name `base`.
pub fn is_overload_of(symbol: &str, base: &str) -> (r: bool)
    ensures
        r == overload_of(symbol@, base@),
{
    let s: Vec<char> = chars_of(symbol);
    let b: Vec<char> = chars_of(base);
    chars_at(&s, &b, 0) && chars_at(&s, &chars_of("$ov$"), b.len())
}

/// Whether a resolved method symbol denotes the index normalization hook.
pub fn is_index_normalization_symbol(symbol: &str) -> (r: bool)
    ensures
        r == (match member_part(symbol@) {
            Some(member) => member == "__mlir_index__"@ || overload_of(member, "__mlir_index__"@),
            None => false,
        }),
{
    match member_of(symbol) {
        Some(member) => str_eq(&member, "__mlir_index__") || is_overload_of(&member, "__mlir_index__"),
        None => false,
    }
}

/// A function symbol is an overload of its base.
pub proof fn law_function_symbol_is_overload(base: Seq<char>, sig: SignatureModel)
    ensures
        overload_of(base + signature_suffix(sig), base),
{
    let suffix = signature_suffix(sig);
    let symbol = base + suffix;
    reveal_strlit("$ov$");
    assert(symbol.subrange(0, base.len() as int) =~= base);
    let rest = suffix.skip(4);
    assert(suffix.subrange(0, 4) =~= "$ov$"@);
    assert(symbol.subrange(base.len() as int, base.len() as int + 4) =~= "$ov$"@);
}

/// If `symbol` is a signature-qualified `__init__` overload, the struct it
/// constructs.
pub fn init_overload_struct(symbol: &str) -> (r: Option<String>)
    ensures
        opt_string_view(r) == init_owner(symbol@),
{
    match find_last(symbol, ".__init__") {
        Some(at) => {
            let n: usize = symbol.unicode_len();
            let tail: Vec<char> = chars_of(".__init__");
            assert(at + tail@.len() <= n);
            let behind: usize = at + tail.len();
            if chars_at(&chars_of(symbol), &chars_of("$ov$"), behind) {
                let head: &str = symbol.substring_char(0, at);
                assert(head@ =~= symbol@.take(at as int));
                Some(head.to_owned())
            } else {
                None
            }
        },
        None => None,
    }
}

/// The struct that a signature-qualified `__init__` overload constructs.
pub open spec fn init_owner(symbol: Seq<char>) -> Option<Seq<char>> {
    match last_occurrence(symbol, ".__init__"@) {
        Some(at) => if occurs_at(
            symbol,
            "$ov$"@,
            at + ".__init__"@.len(),
        ) { Some(symbol.take(at)) } else { None },
        None => None,
    }
}

/// Whether a text holds no `.__init__`.
pub open spec fn without_init(text: Seq<char>) -> bool {
    forall|at: int| !#[trigger] occurs_at(text, ".__init__"@, at)
}

/// Whether the parts of a signature hold no `.__init__`.
pub open spec fn plain_signature(sig: SignatureModel) -> bool {
    &&& forall|i: int| 0 <= i < sig.types.len() ==> without_init(#[trigger] sig.types[i])
    &&& sig.kw_variadic matches Some(key) ==> without_init(key)
    &&& forall|i: int| 0 <= i < sig.keywords.len() ==> without_init(#[trigger] sig.keywords[i])
}

/// The key of a type holds no `.__init__`, nor any dot.
pub proof fn law_keys_are_plain(raw: Seq<char>)
    ensures
        without_init(sanitized(raw)),
        forall|i: int| 0 <= i < sanitized(raw).len() ==> #[trigger] sanitized(raw)[i] != '.',
{
    let key = sanitized(raw);
    reveal_strlit(".__init__");
    assert forall|at: int| !#[trigger] occurs_at(key, ".__init__"@, at) by {
        if occurs_at(key, ".__init__"@, at) {
            assert(key.subrange(at, at + 9)[0] == '.');
            assert(key[at] == '.');
        }
    }
}

/// Two texts that hold no `.__init__` hold none together, where a `$` parts them.
proof fn lemma_without_init(a: Seq<char>, b: Seq<char>)
    requires
        without_init(a),
        without_init(b),
        (b.len() > 0 && b[0] == '$') || (a.len() > 0 && a.last() == '$') || b.len() == 0,
    ensures
        without_init(a + b),
{
    reveal_strlit(".__init__");
    let whole = a + b;
    let part = ".__init__"@;
    assert forall|at: int| !#[trigger] occurs_at(whole, part, at) by {
        if occurs_at(whole, part, at) {
            let here = whole.subrange(at, at + 9);
            if at + 9 <= a.len() {
                assert(a.subrange(at, at + 9) =~= here);
                assert(occurs_at(a, part, at));
            } else if at >= a.len() {
                assert(b.subrange(at - a.len(), at - a.len() + 9) =~= here);
                assert(occurs_at(b, part, at - a.len()));
            } else if b[0] == '$' {
                assert(here[a.len() - at] == whole[a.len() as int]);
                assert(whole[a.len() as int] == '$');
            } else {
                assert(here[a.len() - 1 - at] == whole[a.len() - 1]);
                assert(whole[a.len() - 1] == '$');
            }
        }
    }
}

proof fn lemma_joined_without_init(parts: Seq<Seq<char>>)
    requires
        forall|i: int| 0 <= i < parts.len() ==> without_init(#[trigger] parts[i]),
    ensures
        without_init(join(parts, "$"@)),
    decreases parts.len(),
{
    reveal_strlit(".__init__");
    reveal_strlit("$");
    if parts.len() > 1 {
        let shorter = parts.drop_last();
        assert forall|i: int| 0 <= i < shorter.len() implies without_init(#[trigger] shorter[i]) by {
            assert(without_init(parts[i]));
        }
        lemma_joined_without_init(shorter);
        lemma_without_init(join(shorter, "$"@), "$"@);
        lemma_without_init(join(shorter, "$"@) + "$"@, parts.last());
    }
}

proof fn lemma_suffix_without_init(sig: SignatureModel)
    requires
        plain_signature(sig),
    ensures
        without_init(signature_suffix(sig)),
        signature_suffix(sig).len() >= 4,
        signature_suffix(sig).subrange(0, 4) == "$ov$"@,
{
    reveal_strlit(".__init__");
    reveal_strlit("$ov$");
    reveal_strlit("$kwv$");
    reveal_strlit("$kw$");
    lemma_joined_without_init(sig.types);
    lemma_joined_without_init(sig.keywords);
    let head = "$ov$"@ + join(sig.types, "$"@);
    assert("$ov$"@.last() == '$');
    assert("$kwv$"@.last() == '$');
    assert("$kw$"@.last() == '$');
    lemma_without_init("$ov$"@, join(sig.types, "$"@));
    let middle = match sig.kw_variadic {
        Some(key) => "$kwv$"@ + key,
        None => Seq::empty(),
    };
    if let Some(key) = sig.kw_variadic {
        lemma_without_init("$kwv$"@, key);
    }
    lemma_without_init(head, middle);
    let end = if sig.keywords.len() > 0 { "$kw$"@ + join(sig.keywords, "$"@) } else { Seq::empty() };
    if sig.keywords.len() > 0 {
        lemma_without_init("$kw$"@, join(sig.keywords, "$"@));
    }
    lemma_without_init(head + middle, end);
    assert(signature_suffix(sig) == head + middle + end);
    assert(signature_suffix(sig).subrange(0, 4) =~= "$ov$"@);
}

proof fn lemma_init_dots()
    ensures
        ".__init__"@.len() == 9,
        ".__init__"@[0] == '.',
        forall|j: int| 0 < j < 9 ==> #[trigger] ".__init__"@[j] != '.',
{
    reveal_strlit(".__init__");
}

/// A part that holds a dot only at its start does not occur behind its place, where
/// it is not in what follows.
proof fn lemma_no_later(owner: Seq<char>, part: Seq<char>, rest: Seq<char>, k: int)
    requires
        part.len() > 0,
        part[0] == '.',
        forall|j: int| 0 < j < part.len() ==> #[trigger] part[j] != '.',
        forall|at: int| !#[trigger] occurs_at(rest, part, at),
        owner.len() < k,
    ensures
        !occurs_at(owner + part + rest, part, k),
{
    let symbol = owner + part + rest;
    if occurs_at(symbol, part, k) {
        let here = symbol.subrange(k, k + part.len());
        assert(here[0] == symbol[k]);
        let from = owner.len() + part.len();
        if k < from {
            assert(symbol[k] == part[k - owner.len()]);
        } else {
            assert(rest.subrange(k - from, k - from + part.len()) =~= here);
            assert(occurs_at(rest, part, k - from));
        }
    }
}

proof fn lemma_last_init(owner: Seq<char>, rest: Seq<char>)
    requires
        without_init(rest),
    ensures
        last_occurrence(owner + ".__init__"@ + rest, ".__init__"@) == Some(owner.len() as int),
{
    lemma_init_dots();
    let part = ".__init__"@;
    let symbol = owner + part + rest;
    let at = owner.len() as int;
    assert(symbol.subrange(at, at + part.len()) =~= part);
    assert forall|k: int| at < k implies !occurs_at(symbol, part, k) by {
        lemma_no_later(owner, part, rest, k);
    }
    lemma_last_occurrence(symbol, part, at);
}

/// The struct that a qualified `__init__` symbol constructs is its owner; an
/// unqualified one names none.
pub proof fn law_init_overload_struct(owner: Seq<char>, sig: SignatureModel)
    requires
        plain_signature(sig),
    ensures
        init_owner(method_name(owner, "__init__"@, sig)) == Some(owner),
        init_owner(owner + ".__init__"@) is None,
{
    reveal_strlit(".");
    reveal_strlit("__init__");
    reveal_strlit(".__init__");
    reveal_strlit("$ov$");
    assert("."@ + "__init__"@ =~= ".__init__"@);
    let suffix = signature_suffix(sig);
    lemma_suffix_without_init(sig);
    let symbol = method_name(owner, "__init__"@, sig);
    assert(symbol =~= owner + ".__init__"@ + suffix);
    assert(suffix.subrange(0, 4)[0] == suffix[0]);
    lemma_last_init(owner, suffix);
    let at = owner.len() as int;
    assert(symbol.subrange(at + 9, at + 13) =~= suffix.subrange(0, 4));
    assert(symbol.take(at) =~= owner);
    let none = Seq::<char>::empty();
    lemma_last_init(owner, none);
    assert(owner + ".__init__"@ + none =~= owner + ".__init__"@);
}

/// Only a symbol that holds `.__init__$ov$` constructs a struct.
pub proof fn law_init_overload_is_qualified(symbol: Seq<char>)
    requires
        init_owner(symbol) is Some,
    ensures
        exists|at: int| occurs_at(symbol, ".__init__$ov$"@, at),
{
    reveal_strlit(".__init__");
    reveal_strlit("$ov$");
    reveal_strlit(".__init__$ov$");
    let part = ".__init__"@;
    assert(exists|at: int| occurs_at(symbol, part, at)) by {
        reveal(last_occurrence);
    }
    let some = choose|at: int| occurs_at(symbol, part, at);
    lemma_occurs_last(symbol, part, some);
    let at = last_occurrence(symbol, part)->Some_0;
    let whole = symbol.subrange(at, at + 13);
    assert forall|i: int| 0 <= i < 13 implies whole[i] == ".__init__$ov$"@[i] by {
        if i < 9 {
            assert(whole[i] == symbol.subrange(at, at + 9)[i]);
        } else {
            assert(whole[i] == symbol.subrange(at + 9, at + 13)[i - 9]);
        }
    }
    assert(whole =~= ".__init__$ov$"@);
    assert(occurs_at(symbol, ".__init__$ov$"@, at));
}

/// The lifted name of a nested `def`.
pub fn nested_lifted_name(outer: &str, inner: &str) -> (r: String)
    ensures
        r@ == outer@ + "$"@ + inner@,
{
    cat3(outer, "$", inner)
}

/// Stable identity of a checked declaration.
#[derive(Debug, Clone, Copy, PartialEq, Eq, Structural)]
pub struct CheckedDeclId(pub u32);

/// A same-spelled nested declaration's lifted name: the declaration identity tells
/// it apart.
pub fn nested_lifted_declaration_name(outer: &str, inner: &str, declaration: CheckedDeclId) -> (r: String)
    ensures
        r@ == outer@ + "$"@ + inner@ + "$decl"@ + dec(declaration.0 as nat),
{
    cat5(outer, "$", inner, "$decl", &dec_text(declaration.0 as u64))
}

/// A poison name for an overloaded call without a recorded target: it can never
/// name a real function.
pub fn unresolved_overload_marker(name: &str, argc: usize) -> (r: String)
    ensures
        r@ == name@ + "#"@ + dec(argc as nat),
{
    cat3(name, "#", &dec_text_usize(argc))
}

/// The shape shared by the copy and move constructors: `__init__(out self, *, NAME:
/// Self)`.
pub open spec fn lifecycle_shape(m: MethodModel, name: Seq<char>, convention: Option<ArgConvention>) -> bool {
    &&& m.name == "__init__"@
    &&& m.has_self
    &&& m.self_convention == Some(ArgConvention::Out)
    &&& m.positional_only is None
    &&& m.keyword_only == Some(0usize)
    &&& m.params.len() == 1
    &&& m.params[0].name == name
    &&& m.params[0].default is None
    &&& m.params[0].kind is Regular
    &&& m.params[0].convention == convention
    &&& m.params[0].ty is SelfType
    &&& m.ret is None
}

fn has_lifecycle_shape(m: &Method, name: &str, convention: Option<ArgConvention>) -> (r: bool)
    ensures
        r == lifecycle_shape(m@, name@, convention),
{
    assert(m@.params.len() == m.params@.len());
    if !(str_eq(&m.name, "__init__") && m.has_self && m.self_convention == Some(ArgConvention::Out)
        && m.positional_only.is_none()
            && m.keyword_only == Some(0usize)
            && m.params.len() == 1
            && m.ret.is_none()) {
        return false;
    }
    let p: &FnParam = &m.params[0];
    assert(m@.params[0] == p@);
    let self_typed: bool = match &p.ty {
        Type::SelfType => true,
        _ => false,
    };
    str_eq(&p.name, name)
        && p.default.is_none()
        && p.kind == ParamKind::Regular
        && p.convention == convention
        && self_typed
}

/// The name a method is registered and counted under: the copy and move
/// constructors are `__init__` overloads of a certain shape.
pub open spec fn registered_name(m: MethodModel) -> Seq<char> {
    if lifecycle_shape(m, "copy"@, None) {
        "__copyinit__"@
    } else if lifecycle_shape(m, "move"@, Some(ArgConvention::Deinit)) {
        "__moveinit__"@
    } else {
        m.name
    }
}

/// The name a method is registered and counted under.
pub fn lifecycle_method_name(m: &Method) -> (r: String)
    ensures
        r@ == registered_name(m@),
{
    if has_lifecycle_shape(m, "copy", None) {
        "__copyinit__".to_owned()
    } else if has_lifecycle_shape(m, "move", Some(ArgConvention::Deinit)) {
        "__moveinit__".to_owned()
    } else {
        m.name.clone()
    }
}

/// The parameter counts of definitions by name, in source order.
pub open spec fn count_definition(counts: Map<Seq<char>, Seq<usize>>, name: Seq<char>, arity: usize) -> Map<
    Seq<char>,
    Seq<usize>,
> {
    if counts.dom().contains(name) {
        counts.insert(name, counts[name].push(arity))
    } else {
        counts.insert(name, seq![arity])
    }
}

/// The methods of a struct, counted under `Type.method`.
pub open spec fn count_methods(
    counts: Map<Seq<char>, Seq<usize>>,
    owner: Seq<char>,
    methods: Seq<MethodModel>,
) -> Map<
    Seq<char>,
    Seq<usize>,
>
    decreases methods.len(),
{
    if methods.len() == 0 {
        counts
    } else {
        count_definition(
            count_methods(counts, owner, methods.drop_last()),
            owner + "."@ + registered_name(methods.last()),
            methods.last().params.len() as usize,
        )
    }
}

/// The overloaded declarations of a program.
#[verifier::ext_equal]
pub struct SetsModel {
    pub functions: Map<Seq<char>, Seq<usize>>,
    pub methods: Map<Seq<char>, Seq<usize>>,
    pub comptimes: Map<Seq<char>, i64>,
}

/// The declarations after one more statement. A constant that does not evaluate
/// is not recorded.
pub open spec fn scan_stmt(stmt: StmtModel, s: SetsModel) -> SetsModel {
    match stmt.kind {
        StmtKindModel::Comptime { name, value, .. } => match comptime_int(value, s.comptimes) {
            Some(v) => SetsModel { comptimes: s.comptimes.insert(name, v), ..s },
            None => s,
        },
        StmtKindModel::Def { name, params, .. } => SetsModel {
            functions: count_definition(s.functions, name, params.len() as usize),
            ..s
        },
        StmtKindModel::Struct { name, methods, .. } => SetsModel {
            methods: count_methods(s.methods, name, methods),
            ..s
        },
        _ => s,
    }
}

/// The declarations of a program's top level.
pub open spec fn scan_program(program: Seq<StmtModel>) -> SetsModel
    decreases program.len(),
{
    if program.len() == 0 {
        SetsModel { functions: Map::empty(), methods: Map::empty(), comptimes: Map::empty() }
    } else {
        scan_stmt(program.last(), scan_program(program.drop_last()))
    }
}

/// Whether a name has more than one definition, one of them of this arity.
pub open spec fn overloaded(counts: Map<Seq<char>, Seq<usize>>, name: Seq<char>, arity: usize) -> bool {
    counts.dom().contains(name) && counts[name].len() > 1 && counts[name].contains(arity)
}

/// The overloaded declarations of a program, scanned from its top level:
/// definitions of names that are not overloaded keep their plain source name.
#[derive(Debug)]
pub struct OverloadSets {
    pub functions: NameMap<Vec<usize>>,
    pub methods: NameMap<Vec<usize>>,
    pub comptimes: NameMap<i64>,
}

/// The model of parameter counts.
pub open spec fn counts_view(counts: Map<Seq<char>, Vec<usize>>) -> Map<Seq<char>, Seq<usize>> {
    counts.map_values(|v: Vec<usize>| v@)
}

impl View for OverloadSets {
    type V = SetsModel;

    open spec fn view(&self) -> SetsModel {
        SetsModel {
            functions: counts_view(self.functions@),
            methods: counts_view(self.methods@),
            comptimes: self.comptimes@,
        }
    }
}

fn add_definition(counts: &mut NameMap<Vec<usize>>, name: String, arity: usize)
    ensures
        counts_view(final(counts)@) == count_definition(counts_view(old(counts)@), name@, arity),
{
    let mut arities: Vec<usize> = match counts.get(&name) {
        Some(known) => copy_usizes(known),
        None => Vec::new(),
    };
    let ghost before = arities@;
    arities.push(arity);
    assert(before.len() == 0 ==> before.push(arity) =~= seq![arity]);
    counts.insert(name, arities);
    assert(counts_view(counts@) =~= count_definition(counts_view(old(counts)@), name@, arity));
}

fn is_overloaded(counts: &NameMap<Vec<usize>>, name: &str, arity: usize) -> (r: bool)
    ensures
        r == overloaded(counts_view(counts@), name@, arity),
{
    match counts.get(name) {
        None => false,
        Some(arities) => arities.len() > 1 && has_arity(arities, arity),
    }
}

fn has_arity(arities: &Vec<usize>, arity: usize) -> (r: bool)
    ensures
        r == arities@.contains(arity),
{
    for i in 0..arities.len()
        invariant
            forall|j: int| 0 <= j < i ==> arities@[j] != arity,
    {
        if arities[i] == arity {
            return true;
        }
    }
    false
}

impl OverloadSets {
    /// Scans the top level of a program.
    pub fn scan(program: &Vec<Stmt>) -> (r: OverloadSets)
        ensures
            r@ == scan_program(stmts_view(*program)),
    {
        let mut sets: OverloadSets = OverloadSets {
            functions: NameMap::new(),
            methods: NameMap::new(),
            comptimes: NameMap::new(),
        };
        let ghost model = stmts_view(*program);
        assert(sets@ =~~= scan_program(model.take(0)));
        for i in 0..program.len()
            invariant
                model == stmts_view(*program),
                sets@ == scan_program(model.take(i as int)),
        {
            assert(model.take(i + 1).drop_last() =~= model.take(i as int));
            assert(model[i as int] == program@[i as int]@);
            let stmt: &Stmt = &program[i];
            assert(stmt@.kind == stmt_kind_view(stmt.kind));
            match &stmt.kind {
                StmtKind::Comptime { name, value, .. } => {
                    if let Some(v) = eval_comptime_int(value, &sets.comptimes) {
                        sets.comptimes.insert(name.clone(), v);
                    }
                },
                StmtKind::Def { name, params, .. } => {
                    assert(fn_params_view(*params).len() == params@.len());
                    add_definition(&mut sets.functions, name.clone(), params.len());
                },
                StmtKind::Struct { name, methods, .. } => {
                    sets.add_methods(name, methods);
                },
                _ => {},
            }
        }
        assert(model.take(model.len() as int) =~= model);
        sets
    }

    fn add_methods(&mut self, owner: &String, methods: &Vec<Method>)
        ensures
            final(self)@ == (SetsModel {
                methods: count_methods(old(self)@.methods, owner@, methods_view(*methods)),
                ..old(self)@
            }),
    {
        let ghost start = self@;
        let ghost model = methods_view(*methods);
        for k in 0..methods.len()
            invariant
                model == methods_view(*methods),
                self@ == (SetsModel { methods: count_methods(start.methods, owner@, model.take(k as int)), ..start }),
        {
            assert(model.take(k + 1).drop_last() =~= model.take(k as int));
            assert(model[k as int] == methods@[k as int]@);
            let name: String = lifecycle_method_name(&methods[k]);
            assert(fn_params_view(methods@[k as int].params).len() == methods@[k as int].params@.len());
            add_definition(&mut self.methods, cat3(owner, ".", &name), methods[k].params.len());
        }
        assert(model.take(model.len() as int) =~= model);
    }

    /// Whether free function `name` is overloaded and defines arity `arity`.
    pub fn function_is_overloaded(&self, name: &str, arity: usize) -> (r: bool)
        ensures
            r == overloaded(self@.functions, name@, arity),
    {
        is_overloaded(&self.functions, name, arity)
    }

    /// Whether `name` denotes any free-function declaration.
    pub fn is_function(&self, name: &str) -> (r: bool)
        ensures
            r == self@.functions.dom().contains(name@),
    {
        self.functions.contains_key(name)
    }

    /// Whether method `source_name` (`Type.method`) is overloaded and defines
    /// arity `arity`.
    pub fn method_is_overloaded(&self, source_name: &str, arity: usize) -> (r: bool)
        ensures
            r == overloaded(self@.methods, source_name@, arity),
    {
        is_overloaded(&self.methods, source_name, arity)
    }
}

/// The bounds that type parameters declare.
pub open spec fn declared_bounds(type_params: Seq<TypeParamModel>) -> Map<Seq<char>, Seq<Seq<char>>>
    decreases type_params.len(),
{
    if type_params.len() == 0 {
        Map::empty()
    } else {
        declared_bounds(type_params.drop_last()).insert(type_params.last().name, type_params.last().bounds)
    }
}

fn type_bounds_of(type_params: &Vec<TypeParam>) -> (r: NameMap<Vec<String>>)
    ensures
        bounds_view(r@) == declared_bounds(type_params_view(*type_params)),
{
    let mut bounds: NameMap<Vec<String>> = NameMap::new();
    let ghost model = type_params_view(*type_params);
    assert(bounds_view(bounds@) =~= declared_bounds(model.take(0)));
    for i in 0..type_params.len()
        invariant
            model == type_params_view(*type_params),
            bounds_view(bounds@) == declared_bounds(model.take(i as int)),
    {
        assert(model.take(i + 1).drop_last() =~= model.take(i as int));
        assert(model[i as int] == type_params@[i as int]@);
        let ghost before = bounds@;
        let copied: Vec<String> = copy_strings(&type_params[i].bounds);
        bounds.insert(type_params[i].name.clone(), copied);
        assert(
            bounds_view(bounds@) =~= bounds_view(before).insert(model[i as int].name, model[i as int].bounds)
        );
    }
    assert(model.take(model.len() as int) =~= model);
    bounds
}

/// The name a top-level `def` lowers to.
pub open spec fn lowered_def(
    name: Seq<char>,
    type_params: Seq<TypeParamModel>,
    params: Seq<FnParamModel>,
    sets: SetsModel,
) -> Seq<char> {
    if overloaded(sets.functions, name, params.len() as usize) {
        name + signature_suffix(declared_signature(params, sets.comptimes, declared_bounds(type_params)))
    } else {
        name
    }
}

/// The name a top-level `def` lowers to: signature-qualified when the name is
/// overloaded, the plain source name otherwise.
pub fn lowered_def_name(
    name: &str,
    type_params: &Vec<TypeParam>,
    params: &Vec<FnParam>,
    sets: &OverloadSets,
) -> (r: String)
    ensures
        r@ == lowered_def(name@, type_params_view(*type_params), fn_params_view(*params), sets@),
{
    assert(fn_params_view(*params).len() == params@.len());
    if sets.function_is_overloaded(name, params.len()) {
        function_symbol(name, &signature_with(params, &sets.comptimes, &type_bounds_of(type_params)))
    } else {
        name.to_owned()
    }
}

/// The position of the first variadic collector.
pub open spec fn variadic_position(params: Seq<FnParamModel>) -> Option<nat>
    decreases params.len(),
{
    if params.len() == 0 {
        None
    } else {
        match variadic_position(params.drop_last()) {
            Some(i) => Some(i),
            None => if params.last().kind is Variadic { Some((params.len() - 1) as nat) } else { None },
        }
    }
}

/// Where the keyword-only parameters begin: behind a `*` marker or a variadic
/// collector, whichever comes first.
pub open spec fn keyword_boundary(params: Seq<FnParamModel>, marker: Option<usize>) -> Option<nat> {
    match (marker, variadic_position(params)) {
        (Some(m), Some(v)) => if m < v + 1 { Some(m as nat) } else { Some(v + 1) },
        (Some(m), None) => Some(m as nat),
        (None, Some(v)) => Some(v + 1),
        (None, None) => None,
    }
}

/// The names of parameters from a position on that are no collectors.
pub open spec fn plain_names(params: Seq<FnParamModel>, from: nat) -> Seq<Seq<char>>
    decreases params.len(),
{
    if params.len() <= from {
        Seq::empty()
    } else {
        let before = plain_names(params.drop_last(), from);
        if params.last().kind is Regular { before.push(params.last().name) } else { before }
    }
}

/// The names of the keyword-only parameters.
pub open spec fn keyword_names(params: Seq<FnParamModel>, marker: Option<usize>) -> Seq<Seq<char>> {
    match keyword_boundary(params, marker) {
        Some(from) => plain_names(params, from),
        None => Seq::empty(),
    }
}

fn keyword_only_names(params: &Vec<FnParam>, keyword_only: Option<usize>) -> (r: Vec<String>)
    ensures
        strings_view(r) == keyword_names(fn_params_view(*params), keyword_only),
{
    let ghost model = fn_params_view(*params);
    let mut variadic: Option<usize> = None;
    for i in 0..params.len()
        invariant
            model == fn_params_view(*params),
            match variadic {
                Some(v) => variadic_position(model.take(i as int)) == Some(v as nat) && v < i,
                None => variadic_position(model.take(i as int)) is None,
            },
    {
        assert(model.take(i + 1).drop_last() =~= model.take(i as int));
        assert(model[i as int] == params@[i as int]@);
        if variadic.is_none() && params[i].kind == ParamKind::Variadic {
            variadic = Some(i);
        }
    }
    assert(model.take(model.len() as int) =~= model);
    let boundary: usize = match (keyword_only, variadic) {
        (Some(marker), Some(v)) => if marker < v + 1 { marker } else { v + 1 },
        (Some(marker), None) => marker,
        (None, Some(v)) => v + 1,
        (None, None) => {
            let none: Vec<String> = Vec::new();
            assert(strings_view(none) =~= Seq::<Seq<char>>::empty());
            return none;
        },
    };
    let mut names: Vec<String> = Vec::new();
    assert(strings_view(names) =~= Seq::<Seq<char>>::empty());
    for i in 0..params.len()
        invariant
            model == fn_params_view(*params),
            strings_view(names) == plain_names(model.take(i as int), boundary as nat),
    {
        assert(model.take(i + 1).drop_last() =~= model.take(i as int));
        assert(model[i as int] == params@[i as int]@);
        if i >= boundary && params[i].kind == ParamKind::Regular {
            let ghost before = strings_view(names);
            names.push(params[i].name.clone());
            assert(strings_view(names) =~= before.push(params@[i as int].name@));
        }
    }
    assert(model.take(model.len() as int) =~= model);
    names
}

/// The name a struct method lowers to.
pub open spec fn lowered_method(
    source_name: Seq<char>,
    type_params: Seq<TypeParamModel>,
    params: Seq<FnParamModel>,
    keyword_only: Option<usize>,
    self_convention: Option<ArgConvention>,
    sets: SetsModel,
) -> Seq<char> {
    let sig = SignatureModel {
        keywords: keyword_names(params, keyword_only),
        ..declared_signature(params, sets.comptimes, declared_bounds(type_params))
    };
    let at = source_name.len() - ".__iter__"@.len();
    if !overloaded(sets.methods, source_name, params.len() as usize) {
        source_name
    } else if occurs_at(source_name, ".__iter__"@, at) {
        method_name(source_name.take(at), "__iter__"@, received(sig, self_convention))
    } else {
        source_name + signature_suffix(sig)
    }
}

/// The name a struct method lowers to, from its joined source name
/// (`Type.method`): signature-qualified when overloaded, unchanged otherwise.
pub fn lowered_method_name(
    source_name: &str,
    type_params: &Vec<TypeParam>,
    params: &Vec<FnParam>,
    keyword_only: Option<usize>,
    self_convention: Option<ArgConvention>,
    sets: &OverloadSets,
) -> (r: String)
    ensures
        r@ == lowered_method(
            source_name@,
            type_params_view(*type_params),
            fn_params_view(*params),
            keyword_only,
            self_convention,
            sets@,
        ),
{
    assert(fn_params_view(*params).len() == params@.len());
    if !sets.method_is_overloaded(source_name, params.len()) {
        return source_name.to_owned();
    }
    let signature: SignatureKey = signature_with(params, &sets.comptimes, &type_bounds_of(type_params)).with_keyword_names(
        keyword_only_names(params, keyword_only),
    );
    if ends_with(source_name, ".__iter__") {
        let n: usize = source_name.unicode_len();
        let tail: Vec<char> = chars_of(".__iter__");
        let owner: &str = source_name.substring_char(0, n - tail.len());
        assert(owner@ =~= source_name@.take(n - tail@.len()));
        iterator_method_symbol(owner, self_convention, &signature)
    } else {
        cat2(source_name, &signature.suffix())
    }
}

/// A digit string in `base` spells one number.
proof fn lemma_digits(n: nat, m: nat, base: nat, upper: bool)
    requires
        2 <= base <= 16,
        digits(n, base, upper) == digits(m, base, upper),
    ensures
        n == m,
    decreases n,
{
    let a = digits(n, base, upper);
    let b = digits(m, base, upper);
    assert(a.last() == digit_char((n % base) as int, upper)) by {
        if n < base {
            vstd::arithmetic::div_mod::lemma_small_mod(n, base);
        }
    }
    assert(b.last() == digit_char((m % base) as int, upper)) by {
        if m < base {
            vstd::arithmetic::div_mod::lemma_small_mod(m, base);
        }
    }
    vstd::arithmetic::div_mod::lemma_mod_bound(n as int, base as int);
    vstd::arithmetic::div_mod::lemma_mod_bound(m as int, base as int);
    assert(n % base == m % base);
    vstd::arithmetic::div_mod::lemma_fundamental_div_mod(n as int, base as int);
    vstd::arithmetic::div_mod::lemma_fundamental_div_mod(m as int, base as int);
    if n >= base && m >= base {
        assert(digits(n / base, base, upper) =~= a.drop_last());
        assert(digits(m / base, base, upper) =~= b.drop_last());
        lemma_quotient_smaller(n, base);
        lemma_digits(n / base, m / base, base, upper);
    } else if n < base && m < base {
        vstd::arithmetic::div_mod::lemma_small_mod(n, base);
        vstd::arithmetic::div_mod::lemma_small_mod(m, base);
    } else if n < base {
        lemma_digits_len(m / base, base, upper);
    } else {
        lemma_digits_len(n / base, base, upper);
    }
}

proof fn lemma_digits_len(n: nat, base: nat, upper: bool)
    requires
        2 <= base <= 16,
    ensures
        digits(n, base, upper).len() >= 1,
        forall|i: int| 0 <= i < digits(n, base, upper).len() ==> is_alnum(
            #[trigger] digits(n, base, upper)[i]
        ),
    decreases n,
{
    let a = digits(n, base, upper);
    if n >= base {
        lemma_quotient_smaller(n, base);
        lemma_digits_len(n / base, base, upper);
        vstd::arithmetic::div_mod::lemma_mod_bound(n as int, base as int);
        let shorter = digits(n / base, base, upper);
        assert forall|i: int| 0 <= i < a.len() implies is_alnum(#[trigger] a[i]) by {
            if i < a.len() - 1 {
                assert(a[i] == shorter[i]);
            }
        }
    }
}

/// One encoded character cannot start another, and tells its character.
proof fn lemma_encode_head(a: char, x: Seq<char>, b: char, y: Seq<char>)
    requires
        encode_char(a) + x == encode_char(b) + y,
    ensures
        a == b,
        x == y,
{
    reveal_strlit("$u");
    reveal_strlit("$");
    let p = encode_char(a) + x;
    let q = encode_char(b) + y;
    assert(p[0] == encode_char(a)[0]);
    assert(q[0] == encode_char(b)[0]);
    if !is_alnum(a) {
        assert(!is_alnum(b));
        let da = digits(a as u32 as nat, 16, true);
        let db = digits(b as u32 as nat, 16, true);
        lemma_digits_len(a as u32 as nat, 16, true);
        lemma_digits_len(b as u32 as nat, 16, true);
        let ea = encode_char(a);
        let eb = encode_char(b);
        assert(forall|i: int| 0 <= i < da.len() ==> #[trigger] ea[i + 2] == da[i]);
        assert(forall|i: int| 0 <= i < db.len() ==> #[trigger] eb[i + 2] == db[i]);
        assert(ea[da.len() as int + 2] == '$');
        assert(eb[db.len() as int + 2] == '$');
        if da.len() < db.len() {
            assert(p[da.len() as int + 2] == ea[da.len() as int + 2]);
            assert(q[da.len() as int + 2] == eb[da.len() as int + 2]);
            assert(eb[da.len() as int + 2] == db[da.len() as int]);
        } else if db.len() < da.len() {
            assert(p[db.len() as int + 2] == ea[db.len() as int + 2]);
            assert(q[db.len() as int + 2] == eb[db.len() as int + 2]);
            assert(ea[db.len() as int + 2] == da[db.len() as int]);
        }
        assert forall|i: int| 0 <= i < da.len() implies da[i] == db[i] by {
            assert(p[i + 2] == ea[i + 2]);
            assert(q[i + 2] == eb[i + 2]);
        }
        assert(da =~= db);
        lemma_digits(a as u32 as nat, b as u32 as nat, 16, true);
    }
    assert(a == b);
    assert(x =~= p.skip(encode_char(a).len() as int));
    assert(y =~= q.skip(encode_char(b).len() as int));
}

proof fn lemma_encode_first(name: Seq<char>)
    requires
        name.len() > 0,
    ensures
        encode(name) == encode_char(name[0]) + encode(name.skip(1)),
{
    let parts = name.map_values(|c: char| encode_char(c));
    let rest = name.skip(1).map_values(|c: char| encode_char(c));
    assert(parts =~= seq![encode_char(name[0])] + rest);
    lemma_concat_add(seq![encode_char(name[0])], rest);
    lemma_concat_push(Seq::<Seq<char>>::empty(), encode_char(name[0]));
    assert(Seq::<Seq<char>>::empty().push(encode_char(name[0])) =~= seq![encode_char(name[0])]);
    assert(Seq::<char>::empty() + encode_char(name[0]) =~= encode_char(name[0]));
}

/// Identifier encoding is injective: names such as `A-B` and `A_B` cannot collide.
pub proof fn law_encode_injective(a: Seq<char>, b: Seq<char>)
    requires
        encode(a) == encode(b),
    ensures
        a == b,
    decreases a.len(),
{
    reveal_strlit("$u");
    if a.len() == 0 {
        if b.len() > 0 {
            lemma_encode_first(b);
            assert(encode(b).len() > 0);
        }
        assert(a.map_values(|c: char| encode_char(c)) =~= Seq::<Seq<char>>::empty());
        assert(a =~= b);
    } else if b.len() == 0 {
        lemma_encode_first(a);
        assert(encode(a).len() > 0);
        assert(b.map_values(|c: char| encode_char(c)) =~= Seq::<Seq<char>>::empty());
    } else {
        lemma_encode_first(a);
        lemma_encode_first(b);
        lemma_encode_head(a[0], encode(a.skip(1)), b[0], encode(b.skip(1)));
        law_encode_injective(a.skip(1), b.skip(1));
        assert(a =~= seq![a[0]] + a.skip(1));
        assert(b =~= seq![b[0]] + b.skip(1));
    }
}

/// Encoding leaves an ordinary ASCII identifier of letters and digits unchanged.
pub proof fn law_encode_keeps_plain(name: Seq<char>)
    requires
        forall|i: int| 0 <= i < name.len() ==> is_alnum(#[trigger] name[i]),
    ensures
        encode(name) == name,
    decreases name.len(),
{
    if name.len() > 0 {
        lemma_encode_first(name);
        assert forall|i: int| 0 <= i < name.skip(1).len() implies is_alnum(#[trigger] name.skip(1)[i]) by {
            assert(name.skip(1)[i] == name[i + 1]);
        }
        law_encode_keeps_plain(name.skip(1));
        assert(is_alnum(name[0]));
        assert(seq![name[0]] + name.skip(1) =~= name);
    } else {
        assert(name.map_values(|c: char| encode_char(c)) =~= Seq::<Seq<char>>::empty());
        assert(name =~= Seq::<char>::empty());
    }
}

} // verus!
