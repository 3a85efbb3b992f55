//! Type-level verification rules: compatibility, checked-type instantiation, and
//! iterator-result adapters.

use crate::checked::{CheckedIteratorCall, CheckedIteratorCallModel};
use crate::data::strings_view;
use crate::mir::{MirFunctionDeclaration, MirFunctionDeclarationModel};
use crate::mir::verify::{Checker, report, rule};
use crate::origin::{CallableEnvironment, CallableEnvironmentModel};
use crate::text::{cat2, cat4, str_eq};
use crate::types::{Ty, TyArg, TyArgModel, TyModel, opt_boxed_ty_view, ty_args_view, tys_view};
use vstd::prelude::*;

verus! {

/// Whether a type mentions a parameter that instantiation would replace.
pub open spec fn has_type_param(ty: TyModel) -> bool
    decreases ty,
{
    match ty {
        TyModel::Param { .. } => true,
        TyModel::Assoc { .. } => true,
        TyModel::Dependent(_) => true,
        TyModel::ComptimeList(inner) => has_type_param(*inner),
        TyModel::Pointer { element, .. } => has_type_param(*element),
        TyModel::Tuple(elements) => any_type_param(elements),
        TyModel::RuntimePack(elements) => any_type_param(elements),
        TyModel::Variant(elements) => any_type_param(elements),
        TyModel::Ref(reference) => has_type_param(*reference.referent),
        TyModel::Struct(_, args) => any_arg_type_param(args),
        TyModel::Func { params, ret, variadic, kw_variadic, error, .. } => {
            ||| any_type_param(params)
            ||| has_type_param(*ret)
            ||| (variadic is Some && has_type_param(*variadic->Some_0))
            ||| (kw_variadic is Some && has_type_param(*kw_variadic->Some_0))
            ||| (error is Some && has_type_param(*error->Some_0))
        },
        TyModel::GenericFunc { params, ret, variadic, kw_variadic, error, .. } => {
            ||| any_type_param(params)
            ||| has_type_param(*ret)
            ||| (variadic is Some && has_type_param(*variadic->Some_0))
            ||| (kw_variadic is Some && has_type_param(*kw_variadic->Some_0))
            ||| (error is Some && has_type_param(*error->Some_0))
        },
        _ => false,
    }
}

/// Whether one of the types mentions a parameter.
pub open spec fn any_type_param(tys: Seq<TyModel>) -> bool
    decreases tys,
{
    exists|i: int| 0 <= i < tys.len() && has_type_param(#[trigger] tys[i])
}

/// Whether one of the application arguments is a type that mentions a parameter.
pub open spec fn any_arg_type_param(args: Seq<TyArgModel>) -> bool
    decreases args,
{
    exists|i: int| 0 <= i < args.len() && (#[trigger] args[i] matches TyArgModel::Ty(ty) && has_type_param(ty))
}

/// Whether a type holds a runtime pack, which only the ABI may.
pub open spec fn has_runtime_pack(ty: TyModel) -> bool
    decreases ty,
{
    match ty {
        TyModel::RuntimePack(_) => true,
        TyModel::ComptimeList(inner) => has_runtime_pack(*inner),
        TyModel::Pointer { element, .. } => has_runtime_pack(*element),
        TyModel::Tuple(elements) => any_runtime_pack(elements),
        TyModel::Variant(elements) => any_runtime_pack(elements),
        TyModel::Overload(elements) => any_runtime_pack(elements),
        TyModel::Ref(reference) => has_runtime_pack(*reference.referent),
        TyModel::Struct(_, args) => any_arg_runtime_pack(args),
        TyModel::Assoc { base, .. } => has_runtime_pack(*base),
        TyModel::Func { params, ret, variadic, kw_variadic, error, .. } => {
            ||| any_runtime_pack(params)
            ||| has_runtime_pack(*ret)
            ||| (variadic is Some && has_runtime_pack(*variadic->Some_0))
            ||| (kw_variadic is Some && has_runtime_pack(*kw_variadic->Some_0))
            ||| (error is Some && has_runtime_pack(*error->Some_0))
        },
        TyModel::GenericFunc { params, ret, variadic, kw_variadic, error, .. } => {
            ||| any_runtime_pack(params)
            ||| has_runtime_pack(*ret)
            ||| (variadic is Some && has_runtime_pack(*variadic->Some_0))
            ||| (kw_variadic is Some && has_runtime_pack(*kw_variadic->Some_0))
            ||| (error is Some && has_runtime_pack(*error->Some_0))
        },
        _ => false,
    }
}

/// Whether one of the types holds a runtime pack.
pub open spec fn any_runtime_pack(tys: Seq<TyModel>) -> bool
    decreases tys,
{
    exists|i: int| 0 <= i < tys.len() && has_runtime_pack(#[trigger] tys[i])
}

/// Whether one of the application arguments is a type that holds a runtime pack.
pub open spec fn any_arg_runtime_pack(args: Seq<TyArgModel>) -> bool
    decreases args,
{
    exists|i: int| 0 <= i < args.len() && (#[trigger] args[i] matches TyArgModel::Ty(ty) && has_runtime_pack(ty))
}

fn any_contains_type_param(tys: &Vec<Ty>) -> (r: bool)
    ensures
        r == any_type_param(tys_view(*tys)),
    decreases tys,
{
    let ghost model = tys_view(*tys);
    for i in 0..tys.len()
        invariant
            model == tys_view(*tys),
            forall|j: int| 0 <= j < i ==> !has_type_param(#[trigger] model[j]),
    {
        if contains_type_param(&tys[i]) {
            assert(has_type_param(model[i as int]));
            return true;
        }
    }
    false
}

fn any_arg_contains_type_param(args: &Vec<TyArg>) -> (r: bool)
    ensures
        r == any_arg_type_param(ty_args_view(*args)),
    decreases args,
{
    let ghost model = ty_args_view(*args);
    for i in 0..args.len()
        invariant
            model == ty_args_view(*args),
            forall|j: int| 0 <= j < i ==> !(
                #[trigger] model[j] matches TyArgModel::Ty(ty) && has_type_param(ty)
            ),
    {
        if let TyArg::Ty(ty) = &args[i] {
            if contains_type_param(ty) {
                assert(model[i as int] == TyArgModel::Ty(ty@));
                return true;
            }
        }
    }
    false
}

fn opt_contains_type_param(ty: &Option<Box<Ty>>) -> (r: bool)
    ensures
        r == (opt_boxed_ty_view(*ty) is Some && has_type_param(*opt_boxed_ty_view(*ty)->Some_0)),
    decreases ty,
{
    match ty {
        Some(t) => contains_type_param(t),
        None => false,
    }
}

/// Whether a type mentions a parameter that instantiation would replace.
pub fn contains_type_param(ty: &Ty) -> (r: bool)
    ensures
        r == has_type_param(ty@),
    decreases ty,
{
    match ty {
        Ty::Param { .. } => true,
        Ty::Assoc { .. } => true,
        Ty::Dependent(_) => true,
        Ty::ComptimeList(inner) => contains_type_param(inner),
        Ty::Pointer { element, .. } => contains_type_param(element),
        Ty::Tuple(elements) => any_contains_type_param(elements),
        Ty::RuntimePack(elements) => any_contains_type_param(elements),
        Ty::Variant(elements) => any_contains_type_param(elements),
        Ty::Ref(reference) => {
            assert(*reference@.referent == reference.referent@);
            contains_type_param(&reference.referent)
        },
        Ty::Struct(_, args) => any_arg_contains_type_param(args),
        Ty::Func {
            params,
            ret,
            variadic,
            kw_variadic,
            error,
            ..
        } => any_contains_type_param(params) || contains_type_param(ret) || opt_contains_type_param(variadic)
            || opt_contains_type_param(kw_variadic) || opt_contains_type_param(error),
        Ty::GenericFunc {
            params,
            ret,
            variadic,
            kw_variadic,
            error,
            ..
        } => any_contains_type_param(params) || contains_type_param(ret)
            || opt_contains_type_param(variadic)
                || opt_contains_type_param(kw_variadic)
                || opt_contains_type_param(error),
        _ => false,
    }
}

fn any_contains_runtime_pack(tys: &Vec<Ty>) -> (r: bool)
    ensures
        r == any_runtime_pack(tys_view(*tys)),
    decreases tys,
{
    let ghost model = tys_view(*tys);
    for i in 0..tys.len()
        invariant
            model == tys_view(*tys),
            forall|j: int| 0 <= j < i ==> !has_runtime_pack(#[trigger] model[j]),
    {
        if contains_runtime_pack(&tys[i]) {
            assert(has_runtime_pack(model[i as int]));
            return true;
        }
    }
    false
}

fn any_arg_contains_runtime_pack(args: &Vec<TyArg>) -> (r: bool)
    ensures
        r == any_arg_runtime_pack(ty_args_view(*args)),
    decreases args,
{
    let ghost model = ty_args_view(*args);
    for i in 0..args.len()
        invariant
            model == ty_args_view(*args),
            forall|j: int| 0 <= j < i ==> !(
                #[trigger] model[j] matches TyArgModel::Ty(ty) && has_runtime_pack(ty)
            ),
    {
        if let TyArg::Ty(ty) = &args[i] {
            if contains_runtime_pack(ty) {
                assert(model[i as int] == TyArgModel::Ty(ty@));
                return true;
            }
        }
    }
    false
}

fn opt_contains_runtime_pack(ty: &Option<Box<Ty>>) -> (r: bool)
    ensures
        r == (opt_boxed_ty_view(*ty) is Some && has_runtime_pack(*opt_boxed_ty_view(*ty)->Some_0)),
    decreases ty,
{
    match ty {
        Some(t) => contains_runtime_pack(t),
        None => false,
    }
}

/// Whether a type holds a runtime pack, which only the ABI may.
pub fn contains_runtime_pack(ty: &Ty) -> (r: bool)
    ensures
        r == has_runtime_pack(ty@),
    decreases ty,
{
    match ty {
        Ty::RuntimePack(_) => true,
        Ty::ComptimeList(inner) => contains_runtime_pack(inner),
        Ty::Pointer { element, .. } => contains_runtime_pack(element),
        Ty::Tuple(elements) => any_contains_runtime_pack(elements),
        Ty::Variant(elements) => any_contains_runtime_pack(elements),
        Ty::Overload(elements) => any_contains_runtime_pack(elements),
        Ty::Assoc { base, .. } => contains_runtime_pack(base),
        Ty::Ref(reference) => {
            assert(*reference@.referent == reference.referent@);
            contains_runtime_pack(&reference.referent)
        },
        Ty::Struct(_, args) => any_arg_contains_runtime_pack(args),
        Ty::Func {
            params,
            ret,
            variadic,
            kw_variadic,
            error,
            ..
        } => any_contains_runtime_pack(params)
            || contains_runtime_pack(ret)
            || opt_contains_runtime_pack(variadic)
            || opt_contains_runtime_pack(kw_variadic) || opt_contains_runtime_pack(error),
        Ty::GenericFunc {
            params,
            ret,
            variadic,
            kw_variadic,
            error,
            ..
        } => any_contains_runtime_pack(params) || contains_runtime_pack(ret)
            || opt_contains_runtime_pack(variadic)
                || opt_contains_runtime_pack(kw_variadic)
                || opt_contains_runtime_pack(error),
        _ => false,
    }
}

/// The environment of a callable type.
pub open spec fn environment_of(ty: TyModel) -> Option<CallableEnvironmentModel> {
    match ty {
        TyModel::Func { environment, .. } => Some(environment),
        TyModel::GenericFunc { environment, .. } => Some(environment),
        _ => None,
    }
}

fn callable_environment(ty: &Ty) -> (r: Option<&CallableEnvironment>)
    ensures
        match r {
            Some(e) => environment_of(ty@) == Some(e@),
            None => environment_of(ty@) is None,
        },
{
    match ty {
        Ty::Func { environment, .. } => Some(environment),
        Ty::GenericFunc { environment, .. } => Some(environment),
        _ => None,
    }
}

/// Compatibility for verification: equal types are, and a conversion in either
/// direction is enough. Environments of callables have to agree, a type that
/// mentions a parameter is not compared, pointers compare by element, a bare
/// struct name stands for every instantiation, an overload set stands for one of
/// its members, and a struct may conform to a callable.
pub open spec fn compatible<C: Checker>(c: C, found: TyModel, expected: TyModel) -> bool
    decreases found,
{
    let environments_clash = environment_of(found) is Some
        && environment_of(expected) is Some
        && !c.environment_coerces(
        environment_of(found)->Some_0,
        environment_of(expected)->Some_0,
    );
    if found == expected {
        true
    } else if environments_clash {
        false
    } else if has_type_param(found) || has_type_param(expected) {
        true
    } else {
        match (found, expected) {
            (
                TyModel::Pointer { element: a, .. },
                TyModel::Pointer { element: b, .. },
            ) => compatible(c, *a, *b),
            (TyModel::Overload(members), _) => any_member_compatible(c, members, expected),
            (TyModel::Struct(a_name, a_args), TyModel::Struct(b_name, b_args)) => (a_name == b_name && (a_args.len() == 0
                || b_args.len() == 0)) || c.coerces(found, expected) || c.coerces(expected, found),
            (TyModel::Struct(..), TyModel::Func { .. }) => true,
            _ => c.coerces(found, expected) || c.coerces(expected, found),
        }
    }
}

/// Whether one of the members is compatible.
pub open spec fn any_member_compatible<C: Checker>(c: C, members: Seq<TyModel>, expected: TyModel) -> bool
    decreases members,
{
    exists|i: int| 0 <= i < members.len() && compatible(c, #[trigger] members[i], expected)
}

/// Compatibility for verification.
#[verifier::opaque]
pub open spec fn compat<C: Checker>(c: C, found: TyModel, expected: TyModel) -> bool {
    compatible(c, found, expected)
}

fn any_compatible<C: Checker>(c: &C, members: &Vec<Ty>, expected: &Ty) -> (r: bool)
    ensures
        r == any_member_compatible(*c, tys_view(*members), expected@),
    decreases members,
{
    let ghost model = tys_view(*members);
    for i in 0..members.len()
        invariant
            model == tys_view(*members),
            forall|j: int| 0 <= j < i ==> !compatible(*c, #[trigger] model[j], expected@),
    {
        if compatible_types(c, &members[i], expected) {
            assert(compatible(*c, model[i as int], expected@));
            return true;
        }
    }
    false
}

fn compatible_types<C: Checker>(c: &C, found: &Ty, expected: &Ty) -> (r: bool)
    ensures
        r == compatible(*c, found@, expected@),
    decreases found,
{
    if found.same(expected) {
        return true;
    }
    if let Some(a) = callable_environment(found) {
        if let Some(b) = callable_environment(expected) {
            if !c.callable_environment_coerces(a, b) {
                return false;
            }
        }
    }
    if contains_type_param(found) || contains_type_param(expected) {
        return true;
    }
    match (found, expected) {
        (Ty::Pointer { element: a, .. }, Ty::Pointer { element: b, .. }) => compatible_types(c, a, b),
        (Ty::Overload(members), _) => any_compatible(c, members, expected),
        (Ty::Struct(a_name, a_args), Ty::Struct(b_name, b_args)) => {
            assert(ty_args_view(*a_args).len() == a_args@.len());
            assert(ty_args_view(*b_args).len() == b_args@.len());
            (*a_name == *b_name && (a_args.len() == 0 || b_args.len() == 0)) || c.value_coerces(found, expected)
                || c.value_coerces(expected, found)
        },
        (Ty::Struct(..), Ty::Func { .. }) => true,
        _ => c.value_coerces(found, expected) || c.value_coerces(expected, found),
    }
}

/// Compatibility for verification.
pub fn types_compatible<C: Checker>(c: &C, found: &Ty, expected: &Ty) -> (r: bool)
    ensures
        r == compat(*c, found@, expected@),
{
    proof {
        reveal(compat);
    }
    compatible_types(c, found, expected)
}

/// A type is compatible with itself.
pub proof fn law_compatible_reflexive<C: Checker>(c: C, ty: TyModel)
    ensures
        compat(c, ty, ty),
{
    reveal(compat);
}

/// Whether an iterator call's result contract fits the declaration it calls. An
/// adapted result never fits a concrete declaration.
pub open spec fn iterator_result_fits<C: Checker>(
    c: C,
    call: CheckedIteratorCallModel,
    declaration: MirFunctionDeclarationModel,
) -> bool {
    if call.result_adapter is Some {
        false
    } else {
        match (call.reference_result, call.result_ty) {
            (Some(reference), TyModel::Ref(result)) => declaration.returns_reference
                && reference == result
                && compat(
                c,
                *reference.referent,
                declaration.ret_ty,
            ),
            (None, result) => !declaration.returns_reference && compat(c, result, declaration.ret_ty),
            _ => false,
        }
    }
}

/// Whether an iterator call's result contract fits the declaration it calls.
pub fn iterator_result_matches_declaration<C: Checker>(
    c: &C,
    call: &CheckedIteratorCall,
    declaration: &MirFunctionDeclaration,
) -> (r: bool)
    ensures
        r == iterator_result_fits(*c, call@, declaration@),
{
    if call.result_adapter.is_some() {
        return false;
    }
    match (&call.reference_result, &call.result_ty) {
        (Some(reference), Ty::Ref(result)) => {
            assert(*reference@.referent == reference.referent@);
            declaration.returns_reference && reference.same(result) && types_compatible(
                c,
                &reference.referent,
                &declaration.ret_ty,
            )
        },
        (None, result) => !declaration.returns_reference && types_compatible(c, result, &declaration.ret_ty),
        _ => false,
    }
}

/// Whether the call goes through abstract iterator dispatch.
pub open spec fn abstract_iterator(call: CheckedIteratorCallModel) -> bool {
    call.target == "__iterator_dispatch.__next__"@
}

/// What is wrong with the adapter of an iterator call's result.
pub open spec fn iterator_adapter_issues(prefix: Seq<char>, call: CheckedIteratorCallModel) -> Seq<Seq<char>> {
    match call.result_adapter {
        Some(_) => rule(
            !abstract_iterator(call),
            prefix + ": iterator copy-reference adapter is attached to concrete target '"@ + call.target + "'"@,
        ) + rule(
            call.reference_result is Some,
            prefix + ": adapted abstract iterator result also carries a concrete reference ABI"@,
        ),
        None => rule(
            abstract_iterator(call) && call.reference_result is None,
            prefix + ": abstract value-returning iterator dispatch lacks its copy-reference adapter"@,
        ),
    }
}

/// Verifies the adapter of an iterator call's result, and tells whether the call
/// goes through abstract dispatch.
pub fn verify_iterator_result_adapter(
    prefix: &str,
    call: &CheckedIteratorCall,
    errors: &mut Vec<String>,
) -> (r: bool)
    ensures
        r == abstract_iterator(call@),
        strings_view(*final(errors)) == strings_view(*old(errors)) + iterator_adapter_issues(prefix@, call@),
{
    let ghost start = strings_view(*errors);
    let abstract_dispatch: bool = str_eq(&call.target, "__iterator_dispatch.__next__");
    if call.result_adapter.is_some() {
        if !abstract_dispatch {
            report(
                errors,
                cat4(
                    prefix,
                    ": iterator copy-reference adapter is attached to concrete target '",
                    &call.target,
                    "'",
                ),
            );
        }
        if call.reference_result.is_some() {
            report(
                errors,
                cat2(prefix, ": adapted abstract iterator result also carries a concrete reference ABI"),
            );
        }
    } else if abstract_dispatch && call.reference_result.is_none() {
        report(
            errors,
            cat2(prefix, ": abstract value-returning iterator dispatch lacks its copy-reference adapter"),
        );
    }
    assert(strings_view(*errors) =~= start + iterator_adapter_issues(prefix@, call@));
    abstract_dispatch
}

} // verus!
