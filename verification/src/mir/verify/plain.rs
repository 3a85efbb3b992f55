//! A checker without conversions.

use crate::data::strings_view;
use crate::mir::{
    MirFunction, MirFunctionDeclaration, MirFunctionDeclarationModel, MirFunctionModel, MirPlace,
    MirPlaceModel, Reg,
};
use crate::mir::verify::{Checker, ReferencePermission, permission_of, report, rule};
use crate::mir::verify::values::{fits_literal, literal_fits};
use crate::origin::{CallableEnvironment, CallableEnvironmentModel};
use crate::text::{cat7, dec, dec_text_usize, str_eq};
use crate::types::{Ty, TyArg, TyArgModel, TyModel, opt_tys_view, ty_args_view, tys_view};
use vstd::prelude::*;

verus! {

/// A checker that grants no conversions but those of literals. It serves programs
/// whose types were made to agree before they were assembled.
#[derive(Debug, Clone, Copy)]
pub struct PlainChecker;

/// The element types of the nominal tuple.
pub open spec fn nominal_tuple(ty: TyModel) -> Option<Seq<TyModel>> {
    match ty {
        TyModel::Struct(name, args) => if name == "Tuple"@ { type_arguments(args) } else { None },
        _ => None,
    }
}

/// The arguments of an application, where all of them are types.
pub open spec fn type_arguments(args: Seq<TyArgModel>) -> Option<Seq<TyModel>>
    decreases args.len(),
{
    if args.len() == 0 {
        Some(Seq::empty())
    } else {
        match (type_arguments(args.drop_last()), args.last()) {
            (Some(before), TyArgModel::Ty(ty)) => Some(before.push(ty)),
            _ => None,
        }
    }
}

proof fn lemma_type_arguments_prefix(args: Seq<TyArgModel>, n: int)
    requires
        0 <= n <= args.len(),
        type_arguments(args.take(n)) is None,
    ensures
        type_arguments(args) is None,
    decreases args.len() - n,
{
    if n < args.len() {
        assert(args.take(n + 1).drop_last() =~= args.take(n));
        lemma_type_arguments_prefix(args, n + 1);
    } else {
        assert(args.take(n) =~= args);
    }
}

fn collect_type_arguments(args: &Vec<TyArg>) -> (r: Option<Vec<Ty>>)
    ensures
        opt_tys_view(r) == type_arguments(ty_args_view(*args)),
{
    let ghost model = ty_args_view(*args);
    let mut out: Vec<Ty> = Vec::new();
    assert(tys_view(out) =~= Seq::empty());
    for i in 0..args.len()
        invariant
            model == ty_args_view(*args),
            type_arguments(model.take(i as int)) == Some(tys_view(out)),
    {
        assert(model.take(i + 1).drop_last() =~= model.take(i as int));
        assert(model[i as int] == args@[i as int]@);
        match &args[i] {
            TyArg::Ty(ty) => {
                let ghost before = tys_view(out);
                out.push(ty.copy());
                assert(tys_view(out) =~= before.push(ty@));
            },
            _ => {
                proof {
                    lemma_type_arguments_prefix(model, i + 1);
                }
                return None;
            },
        }
    }
    assert(model.take(model.len() as int) =~= model);
    Some(out)
}

/// What a place lends: the referent of a stored reference, or the storage itself.
pub open spec fn lent(place: MirPlaceModel) -> Option<(TyModel, Option<ReferencePermission>)> {
    match place.ty {
        Some(TyModel::Ref(stored)) => Some((*stored.referent, Some(permission_of(stored.mutability)))),
        Some(ty) => Some((ty, None)),
        None => None,
    }
}

/// The issue of a call with more arguments than its callee takes.
pub open spec fn arity_issue(
    prefix: Seq<char>,
    declaration: MirFunctionDeclarationModel,
    args: nat,
) -> Seq<Seq<char>> {
    rule(
        declaration.variadic is None && args > declaration.param_types.len(),
        prefix + ": call of '"@ + declaration.lowered_name + "' has "@ + dec(args as nat) + " positional arguments, declared "@ + dec(
            declaration.param_types.len() as nat
        ),
    )
}

impl Checker for PlainChecker {
    open spec fn coerces(&self, found: TyModel, expected: TyModel) -> bool {
        found == expected || literal_fits(found, expected)
    }

    fn value_coerces(&self, found: &Ty, expected: &Ty) -> (r: bool) {
        found.same(expected) || fits_literal(found, expected)
    }

    open spec fn environment_coerces(
        &self,
        found: CallableEnvironmentModel,
        expected: CallableEnvironmentModel,
    ) -> bool {
        found == expected || expected is Default || found is Thin
    }

    fn callable_environment_coerces(
        &self,
        found: &CallableEnvironment,
        expected: &CallableEnvironment,
    ) -> (r: bool) {
        let default: bool = match expected {
            CallableEnvironment::Default => true,
            _ => false,
        };
        let thin: bool = match found {
            CallableEnvironment::Thin => true,
            _ => false,
        };
        default || thin || found.same(expected)
    }

    open spec fn accepts_bound(&self, found: TyModel, bound: TyModel) -> bool {
        found == bound
    }

    fn callable_bound_accepts(&self, found: &Ty, bound: &Ty) -> (r: bool) {
        found.same(bound)
    }

    open spec fn contract_target(&self, ty: TyModel) -> Option<Seq<char>> {
        None
    }

    fn callable_contract_target(&self, _ty: &Ty) -> (r: Option<String>) {
        None
    }

    open spec fn scope_error(&self, contract: TyModel) -> Option<Seq<char>> {
        None
    }

    fn validate_dependent_bindings(&self, _contract: &Ty) -> (r: Result<(), String>) {
        Ok(())
    }

    open spec fn tuple_shape(&self, ty: TyModel) -> Option<Seq<TyModel>> {
        nominal_tuple(ty)
    }

    fn tuple_elements(&self, ty: &Ty) -> (r: Option<Vec<Ty>>) {
        match ty {
            Ty::Struct(name, args) => if str_eq(name, "Tuple") { collect_type_arguments(args) } else { None },
            _ => None,
        }
    }

    open spec fn borrow_target(&self, place: MirPlaceModel) -> Option<(TyModel, Option<ReferencePermission>)> {
        lent(place)
    }

    fn make_ref_target(&self, place: &MirPlace) -> (r: Option<(Ty, Option<ReferencePermission>)>) {
        match &place.ty {
            Some(ty) => match ty {
                Ty::Ref(stored) => {
                    assert(*stored@.referent == stored.referent@);
                    Some(
                        (
                            stored.referent.copy(),
                            Some(ReferencePermission::from_mutability(stored.mutability)),
                        )
                    )
                },
                _ => Some((ty.copy(), None)),
            },
            None => None,
        }
    }

    open spec fn direct_call_issues(
        &self,
        prefix: Seq<char>,
        function: MirFunctionModel,
        declaration: MirFunctionDeclarationModel,
        args: Seq<Reg>,
        kwargs: Seq<(Seq<char>, Reg)>,
        arg_places: Seq<Option<MirPlaceModel>>,
    ) -> Seq<Seq<char>> {
        arity_issue(prefix, declaration, args.len())
    }

    fn verify_direct_call(
        &self,
        prefix: &str,
        _function: &MirFunction,
        declaration: &MirFunctionDeclaration,
        args: &Vec<Reg>,
        _kwargs: &Vec<(String, Reg)>,
        _arg_places: &Vec<Option<MirPlace>>,
    ) -> (r: Vec<String>) {
        let mut errors: Vec<String> = Vec::new();
        assert(declaration@.param_types.len() == declaration.param_types@.len());
        if declaration.variadic.is_none() && args.len() > declaration.param_types.len() {
            report(
                &mut errors,
                cat7(
                    prefix,
                    ": call of '",
                    &declaration.lowered_name,
                    "' has ",
                    &dec_text_usize(args.len() as usize),
                    " positional arguments, declared ",
                    &dec_text_usize(declaration.param_types.len() as usize),
                ),
            );
        }
        assert(strings_view(errors) =~= arity_issue(prefix@, declaration@, args@.len()));
        errors
    }
}

} // verus!
