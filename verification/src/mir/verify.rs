//! Verification of assembled MIR: every issue is reported, none is fatal.

pub mod call_laws;
pub mod calls;
pub mod instantiate;
pub mod instantiate_laws;
pub mod instr;
pub mod intrinsics;
pub mod laws;
pub mod loan_laws;
pub mod place_laws;
pub mod places;
pub mod plain;
pub mod regs;
pub mod subscripts;
pub mod types;
pub mod values;

use crate::ast::ArgConvention;
use crate::data::{opt_string_view, strings_view};
use crate::mir::{
    MirDeclarations, MirFunction, MirFunctionDeclaration, MirFunctionDeclarationModel,
    MirFunctionModel, MirPlace, MirPlaceModel, Reg, function_declarations_view, opt_places_view,
    string_regs_view,
};
use crate::origin::{CallableEnvironment, CallableEnvironmentModel, Mutability, OriginParamId};
use crate::text::{cat4, dec, dec_text_usize, str_eq};
use crate::types::{Ty, TyModel, opt_tys_view};
use vstd::prelude::*;

verus! {

/// What a reference lets its holder do.
#[derive(Debug, Clone, Copy, PartialEq, Eq, Structural)]
pub enum ReferencePermission {
    Immutable,
    Mutable,
    /// Decided by an origin parameter.
    Param(OriginParamId),
}

/// The permission of a mutability.
pub open spec fn permission_of(mutability: Mutability) -> ReferencePermission {
    match mutability {
        Mutability::Immutable => ReferencePermission::Immutable,
        Mutability::Mutable => ReferencePermission::Mutable,
        Mutability::Param(id) => ReferencePermission::Param(id),
    }
}

/// Whether one permission grants another: every permission grants reading and
/// itself, and a mutable one grants all.
pub open spec fn grants(have: ReferencePermission, want: ReferencePermission) -> bool {
    have == want || have is Mutable || want is Immutable
}

impl ReferencePermission {
    /// The permission of a mutability.
    pub fn from_mutability(mutability: Mutability) -> (r: ReferencePermission)
        ensures
            r == permission_of(mutability),
    {
        match mutability {
            Mutability::Immutable => ReferencePermission::Immutable,
            Mutability::Mutable => ReferencePermission::Mutable,
            Mutability::Param(id) => ReferencePermission::Param(id),
        }
    }

    /// Whether this permission grants `required`.
    pub fn satisfies(self, required: ReferencePermission) -> (r: bool)
        ensures
            r == grants(self, required),
    {
        self == required || self == ReferencePermission::Mutable || required == ReferencePermission::Immutable
    }

    /// Whether the referent may be written.
    pub fn allows_write(self) -> (r: bool)
        ensures
            r == !(self is Immutable),
    {
        self != ReferencePermission::Immutable
    }
}

/// What the verifier takes from type checking: which conversions were approved,
/// and the shapes of checked types that only checking knows.
pub trait Checker: Sized {
    /// Whether a value of one type converts to another.
    spec fn coerces(&self, found: TyModel, expected: TyModel) -> bool;

    fn value_coerces(&self, found: &Ty, expected: &Ty) -> (r: bool)
        ensures
            r == self.coerces(found@, expected@),
    ;

    /// Whether one callable environment serves for another.
    spec fn environment_coerces(
        &self,
        found: CallableEnvironmentModel,
        expected: CallableEnvironmentModel,
    ) -> bool;

    fn callable_environment_coerces(
        &self,
        found: &CallableEnvironment,
        expected: &CallableEnvironment,
    ) -> (r: bool)
        ensures
            r == self.environment_coerces(found@, expected@),
    ;

    /// Whether a type meets a callable bound.
    spec fn accepts_bound(&self, found: TyModel, bound: TyModel) -> bool;

    fn callable_bound_accepts(&self, found: &Ty, bound: &Ty) -> (r: bool)
        ensures
            r == self.accepts_bound(found@, bound@),
    ;

    /// The `__call__` symbol that a callable contract fixes.
    spec fn contract_target(&self, ty: TyModel) -> Option<Seq<char>>;

    fn callable_contract_target(&self, ty: &Ty) -> (r: Option<String>)
        ensures
            opt_string_view(r) == self.contract_target(ty@),
    ;

    /// Why the dependent references of a contract are out of scope, if they are.
    spec fn scope_error(&self, contract: TyModel) -> Option<Seq<char>>;

    fn validate_dependent_bindings(&self, contract: &Ty) -> (r: Result<(), String>)
        ensures
            match r {
                Ok(()) => self.scope_error(contract@) is None,
                Err(e) => self.scope_error(contract@) == Some(e@),
            },
    ;

    /// The element types of a nominal tuple.
    spec fn tuple_shape(&self, ty: TyModel) -> Option<Seq<TyModel>>;

    fn tuple_elements(&self, ty: &Ty) -> (r: Option<Vec<Ty>>)
        ensures
            opt_tys_view(r) == self.tuple_shape(ty@),
    ;

    /// The storage type that borrowing a place designates, and the permission its
    /// source grants, where that is known.
    spec fn borrow_target(&self, place: MirPlaceModel) -> Option<(TyModel, Option<ReferencePermission>)>;

    fn make_ref_target(&self, place: &MirPlace) -> (r: Option<(Ty, Option<ReferencePermission>)>)
        ensures
            match r {
                Some((ty, permission)) => self.borrow_target(place@) == Some((ty@, permission)),
                None => self.borrow_target(place@) is None,
            },
    ;

    /// What is wrong with a direct call of a declared function.
    spec fn direct_call_issues(
        &self,
        prefix: Seq<char>,
        function: MirFunctionModel,
        declaration: MirFunctionDeclarationModel,
        args: Seq<Reg>,
        kwargs: Seq<(Seq<char>, Reg)>,
        arg_places: Seq<Option<MirPlaceModel>>,
    ) -> Seq<Seq<char>>;

    fn verify_direct_call(
        &self,
        prefix: &str,
        function: &MirFunction,
        declaration: &MirFunctionDeclaration,
        args: &Vec<Reg>,
        kwargs: &Vec<(String, Reg)>,
        arg_places: &Vec<Option<MirPlace>>,
    ) -> (r: Vec<String>)
        ensures
            strings_view(r) == self.direct_call_issues(
                prefix@,
                function@,
                declaration@,
                args@,
                string_regs_view(*kwargs),
                opt_places_view(*arg_places),
            ),
    ;
}

/// One issue, where the condition holds.
pub open spec fn rule(cond: bool, text: Seq<char>) -> Seq<Seq<char>> {
    if cond { seq![text] } else { Seq::empty() }
}

/// Adds an issue.
pub fn report(errors: &mut Vec<String>, text: String)
    ensures
        strings_view(*final(errors)) == strings_view(*old(errors)) + seq![text@],
{
    errors.push(text);
    assert(strings_view(*errors) =~= strings_view(*old(errors)) + seq![text@]);
}

/// Adds issues in order.
pub fn report_all(errors: &mut Vec<String>, texts: &Vec<String>)
    ensures
        strings_view(*final(errors)) == strings_view(*old(errors)) + strings_view(*texts),
{
    let ghost start = strings_view(*errors);
    let ghost model = strings_view(*texts);
    assert(start + model.take(0) =~= start);
    for i in 0..texts.len()
        invariant
            model == strings_view(*texts),
            strings_view(*errors) == start + model.take(i as int),
    {
        report(errors, texts[i].clone());
        assert(model.take(i + 1) =~= model.take(i as int).push(model[i as int]));
        assert(strings_view(*errors) =~= start + model.take(i + 1));
    }
    assert(model.take(model.len() as int) =~= model);
}

/// The region that blocks are verified in.
#[derive(Debug, Clone, Copy, PartialEq, Eq, Structural)]
pub struct RegionContext {
    /// The number of blocks in the region.
    pub region_len: usize,
    /// The number of blocks in the function.
    pub function_len: usize,
    pub in_try_region: bool,
    /// Whether a handler catches what is raised here.
    pub protected: bool,
}

/// How the issues of a block begin.
pub open spec fn block_prefix(name: Seq<char>, block: nat) -> Seq<char> {
    "MIR function '"@ + name + "' block "@ + dec(block)
}

/// How the issues of a block begin.
pub fn prefix_of(name: &str, block: usize) -> (r: String)
    ensures
        r@ == block_prefix(name@, block as nat),
{
    cat4("MIR function '", name, "' block ", &dec_text_usize(block))
}

/// The first declaration with the lowered name.
pub open spec fn declaration_of(functions: Seq<MirFunctionDeclarationModel>, callee: Seq<char>) -> Option<
    MirFunctionDeclarationModel,
>
    decreases functions.len(),
{
    if functions.len() == 0 {
        None
    } else if functions[0].lowered_name == callee {
        Some(functions[0])
    } else {
        declaration_of(functions.skip(1), callee)
    }
}

/// The first declaration with the lowered name.
pub fn declared<'a>(
    declarations: &'a MirDeclarations,
    callee: &str,
) -> (r: Option<&'a MirFunctionDeclaration>)
    ensures
        match r {
            Some(d) => declaration_of(declarations@.functions, callee@) == Some(d@),
            None => declaration_of(declarations@.functions, callee@) is None,
        },
{
    let ghost model = declarations@.functions;
    assert(model.skip(0) =~= model);
    for i in 0..declarations.functions.len()
        invariant
            model == function_declarations_view(declarations.functions),
            declaration_of(model, callee@) == declaration_of(model.skip(i as int), callee@),
    {
        assert(model.skip(i as int)[0] == declarations.functions@[i as int]@);
        assert(model.skip(i as int).skip(1) =~= model.skip(i + 1));
        if str_eq(&declarations.functions[i].lowered_name, callee) {
            return Some(&declarations.functions[i]);
        }
    }
    None
}

/// The model of a looked-up type.
pub open spec fn found_view(ty: Option<&Ty>) -> Option<TyModel> {
    match ty {
        Some(ty) => Some(ty@),
        None => None,
    }
}

/// The type that a reference designates, or the type itself.
pub open spec fn referent_of(ty: TyModel) -> TyModel {
    match ty {
        TyModel::Ref(reference) => *reference.referent,
        _ => ty,
    }
}

/// The type that a reference designates, or the type itself.
pub fn peel_ref(ty: &Ty) -> (r: &Ty)
    ensures
        r@ == referent_of(ty@),
{
    match ty {
        Ty::Ref(reference) => {
            assert(*reference@.referent == reference.referent@);
            &reference.referent
        },
        _ => ty,
    }
}

/// Whether an argument passed this way needs a caller place.
pub open spec fn passes_place(convention: Option<ArgConvention>) -> bool {
    convention == Some(ArgConvention::Mut) || convention == Some(ArgConvention::Ref)
}

/// Whether an argument passed this way needs a caller place.
pub fn needs_place(convention: &Option<ArgConvention>) -> (r: bool)
    ensures
        r == passes_place(*convention),
{
    match convention {
        Some(ArgConvention::Mut) => true,
        Some(ArgConvention::Ref) => true,
        _ => false,
    }
}

} // verus!
