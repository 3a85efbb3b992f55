//! What clean loans and references promise: no permission is made up, and the storage
//! they name is there.

use crate::ct::wrap64;
use crate::mir::{MirFunctionModel, MirInteriorModel, MirLoanModel, MirPlaceModel};
use crate::mir::verify::{Checker, grants, permission_of};
use crate::mir::verify::laws::storage;
use crate::mir::verify::subscripts::capability;
use crate::mir::verify::types::compat;
use crate::mir::verify::values::{
    bad_lane, borrowed_issues, establish_loans_issues, has_subtree, invalidate_interiors_issues,
    is_pow2, loan_destination_issues, loan_interior_issues, loan_permission, loan_source_issues,
    loan_target, loans_issues, make_ref_issues, names_interior, simd_shuffle_issues,
    through_capability,
};
use crate::types::TyModel;
use vstd::prelude::*;

verus! {

/// Loans without issues belong to a slot of the function and are not empty; none is
/// mutable where its source only reads, and what is reached through a reference has the
/// type that the reference gives.
#[verifier::rlimit(40)]
pub proof fn law_loans<C: Checker>(
    c: C,
    prefix: Seq<char>,
    function: MirFunctionModel,
    reference: u32,
    loans: Seq<MirLoanModel>,
    domain: Option<MirInteriorModel>,
    i: int,
)
    requires
        establish_loans_issues(c, prefix, function, reference, loans, domain).len() == 0,
        0 <= i < loans.len(),
    ensures
        reference < function.n_vars,
        domain is Some ==> domain->Some_0.root == reference && domain->Some_0.path.len() > 0,
        ({
            let loan = loans[i];
            let permission = loan_permission(c, function, loan.place);
            &&& loan.mutable && permission is Some ==> permission->Some_0 is Mutable
            &&& through_capability(function, loan.place) is Some && loan.place.root_ty is Some ==> compat(
                c,
                through_capability(function, loan.place)->Some_0.0,
                loan_target(loan.place.root_ty->Some_0),
            )
            &&& loan.interior is Some ==> loan.interior->Some_0.root < function.n_vars && (loan.place.through is None
                ==> loan.interior->Some_0.root == loan.place.root) && (names_interior(loan.interior->Some_0.path)
                || has_subtree(loan.interior->Some_0.path, loan.interior->Some_0.path.len() as int))
        }),
{
    reveal(establish_loans_issues);
    reveal(loan_destination_issues);
    reveal(loan_source_issues);
    reveal(loan_interior_issues);
    lemma_loan(c, prefix, function, loans, i);
}

proof fn lemma_loan<C: Checker>(
    c: C,
    prefix: Seq<char>,
    function: MirFunctionModel,
    loans: Seq<MirLoanModel>,
    i: int,
)
    requires
        loans_issues(c, prefix, function, loans).len() == 0,
        0 <= i < loans.len(),
    ensures
        loan_source_issues(c, prefix, function, loans[i]).len() == 0,
        loan_interior_issues(prefix, function, loans[i]).len() == 0,
    decreases loans.len(),
{
    if i < loans.len() - 1 {
        lemma_loan(c, prefix, function, loans.drop_last(), i);
    }
}

/// A generation of loans needs at least one.
pub proof fn law_no_loans<C: Checker>(
    c: C,
    prefix: Seq<char>,
    function: MirFunctionModel,
    reference: u32,
    domain: Option<MirInteriorModel>,
)
    ensures
        establish_loans_issues(c, prefix, function, reference, Seq::empty(), domain).len() > 0,
{
    reveal(establish_loans_issues);
}

/// Invalidation names slots of the function, and an inclusive one a named interior.
pub proof fn law_invalidation(
    prefix: Seq<char>,
    function: MirFunctionModel,
    base: MirInteriorModel,
    except: Option<u32>,
    inclusive: bool,
)
    ensures
        invalidate_interiors_issues(prefix, function, base, except, inclusive).len() == 0 <==> {
            &&& base.root < function.n_vars
            &&& except is Some ==> except->Some_0 < function.n_vars
            &&& inclusive ==> exists|i: int| 0 <= i < base.path.len() && (#[trigger] base.path[i]) is Interior
        },
{
    reveal(invalidate_interiors_issues);
}

/// A reference is made to storage of its referent, with no more permission than the
/// source grants; a stored reference may be handed on instead.
#[verifier::rlimit(40)]
pub proof fn law_make_ref<C: Checker>(c: C, prefix: Seq<char>, destination: TyModel, place: MirPlaceModel)
    requires
        c.borrow_target(place) is Some,
    ensures
        make_ref_issues(c, prefix, Some(destination), place).len() == 0 ==> {
            &&& capability(destination) is Some
            &&& ({
                let (wanted, permission) = capability(destination)->Some_0;
                let (target, granted) = c.borrow_target(place)->Some_0;
                ||| compat(c, wanted, target) && (granted is Some ==> grants(granted->Some_0, permission))
                ||| place.ty is Some && place.ty->Some_0 is Ref && compat(c, wanted, *place.ty->Some_0->Ref_0.referent)
                    && grants(permission_of(place.ty->Some_0->Ref_0.mutability), permission)
            })
        },
        capability(destination) is Some && ({
            let (wanted, permission) = capability(destination)->Some_0;
            let (target, granted) = c.borrow_target(place)->Some_0;
            wanted == target && (granted is Some ==> grants(granted->Some_0, permission))
        }) ==> make_ref_issues(c, prefix, Some(destination), place).len() == 0,
        capability(destination) is None ==> make_ref_issues(c, prefix, Some(destination), place).len() == 1,
{
    reveal(make_ref_issues);
    reveal(borrowed_issues);
    reveal(compat);
}

/// A shuffle has a power of two of lanes, each of them one of the vector's.
pub proof fn law_simd_shuffle(prefix: Seq<char>, dtype: crate::ast::Dtype, width: i64, mask: Seq<usize>, i: int)
    requires
        simd_shuffle_issues(prefix, Some(TyModel::Simd { dtype, width }), mask).len() == 0,
    ensures
        is_pow2(mask.len() as int),
        0 <= i < mask.len() && mask[i] <= i64::MAX ==> mask[i] < width,
{
    reveal(simd_shuffle_issues);
    if 0 <= i < mask.len() {
        lemma_lanes(mask, width, i);
    }
}

proof fn lemma_lanes(mask: Seq<usize>, width: i64, i: int)
    requires
        bad_lane(mask, width) is None,
        0 <= i < mask.len(),
    ensures
        wrap64(mask[i] as int) < width,
    decreases mask.len(),
{
    if i > 0 {
        lemma_lanes(mask.skip(1), width, i - 1);
        assert(mask.skip(1)[i - 1] == mask[i]);
    }
}

} // verus!
