//! Verification of instructions on values, references and storage.

use crate::ast::dtype_is_float;
use crate::ct::wrap64;
use crate::data::strings_view;
use crate::mir::{
    MirCapture, MirCaptureModel, MirDeclarations, MirDeclarationsModel, MirFunction,
    MirFunctionModel, MirInterior, MirInteriorModel, MirLoan, MirLoanModel, MirPlace, MirPlaceModel,
    Reg, captures_view, loans_view, opt_interior_view,
};
use crate::mir::verify::{
    Checker, ReferencePermission, declaration_of, declared, found_view, grants, peel_ref,
    permission_of, referent_of, report, rule,
};
use crate::mir::verify::places::{uninit_element, uninit_storage_element};
use crate::mir::verify::subscripts::{ReferenceCapability, capability, reference_capability};
use crate::mir::verify::types::{compat, types_compatible};
use crate::native::layout::{Layout, LayoutCx, StructFieldIndex, StructsModel, declared_fields, ty_layout};
use crate::native::target::{NativeTarget, Triple};
use crate::origin::{OriginSeg, OriginSegModel, PointerOrigin, PointerOriginModel, origin_segs_view};
use crate::table::table_get;
use crate::text::{
    cat2, cat3, cat4, cat5, cat6, cat8, dec, dec_int, dec_text, dec_text_i64, dec_text_usize,
    str_eq,
};
use crate::types::{Ty, TyModel, opt_ty_view, ty_text, tys_view};
use vstd::prelude::*;

verus! {

/// The type recorded for a register.
pub open spec fn reg_found(function: MirFunctionModel, register: Reg) -> Option<TyModel> {
    table_get(function.reg_types, register.0)
}

/// The type recorded for a register.
pub fn reg_type<'a>(function: &'a MirFunction, register: Reg) -> (r: Option<&'a Ty>)
    ensures
        found_view(r) == reg_found(function@, register),
{
    function.reg_types.get(register.0)
}

/// Whether a number is a power of two.
pub open spec fn is_pow2(n: int) -> bool
    decreases n,
{
    n == 1 || (n > 1 && n % 2 == 0 && is_pow2(n / 2))
}

fn power_of_two(n: usize) -> (r: bool)
    ensures
        r == is_pow2(n as int),
{
    if n == 0 {
        return false;
    }
    let mut w: usize = n;
    while w % 2 == 0
        invariant
            w > 0,
            is_pow2(n as int) == is_pow2(w as int),
        decreases w,
    {
        w = w / 2;
    }
    w == 1
}

/// The issue of a vector width: only powers of two are.
#[verifier::opaque]
pub open spec fn simd_width_issues(prefix: Seq<char>, width: usize) -> Seq<Seq<char>> {
    rule(
        !is_pow2(width as int),
        prefix + ": SIMD width "@ + dec(width as nat) + " is not a positive power of two"@,
    )
}

pub fn verify_simd_width(prefix: &str, width: usize, errors: &mut Vec<String>)
    ensures
        strings_view(*final(errors)) == strings_view(*old(errors)) + simd_width_issues(prefix@, width),
{
    proof {
        reveal(simd_width_issues);
    }
    let ghost start = strings_view(*errors);
    if !power_of_two(width) {
        report(
            errors,
            cat4(prefix, ": SIMD width ", &dec_text_usize(width as usize), " is not a positive power of two"),
        );
    }
    assert(strings_view(*errors) =~= start + simd_width_issues(prefix@, width));
}

/// The first lane that a vector of the width does not have. Lanes compare as
/// signed 64-bit numbers.
pub open spec fn bad_lane(mask: Seq<usize>, width: i64) -> Option<usize>
    decreases mask.len(),
{
    if mask.len() == 0 {
        None
    } else if wrap64(mask[0] as int) >= width {
        Some(mask[0])
    } else {
        bad_lane(mask.skip(1), width)
    }
}

fn signed_lane(lane: usize) -> (r: i64)
    ensures
        r == wrap64(lane as int),
{
    let bits: u64 = lane as u64;
    if bits < 0x8000_0000_0000_0000 {
        bits as i64
    } else {
        (bits - 0x8000_0000_0000_0000) as i64 + i64::MIN
    }
}

fn find_bad_lane(mask: &Vec<usize>, width: i64) -> (r: Option<usize>)
    ensures
        r == bad_lane(mask@, width),
{
    assert(mask@.skip(0) =~= mask@);
    for i in 0..mask.len()
        invariant
            bad_lane(mask@, width) == bad_lane(mask@.skip(i as int), width),
    {
        assert(mask@.skip(i as int)[0] == mask@[i as int]);
        assert(mask@.skip(i as int).skip(1) =~= mask@.skip(i + 1));
        if signed_lane(mask[i]) >= width {
            return Some(mask[i]);
        }
    }
    None
}

/// The issues of a lane shuffle.
#[verifier::opaque]
pub open spec fn simd_shuffle_issues(
    prefix: Seq<char>,
    value: Option<TyModel>,
    mask: Seq<usize>,
) -> Seq<Seq<char>> {
    rule(
        !is_pow2(mask.len() as int),
        prefix + ": SIMD shuffle mask length "@ + dec(mask.len() as nat) + " is not a positive power of two"@,
    ) + (match value {
        Some(TyModel::Simd { width, .. }) => match bad_lane(mask, width) {
            Some(bad) => seq![
                prefix + ": SIMD shuffle lane "@ + dec(bad as nat) + " is out of range for width "@ + dec_int(width as int),
            ],
            None => Seq::empty(),
        },
        _ => Seq::empty(),
    })
}

pub fn verify_simd_shuffle(prefix: &str, value: Option<&Ty>, mask: &Vec<usize>, errors: &mut Vec<String>)
    ensures
        strings_view(*final(errors)) == strings_view(*old(errors)) + simd_shuffle_issues(
            prefix@,
            found_view(value),
            mask@,
        ),
{
    proof {
        reveal(simd_shuffle_issues);
    }
    let ghost start = strings_view(*errors);
    if !power_of_two(mask.len()) {
        report(
            errors,
            cat4(
                prefix,
                ": SIMD shuffle mask length ",
                &dec_text_usize(mask.len() as usize),
                " is not a positive power of two",
            ),
        );
    }
    if let Some(Ty::Simd { width, .. }) = value {
        if let Some(bad) = find_bad_lane(mask, *width) {
            report(
                errors,
                cat5(
                    prefix,
                    ": SIMD shuffle lane ",
                    &dec_text_usize(bad as usize),
                    " is out of range for width ",
                    &dec_text_i64(*width),
                ),
            );
        }
    }
    assert(strings_view(*errors) =~= start + simd_shuffle_issues(prefix@, found_view(value), mask@));
}

/// Whether a path enters a named interior.
pub open spec fn names_interior(path: Seq<OriginSegModel>) -> bool {
    exists|i: int| 0 <= i < path.len() && (#[trigger] path[i]) is Interior
}

fn enters_interior(path: &Vec<OriginSeg>) -> (r: bool)
    ensures
        r == names_interior(origin_segs_view(*path)),
{
    let ghost model = origin_segs_view(*path);
    for i in 0..path.len()
        invariant
            model == origin_segs_view(*path),
            forall|j: int| 0 <= j < i ==> !((#[trigger] model[j]) is Interior),
    {
        assert(model[i as int] == path@[i as int]@);
        if let OriginSeg::Interior(_) = &path[i] {
            return true;
        }
    }
    false
}

/// Whether one of the first steps of a path is a subtree.
pub open spec fn has_subtree(path: Seq<OriginSegModel>, n: int) -> bool {
    exists|i: int| 0 <= i < n && i < path.len() && (#[trigger] path[i]) is Subtree
}

fn holds_subtree(path: &Vec<OriginSeg>, n: usize) -> (r: bool)
    ensures
        r == has_subtree(origin_segs_view(*path), n as int),
{
    let ghost model = origin_segs_view(*path);
    assert(model.len() == path@.len());
    let end: usize = if n < path.len() { n } else { path.len() };
    for i in 0..end
        invariant
            model == origin_segs_view(*path),
            model.len() == path@.len(),
            end <= n,
            end <= path@.len(),
            forall|j: int| 0 <= j < i ==> !((#[trigger] model[j]) is Subtree),
    {
        assert(model[i as int] == path@[i as int]@);
        if let OriginSeg::Subtree = &path[i] {
            return true;
        }
    }
    false
}

/// The capability of the reference that a place was reached through.
pub open spec fn through_capability(function: MirFunctionModel, place: MirPlaceModel) -> Option<
    (TyModel, ReferencePermission),
> {
    match place.through {
        Some(slot) => match table_get(function.var_tys, slot) {
            Some(ty) => capability(ty),
            None => None,
        },
        None => None,
    }
}

fn capability_through<'a>(function: &'a MirFunction, place: &MirPlace) -> (r: Option<ReferenceCapability<'a>>)
    ensures
        match r {
            Some(found) => through_capability(function@, place@) == Some((found.target@, found.permission)),
            None => through_capability(function@, place@) is None,
        },
{
    match place.through {
        Some(slot) => match function.var_tys.get(slot) {
            Some(ty) => reference_capability(ty),
            None => None,
        },
        None => None,
    }
}

/// The permission that the source of a loan grants, where it is known.
pub open spec fn loan_permission<C: Checker>(
    c: C,
    function: MirFunctionModel,
    place: MirPlaceModel,
) -> Option<
    ReferencePermission,
> {
    match through_capability(function, place) {
        Some(found) => Some(found.1),
        None => match c.borrow_target(place) {
            Some(found) => found.1,
            None => None,
        },
    }
}

fn permission_of_loan<C: Checker>(
    c: &C,
    function: &MirFunction,
    place: &MirPlace,
) -> (r: Option<ReferencePermission>)
    ensures
        r == loan_permission(*c, function@, place@),
{
    match capability_through(function, place) {
        Some(found) => Some(found.permission),
        None => match c.make_ref_target(place) {
            Some(found) => found.1,
            None => None,
        },
    }
}

/// The type that a loan's root stands for: what it refers to, if it is a capability.
pub open spec fn loan_target(root: TyModel) -> TyModel {
    match capability(root) {
        Some(found) => found.0,
        None => root,
    }
}

fn target_of_loan(root: &Ty) -> (r: &Ty)
    ensures
        r@ == loan_target(root@),
{
    match reference_capability(root) {
        Some(found) => found.target,
        None => root,
    }
}

/// The issues of a loan against the capability it comes from.
#[verifier::opaque]
pub open spec fn loan_source_issues<C: Checker>(
    c: C,
    prefix: Seq<char>,
    function: MirFunctionModel,
    loan: MirLoanModel,
) -> Seq<Seq<char>> {
    let permission = loan_permission(c, function, loan.place);
    rule(
        loan.mutable && permission is Some && !grants(permission->Some_0, ReferencePermission::Mutable),
        prefix + ": mutable loan recovers permission unavailable through its source capability"@,
    ) + (match (through_capability(function, loan.place), loan.place.root_ty) {
        (Some(found), Some(root)) => rule(
            !compat(c, found.0, loan_target(root)),
            prefix + ": loan place root type "@ + ty_text(loan_target(root)) + " is incompatible with its through-reference capability target "@ + ty_text(found.0),
        ),
        _ => Seq::empty(),
    })
}

fn verify_loan_source<C: Checker>(
    c: &C,
    prefix: &str,
    function: &MirFunction,
    loan: &MirLoan,
    errors: &mut Vec<String>,
)
    ensures
        strings_view(*final(errors)) == strings_view(*old(errors)) + loan_source_issues(
            *c,
            prefix@,
            function@,
            loan@,
        ),
{
    proof {
        reveal(loan_source_issues);
    }
    let ghost start = strings_view(*errors);
    if let Some(permission) = permission_of_loan(c, function, &loan.place) {
        if loan.mutable && !permission.satisfies(ReferencePermission::Mutable) {
            report(
                errors,
                cat2(prefix, ": mutable loan recovers permission unavailable through its source capability"),
            );
        }
    }
    if let (Some(found), Some(root)) = (capability_through(function, &loan.place), &loan.place.root_ty) {
        let target: &Ty = target_of_loan(root);
        if !types_compatible(c, found.target, target) {
            report(
                errors,
                cat5(
                    prefix,
                    ": loan place root type ",
                    &target.text(),
                    " is incompatible with its through-reference capability target ",
                    &found.target.text(),
                ),
            );
        }
    }
    assert(strings_view(*errors) =~= start + loan_source_issues(*c, prefix@, function@, loan@));
}

/// The issues of the interior that a loan names.
#[verifier::opaque]
pub open spec fn loan_interior_issues(
    prefix: Seq<char>,
    function: MirFunctionModel,
    loan: MirLoanModel,
) -> Seq<Seq<char>> {
    match loan.interior {
        Some(origin) => rule(
            origin.root >= function.n_vars,
            prefix + ": interior loan has invalid root slot "@ + dec(origin.root as nat),
        ) + rule(
            origin.root != loan.place.root && loan.place.through is None,
            prefix + ": interior loan origin roots at slot "@ + dec(origin.root as nat) + ", but its executable place roots at slot "@ + dec(loan.place.root as nat),
        ) + rule(
            has_subtree(origin.path, origin.path.len() - 1),
            prefix + ": interior loan origin rooted at slot "@ + dec(origin.root as nat) + " has a non-terminal subtree segment"@,
        ) + rule(
            !names_interior(origin.path) && !has_subtree(origin.path, origin.path.len() as int),
            prefix + ": interior loan origin rooted at slot "@ + dec(origin.root as nat) + " has no interior segment"@,
        ),
        None => Seq::empty(),
    }
}

fn verify_loan_interior(prefix: &str, function: &MirFunction, loan: &MirLoan, errors: &mut Vec<String>)
    ensures
        strings_view(*final(errors)) == strings_view(*old(errors)) + loan_interior_issues(prefix@, function@, loan@),
{
    proof {
        reveal(loan_interior_issues);
    }
    let ghost start = strings_view(*errors);
    if let Some(origin) = &loan.interior {
        if origin.root as u64 >= function.n_vars as u64 {
            report(
                errors,
                cat3(prefix, ": interior loan has invalid root slot ", &dec_text(origin.root as u64)),
            );
        }
        if origin.root != loan.place.root && loan.place.through.is_none() {
            report(
                errors,
                cat5(
                    prefix,
                    ": interior loan origin roots at slot ",
                    &dec_text(origin.root as u64),
                    ", but its executable place roots at slot ",
                    &dec_text(loan.place.root as u64),
                ),
            );
        }
        assert(origin@.path.len() == origin.path@.len());
        if origin.path.len() > 0 && holds_subtree(&origin.path, origin.path.len() - 1) {
            report(
                errors,
                cat4(
                    prefix,
                    ": interior loan origin rooted at slot ",
                    &dec_text(origin.root as u64),
                    " has a non-terminal subtree segment",
                ),
            );
        }
        if !enters_interior(&origin.path) && !holds_subtree(&origin.path, origin.path.len()) {
            report(
                errors,
                cat4(
                    prefix,
                    ": interior loan origin rooted at slot ",
                    &dec_text(origin.root as u64),
                    " has no interior segment",
                ),
            );
        }
    }
    assert(strings_view(*errors) =~= start + loan_interior_issues(prefix@, function@, loan@));
}

/// The issues of loans in order.
pub open spec fn loans_issues<C: Checker>(
    c: C,
    prefix: Seq<char>,
    function: MirFunctionModel,
    loans: Seq<MirLoanModel>,
) -> Seq<
    Seq<char>,
>
    decreases loans.len(),
{
    if loans.len() == 0 {
        Seq::empty()
    } else {
        loans_issues(
            c,
            prefix,
            function,
            loans.drop_last(),
        ) + loan_source_issues(c, prefix, function, loans.last())
            + loan_interior_issues(prefix, function, loans.last())
    }
}

fn verify_loans<C: Checker>(
    c: &C,
    prefix: &str,
    function: &MirFunction,
    loans: &Vec<MirLoan>,
    errors: &mut Vec<String>,
)
    ensures
        strings_view(*final(errors)) == strings_view(*old(errors)) + loans_issues(
            *c,
            prefix@,
            function@,
            loans_view(*loans),
        ),
{
    let ghost start = strings_view(*errors);
    let ghost model = loans_view(*loans);
    assert(start =~= start + loans_issues(*c, prefix@, function@, model.take(0)));
    for i in 0..loans.len()
        invariant
            model == loans_view(*loans),
            strings_view(*errors) == start + loans_issues(*c, prefix@, function@, model.take(i as int)),
    {
        assert(model.take(i + 1).drop_last() =~= model.take(i as int));
        assert(model[i as int] == loans@[i as int]@);
        verify_loan_source(c, prefix, function, &loans[i], errors);
        verify_loan_interior(prefix, function, &loans[i], errors);
        assert(strings_view(*errors) =~= start + loans_issues(*c, prefix@, function@, model.take(i + 1)));
    }
    assert(model.take(model.len() as int) =~= model);
}

/// The issues of the interior that a loan generation writes.
#[verifier::opaque]
pub open spec fn loan_destination_issues(
    prefix: Seq<char>,
    reference: u32,
    domain: Option<MirInteriorModel>,
) -> Seq<Seq<char>> {
    match domain {
        Some(domain) => rule(
            domain.root != reference,
            prefix + ": loan destination domain roots at slot "@ + dec(domain.root as nat) + " instead of the generation's reference slot "@ + dec(reference as nat),
        ) + rule(domain.path.len() == 0, prefix + ": loan destination domain has an empty interior path"@) + rule(
            has_subtree(domain.path, domain.path.len() as int),
            prefix + ": loan destination domain contains a subtree segment"@,
        ),
        None => Seq::empty(),
    }
}

fn verify_loan_destination(
    prefix: &str,
    reference: u32,
    domain: &Option<MirInterior>,
    errors: &mut Vec<String>,
)
    ensures
        strings_view(*final(errors)) == strings_view(*old(errors)) + loan_destination_issues(
            prefix@,
            reference,
            opt_interior_view(*domain),
        ),
{
    proof {
        reveal(loan_destination_issues);
    }
    let ghost start = strings_view(*errors);
    if let Some(domain) = domain {
        if domain.root != reference {
            report(
                errors,
                cat5(
                    prefix,
                    ": loan destination domain roots at slot ",
                    &dec_text(domain.root as u64),
                    " instead of the generation's reference slot ",
                    &dec_text(reference as u64),
                ),
            );
        }
        assert(domain@.path.len() == domain.path@.len());
        if domain.path.len() == 0 {
            report(errors, cat2(prefix, ": loan destination domain has an empty interior path"));
        }
        if holds_subtree(&domain.path, domain.path.len()) {
            report(errors, cat2(prefix, ": loan destination domain contains a subtree segment"));
        }
    }
    assert(
        strings_view(*errors) =~= start + loan_destination_issues(
            prefix@,
            reference,
            opt_interior_view(*domain),
        )
    );
}

/// The issues of a loan generation.
#[verifier::opaque]
pub open spec fn establish_loans_issues<C: Checker>(
    c: C,
    prefix: Seq<char>,
    function: MirFunctionModel,
    reference: u32,
    loans: Seq<MirLoanModel>,
    domain: Option<MirInteriorModel>,
) -> Seq<Seq<char>> {
    rule(
        reference >= function.n_vars,
        prefix + ": loan generation has invalid reference slot "@ + dec(reference as nat),
    ) + rule(loans.len() == 0, prefix + ": loan generation has no owner loans"@) + loan_destination_issues(
        prefix,
        reference,
        domain,
    ) + loans_issues(c, prefix, function, loans)
}

pub fn verify_establish_loans<C: Checker>(
    c: &C,
    prefix: &str,
    function: &MirFunction,
    reference: u32,
    loans: &Vec<MirLoan>,
    domain: &Option<MirInterior>,
    errors: &mut Vec<String>,
)
    ensures
        strings_view(*final(errors)) == strings_view(*old(errors)) + establish_loans_issues(
            *c,
            prefix@,
            function@,
            reference,
            loans_view(*loans),
            opt_interior_view(*domain),
        ),
{
    proof {
        reveal(establish_loans_issues);
    }
    let ghost start = strings_view(*errors);
    assert(loans_view(*loans).len() == loans@.len());
    if reference as u64 >= function.n_vars as u64 {
        report(
            errors,
            cat3(prefix, ": loan generation has invalid reference slot ", &dec_text(reference as u64)),
        );
    }
    if loans.len() == 0 {
        report(errors, cat2(prefix, ": loan generation has no owner loans"));
    }
    verify_loan_destination(prefix, reference, domain, errors);
    verify_loans(c, prefix, function, loans, errors);
    assert(
        strings_view(*errors) =~= start + establish_loans_issues(
            *c,
            prefix@,
            function@,
            reference,
            loans_view(*loans),
            opt_interior_view(*domain),
        )
    );
}

/// The issues of an interior invalidation.
#[verifier::opaque]
pub open spec fn invalidate_interiors_issues(
    prefix: Seq<char>,
    function: MirFunctionModel,
    base: MirInteriorModel,
    except: Option<u32>,
    inclusive: bool,
) -> Seq<Seq<char>> {
    rule(
        base.root >= function.n_vars,
        prefix + ": interior invalidation has invalid root slot "@ + dec(base.root as nat),
    ) + (match except {
        Some(reference) => rule(
            reference >= function.n_vars,
            prefix + ": interior invalidation exception has invalid reference slot "@ + dec(reference as nat),
        ),
        None => Seq::empty(),
    }) + rule(
        inclusive && !names_interior(base.path),
        prefix + ": inclusive interior invalidation has no named interior generation"@,
    )
}

pub fn verify_invalidate_interiors(
    prefix: &str,
    function: &MirFunction,
    base: &MirInterior,
    except: &Option<u32>,
    inclusive: bool,
    errors: &mut Vec<String>,
)
    ensures
        strings_view(*final(errors)) == strings_view(*old(errors)) + invalidate_interiors_issues(
            prefix@,
            function@,
            base@,
            *except,
            inclusive,
        ),
{
    proof {
        reveal(invalidate_interiors_issues);
    }
    let ghost start = strings_view(*errors);
    if base.root as u64 >= function.n_vars as u64 {
        report(
            errors,
            cat3(prefix, ": interior invalidation has invalid root slot ", &dec_text(base.root as u64)),
        );
    }
    if let Some(reference) = except {
        let reference: u32 = *reference;
        if reference as u64 >= function.n_vars as u64 {
            report(
                errors,
                cat3(
                    prefix,
                    ": interior invalidation exception has invalid reference slot ",
                    &dec_text(reference as u64),
                ),
            );
        }
    }
    if inclusive && !enters_interior(&base.path) {
        report(errors, cat2(prefix, ": inclusive interior invalidation has no named interior generation"));
    }
    assert(
        strings_view(*errors) =~= start + invalidate_interiors_issues(
            prefix@,
            function@,
            base@,
            *except,
            inclusive,
        )
    );
}

/// The permission of the stored handle that a borrow forwards. A place that ends at
/// a stored reference is forwarded where its storage does not fit the destination
/// but its referent does.
pub open spec fn forwarded<C: Checker>(
    c: C,
    place: MirPlaceModel,
    wanted: TyModel,
    target: TyModel,
) -> Option<
    ReferencePermission,
> {
    match place.ty {
        Some(TyModel::Ref(stored)) => if !compat(c, wanted, target) && compat(c, wanted, *stored.referent) {
            Some(permission_of(stored.mutability))
        } else {
            None
        },
        _ => None,
    }
}

fn forwarded_permission<C: Checker>(
    c: &C,
    place: &MirPlace,
    wanted: &Ty,
    target: &Ty,
) -> (r: Option<ReferencePermission>)
    ensures
        r == forwarded(*c, place@, wanted@, target@),
{
    match &place.ty {
        Some(Ty::Ref(stored)) => {
            assert(*stored@.referent == stored.referent@);
            if !types_compatible(c, wanted, target) && types_compatible(c, wanted, &stored.referent) {
                Some(ReferencePermission::from_mutability(stored.mutability))
            } else {
                None
            }
        },
        _ => None,
    }
}

/// The issues of a borrow whose storage is known.
#[verifier::opaque]
pub open spec fn borrowed_issues<C: Checker>(
    c: C,
    prefix: Seq<char>,
    place: MirPlaceModel,
    wanted: TyModel,
    permission: ReferencePermission,
    target: TyModel,
    granted: Option<ReferencePermission>,
) -> Seq<Seq<char>> {
    match forwarded(c, place, wanted, target) {
        Some(stored) => rule(
            !grants(stored, permission),
            prefix + ": MakeRef destination recovers permission unavailable through its source capability"@,
        ),
        None => rule(
            !compat(c, wanted, target),
            prefix + ": MakeRef destination targets "@ + ty_text(wanted) + ", incompatible with place storage "@ + ty_text(target),
        ) + rule(
            granted is Some && !grants(granted->Some_0, permission),
            prefix + ": MakeRef destination recovers permission unavailable through its source capability"@,
        ),
    }
}

fn verify_borrowed<C: Checker>(
    c: &C,
    prefix: &str,
    place: &MirPlace,
    wanted: &Ty,
    permission: ReferencePermission,
    target: &Ty,
    granted: Option<ReferencePermission>,
    errors: &mut Vec<String>,
)
    ensures
        strings_view(*final(errors)) == strings_view(*old(errors)) + borrowed_issues(
            *c,
            prefix@,
            place@,
            wanted@,
            permission,
            target@,
            granted,
        ),
{
    proof {
        reveal(borrowed_issues);
    }
    let ghost start = strings_view(*errors);
    match forwarded_permission(c, place, wanted, target) {
        Some(stored) => {
            if !stored.satisfies(permission) {
                report(
                    errors,
                    cat2(
                        prefix,
                        ": MakeRef destination recovers permission unavailable through its source capability",
                    ),
                );
            }
        },
        None => {
            if !types_compatible(c, wanted, target) {
                report(
                    errors,
                    cat5(
                        prefix,
                        ": MakeRef destination targets ",
                        &wanted.text(),
                        ", incompatible with place storage ",
                        &target.text(),
                    ),
                );
            }
            if let Some(granted) = granted {
                if !granted.satisfies(permission) {
                    report(
                        errors,
                        cat2(
                            prefix,
                            ": MakeRef destination recovers permission unavailable through its source capability",
                        ),
                    );
                }
            }
        },
    }
    assert(
        strings_view(*errors) =~= start + borrowed_issues(
            *c,
            prefix@,
            place@,
            wanted@,
            permission,
            target@,
            granted,
        )
    );
}

/// The issues of a borrow.
#[verifier::opaque]
pub open spec fn make_ref_issues<C: Checker>(
    c: C,
    prefix: Seq<char>,
    dest: Option<TyModel>,
    place: MirPlaceModel,
) -> Seq<Seq<char>> {
    match dest {
        None => Seq::empty(),
        Some(destination) => match capability(destination) {
            None => seq![
                prefix + ": MakeRef destination has non-reference-capability type "@ + ty_text(destination),
            ],
            Some(wanted) => match c.borrow_target(place) {
                Some(target) => borrowed_issues(c, prefix, place, wanted.0, wanted.1, target.0, target.1),
                None => Seq::empty(),
            },
        },
    }
}

pub fn verify_make_ref<C: Checker>(
    c: &C,
    prefix: &str,
    dest: Option<&Ty>,
    place: &MirPlace,
    errors: &mut Vec<String>,
)
    ensures
        strings_view(*final(errors)) == strings_view(*old(errors)) + make_ref_issues(
            *c,
            prefix@,
            found_view(dest),
            place@,
        ),
{
    proof {
        reveal(make_ref_issues);
    }
    let ghost start = strings_view(*errors);
    if let Some(destination) = dest {
        match reference_capability(destination) {
            None => {
                report(
                    errors,
                    cat3(
                        prefix,
                        ": MakeRef destination has non-reference-capability type ",
                        &destination.text(),
                    ),
                );
            },
            Some(wanted) => {
                if let Some(target) = c.make_ref_target(place) {
                    verify_borrowed(
                        c,
                        prefix,
                        place,
                        wanted.target,
                        wanted.permission,
                        &target.0,
                        target.1,
                        errors,
                    );
                }
            },
        }
    }
    assert(strings_view(*errors) =~= start + make_ref_issues(*c, prefix@, found_view(dest), place@));
}

/// The issues of a read through a reference.
#[verifier::opaque]
pub open spec fn read_ref_issues<C: Checker>(
    c: C,
    prefix: Seq<char>,
    dest: Option<TyModel>,
    reference: Option<TyModel>,
) -> Seq<Seq<char>> {
    match reference {
        None => Seq::empty(),
        Some(source) => match capability(source) {
            None => seq![prefix + ": ReadRef source has non-reference-capability type "@ + ty_text(source)],
            Some(found) => match dest {
                Some(destination) => rule(
                    !compat(c, destination, found.0),
                    prefix + ": ReadRef result type "@ + ty_text(destination) + " is incompatible with referent "@ + ty_text(found.0),
                ),
                None => Seq::empty(),
            },
        },
    }
}

pub fn verify_read_ref<C: Checker>(
    c: &C,
    prefix: &str,
    dest: Option<&Ty>,
    reference: Option<&Ty>,
    errors: &mut Vec<String>,
)
    ensures
        strings_view(*final(errors)) == strings_view(*old(errors)) + read_ref_issues(
            *c,
            prefix@,
            found_view(dest),
            found_view(reference),
        ),
{
    proof {
        reveal(read_ref_issues);
    }
    let ghost start = strings_view(*errors);
    if let Some(source) = reference {
        match reference_capability(source) {
            None => {
                report(
                    errors,
                    cat3(prefix, ": ReadRef source has non-reference-capability type ", &source.text()),
                );
            },
            Some(found) => {
                if let Some(destination) = dest {
                    if !types_compatible(c, destination, found.target) {
                        report(
                            errors,
                            cat5(
                                prefix,
                                ": ReadRef result type ",
                                &destination.text(),
                                " is incompatible with referent ",
                                &found.target.text(),
                            ),
                        );
                    }
                }
            },
        }
    }
    assert(
        strings_view(*errors) =~= start + read_ref_issues(
            *c,
            prefix@,
            found_view(dest),
            found_view(reference),
        )
    );
}

/// The issues of a write through a reference.
#[verifier::opaque]
pub open spec fn write_ref_issues<C: Checker>(
    c: C,
    prefix: Seq<char>,
    reference: Option<TyModel>,
    value: Option<TyModel>,
) -> Seq<Seq<char>> {
    match reference {
        None => Seq::empty(),
        Some(source) => match capability(source) {
            None => seq![prefix + ": WriteRef source has non-reference-capability type "@ + ty_text(source)],
            Some(found) => rule(
                found.1 is Immutable,
                prefix + ": WriteRef source capability of type "@ + ty_text(source) + " is immutable"@,
            ) + (match value {
                Some(value) => rule(
                    !compat(c, value, found.0),
                    prefix + ": WriteRef value type "@ + ty_text(value) + " is incompatible with referent "@ + ty_text(found.0),
                ),
                None => Seq::empty(),
            }),
        },
    }
}

pub fn verify_write_ref<C: Checker>(
    c: &C,
    prefix: &str,
    reference: Option<&Ty>,
    value: Option<&Ty>,
    errors: &mut Vec<String>,
)
    ensures
        strings_view(*final(errors)) == strings_view(*old(errors)) + write_ref_issues(
            *c,
            prefix@,
            found_view(reference),
            found_view(value),
        ),
{
    proof {
        reveal(write_ref_issues);
    }
    let ghost start = strings_view(*errors);
    if let Some(source) = reference {
        match reference_capability(source) {
            None => {
                report(
                    errors,
                    cat3(prefix, ": WriteRef source has non-reference-capability type ", &source.text()),
                );
            },
            Some(found) => {
                if !found.permission.allows_write() {
                    report(
                        errors,
                        cat4(
                            prefix,
                            ": WriteRef source capability of type ",
                            &source.text(),
                            " is immutable",
                        ),
                    );
                }
                if let Some(value) = value {
                    if !types_compatible(c, value, found.target) {
                        report(
                            errors,
                            cat5(
                                prefix,
                                ": WriteRef value type ",
                                &value.text(),
                                " is incompatible with referent ",
                                &found.target.text(),
                            ),
                        );
                    }
                }
            },
        }
    }
    assert(
        strings_view(*errors) =~= start + write_ref_issues(
            *c,
            prefix@,
            found_view(reference),
            found_view(value),
        )
    );
}

/// Whether a literal can become a value of the type.
pub open spec fn literal_target(ty: TyModel) -> bool {
    match ty {
        TyModel::Int | TyModel::UInt | TyModel::Float64 => true,
        TyModel::Simd { width, .. } => width == 1,
        _ => false,
    }
}

/// Whether a literal of one type can become a value of the other.
pub open spec fn literal_fits(found: TyModel, target: TyModel) -> bool {
    match found {
        TyModel::IntLiteral => literal_target(target),
        TyModel::FloatLiteral => match target {
            TyModel::Float64 => true,
            TyModel::Simd { dtype, width } => width == 1 && dtype_is_float(dtype),
            _ => false,
        },
        _ => false,
    }
}

fn is_literal_target(ty: &Ty) -> (r: bool)
    ensures
        r == literal_target(ty@),
{
    match ty {
        Ty::Int | Ty::UInt | Ty::Float64 => true,
        Ty::Simd { width, .. } => *width == 1,
        _ => false,
    }
}

/// Whether a literal of one type can become a value of the other.
pub fn fits_literal(found: &Ty, target: &Ty) -> (r: bool)
    ensures
        r == literal_fits(found@, target@),
{
    match found {
        Ty::IntLiteral => is_literal_target(target),
        Ty::FloatLiteral => match target {
            Ty::Float64 => true,
            Ty::Simd { dtype, width } => *width == 1 && dtype.is_float(),
            _ => false,
        },
        _ => false,
    }
}

/// The issues of giving a literal its type.
#[verifier::opaque]
pub open spec fn materialize_issues(
    prefix: Seq<char>,
    value: Option<TyModel>,
    target: TyModel,
) -> Seq<Seq<char>> {
    rule(
        !literal_target(target),
        prefix + ": literal materialization has non-scalar target "@ + ty_text(target),
    ) + (match value {
        Some(found) => rule(
            !literal_fits(found, target),
            prefix + ": cannot materialize "@ + ty_text(found) + " as "@ + ty_text(target),
        ),
        None => Seq::empty(),
    })
}

pub fn verify_materialize(prefix: &str, value: Option<&Ty>, target: &Ty, errors: &mut Vec<String>)
    ensures
        strings_view(*final(errors)) == strings_view(*old(errors)) + materialize_issues(
            prefix@,
            found_view(value),
            target@,
        ),
{
    proof {
        reveal(materialize_issues);
    }
    let ghost start = strings_view(*errors);
    if !is_literal_target(target) {
        report(errors, cat3(prefix, ": literal materialization has non-scalar target ", &target.text()));
    }
    if let Some(found) = value {
        if !fits_literal(found, target) {
            report(errors, cat5(prefix, ": cannot materialize ", &found.text(), " as ", &target.text()));
        }
    }
    assert(strings_view(*errors) =~= start + materialize_issues(prefix@, found_view(value), target@));
}

/// Whether a type can result from constructing a type parameter.
pub open spec fn constructs_param(ty: TyModel, param: Seq<char>) -> bool {
    match ty {
        TyModel::Param { name, .. } => name == param,
        TyModel::Struct(..) => true,
        _ => false,
    }
}

/// The issues of constructing a type parameter.
#[verifier::opaque]
pub open spec fn construct_param_issues(
    prefix: Seq<char>,
    dest: Option<TyModel>,
    param: Seq<char>,
) -> Seq<Seq<char>> {
    match dest {
        Some(found) => rule(
            !constructs_param(found, param),
            prefix + ": type-parameter construction of '"@ + param + "' has result type "@ + ty_text(found),
        ),
        None => Seq::empty(),
    }
}

pub fn verify_construct_param(prefix: &str, dest: Option<&Ty>, param: &str, errors: &mut Vec<String>)
    ensures
        strings_view(*final(errors)) == strings_view(*old(errors)) + construct_param_issues(
            prefix@,
            found_view(dest),
            param@,
        ),
{
    proof {
        reveal(construct_param_issues);
    }
    let ghost start = strings_view(*errors);
    if let Some(found) = dest {
        let fits: bool = match found {
            Ty::Param { name, .. } => str_eq(name, param),
            Ty::Struct(_, _) => true,
            _ => false,
        };
        if !fits {
            report(
                errors,
                cat5(
                    prefix,
                    ": type-parameter construction of '",
                    param,
                    "' has result type ",
                    &found.text(),
                ),
            );
        }
    }
    assert(strings_view(*errors) =~= start + construct_param_issues(prefix@, found_view(dest), param@));
}

/// The layout of a type under a program's struct declarations.
pub open spec fn declared_layout(declarations: MirDeclarationsModel, ty: TyModel) -> Result<Layout, Seq<char>> {
    let fields = declared_fields(declarations.structs, declarations.structs.len() as int);
    ty_layout(ty, StructsModel { fields, count: fields.dom().len() }, fields.dom().len())
}

/// The issues of taking the size of a type.
#[verifier::opaque]
pub open spec fn size_of_issues(
    prefix: Seq<char>,
    declarations: MirDeclarationsModel,
    dest: Option<TyModel>,
    ty: TyModel,
) -> Seq<Seq<char>> {
    (match dest {
        Some(found) => rule(
            !(found is Int),
            prefix + ": size_of result register has type "@ + ty_text(found) + ", expected Int"@,
        ),
        None => Seq::empty(),
    }) + (match declared_layout(declarations, ty) {
        Err(error) => seq![prefix + ": size_of has no layout for "@ + ty_text(ty) + ": "@ + error],
        Ok(_) => Seq::empty(),
    })
}

pub fn verify_size_of(
    prefix: &str,
    declarations: &MirDeclarations,
    dest: Option<&Ty>,
    ty: &Ty,
    errors: &mut Vec<String>,
)
    ensures
        strings_view(*final(errors)) == strings_view(*old(errors)) + size_of_issues(
            prefix@,
            declarations@,
            found_view(dest),
            ty@,
        ),
{
    proof {
        reveal(size_of_issues);
    }
    let ghost start = strings_view(*errors);
    if let Some(found) = dest {
        match found {
            Ty::Int => {},
            _ => {
                report(
                    errors,
                    cat4(prefix, ": size_of result register has type ", &found.text(), ", expected Int"),
                );
            },
        }
    }
    let target: NativeTarget = NativeTarget::new(Triple::X86_64UnknownLinuxGnu);
    let structs: StructFieldIndex = StructFieldIndex::from_declarations(declarations);
    let cx: LayoutCx<'_> = LayoutCx { target: &target, structs: &structs };
    assert(structs@ == StructsModel { fields: structs@.fields, count: structs@.count });
    if let Err(error) = cx.layout_of(ty) {
        report(errors, cat5(prefix, ": size_of has no layout for ", &ty.text(), ": ", &error.text()));
    }
    assert(strings_view(*errors) =~= start + size_of_issues(prefix@, declarations@, found_view(dest), ty@));
}

/// The issues of a copy.
#[verifier::opaque]
pub open spec fn copy_value_issues(
    prefix: Seq<char>,
    dest: Option<TyModel>,
    value: Option<TyModel>,
) -> Seq<Seq<char>> {
    match (value, dest) {
        (Some(found), Some(expected)) => rule(
            found != expected,
            prefix + ": copied value has type "@ + ty_text(found) + ", destination has type "@ + ty_text(expected),
        ),
        _ => Seq::empty(),
    }
}

pub fn verify_copy_value(prefix: &str, dest: Option<&Ty>, value: Option<&Ty>, errors: &mut Vec<String>)
    ensures
        strings_view(*final(errors)) == strings_view(*old(errors)) + copy_value_issues(
            prefix@,
            found_view(dest),
            found_view(value),
        ),
{
    proof {
        reveal(copy_value_issues);
    }
    let ghost start = strings_view(*errors);
    if let (Some(found), Some(expected)) = (value, dest) {
        if !found.same(expected) {
            report(
                errors,
                cat5(
                    prefix,
                    ": copied value has type ",
                    &found.text(),
                    ", destination has type ",
                    &expected.text(),
                ),
            );
        }
    }
    assert(strings_view(*errors) =~= start + copy_value_issues(prefix@, found_view(dest), found_view(value)));
}

/// The issues of a store.
#[verifier::opaque]
pub open spec fn store_issues<C: Checker>(
    c: C,
    prefix: Seq<char>,
    place: MirPlaceModel,
    src: Option<TyModel>,
) -> Seq<Seq<char>> {
    match (place.ty, src) {
        (Some(expected), Some(found)) => rule(
            !compat(c, found, referent_of(expected)),
            prefix + ": store of "@ + ty_text(found) + " into storage of type "@ + ty_text(referent_of(expected)),
        ),
        _ => Seq::empty(),
    }
}

pub fn verify_store<C: Checker>(
    c: &C,
    prefix: &str,
    place: &MirPlace,
    src: Option<&Ty>,
    errors: &mut Vec<String>,
)
    ensures
        strings_view(*final(errors)) == strings_view(*old(errors)) + store_issues(
            *c,
            prefix@,
            place@,
            found_view(src),
        ),
{
    proof {
        reveal(store_issues);
    }
    let ghost start = strings_view(*errors);
    if let (Some(expected), Some(found)) = (&place.ty, src) {
        let target: &Ty = peel_ref(expected);
        if !types_compatible(c, found, target) {
            report(
                errors,
                cat5(prefix, ": store of ", &found.text(), " into storage of type ", &target.text()),
            );
        }
    }
    assert(strings_view(*errors) =~= start + store_issues(*c, prefix@, place@, found_view(src)));
}

/// The issues of storing a reference.
#[verifier::opaque]
pub open spec fn store_ref_issues<C: Checker>(
    c: C,
    prefix: Seq<char>,
    place: MirPlaceModel,
    reference: Option<TyModel>,
) -> Seq<Seq<char>> {
    match place.ty {
        None => Seq::empty(),
        Some(storage) => match storage {
            TyModel::Ref(kept) => match reference {
                None => Seq::empty(),
                Some(source) => match source {
                    TyModel::Ref(given) => rule(
                        !compat(c, *given.referent, *kept.referent),
                        prefix + ": StoreRef source referent "@ + ty_text(*given.referent) + " is incompatible with storage referent "@ + ty_text(*kept.referent),
                    ) + rule(
                        !grants(permission_of(given.mutability), permission_of(kept.mutability)),
                        prefix + ": StoreRef source permission cannot initialize storage of type "@ + ty_text(storage),
                    ),
                    _ => seq![prefix + ": StoreRef source has non-reference type "@ + ty_text(source)],
                },
            },
            _ => seq![prefix + ": StoreRef into non-reference storage of type "@ + ty_text(storage)],
        },
    }
}

pub fn verify_store_ref<C: Checker>(
    c: &C,
    prefix: &str,
    place: &MirPlace,
    reference: Option<&Ty>,
    errors: &mut Vec<String>,
)
    ensures
        strings_view(*final(errors)) == strings_view(*old(errors)) + store_ref_issues(
            *c,
            prefix@,
            place@,
            found_view(reference),
        ),
{
    proof {
        reveal(store_ref_issues);
    }
    let ghost start = strings_view(*errors);
    if let Some(storage) = &place.ty {
        match storage {
            Ty::Ref(kept) => {
                if let Some(source) = reference {
                    match source {
                        Ty::Ref(given) => {
                            assert(*kept@.referent == kept.referent@);
                            assert(*given@.referent == given.referent@);
                            if !types_compatible(c, &given.referent, &kept.referent) {
                                report(
                                    errors,
                                    cat5(
                                        prefix,
                                        ": StoreRef source referent ",
                                        &given.referent.text(),
                                        " is incompatible with storage referent ",
                                        &kept.referent.text(),
                                    ),
                                );
                            }
                            let from: ReferencePermission = ReferencePermission::from_mutability(given.mutability);
                            let to: ReferencePermission = ReferencePermission::from_mutability(kept.mutability);
                            if !from.satisfies(to) {
                                report(
                                    errors,
                                    cat3(
                                        prefix,
                                        ": StoreRef source permission cannot initialize storage of type ",
                                        &storage.text(),
                                    ),
                                );
                            }
                        },
                        _ => {
                            report(
                                errors,
                                cat3(prefix, ": StoreRef source has non-reference type ", &source.text()),
                            );
                        },
                    }
                }
            },
            _ => {
                report(
                    errors,
                    cat3(prefix, ": StoreRef into non-reference storage of type ", &storage.text()),
                );
            },
        }
    }
    assert(strings_view(*errors) =~= start + store_ref_issues(*c, prefix@, place@, found_view(reference)));
}

/// The issues of binding a value to a typed slot.
#[verifier::opaque]
pub open spec fn bind_issues<C: Checker>(
    c: C,
    prefix: Seq<char>,
    src: Option<TyModel>,
    binding: Option<TyModel>,
) -> Seq<Seq<char>> {
    match (src, binding) {
        (Some(found), Some(expected)) => rule(
            !compat(c, found, expected),
            prefix + ": binding of "@ + ty_text(found) + " to a slot of type "@ + ty_text(expected),
        ),
        _ => Seq::empty(),
    }
}

pub fn verify_bind<C: Checker>(
    c: &C,
    prefix: &str,
    src: Option<&Ty>,
    binding: &Option<Ty>,
    errors: &mut Vec<String>,
)
    ensures
        strings_view(*final(errors)) == strings_view(*old(errors)) + bind_issues(
            *c,
            prefix@,
            found_view(src),
            opt_ty_view(*binding),
        ),
{
    proof {
        reveal(bind_issues);
    }
    let ghost start = strings_view(*errors);
    if let (Some(found), Some(expected)) = (src, binding) {
        if !types_compatible(c, found, expected) {
            report(
                errors,
                cat5(prefix, ": binding of ", &found.text(), " to a slot of type ", &expected.text()),
            );
        }
    }
    assert(
        strings_view(*errors) =~= start + bind_issues(*c, prefix@, found_view(src), opt_ty_view(*binding))
    );
}

/// The issues of constructing a variant.
#[verifier::opaque]
pub open spec fn make_variant_issues<C: Checker>(
    c: C,
    prefix: Seq<char>,
    alternatives: Seq<TyModel>,
    index: usize,
    value: Option<TyModel>,
) -> Seq<Seq<char>> {
    if index >= alternatives.len() {
        seq![
            prefix + ": variant construction index "@ + dec(index as nat) + " out of "@ + dec(alternatives.len() as nat) + " alternatives"@,
        ]
    } else {
        match value {
            Some(found) => rule(
                !compat(c, found, alternatives[index as int]),
                prefix + ": variant payload "@ + ty_text(found) + " does not fit alternative "@ + ty_text(alternatives[index as int]),
            ),
            None => Seq::empty(),
        }
    }
}

pub fn verify_make_variant<C: Checker>(
    c: &C,
    prefix: &str,
    alternatives: &Vec<Ty>,
    index: usize,
    value: Option<&Ty>,
    errors: &mut Vec<String>,
)
    ensures
        strings_view(*final(errors)) == strings_view(*old(errors)) + make_variant_issues(
            *c,
            prefix@,
            tys_view(*alternatives),
            index,
            found_view(value),
        ),
{
    proof {
        reveal(make_variant_issues);
    }
    let ghost start = strings_view(*errors);
    assert(tys_view(*alternatives).len() == alternatives@.len());
    if index >= alternatives.len() {
        report(
            errors,
            cat6(
                prefix,
                ": variant construction index ",
                &dec_text_usize(index as usize),
                " out of ",
                &dec_text_usize(alternatives.len() as usize),
                " alternatives",
            ),
        );
    } else if let Some(found) = value {
        let expected: &Ty = &alternatives[index];
        assert(tys_view(*alternatives)[index as int] == expected@);
        if !types_compatible(c, found, expected) {
            report(
                errors,
                cat5(
                    prefix,
                    ": variant payload ",
                    &found.text(),
                    " does not fit alternative ",
                    &expected.text(),
                ),
            );
        }
    }
    assert(
        strings_view(*errors) =~= start + make_variant_issues(
            *c,
            prefix@,
            tys_view(*alternatives),
            index,
            found_view(value),
        )
    );
}

/// Whether every one of the first `n` parameters is passed by reference, as far as
/// the flags go.
pub open spec fn reference_prefix(ref_params: Seq<bool>, n: nat) -> bool {
    forall|i: int| 0 <= i < n && i < ref_params.len() ==> #[trigger] ref_params[i]
}

fn is_reference_prefix(ref_params: &Vec<bool>, n: usize) -> (r: bool)
    ensures
        r == reference_prefix(ref_params@, n as nat),
{
    for i in 0..ref_params.len()
        invariant
            forall|j: int| 0 <= j < i && j < n ==> #[trigger] ref_params@[j],
    {
        if i < n && !ref_params[i] {
            return false;
        }
    }
    true
}

/// The issues of building a closure.
#[verifier::opaque]
pub open spec fn make_closure_issues(
    prefix: Seq<char>,
    declarations: MirDeclarationsModel,
    dest: Option<TyModel>,
    target: Seq<char>,
    captures: Seq<MirCaptureModel>,
) -> Seq<Seq<char>> {
    (match declaration_of(declarations.functions, target) {
        None => seq![prefix + ": closure refers to undeclared lifted function '"@ + target + "'"@],
        Some(declaration) => rule(
            captures.len() > declaration.param_types.len(),
            prefix + ": closure has "@ + dec(captures.len() as nat) + " captures for '"@ + target + "' with only "@ + dec(
                declaration.param_types.len() as nat
            ) + " parameters"@,
        ) + rule(
            !reference_prefix(declaration.ref_params, captures.len()),
            prefix + ": closure environment for '"@ + target + "' is not a reference-parameter prefix"@,
        ),
    }) + (match dest {
        Some(found) => rule(
            !(found is Func || found is GenericFunc),
            prefix + ": closure result has non-callable type "@ + ty_text(found),
        ),
        None => Seq::empty(),
    })
}

pub fn verify_make_closure(
    prefix: &str,
    declarations: &MirDeclarations,
    dest: Option<&Ty>,
    target: &str,
    captures: &Vec<MirCapture>,
    errors: &mut Vec<String>,
)
    ensures
        strings_view(*final(errors)) == strings_view(*old(errors)) + make_closure_issues(
            prefix@,
            declarations@,
            found_view(dest),
            target@,
            captures_view(*captures),
        ),
{
    proof {
        reveal(make_closure_issues);
    }
    let ghost start = strings_view(*errors);
    assert(captures_view(*captures).len() == captures@.len());
    match declared(declarations, target) {
        None => {
            report(errors, cat4(prefix, ": closure refers to undeclared lifted function '", target, "'"));
        },
        Some(declaration) => {
            assert(declaration@.param_types.len() == declaration.param_types@.len());
            if captures.len() > declaration.param_types.len() {
                report(
                    errors,
                    cat8(
                        prefix,
                        ": closure has ",
                        &dec_text_usize(captures.len() as usize),
                        " captures for '",
                        target,
                        "' with only ",
                        &dec_text_usize(declaration.param_types.len() as usize),
                        " parameters",
                    ),
                );
            }
            if !is_reference_prefix(&declaration.ref_params, captures.len()) {
                report(
                    errors,
                    cat4(
                        prefix,
                        ": closure environment for '",
                        target,
                        "' is not a reference-parameter prefix",
                    ),
                );
            }
        },
    }
    if let Some(found) = dest {
        match found {
            Ty::Func { .. } => {},
            Ty::GenericFunc { .. } => {},
            _ => {
                report(errors, cat3(prefix, ": closure result has non-callable type ", &found.text()));
            },
        }
    }
    assert(
        strings_view(*errors) =~= start + make_closure_issues(
            prefix@,
            declarations@,
            found_view(dest),
            target@,
            captures_view(*captures),
        )
    );
}

/// Whether a type is a raw, writable pointer to the element.
pub open spec fn raw_pointer_to<C: Checker>(c: C, ty: TyModel, element: TyModel) -> bool {
    match ty {
        TyModel::Pointer { element: actual, origin } => origin == (PointerOriginModel::Untracked { mutable: true })
            && compat(c, *actual, element),
        _ => false,
    }
}

fn is_raw_pointer_to<C: Checker>(c: &C, ty: &Ty, element: &Ty) -> (r: bool)
    ensures
        r == raw_pointer_to(*c, ty@, element@),
{
    match ty {
        Ty::Pointer { element: actual, origin } => match origin {
            PointerOrigin::Untracked { mutable } => *mutable && types_compatible(c, actual, element),
            _ => false,
        },
        _ => false,
    }
}

/// The issues of taking or destroying an element behind a raw pointer.
#[verifier::opaque]
pub open spec fn pointer_storage_op_issues<C: Checker>(
    c: C,
    prefix: Seq<char>,
    dest: Option<TyModel>,
    pointer: Option<TyModel>,
    index: Option<TyModel>,
    element: TyModel,
    expected: TyModel,
) -> Seq<Seq<char>> {
    (match pointer {
        Some(found) => rule(
            !raw_pointer_to(c, found, element),
            prefix + ": compiler-private pointer storage operation expects Pointer["@ + ty_text(element) + ", MutUntrackedOrigin], got "@ + ty_text(found),
        ),
        None => Seq::empty(),
    }) + (match index {
        Some(found) => rule(
            !compat(c, found, TyModel::Int),
            prefix + ": compiler-private pointer storage index has type "@ + ty_text(found) + ", expected Int"@,
        ),
        None => Seq::empty(),
    }) + (match dest {
        Some(found) => rule(
            !compat(c, found, expected),
            prefix + ": compiler-private pointer storage result has type "@ + ty_text(found) + ", expected "@ + ty_text(expected),
        ),
        None => Seq::empty(),
    })
}

pub fn verify_pointer_storage_op<C: Checker>(
    c: &C,
    prefix: &str,
    dest: Option<&Ty>,
    pointer: Option<&Ty>,
    index: Option<&Ty>,
    element: &Ty,
    expected: &Ty,
    errors: &mut Vec<String>,
)
    ensures
        strings_view(*final(errors)) == strings_view(*old(errors)) + pointer_storage_op_issues(
            *c,
            prefix@,
            found_view(dest),
            found_view(pointer),
            found_view(index),
            element@,
            expected@,
        ),
{
    proof {
        reveal(pointer_storage_op_issues);
    }
    let ghost start = strings_view(*errors);
    if let Some(found) = pointer {
        if !is_raw_pointer_to(c, found, element) {
            report(
                errors,
                cat5(
                    prefix,
                    ": compiler-private pointer storage operation expects Pointer[",
                    &element.text(),
                    ", MutUntrackedOrigin], got ",
                    &found.text(),
                ),
            );
        }
    }
    if let Some(found) = index {
        if !types_compatible(c, found, &Ty::Int) {
            report(
                errors,
                cat4(
                    prefix,
                    ": compiler-private pointer storage index has type ",
                    &found.text(),
                    ", expected Int",
                ),
            );
        }
    }
    if let Some(found) = dest {
        if !types_compatible(c, found, expected) {
            report(
                errors,
                cat5(
                    prefix,
                    ": compiler-private pointer storage result has type ",
                    &found.text(),
                    ", expected ",
                    &expected.text(),
                ),
            );
        }
    }
    assert(
        strings_view(*errors) =~= start + pointer_storage_op_issues(
            *c,
            prefix@,
            found_view(dest),
            found_view(pointer),
            found_view(index),
            element@,
            expected@,
        )
    );
}

/// The issues of building inline storage that may be uninitialized.
#[verifier::opaque]
pub open spec fn uninit_storage_issues<C: Checker>(
    c: C,
    prefix: Seq<char>,
    dest: Option<TyModel>,
    init: Option<TyModel>,
) -> Seq<Seq<char>> {
    (match dest {
        Some(found) => rule(
            uninit_element(found) is None,
            prefix + ": inline uninit storage construction has type "@ + ty_text(found) + ", expected __UninitStorage"@,
        ),
        None => Seq::empty(),
    }) + (match (dest, init) {
        (Some(storage), Some(found)) => match uninit_element(storage) {
            Some(element) => rule(
                !compat(c, found, element),
                prefix + ": inline uninit storage payload has type "@ + ty_text(found) + ", expected "@ + ty_text(element),
            ),
            None => Seq::empty(),
        },
        _ => Seq::empty(),
    })
}

pub fn verify_uninit_storage<C: Checker>(
    c: &C,
    prefix: &str,
    dest: Option<&Ty>,
    init: Option<&Ty>,
    errors: &mut Vec<String>,
)
    ensures
        strings_view(*final(errors)) == strings_view(*old(errors)) + uninit_storage_issues(
            *c,
            prefix@,
            found_view(dest),
            found_view(init),
        ),
{
    proof {
        reveal(uninit_storage_issues);
    }
    let ghost start = strings_view(*errors);
    if let Some(found) = dest {
        if uninit_storage_element(found).is_none() {
            report(
                errors,
                cat4(
                    prefix,
                    ": inline uninit storage construction has type ",
                    &found.text(),
                    ", expected __UninitStorage",
                ),
            );
        }
    }
    if let (Some(storage), Some(found)) = (dest, init) {
        if let Some(element) = uninit_storage_element(storage) {
            if !types_compatible(c, found, element) {
                report(
                    errors,
                    cat5(
                        prefix,
                        ": inline uninit storage payload has type ",
                        &found.text(),
                        ", expected ",
                        &element.text(),
                    ),
                );
            }
        }
    }
    assert(
        strings_view(*errors) =~= start + uninit_storage_issues(
            *c,
            prefix@,
            found_view(dest),
            found_view(init),
        )
    );
}

/// Whether a type is inline storage of the element.
pub open spec fn uninit_storage_of<C: Checker>(c: C, ty: TyModel, element: TyModel) -> bool {
    match uninit_element(ty) {
        Some(actual) => compat(c, actual, element),
        None => false,
    }
}

fn is_uninit_storage_of<C: Checker>(c: &C, ty: &Ty, element: &Ty) -> (r: bool)
    ensures
        r == uninit_storage_of(*c, ty@, element@),
{
    match uninit_storage_element(ty) {
        Some(actual) => types_compatible(c, actual, element),
        None => false,
    }
}

/// The issues of taking or destroying inline storage.
#[verifier::opaque]
pub open spec fn uninit_storage_op_issues<C: Checker>(
    c: C,
    prefix: Seq<char>,
    dest: Option<TyModel>,
    storage: Option<TyModel>,
    element: TyModel,
    expected: TyModel,
) -> Seq<Seq<char>> {
    (match storage {
        Some(found) => rule(
            !uninit_storage_of(c, found, element),
            prefix + ": inline uninit storage operation expects __UninitStorage["@ + ty_text(element) + "], got "@ + ty_text(found),
        ),
        None => Seq::empty(),
    }) + (match dest {
        Some(found) => rule(
            !compat(c, found, expected),
            prefix + ": inline uninit storage result has type "@ + ty_text(found) + ", expected "@ + ty_text(expected),
        ),
        None => Seq::empty(),
    })
}

pub fn verify_uninit_storage_op<C: Checker>(
    c: &C,
    prefix: &str,
    dest: Option<&Ty>,
    storage: Option<&Ty>,
    element: &Ty,
    expected: &Ty,
    errors: &mut Vec<String>,
)
    ensures
        strings_view(*final(errors)) == strings_view(*old(errors)) + uninit_storage_op_issues(
            *c,
            prefix@,
            found_view(dest),
            found_view(storage),
            element@,
            expected@,
        ),
{
    proof {
        reveal(uninit_storage_op_issues);
    }
    let ghost start = strings_view(*errors);
    if let Some(found) = storage {
        if !is_uninit_storage_of(c, found, element) {
            report(
                errors,
                cat5(
                    prefix,
                    ": inline uninit storage operation expects __UninitStorage[",
                    &element.text(),
                    "], got ",
                    &found.text(),
                ),
            );
        }
    }
    if let Some(found) = dest {
        if !types_compatible(c, found, expected) {
            report(
                errors,
                cat5(
                    prefix,
                    ": inline uninit storage result has type ",
                    &found.text(),
                    ", expected ",
                    &expected.text(),
                ),
            );
        }
    }
    assert(
        strings_view(*errors) =~= start + uninit_storage_op_issues(
            *c,
            prefix@,
            found_view(dest),
            found_view(storage),
            element@,
            expected@,
        )
    );
}

} // verus!
