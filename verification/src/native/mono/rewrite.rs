//! Substituting solved parameters into instructions.

use crate::checked::{CheckedIteratorCall, CheckedIteratorCallModel, opt_checked_iterator_call_view};
use crate::data::copy_opt_string;
use crate::mir::{
    FuncRef, FuncRefModel, MirBlock, MirBlockModel, MirCapture, MirCaptureModel, MirInstr,
    MirInstrModel, MirLoan, MirLoanModel, MirPlace, MirPlaceModel, MirSubscriptCall,
    MirSubscriptCallModel, Reg, blocks_view, captures_view, copy_capture_accesses,
    copy_opt_interior, copy_opt_places, copy_param_args, copy_projs, copy_regs, copy_string_regs,
    copy_string_subscript_args, copy_subscript_args, copy_subscript_arguments, instrs_view,
    loans_view, opt_blocks_view, opt_opt_u32_blocks_view, opt_place_view, opt_places_view,
    opt_subscript_call_view,
};
use crate::native::mono::{MonoError, MonoErrorModel};
use crate::native::mono::bindings::{Bindings, BindingsModel};
use crate::native::mono::subst::{
    sub_args, sub_types, subst_arg_results, subst_results, subst_ty, substitute_ty, unsupported,
    unsupported_error,
};
use crate::origin::{RefTy, RefTyModel, opt_ref_ty_view};
use crate::outcome::{collect, lemma_collect_err, lemma_collect_ok};
use crate::text::cat3;
use crate::types::{
    Ty, TyArg, TyArgModel, TyModel, copy_param_decls, opt_ty_view, opt_tys_view, ty_args_view,
    tys_view,
};
use vstd::prelude::*;

verus! {

/// What the types become.
#[verifier::opaque]
pub open spec fn subst_tys(tys: Seq<TyModel>, b: BindingsModel) -> Result<Seq<TyModel>, MonoErrorModel> {
    collect(subst_results(tys, b))
}

/// What the application arguments become.
#[verifier::opaque]
pub open spec fn subst_ty_args(
    args: Seq<TyArgModel>,
    b: BindingsModel,
) -> Result<Seq<TyArgModel>, MonoErrorModel> {
    collect(subst_arg_results(args, b))
}

/// What a type becomes.
#[verifier::opaque]
pub open spec fn ty_with(ty: TyModel, b: BindingsModel) -> Result<TyModel, MonoErrorModel> {
    subst_ty(ty, b)
}

/// The type with its parameters replaced.
pub fn sub_ty(ty: &Ty, bindings: &Bindings) -> (r: Result<Ty, MonoError>)
    ensures
        match r {
            Ok(v) => ty_with(ty@, bindings@) == Ok::<TyModel, MonoErrorModel>(v@),
            Err(e) => ty_with(ty@, bindings@) == Err::<TyModel, MonoErrorModel>(e@),
        },
{
    proof {
        reveal(ty_with);
    }
    substitute_ty(ty, bindings)
}

/// The types with their parameters replaced.
pub fn sub_ty_list(tys: &Vec<Ty>, bindings: &Bindings) -> (r: Result<Vec<Ty>, MonoError>)
    ensures
        match r {
            Ok(v) => subst_tys(tys_view(*tys), bindings@) == Ok::<Seq<TyModel>, MonoErrorModel>(tys_view(v)),
            Err(e) => subst_tys(tys_view(*tys), bindings@) == Err::<Seq<TyModel>, MonoErrorModel>(e@),
        },
{
    proof {
        reveal(subst_tys);
    }
    sub_types(tys, bindings)
}

/// The application arguments with their parameters replaced.
pub fn sub_arg_list(args: &Vec<TyArg>, bindings: &Bindings) -> (r: Result<Vec<TyArg>, MonoError>)
    ensures
        match r {
            Ok(v) => subst_ty_args(
                ty_args_view(*args),
                bindings@,
            ) == Ok::<Seq<TyArgModel>, MonoErrorModel>(ty_args_view(v)),
            Err(e) => subst_ty_args(
                ty_args_view(*args),
                bindings@,
            ) == Err::<Seq<TyArgModel>, MonoErrorModel>(e@),
        },
{
    proof {
        reveal(subst_ty_args);
    }
    sub_args(args, bindings)
}

/// An optional type with its parameters replaced.
#[verifier::opaque]
pub open spec fn subst_opt_ty(x: Option<TyModel>, b: BindingsModel) -> Result<Option<TyModel>, MonoErrorModel>
{
    match x {
        Some(v) => match ty_with(v, b) {
            Ok(y) => Ok(Some(y)),
            Err(e) => Err(e),
        },
        None => Ok(None),
    }
}

/// An optional type with its parameters replaced.
pub fn sub_opt_ty(x: &Option<Ty>, bindings: &Bindings) -> (r: Result<Option<Ty>, MonoError>)
    ensures
        match r {
            Ok(v) => subst_opt_ty(opt_ty_view(*x), bindings@) == Ok::<Option<TyModel>, MonoErrorModel>(opt_ty_view(v)),
            Err(e) => subst_opt_ty(opt_ty_view(*x), bindings@) == Err::<Option<TyModel>, MonoErrorModel>(e@),
        },
{
    proof {
        reveal(subst_opt_ty);
    }
    match x {
        Some(v) => match sub_ty(v, bindings) {
            Ok(y) => Ok(Some(y)),
            Err(e) => Err(e),
        },
        None => Ok(None),
    }
}

/// An optional list of types with their parameters replaced.
#[verifier::opaque]
pub open spec fn subst_opt_tys(
    x: Option<Seq<TyModel>>,
    b: BindingsModel,
) -> Result<Option<Seq<TyModel>>, MonoErrorModel>
{
    match x {
        Some(v) => match subst_tys(v, b) {
            Ok(y) => Ok(Some(y)),
            Err(e) => Err(e),
        },
        None => Ok(None),
    }
}

/// An optional list of types with their parameters replaced.
pub fn sub_opt_types(x: &Option<Vec<Ty>>, bindings: &Bindings) -> (r: Result<Option<Vec<Ty>>, MonoError>)
    ensures
        match r {
            Ok(v) => subst_opt_tys(opt_tys_view(*x), bindings@) == Ok::<Option<Seq<TyModel>>, MonoErrorModel>(opt_tys_view(v)),
            Err(e) => subst_opt_tys(opt_tys_view(*x), bindings@) == Err::<Option<Seq<TyModel>>, MonoErrorModel>(e@),
        },
{
    proof {
        reveal(subst_opt_tys);
    }
    match x {
        Some(v) => match sub_ty_list(v, bindings) {
            Ok(y) => Ok(Some(y)),
            Err(e) => Err(e),
        },
        None => Ok(None),
    }
}

/// A reference type with the parameters of its referent replaced.
#[verifier::opaque]
pub open spec fn subst_ref(x: RefTyModel, b: BindingsModel) -> Result<RefTyModel, MonoErrorModel> {
    match ty_with(*x.referent, b) {
        Err(e) => Err(e),
        Ok(referent) => Ok(RefTyModel { referent: Box::new(referent), ..x }),
    }
}

/// Replaces the parameters of the referent.
pub fn substitute_ref(x: &RefTy, bindings: &Bindings) -> (r: Result<RefTy, MonoError>)
    ensures
        match r {
            Ok(v) => subst_ref(x@, bindings@) == Ok::<RefTyModel, MonoErrorModel>(v@),
            Err(e) => subst_ref(x@, bindings@) == Err::<RefTyModel, MonoErrorModel>(e@),
        },
{
    proof {
        reveal(subst_ref);
    }
    match sub_ty(&x.referent, bindings) {
        Err(e) => Err(e),
        Ok(referent) => {
            let out: RefTy = RefTy {
                referent: Box::new(referent),
                origin: x.origin.copy(),
                mutability: x.mutability,
            };
            assert(out@ =~= RefTyModel { referent: Box::new(referent@), ..x@ });
            Ok(out)
        },
    }
}

/// An optional reference type with the parameters of its referent replaced.
#[verifier::opaque]
pub open spec fn subst_opt_ref(
    x: Option<RefTyModel>,
    b: BindingsModel,
) -> Result<Option<RefTyModel>, MonoErrorModel>
{
    match x {
        Some(v) => match subst_ref(v, b) {
            Ok(y) => Ok(Some(y)),
            Err(e) => Err(e),
        },
        None => Ok(None),
    }
}

/// An optional reference type with the parameters of its referent replaced.
pub fn sub_ref_opt(x: &Option<RefTy>, bindings: &Bindings) -> (r: Result<Option<RefTy>, MonoError>)
    ensures
        match r {
            Ok(v) => subst_opt_ref(
                opt_ref_ty_view(*x),
                bindings@,
            ) == Ok::<Option<RefTyModel>, MonoErrorModel>(opt_ref_ty_view(v)),
            Err(e) => subst_opt_ref(
                opt_ref_ty_view(*x),
                bindings@,
            ) == Err::<Option<RefTyModel>, MonoErrorModel>(e@),
        },
{
    proof {
        reveal(subst_opt_ref);
    }
    match x {
        Some(v) => match substitute_ref(v, bindings) {
            Ok(y) => Ok(Some(y)),
            Err(e) => Err(e),
        },
        None => Ok(None),
    }
}

/// A place with the parameters in its checked types replaced.
#[verifier::opaque]
pub open spec fn subst_place(x: MirPlaceModel, b: BindingsModel) -> Result<MirPlaceModel, MonoErrorModel> {
    match subst_opt_ty(x.root_ty, b) {
        Err(e) => Err(e),
        Ok(root_ty) => match subst_tys(x.projection_tys, b) {
            Err(e) => Err(e),
            Ok(projection_tys) => match subst_opt_ty(x.ty, b) {
                Err(e) => Err(e),
                Ok(ty) => Ok(MirPlaceModel { root_ty, projection_tys, ty, ..x }),
            },
        },
    }
}

/// A place with the parameters in its checked types replaced.
pub fn substitute_place(x: &MirPlace, bindings: &Bindings) -> (r: Result<MirPlace, MonoError>)
    ensures
        match r {
            Ok(v) => subst_place(x@, bindings@) == Ok::<MirPlaceModel, MonoErrorModel>(v@),
            Err(e) => subst_place(x@, bindings@) == Err::<MirPlaceModel, MonoErrorModel>(e@),
        },
{
    proof {
        reveal(subst_place);
    }
    let root_ty: Option<Ty> = match sub_opt_ty(&x.root_ty, bindings) {
        Ok(v) => v,
        Err(e) => return Err(e),
    };
    let projection_tys: Vec<Ty> = match sub_ty_list(&x.projection_tys, bindings) {
        Ok(v) => v,
        Err(e) => return Err(e),
    };
    let ty: Option<Ty> = match sub_opt_ty(&x.ty, bindings) {
        Ok(v) => v,
        Err(e) => return Err(e),
    };
    let out: MirPlace = MirPlace {
        root: x.root,
        through: x.through,
        root_ty,
        proj: copy_projs(&x.proj),
        projection_tys,
        ty,
    };
    assert(
        out@ =~= MirPlaceModel {
            root_ty: out@.root_ty,
            projection_tys: out@.projection_tys,
            ty: out@.ty,
            ..x@
        }
    );
    Ok(out)
}

/// An optional place with the parameters in its checked types replaced.
#[verifier::opaque]
pub open spec fn subst_opt_place(
    x: Option<MirPlaceModel>,
    b: BindingsModel,
) -> Result<Option<MirPlaceModel>, MonoErrorModel>
{
    match x {
        Some(v) => match subst_place(v, b) {
            Ok(y) => Ok(Some(y)),
            Err(e) => Err(e),
        },
        None => Ok(None),
    }
}

/// An optional place with the parameters in its checked types replaced.
pub fn sub_place_opt(x: &Option<MirPlace>, bindings: &Bindings) -> (r: Result<Option<MirPlace>, MonoError>)
    ensures
        match r {
            Ok(v) => subst_opt_place(
                opt_place_view(*x),
                bindings@,
            ) == Ok::<Option<MirPlaceModel>, MonoErrorModel>(opt_place_view(v)),
            Err(e) => subst_opt_place(
                opt_place_view(*x),
                bindings@,
            ) == Err::<Option<MirPlaceModel>, MonoErrorModel>(e@),
        },
{
    proof {
        reveal(subst_opt_place);
    }
    match x {
        Some(v) => match substitute_place(v, bindings) {
            Ok(y) => Ok(Some(y)),
            Err(e) => Err(e),
        },
        None => Ok(None),
    }
}

/// What each place becomes.
pub open spec fn subst_place_results(
    xs: Seq<Option<MirPlaceModel>>,
    b: BindingsModel,
) -> Seq<Result<Option<MirPlaceModel>, MonoErrorModel>>
{
    Seq::new(xs.len(), |i: int| if 0 <= i < xs.len() { subst_opt_place(xs[i], b) } else { arbitrary() })
}

/// What the places become.
#[verifier::opaque]
pub open spec fn subst_places(
    places: Seq<Option<MirPlaceModel>>,
    b: BindingsModel,
) -> Result<Seq<Option<MirPlaceModel>>, MonoErrorModel> {
    collect(subst_place_results(places, b))
}

/// Replaces the parameters in the checked types of each place.
pub fn sub_places(
    xs: &Vec<Option<MirPlace>>,
    bindings: &Bindings,
) -> (r: Result<Vec<Option<MirPlace>>, MonoError>)
    ensures
        match r {
            Ok(v) => subst_places(
                opt_places_view(*xs),
                bindings@,
            ) == Ok::<Seq<Option<MirPlaceModel>>, MonoErrorModel>(opt_places_view(v)),
            Err(e) => subst_places(
                opt_places_view(*xs),
                bindings@,
            ) == Err::<Seq<Option<MirPlaceModel>>, MonoErrorModel>(e@),
        },
{
    proof {
        reveal(subst_places);
    }
    let ghost results = subst_place_results(opt_places_view(*xs), bindings@);
    let mut out: Vec<Option<MirPlace>> = Vec::new();
    for i in 0..xs.len()
        invariant
            results == subst_place_results(opt_places_view(*xs), bindings@),
            out@.len() == i,
            forall|j: int| 0 <= j < i ==> #[trigger] results[j] == Ok::<Option<MirPlaceModel>, MonoErrorModel>(opt_places_view(out)[j]),
    {
        assert(results[i as int] == subst_opt_place(opt_places_view(*xs)[i as int], bindings@));
        match sub_place_opt(&xs[i], bindings) {
            Ok(x) => {
                let ghost before = out;
                out.push(x);
                assert forall|j: int| 0 <= j < i + 1 implies #[trigger] results[j] == Ok::<Option<MirPlaceModel>, MonoErrorModel>(opt_places_view(out)[j]) by {
                    if j < i {
                        assert(opt_places_view(before)[j] == opt_places_view(out)[j]);
                    }
                }
            },
            Err(e) => {
                proof {
                    reveal(subst_places);
                    lemma_collect_err(results, i as int, e@);
                }
                return Err(e);
            },
        }
    }
    proof {
        lemma_collect_ok(results, opt_places_view(out));
    }
    Ok(out)
}

/// A loan with the parameters in its place replaced.
#[verifier::opaque]
pub open spec fn subst_loan(x: MirLoanModel, b: BindingsModel) -> Result<MirLoanModel, MonoErrorModel> {
    match subst_place(x.place, b) {
        Err(e) => Err(e),
        Ok(place) => Ok(MirLoanModel { place, ..x }),
    }
}

/// A loan with the parameters in its place replaced.
pub fn substitute_loan(x: &MirLoan, bindings: &Bindings) -> (r: Result<MirLoan, MonoError>)
    ensures
        match r {
            Ok(v) => subst_loan(x@, bindings@) == Ok::<MirLoanModel, MonoErrorModel>(v@),
            Err(e) => subst_loan(x@, bindings@) == Err::<MirLoanModel, MonoErrorModel>(e@),
        },
{
    proof {
        reveal(subst_loan);
    }
    let place: MirPlace = match substitute_place(&x.place, bindings) {
        Ok(v) => v,
        Err(e) => return Err(e),
    };
    let out: MirLoan = MirLoan { place, mutable: x.mutable, interior: copy_opt_interior(&x.interior) };
    assert(out@ =~= MirLoanModel { place: out@.place, ..x@ });
    Ok(out)
}

/// What each loan becomes.
pub open spec fn subst_loan_results(
    xs: Seq<MirLoanModel>,
    b: BindingsModel,
) -> Seq<Result<MirLoanModel, MonoErrorModel>>
{
    Seq::new(xs.len(), |i: int| if 0 <= i < xs.len() { subst_loan(xs[i], b) } else { arbitrary() })
}

/// What the loans become.
#[verifier::opaque]
pub open spec fn subst_loans(
    xs: Seq<MirLoanModel>,
    b: BindingsModel,
) -> Result<Seq<MirLoanModel>, MonoErrorModel> {
    collect(subst_loan_results(xs, b))
}

/// Replaces the parameters in the place of each loan.
pub fn substitute_loans(xs: &Vec<MirLoan>, bindings: &Bindings) -> (r: Result<Vec<MirLoan>, MonoError>)
    ensures
        match r {
            Ok(v) => subst_loans(loans_view(*xs), bindings@) == Ok::<Seq<MirLoanModel>, MonoErrorModel>(loans_view(v)),
            Err(e) => subst_loans(loans_view(*xs), bindings@) == Err::<Seq<MirLoanModel>, MonoErrorModel>(e@),
        },
{
    proof {
        reveal(subst_loans);
    }
    let ghost results = subst_loan_results(loans_view(*xs), bindings@);
    let mut out: Vec<MirLoan> = Vec::new();
    for i in 0..xs.len()
        invariant
            results == subst_loan_results(loans_view(*xs), bindings@),
            out@.len() == i,
            forall|j: int| 0 <= j < i ==> #[trigger] results[j] == Ok::<MirLoanModel, MonoErrorModel>(loans_view(out)[j]),
    {
        assert(results[i as int] == subst_loan(loans_view(*xs)[i as int], bindings@));
        match substitute_loan(&xs[i], bindings) {
            Ok(x) => {
                let ghost before = out;
                out.push(x);
                assert forall|j: int| 0 <= j < i + 1 implies #[trigger] results[j] == Ok::<MirLoanModel, MonoErrorModel>(loans_view(out)[j]) by {
                    if j < i {
                        assert(loans_view(before)[j] == loans_view(out)[j]);
                    }
                }
            },
            Err(e) => {
                proof {
                    reveal(subst_loans);
                    lemma_collect_err(results, i as int, e@);
                }
                return Err(e);
            },
        }
    }
    proof {
        lemma_collect_ok(results, loans_view(out));
    }
    Ok(out)
}

/// A capture with the parameters in its place replaced.
#[verifier::opaque]
pub open spec fn subst_capture(
    x: MirCaptureModel,
    b: BindingsModel,
) -> Result<MirCaptureModel, MonoErrorModel> {
    match subst_place(x.place, b) {
        Err(e) => Err(e),
        Ok(place) => Ok(MirCaptureModel { place, ..x }),
    }
}

/// A capture with the parameters in its place replaced.
pub fn substitute_capture(x: &MirCapture, bindings: &Bindings) -> (r: Result<MirCapture, MonoError>)
    ensures
        match r {
            Ok(v) => subst_capture(x@, bindings@) == Ok::<MirCaptureModel, MonoErrorModel>(v@),
            Err(e) => subst_capture(x@, bindings@) == Err::<MirCaptureModel, MonoErrorModel>(e@),
        },
{
    proof {
        reveal(subst_capture);
    }
    let place: MirPlace = match substitute_place(&x.place, bindings) {
        Ok(v) => v,
        Err(e) => return Err(e),
    };
    let out: MirCapture = MirCapture { place, owned: x.owned };
    assert(out@ =~= MirCaptureModel { place: out@.place, ..x@ });
    Ok(out)
}

/// What each capture becomes.
pub open spec fn subst_capture_results(
    xs: Seq<MirCaptureModel>,
    b: BindingsModel,
) -> Seq<Result<MirCaptureModel, MonoErrorModel>>
{
    Seq::new(xs.len(), |i: int| if 0 <= i < xs.len() { subst_capture(xs[i], b) } else { arbitrary() })
}

/// What the captures become.
#[verifier::opaque]
pub open spec fn subst_captures(
    xs: Seq<MirCaptureModel>,
    b: BindingsModel,
) -> Result<Seq<MirCaptureModel>, MonoErrorModel> {
    collect(subst_capture_results(xs, b))
}

/// Replaces the parameters in the place of each capture.
pub fn substitute_captures(
    xs: &Vec<MirCapture>,
    bindings: &Bindings,
) -> (r: Result<Vec<MirCapture>, MonoError>)
    ensures
        match r {
            Ok(v) => subst_captures(
                captures_view(*xs),
                bindings@,
            ) == Ok::<Seq<MirCaptureModel>, MonoErrorModel>(captures_view(v)),
            Err(e) => subst_captures(
                captures_view(*xs),
                bindings@,
            ) == Err::<Seq<MirCaptureModel>, MonoErrorModel>(e@),
        },
{
    proof {
        reveal(subst_captures);
    }
    let ghost results = subst_capture_results(captures_view(*xs), bindings@);
    let mut out: Vec<MirCapture> = Vec::new();
    for i in 0..xs.len()
        invariant
            results == subst_capture_results(captures_view(*xs), bindings@),
            out@.len() == i,
            forall|j: int| 0 <= j < i ==> #[trigger] results[j] == Ok::<MirCaptureModel, MonoErrorModel>(captures_view(out)[j]),
    {
        assert(results[i as int] == subst_capture(captures_view(*xs)[i as int], bindings@));
        match substitute_capture(&xs[i], bindings) {
            Ok(x) => {
                let ghost before = out;
                out.push(x);
                assert forall|j: int| 0 <= j < i + 1 implies #[trigger] results[j] == Ok::<MirCaptureModel, MonoErrorModel>(captures_view(out)[j]) by {
                    if j < i {
                        assert(captures_view(before)[j] == captures_view(out)[j]);
                    }
                }
            },
            Err(e) => {
                proof {
                    reveal(subst_captures);
                    lemma_collect_err(results, i as int, e@);
                }
                return Err(e);
            },
        }
    }
    proof {
        lemma_collect_ok(results, captures_view(out));
    }
    Ok(out)
}

/// A subscript call with the parameters in its contract replaced.
#[verifier::opaque]
pub open spec fn subst_subscript(
    x: MirSubscriptCallModel,
    b: BindingsModel,
) -> Result<MirSubscriptCallModel, MonoErrorModel> {
    match subst_opt_ty(x.raises, b) {
        Err(e) => Err(e),
        Ok(raises) => match ty_with(x.result_ty, b) {
            Err(e) => Err(e),
            Ok(result_ty) => match subst_opt_ref(x.reference_result, b) {
                Err(e) => Err(e),
                Ok(reference_result) => Ok(
                    MirSubscriptCallModel { raises, result_ty, reference_result, ..x }
                ),
            },
        },
    }
}

/// A subscript call with the parameters in its contract replaced.
pub fn substitute_subscript_call(
    x: &MirSubscriptCall,
    bindings: &Bindings,
) -> (r: Result<MirSubscriptCall, MonoError>)
    ensures
        match r {
            Ok(v) => subst_subscript(x@, bindings@) == Ok::<MirSubscriptCallModel, MonoErrorModel>(v@),
            Err(e) => subst_subscript(x@, bindings@) == Err::<MirSubscriptCallModel, MonoErrorModel>(e@),
        },
{
    proof {
        reveal(subst_subscript);
    }
    let raises: Option<Ty> = match sub_opt_ty(&x.raises, bindings) {
        Ok(v) => v,
        Err(e) => return Err(e),
    };
    let result_ty: Ty = match sub_ty(&x.result_ty, bindings) {
        Ok(v) => v,
        Err(e) => return Err(e),
    };
    let reference_result: Option<RefTy> = match sub_ref_opt(&x.reference_result, bindings) {
        Ok(v) => v,
        Err(e) => return Err(e),
    };
    let out: MirSubscriptCall = MirSubscriptCall {
        target: x.target.clone(),
        arguments: copy_subscript_arguments(&x.arguments),
        receiver_convention: x.receiver_convention,
        receiver_requires_place: x.receiver_requires_place,
        result_ty,
        reference_result,
        raises,
        capture_accesses: copy_capture_accesses(&x.capture_accesses),
        param_arg_regs: copy_param_args(&x.param_arg_regs),
        param_decls: copy_param_decls(&x.param_decls),
    };
    assert(
        out@ =~= MirSubscriptCallModel {
            raises: out@.raises,
            result_ty: out@.result_ty,
            reference_result: out@.reference_result,
            ..x@
        }
    );
    Ok(out)
}

/// An optional subscript call with the parameters in its contract replaced.
#[verifier::opaque]
pub open spec fn subst_opt_subscript(
    x: Option<MirSubscriptCallModel>,
    b: BindingsModel,
) -> Result<Option<MirSubscriptCallModel>, MonoErrorModel>
{
    match x {
        Some(v) => match subst_subscript(v, b) {
            Ok(y) => Ok(Some(y)),
            Err(e) => Err(e),
        },
        None => Ok(None),
    }
}

/// An optional subscript call with the parameters in its contract replaced.
pub fn substitute_opt_subscript_call(
    x: &Option<MirSubscriptCall>,
    bindings: &Bindings,
) -> (r: Result<Option<MirSubscriptCall>, MonoError>)
    ensures
        match r {
            Ok(v) => subst_opt_subscript(
                opt_subscript_call_view(*x),
                bindings@,
            ) == Ok::<Option<MirSubscriptCallModel>, MonoErrorModel>(opt_subscript_call_view(v)),
            Err(e) => subst_opt_subscript(
                opt_subscript_call_view(*x),
                bindings@,
            ) == Err::<Option<MirSubscriptCallModel>, MonoErrorModel>(e@),
        },
{
    proof {
        reveal(subst_opt_subscript);
    }
    match x {
        Some(v) => match substitute_subscript_call(v, bindings) {
            Ok(y) => Ok(Some(y)),
            Err(e) => Err(e),
        },
        None => Ok(None),
    }
}

/// An iterator call with the parameters in its contract replaced.
#[verifier::opaque]
pub open spec fn subst_iterator_call(
    x: CheckedIteratorCallModel,
    b: BindingsModel,
) -> Result<CheckedIteratorCallModel, MonoErrorModel> {
    match ty_with(x.result_ty, b) {
        Err(e) => Err(e),
        Ok(result_ty) => match subst_opt_ty(x.raises, b) {
            Err(e) => Err(e),
            Ok(raises) => match subst_opt_ref(x.reference_result, b) {
                Err(e) => Err(e),
                Ok(reference_result) => Ok(
                    CheckedIteratorCallModel { result_ty, raises, reference_result, ..x }
                ),
            },
        },
    }
}

/// An iterator call with the parameters in its contract replaced.
pub fn substitute_iterator_call(
    x: &CheckedIteratorCall,
    bindings: &Bindings,
) -> (r: Result<CheckedIteratorCall, MonoError>)
    ensures
        match r {
            Ok(v) => subst_iterator_call(x@, bindings@) == Ok::<CheckedIteratorCallModel, MonoErrorModel>(v@),
            Err(e) => subst_iterator_call(x@, bindings@) == Err::<CheckedIteratorCallModel, MonoErrorModel>(e@),
        },
{
    proof {
        reveal(subst_iterator_call);
    }
    let result_ty: Ty = match sub_ty(&x.result_ty, bindings) {
        Ok(v) => v,
        Err(e) => return Err(e),
    };
    let raises: Option<Ty> = match sub_opt_ty(&x.raises, bindings) {
        Ok(v) => v,
        Err(e) => return Err(e),
    };
    let reference_result: Option<RefTy> = match sub_ref_opt(&x.reference_result, bindings) {
        Ok(v) => v,
        Err(e) => return Err(e),
    };
    let out: CheckedIteratorCall = CheckedIteratorCall {
        target: x.target.clone(),
        result_ty,
        raises,
        reference_result,
        result_adapter: x.result_adapter,
    };
    assert(
        out@ =~= CheckedIteratorCallModel {
            result_ty: out@.result_ty,
            raises: out@.raises,
            reference_result: out@.reference_result,
            ..x@
        }
    );
    Ok(out)
}

/// An optional iterator call with the parameters in its contract replaced.
#[verifier::opaque]
pub open spec fn subst_opt_iterator_call(
    x: Option<CheckedIteratorCallModel>,
    b: BindingsModel,
) -> Result<Option<CheckedIteratorCallModel>, MonoErrorModel>
{
    match x {
        Some(v) => match subst_iterator_call(v, b) {
            Ok(y) => Ok(Some(y)),
            Err(e) => Err(e),
        },
        None => Ok(None),
    }
}

/// An optional iterator call with the parameters in its contract replaced.
pub fn substitute_opt_iterator_call(
    x: &Option<CheckedIteratorCall>,
    bindings: &Bindings,
) -> (r: Result<Option<CheckedIteratorCall>, MonoError>)
    ensures
        match r {
            Ok(v) => subst_opt_iterator_call(
                opt_checked_iterator_call_view(*x),
                bindings@,
            ) == Ok::<Option<CheckedIteratorCallModel>, MonoErrorModel>(opt_checked_iterator_call_view(v)),
            Err(e) => subst_opt_iterator_call(
                opt_checked_iterator_call_view(*x),
                bindings@,
            ) == Err::<Option<CheckedIteratorCallModel>, MonoErrorModel>(e@),
        },
{
    proof {
        reveal(subst_opt_iterator_call);
    }
    match x {
        Some(v) => match substitute_iterator_call(v, bindings) {
            Ok(y) => Ok(Some(y)),
            Err(e) => Err(e),
        },
        None => Ok(None),
    }
}

/// An instruction with the parameters in its checked types replaced. Constructing
/// a type parameter becomes the nullary constructor call of its struct.
pub open spec fn subst_instr(x: MirInstrModel, b: BindingsModel) -> Result<MirInstrModel, MonoErrorModel>
    decreases x, 0int,
{
    match x {
        MirInstrModel::EstablishLoans {
            marker,
            reference,
            loans,
            dest_interior,
        } => match subst_loans(loans, b) {
            Err(e) => Err(e),
            Ok(loans) => Ok(MirInstrModel::EstablishLoans { marker, reference, loans, dest_interior }),
        },
        MirInstrModel::MakeRef { dest, place } => match subst_place(place, b) {
            Err(e) => Err(e),
            Ok(place) => Ok(MirInstrModel::MakeRef { dest, place }),
        },
        MirInstrModel::SizeOf { dest, ty } => match ty_with(ty, b) {
            Err(e) => Err(e),
            Ok(ty) => Ok(MirInstrModel::SizeOf { dest, ty }),
        },
        MirInstrModel::MaterializeLiteral { dest, value, target } => match ty_with(target, b) {
            Err(e) => Err(e),
            Ok(target) => Ok(MirInstrModel::MaterializeLiteral { dest, value, target }),
        },
        MirInstrModel::DefVar { var, src, binding_ty } => match subst_opt_ty(binding_ty, b) {
            Err(e) => Err(e),
            Ok(binding_ty) => Ok(MirInstrModel::DefVar { var, src, binding_ty }),
        },
        MirInstrModel::MovePlace { dest, place } => match subst_place(place, b) {
            Err(e) => Err(e),
            Ok(place) => Ok(MirInstrModel::MovePlace { dest, place }),
        },
        MirInstrModel::LoadPlace { dest, place } => match subst_place(place, b) {
            Err(e) => Err(e),
            Ok(place) => Ok(MirInstrModel::LoadPlace { dest, place }),
        },
        MirInstrModel::ConsumePlace { marker, place } => match subst_place(place, b) {
            Err(e) => Err(e),
            Ok(place) => Ok(MirInstrModel::ConsumePlace { marker, place }),
        },
        MirInstrModel::Store { place, src } => match subst_place(place, b) {
            Err(e) => Err(e),
            Ok(place) => Ok(MirInstrModel::Store { place, src }),
        },
        MirInstrModel::StoreRef { place, reference } => match subst_place(place, b) {
            Err(e) => Err(e),
            Ok(place) => Ok(MirInstrModel::StoreRef { place, reference }),
        },
        MirInstrModel::Call {
            dest,
            func,
            raises,
            args,
            kwargs,
            arg_places,
            kwarg_places,
            capture_accesses,
            param_arg_regs,
        } => match subst_opt_ty(raises, b) {
            Err(e) => Err(e),
            Ok(raises) => match subst_places(arg_places, b) {
                Err(e) => Err(e),
                Ok(arg_places) => match subst_places(kwarg_places, b) {
                    Err(e) => Err(e),
                    Ok(kwarg_places) => Ok(
                        MirInstrModel::Call {
                            dest,
                            func,
                            raises,
                            args,
                            kwargs,
                            arg_places,
                            kwarg_places,
                            capture_accesses,
                            param_arg_regs,
                        }
                    ),
                },
            },
        },
        MirInstrModel::CallIndirect {
            dest,
            callee,
            resolved,
            raises,
            args,
            kwargs,
            callee_place,
            arg_places,
            kwarg_places,
            capture_accesses,
            param_arg_regs,
            param_decls,
            instantiated_contract,
            instantiated_args,
        } => match subst_opt_ty(raises, b) {
            Err(e) => Err(e),
            Ok(raises) => match subst_opt_place(callee_place, b) {
                Err(e) => Err(e),
                Ok(callee_place) => match subst_places(arg_places, b) {
                    Err(e) => Err(e),
                    Ok(arg_places) => match subst_places(kwarg_places, b) {
                        Err(e) => Err(e),
                        Ok(kwarg_places) => match subst_opt_ty(instantiated_contract, b) {
                            Err(e) => Err(e),
                            Ok(instantiated_contract) => match subst_ty_args(instantiated_args, b) {
                                Err(e) => Err(e),
                                Ok(instantiated_args) => Ok(
                                    MirInstrModel::CallIndirect {
                                        dest,
                                        callee,
                                        resolved,
                                        raises,
                                        args,
                                        kwargs,
                                        callee_place,
                                        arg_places,
                                        kwarg_places,
                                        capture_accesses,
                                        param_arg_regs,
                                        param_decls,
                                        instantiated_contract,
                                        instantiated_args,
                                    }
                                ),
                            },
                        },
                    },
                },
            },
        },
        MirInstrModel::MethodCall {
            dest,
            recv,
            method,
            resolved,
            raises,
            reference_result,
            result_adapter,
            args,
            kwargs,
            recv_place,
            recv_writes,
            arg_places,
            kwarg_places,
            capture_accesses,
            param_arg_regs,
            param_decls,
        } => match subst_opt_ty(raises, b) {
            Err(e) => Err(e),
            Ok(raises) => match subst_opt_ref(reference_result, b) {
                Err(e) => Err(e),
                Ok(reference_result) => match subst_opt_place(recv_place, b) {
                    Err(e) => Err(e),
                    Ok(recv_place) => match subst_places(arg_places, b) {
                        Err(e) => Err(e),
                        Ok(arg_places) => match subst_places(kwarg_places, b) {
                            Err(e) => Err(e),
                            Ok(kwarg_places) => Ok(
                                MirInstrModel::MethodCall {
                                    dest,
                                    recv,
                                    method,
                                    resolved,
                                    raises,
                                    reference_result,
                                    result_adapter,
                                    args,
                                    kwargs,
                                    recv_place,
                                    recv_writes,
                                    arg_places,
                                    kwarg_places,
                                    capture_accesses,
                                    param_arg_regs,
                                    param_decls,
                                }
                            ),
                        },
                    },
                },
            },
        },
        MirInstrModel::PointerStorageTake { dest, pointer, index, element } => match ty_with(element, b) {
            Err(e) => Err(e),
            Ok(element) => Ok(MirInstrModel::PointerStorageTake { dest, pointer, index, element }),
        },
        MirInstrModel::PointerStorageDestroy { dest, pointer, index, element } => match ty_with(element, b) {
            Err(e) => Err(e),
            Ok(element) => Ok(MirInstrModel::PointerStorageDestroy { dest, pointer, index, element }),
        },
        MirInstrModel::UninitStorageTake { dest, storage, element } => match ty_with(element, b) {
            Err(e) => Err(e),
            Ok(element) => Ok(MirInstrModel::UninitStorageTake { dest, storage, element }),
        },
        MirInstrModel::UninitStorageDestroy { dest, storage, element } => match ty_with(element, b) {
            Err(e) => Err(e),
            Ok(element) => Ok(MirInstrModel::UninitStorageDestroy { dest, storage, element }),
        },
        MirInstrModel::Index {
            dest,
            base,
            index,
            base_place,
            index_place,
            call,
            intrinsic,
        } => match subst_opt_place(base_place, b) {
            Err(e) => Err(e),
            Ok(base_place) => match subst_opt_place(index_place, b) {
                Err(e) => Err(e),
                Ok(index_place) => match subst_opt_subscript(call, b) {
                    Err(e) => Err(e),
                    Ok(call) => Ok(
                        MirInstrModel::Index { dest, base, index, base_place, index_place, call, intrinsic }
                    ),
                },
            },
        },
        MirInstrModel::Slice {
            dest,
            object,
            kind,
            lower,
            upper,
            step,
            object_place,
            arg_places,
            call,
            intrinsic,
        } => match subst_opt_place(object_place, b) {
            Err(e) => Err(e),
            Ok(object_place) => match subst_places(arg_places, b) {
                Err(e) => Err(e),
                Ok(arg_places) => match subst_opt_subscript(call, b) {
                    Err(e) => Err(e),
                    Ok(call) => Ok(
                        MirInstrModel::Slice {
                            dest,
                            object,
                            kind,
                            lower,
                            upper,
                            step,
                            object_place,
                            arg_places,
                            call,
                            intrinsic,
                        }
                    ),
                },
            },
        },
        MirInstrModel::MultiIndex {
            dest,
            object,
            args,
            object_place,
            arg_places,
            kwargs,
            kwarg_places,
            call,
        } => match subst_opt_place(object_place, b) {
            Err(e) => Err(e),
            Ok(object_place) => match subst_places(arg_places, b) {
                Err(e) => Err(e),
                Ok(arg_places) => match subst_opt_subscript(call, b) {
                    Err(e) => Err(e),
                    Ok(call) => Ok(
                        MirInstrModel::MultiIndex {
                            dest,
                            object,
                            args,
                            object_place,
                            arg_places,
                            kwargs,
                            kwarg_places,
                            call,
                        }
                    ),
                },
            },
        },
        MirInstrModel::MultiSet {
            receiver,
            receiver_place,
            args,
            arg_places,
            value,
            value_place,
            value_keyword,
            call,
        } => match subst_opt_place(receiver_place, b) {
            Err(e) => Err(e),
            Ok(receiver_place) => match subst_places(arg_places, b) {
                Err(e) => Err(e),
                Ok(arg_places) => match subst_opt_place(value_place, b) {
                    Err(e) => Err(e),
                    Ok(value_place) => match subst_subscript(call, b) {
                        Err(e) => Err(e),
                        Ok(call) => Ok(
                            MirInstrModel::MultiSet {
                                receiver,
                                receiver_place,
                                args,
                                arg_places,
                                value,
                                value_place,
                                value_keyword,
                                call,
                            }
                        ),
                    },
                },
            },
        },
        MirInstrModel::MakeTuple { dest, elems, element_types } => match subst_opt_tys(element_types, b) {
            Err(e) => Err(e),
            Ok(element_types) => Ok(MirInstrModel::MakeTuple { dest, elems, element_types }),
        },
        MirInstrModel::MakeVariant { dest, alternatives, index, value } => match subst_tys(alternatives, b) {
            Err(e) => Err(e),
            Ok(alternatives) => Ok(MirInstrModel::MakeVariant { dest, alternatives, index, value }),
        },
        MirInstrModel::MakeClosure { dest, function, captures } => match subst_captures(captures, b) {
            Err(e) => Err(e),
            Ok(captures) => Ok(MirInstrModel::MakeClosure { dest, function, captures }),
        },
        MirInstrModel::VariantSet { dest, place, index, value } => match subst_place(place, b) {
            Err(e) => Err(e),
            Ok(place) => Ok(MirInstrModel::VariantSet { dest, place, index, value }),
        },
        MirInstrModel::VariantSetInitWith { dest, place, index, factory } => match subst_place(place, b) {
            Err(e) => Err(e),
            Ok(place) => Ok(MirInstrModel::VariantSetInitWith { dest, place, index, factory }),
        },
        MirInstrModel::VariantReplace { dest, place, index, value } => match subst_place(place, b) {
            Err(e) => Err(e),
            Ok(place) => Ok(MirInstrModel::VariantReplace { dest, place, index, value }),
        },
        MirInstrModel::Next { dest, iter, call } => match subst_opt_iterator_call(call, b) {
            Err(e) => Err(e),
            Ok(call) => Ok(MirInstrModel::Next { dest, iter, call }),
        },
        MirInstrModel::TryNext { dest, yielded, iter, call, exhaustion } => match subst_iterator_call(call, b) {
            Err(e) => Err(e),
            Ok(call) => match ty_with(exhaustion, b) {
                Err(e) => Err(e),
                Ok(exhaustion) => Ok(MirInstrModel::TryNext { dest, yielded, iter, call, exhaustion }),
            },
        },
        MirInstrModel::Try { body, handler, orelse, finalbody } => match subst_blocks(body, b) {
            Err(e) => Err(e),
            Ok(body) => match subst_handler(handler, b) {
                Err(e) => Err(e),
                Ok(handler) => match subst_opt_blocks(orelse, b) {
                    Err(e) => Err(e),
                    Ok(orelse) => match subst_opt_blocks(finalbody, b) {
                        Err(e) => Err(e),
                        Ok(finalbody) => Ok(MirInstrModel::Try { body, handler, orelse, finalbody }),
                    },
                },
            },
        },
        MirInstrModel::ConstructTypeParam { dest, param } => if b.types.dom().contains(param) && b.types[param] is Struct {
            Ok(
                MirInstrModel::Call {
                    dest,
                    func: FuncRefModel(b.types[param]->Struct_0),
                    raises: None,
                    args: Seq::empty(),
                    kwargs: Seq::empty(),
                    arg_places: Seq::empty(),
                    kwarg_places: Seq::empty(),
                    capture_accesses: Seq::empty(),
                    param_arg_regs: Seq::empty(),
                },
            )
        } else {
            Err(
                unsupported("constructing type parameter `"@ + param + "` without a concrete struct binding"@)
            )
        },
        _ => Ok(x),
    }
}

/// What each instruction becomes.
pub open spec fn subst_instr_results(
    xs: Seq<MirInstrModel>,
    b: BindingsModel,
) -> Seq<Result<MirInstrModel, MonoErrorModel>>
    decreases xs, 0int,
{
    Seq::new(xs.len(), |i: int| if 0 <= i < xs.len() { subst_instr(xs[i], b) } else { arbitrary() })
}

/// A block with the parameters in its instructions replaced.
pub open spec fn subst_block(x: MirBlockModel, b: BindingsModel) -> Result<MirBlockModel, MonoErrorModel>
    decreases x, 0int,
{
    match collect(subst_instr_results(x.instrs, b)) {
        Err(e) => Err(e),
        Ok(instrs) => Ok(MirBlockModel { instrs, ..x }),
    }
}

/// What each block becomes.
pub open spec fn subst_block_results(
    xs: Seq<MirBlockModel>,
    b: BindingsModel,
) -> Seq<Result<MirBlockModel, MonoErrorModel>>
    decreases xs, 0int,
{
    Seq::new(xs.len(), |i: int| if 0 <= i < xs.len() { subst_block(xs[i], b) } else { arbitrary() })
}

/// What the blocks become.
pub open spec fn subst_blocks(
    xs: Seq<MirBlockModel>,
    b: BindingsModel,
) -> Result<Seq<MirBlockModel>, MonoErrorModel>
    decreases xs, 1int,
{
    collect(subst_block_results(xs, b))
}

/// A handler with the parameters in its blocks replaced.
pub open spec fn subst_handler(
    x: Option<(Option<u32>, Seq<MirBlockModel>)>,
    b: BindingsModel,
) -> Result<Option<(Option<u32>, Seq<MirBlockModel>)>, MonoErrorModel>
    decreases x, 0int,
{
    match x {
        Some((slot, blocks)) => match subst_blocks(blocks, b) {
            Err(e) => Err(e),
            Ok(blocks) => Ok(Some((slot, blocks))),
        },
        None => Ok(None),
    }
}

/// An optional region with the parameters in its blocks replaced.
pub open spec fn subst_opt_blocks(
    x: Option<Seq<MirBlockModel>>,
    b: BindingsModel,
) -> Result<Option<Seq<MirBlockModel>>, MonoErrorModel>
    decreases x, 0int,
{
    match x {
        Some(v) => match subst_blocks(v, b) {
            Ok(y) => Ok(Some(y)),
            Err(e) => Err(e),
        },
        None => Ok(None),
    }
}

/// The instruction with the parameters in its checked types replaced.
pub fn instruction_with(x: &MirInstr, bindings: &Bindings) -> (r: Result<MirInstr, MonoError>)
    ensures
        match r {
            Ok(v) => subst_instr(x@, bindings@) == Ok::<MirInstrModel, MonoErrorModel>(v@),
            Err(e) => subst_instr(x@, bindings@) == Err::<MirInstrModel, MonoErrorModel>(e@),
        },
    decreases x, 0int,
{
    match x {
        MirInstr::EstablishLoans { marker, reference, loans, dest_interior } => {
            let loans: Vec<MirLoan> = match substitute_loans(loans, bindings) {
                Ok(v) => v,
                Err(e) => return Err(e),
            };
            Ok(
                MirInstr::EstablishLoans {
                    marker: *marker,
                    reference: *reference,
                    loans,
                    dest_interior: copy_opt_interior(dest_interior),
                }
            )
        },
        MirInstr::MakeRef { dest, place } => {
            let place: MirPlace = match substitute_place(place, bindings) {
                Ok(v) => v,
                Err(e) => return Err(e),
            };
            Ok(MirInstr::MakeRef { dest: *dest, place })
        },
        MirInstr::SizeOf { dest, ty } => {
            let ty: Ty = match sub_ty(ty, bindings) {
                Ok(v) => v,
                Err(e) => return Err(e),
            };
            Ok(MirInstr::SizeOf { dest: *dest, ty })
        },
        MirInstr::MaterializeLiteral { dest, value, target } => {
            let target: Ty = match sub_ty(target, bindings) {
                Ok(v) => v,
                Err(e) => return Err(e),
            };
            Ok(MirInstr::MaterializeLiteral { dest: *dest, value: *value, target })
        },
        MirInstr::DefVar { var, src, binding_ty } => {
            let binding_ty: Option<Ty> = match sub_opt_ty(binding_ty, bindings) {
                Ok(v) => v,
                Err(e) => return Err(e),
            };
            Ok(MirInstr::DefVar { var: *var, src: *src, binding_ty })
        },
        MirInstr::MovePlace { dest, place } => {
            let place: MirPlace = match substitute_place(place, bindings) {
                Ok(v) => v,
                Err(e) => return Err(e),
            };
            Ok(MirInstr::MovePlace { dest: *dest, place })
        },
        MirInstr::LoadPlace { dest, place } => {
            let place: MirPlace = match substitute_place(place, bindings) {
                Ok(v) => v,
                Err(e) => return Err(e),
            };
            Ok(MirInstr::LoadPlace { dest: *dest, place })
        },
        MirInstr::ConsumePlace { marker, place } => {
            let place: MirPlace = match substitute_place(place, bindings) {
                Ok(v) => v,
                Err(e) => return Err(e),
            };
            Ok(MirInstr::ConsumePlace { marker: *marker, place })
        },
        MirInstr::Store { place, src } => {
            let place: MirPlace = match substitute_place(place, bindings) {
                Ok(v) => v,
                Err(e) => return Err(e),
            };
            Ok(MirInstr::Store { place, src: *src })
        },
        MirInstr::StoreRef { place, reference } => {
            let place: MirPlace = match substitute_place(place, bindings) {
                Ok(v) => v,
                Err(e) => return Err(e),
            };
            Ok(MirInstr::StoreRef { place, reference: *reference })
        },
        MirInstr::Call {
            dest,
            func,
            raises,
            args,
            kwargs,
            arg_places,
            kwarg_places,
            capture_accesses,
            param_arg_regs,
        } => {
            let raises: Option<Ty> = match sub_opt_ty(raises, bindings) {
                Ok(v) => v,
                Err(e) => return Err(e),
            };
            let arg_places: Vec<Option<MirPlace>> = match sub_places(arg_places, bindings) {
                Ok(v) => v,
                Err(e) => return Err(e),
            };
            let kwarg_places: Vec<Option<MirPlace>> = match sub_places(kwarg_places, bindings) {
                Ok(v) => v,
                Err(e) => return Err(e),
            };
            Ok(
                MirInstr::Call {
                    dest: *dest,
                    func: func.copy(),
                    raises,
                    args: copy_regs(args),
                    kwargs: copy_string_regs(kwargs),
                    arg_places,
                    kwarg_places,
                    capture_accesses: copy_capture_accesses(capture_accesses),
                    param_arg_regs: copy_param_args(param_arg_regs),
                }
            )
        },
        MirInstr::CallIndirect {
            dest,
            callee,
            resolved,
            raises,
            args,
            kwargs,
            callee_place,
            arg_places,
            kwarg_places,
            capture_accesses,
            param_arg_regs,
            param_decls,
            instantiated_contract,
            instantiated_args,
        } => {
            let raises: Option<Ty> = match sub_opt_ty(raises, bindings) {
                Ok(v) => v,
                Err(e) => return Err(e),
            };
            let callee_place: Option<MirPlace> = match sub_place_opt(callee_place, bindings) {
                Ok(v) => v,
                Err(e) => return Err(e),
            };
            let arg_places: Vec<Option<MirPlace>> = match sub_places(arg_places, bindings) {
                Ok(v) => v,
                Err(e) => return Err(e),
            };
            let kwarg_places: Vec<Option<MirPlace>> = match sub_places(kwarg_places, bindings) {
                Ok(v) => v,
                Err(e) => return Err(e),
            };
            let instantiated_contract: Option<Ty> = match sub_opt_ty(instantiated_contract, bindings) {
                Ok(v) => v,
                Err(e) => return Err(e),
            };
            let instantiated_args: Vec<TyArg> = match sub_arg_list(instantiated_args, bindings) {
                Ok(v) => v,
                Err(e) => return Err(e),
            };
            Ok(
                MirInstr::CallIndirect {
                    dest: *dest,
                    callee: *callee,
                    resolved: copy_opt_string(resolved),
                    raises,
                    args: copy_regs(args),
                    kwargs: copy_string_regs(kwargs),
                    callee_place,
                    arg_places,
                    kwarg_places,
                    capture_accesses: copy_capture_accesses(capture_accesses),
                    param_arg_regs: copy_param_args(param_arg_regs),
                    param_decls: copy_param_decls(param_decls),
                    instantiated_contract,
                    instantiated_args,
                }
            )
        },
        MirInstr::MethodCall {
            dest,
            recv,
            method,
            resolved,
            raises,
            reference_result,
            result_adapter,
            args,
            kwargs,
            recv_place,
            recv_writes,
            arg_places,
            kwarg_places,
            capture_accesses,
            param_arg_regs,
            param_decls,
        } => {
            let raises: Option<Ty> = match sub_opt_ty(raises, bindings) {
                Ok(v) => v,
                Err(e) => return Err(e),
            };
            let reference_result: Option<RefTy> = match sub_ref_opt(reference_result, bindings) {
                Ok(v) => v,
                Err(e) => return Err(e),
            };
            let recv_place: Option<MirPlace> = match sub_place_opt(recv_place, bindings) {
                Ok(v) => v,
                Err(e) => return Err(e),
            };
            let arg_places: Vec<Option<MirPlace>> = match sub_places(arg_places, bindings) {
                Ok(v) => v,
                Err(e) => return Err(e),
            };
            let kwarg_places: Vec<Option<MirPlace>> = match sub_places(kwarg_places, bindings) {
                Ok(v) => v,
                Err(e) => return Err(e),
            };
            Ok(
                MirInstr::MethodCall {
                    dest: *dest,
                    recv: *recv,
                    method: method.clone(),
                    resolved: copy_opt_string(resolved),
                    raises,
                    reference_result,
                    result_adapter: *result_adapter,
                    args: copy_regs(args),
                    kwargs: copy_string_regs(kwargs),
                    recv_place,
                    recv_writes: *recv_writes,
                    arg_places,
                    kwarg_places,
                    capture_accesses: copy_capture_accesses(capture_accesses),
                    param_arg_regs: copy_param_args(param_arg_regs),
                    param_decls: copy_param_decls(param_decls),
                }
            )
        },
        MirInstr::PointerStorageTake { dest, pointer, index, element } => {
            let element: Ty = match sub_ty(element, bindings) {
                Ok(v) => v,
                Err(e) => return Err(e),
            };
            Ok(MirInstr::PointerStorageTake { dest: *dest, pointer: *pointer, index: *index, element })
        },
        MirInstr::PointerStorageDestroy { dest, pointer, index, element } => {
            let element: Ty = match sub_ty(element, bindings) {
                Ok(v) => v,
                Err(e) => return Err(e),
            };
            Ok(MirInstr::PointerStorageDestroy { dest: *dest, pointer: *pointer, index: *index, element })
        },
        MirInstr::UninitStorageTake { dest, storage, element } => {
            let element: Ty = match sub_ty(element, bindings) {
                Ok(v) => v,
                Err(e) => return Err(e),
            };
            Ok(MirInstr::UninitStorageTake { dest: *dest, storage: *storage, element })
        },
        MirInstr::UninitStorageDestroy { dest, storage, element } => {
            let element: Ty = match sub_ty(element, bindings) {
                Ok(v) => v,
                Err(e) => return Err(e),
            };
            Ok(MirInstr::UninitStorageDestroy { dest: *dest, storage: *storage, element })
        },
        MirInstr::Index { dest, base, index, base_place, index_place, call, intrinsic } => {
            let base_place: Option<MirPlace> = match sub_place_opt(base_place, bindings) {
                Ok(v) => v,
                Err(e) => return Err(e),
            };
            let index_place: Option<MirPlace> = match sub_place_opt(index_place, bindings) {
                Ok(v) => v,
                Err(e) => return Err(e),
            };
            let call: Option<MirSubscriptCall> = match substitute_opt_subscript_call(call, bindings) {
                Ok(v) => v,
                Err(e) => return Err(e),
            };
            Ok(
                MirInstr::Index {
                    dest: *dest,
                    base: *base,
                    index: *index,
                    base_place,
                    index_place,
                    call,
                    intrinsic: *intrinsic,
                }
            )
        },
        MirInstr::Slice {
            dest,
            object,
            kind,
            lower,
            upper,
            step,
            object_place,
            arg_places,
            call,
            intrinsic,
        } => {
            let object_place: Option<MirPlace> = match sub_place_opt(object_place, bindings) {
                Ok(v) => v,
                Err(e) => return Err(e),
            };
            let arg_places: Vec<Option<MirPlace>> = match sub_places(arg_places, bindings) {
                Ok(v) => v,
                Err(e) => return Err(e),
            };
            let call: Option<MirSubscriptCall> = match substitute_opt_subscript_call(call, bindings) {
                Ok(v) => v,
                Err(e) => return Err(e),
            };
            Ok(
                MirInstr::Slice {
                    dest: *dest,
                    object: *object,
                    kind: *kind,
                    lower: *lower,
                    upper: *upper,
                    step: *step,
                    object_place,
                    arg_places,
                    call,
                    intrinsic: *intrinsic,
                }
            )
        },
        MirInstr::MultiIndex { dest, object, args, object_place, arg_places, kwargs, kwarg_places, call } => {
            let object_place: Option<MirPlace> = match sub_place_opt(object_place, bindings) {
                Ok(v) => v,
                Err(e) => return Err(e),
            };
            let arg_places: Vec<Option<MirPlace>> = match sub_places(arg_places, bindings) {
                Ok(v) => v,
                Err(e) => return Err(e),
            };
            let call: Option<MirSubscriptCall> = match substitute_opt_subscript_call(call, bindings) {
                Ok(v) => v,
                Err(e) => return Err(e),
            };
            Ok(
                MirInstr::MultiIndex {
                    dest: *dest,
                    object: *object,
                    args: copy_subscript_args(args),
                    object_place,
                    arg_places,
                    kwargs: copy_string_subscript_args(kwargs),
                    kwarg_places: copy_opt_places(kwarg_places),
                    call,
                }
            )
        },
        MirInstr::MultiSet {
            receiver,
            receiver_place,
            args,
            arg_places,
            value,
            value_place,
            value_keyword,
            call,
        } => {
            let receiver_place: Option<MirPlace> = match sub_place_opt(receiver_place, bindings) {
                Ok(v) => v,
                Err(e) => return Err(e),
            };
            let arg_places: Vec<Option<MirPlace>> = match sub_places(arg_places, bindings) {
                Ok(v) => v,
                Err(e) => return Err(e),
            };
            let value_place: Option<MirPlace> = match sub_place_opt(value_place, bindings) {
                Ok(v) => v,
                Err(e) => return Err(e),
            };
            let call: MirSubscriptCall = match substitute_subscript_call(call, bindings) {
                Ok(v) => v,
                Err(e) => return Err(e),
            };
            Ok(
                MirInstr::MultiSet {
                    receiver: *receiver,
                    receiver_place,
                    args: copy_subscript_args(args),
                    arg_places,
                    value: *value,
                    value_place,
                    value_keyword: *value_keyword,
                    call,
                }
            )
        },
        MirInstr::MakeTuple { dest, elems, element_types } => {
            let element_types: Option<Vec<Ty>> = match sub_opt_types(element_types, bindings) {
                Ok(v) => v,
                Err(e) => return Err(e),
            };
            Ok(MirInstr::MakeTuple { dest: *dest, elems: copy_regs(elems), element_types })
        },
        MirInstr::MakeVariant { dest, alternatives, index, value } => {
            let alternatives: Vec<Ty> = match sub_ty_list(alternatives, bindings) {
                Ok(v) => v,
                Err(e) => return Err(e),
            };
            Ok(MirInstr::MakeVariant { dest: *dest, alternatives, index: *index, value: *value })
        },
        MirInstr::MakeClosure { dest, function, captures } => {
            let captures: Vec<MirCapture> = match substitute_captures(captures, bindings) {
                Ok(v) => v,
                Err(e) => return Err(e),
            };
            Ok(MirInstr::MakeClosure { dest: *dest, function: function.clone(), captures })
        },
        MirInstr::VariantSet { dest, place, index, value } => {
            let place: MirPlace = match substitute_place(place, bindings) {
                Ok(v) => v,
                Err(e) => return Err(e),
            };
            Ok(MirInstr::VariantSet { dest: *dest, place, index: *index, value: *value })
        },
        MirInstr::VariantSetInitWith { dest, place, index, factory } => {
            let place: MirPlace = match substitute_place(place, bindings) {
                Ok(v) => v,
                Err(e) => return Err(e),
            };
            Ok(MirInstr::VariantSetInitWith { dest: *dest, place, index: *index, factory: *factory })
        },
        MirInstr::VariantReplace { dest, place, index, value } => {
            let place: MirPlace = match substitute_place(place, bindings) {
                Ok(v) => v,
                Err(e) => return Err(e),
            };
            Ok(MirInstr::VariantReplace { dest: *dest, place, index: *index, value: *value })
        },
        MirInstr::Next { dest, iter, call } => {
            let call: Option<CheckedIteratorCall> = match substitute_opt_iterator_call(call, bindings) {
                Ok(v) => v,
                Err(e) => return Err(e),
            };
            Ok(MirInstr::Next { dest: *dest, iter: *iter, call })
        },
        MirInstr::TryNext { dest, yielded, iter, call, exhaustion } => {
            let call: CheckedIteratorCall = match substitute_iterator_call(call, bindings) {
                Ok(v) => v,
                Err(e) => return Err(e),
            };
            let exhaustion: Ty = match sub_ty(exhaustion, bindings) {
                Ok(v) => v,
                Err(e) => return Err(e),
            };
            Ok(MirInstr::TryNext { dest: *dest, yielded: *yielded, iter: *iter, call, exhaustion })
        },
        MirInstr::Try { body, handler, orelse, finalbody } => {
            let body: Vec<MirBlock> = match substitute_blocks_metadata(body, bindings) {
                Ok(v) => v,
                Err(e) => return Err(e),
            };
            let handler: Option<(Option<u32>, Vec<MirBlock>)> = match substitute_handler(handler, bindings) {
                Ok(v) => v,
                Err(e) => return Err(e),
            };
            let orelse: Option<Vec<MirBlock>> = match substitute_opt_blocks(orelse, bindings) {
                Ok(v) => v,
                Err(e) => return Err(e),
            };
            let finalbody: Option<Vec<MirBlock>> = match substitute_opt_blocks(finalbody, bindings) {
                Ok(v) => v,
                Err(e) => return Err(e),
            };
            Ok(MirInstr::Try { body, handler, orelse, finalbody })
        },
        MirInstr::ConstructTypeParam { dest, param } => {
            if let Some(bound) = bindings.ty(param) {
                if let Ty::Struct(name, _) = bound {
                    let out: MirInstr = nullary_call(*dest, name);
                    return Ok(out);
                }
            }
            Err(
                unsupported_error(
                    cat3("constructing type parameter `", param, "` without a concrete struct binding"),
                ),
            )
        },
        _ => Ok(x.copy()),
    }
}

fn nullary_call(dest: Reg, name: &String) -> (r: MirInstr)
    ensures
        r@ == (MirInstrModel::Call {
            dest,
            func: FuncRefModel(name@),
            raises: None,
            args: Seq::empty(),
            kwargs: Seq::empty(),
            arg_places: Seq::empty(),
            kwarg_places: Seq::empty(),
            capture_accesses: Seq::empty(),
            param_arg_regs: Seq::empty(),
        }),
{
    let r: MirInstr = MirInstr::Call {
        dest,
        func: FuncRef(name.clone()),
        raises: None,
        args: Vec::new(),
        kwargs: Vec::new(),
        arg_places: Vec::new(),
        kwarg_places: Vec::new(),
        capture_accesses: Vec::new(),
        param_arg_regs: Vec::new(),
    };
    assert(r@ =~~= MirInstrModel::Call {
        dest,
        func: FuncRefModel(name@),
        raises: None,
        args: Seq::empty(),
        kwargs: Seq::empty(),
        arg_places: Seq::empty(),
        kwarg_places: Seq::empty(),
        capture_accesses: Seq::empty(),
        param_arg_regs: Seq::empty(),
    });
    r
}

/// Replaces the parameters in the checked types of the instruction. A failure
/// leaves it as it was.
pub fn substitute_instruction(instruction: &mut MirInstr, bindings: &Bindings) -> (r: Result<(), MonoError>)
    ensures
        match r {
            Ok(()) => subst_instr(old(instruction)@, bindings@) == Ok::<MirInstrModel, MonoErrorModel>(final(instruction)@),
            Err(e) => subst_instr(old(instruction)@, bindings@) == Err::<MirInstrModel, MonoErrorModel>(e@)
                && final(instruction)@ == old(instruction)@,
        },
{
    match instruction_with(instruction, bindings) {
        Ok(v) => {
            *instruction = v;
            Ok(())
        },
        Err(e) => Err(e),
    }
}

/// Replaces the parameters in each instruction.
fn substitute_instrs(xs: &Vec<MirInstr>, bindings: &Bindings) -> (r: Result<Vec<MirInstr>, MonoError>)
    ensures
        match r {
            Ok(v) => collect(
                subst_instr_results(instrs_view(*xs), bindings@)
            ) == Ok::<Seq<MirInstrModel>, MonoErrorModel>(instrs_view(v)),
            Err(e) => collect(
                subst_instr_results(instrs_view(*xs), bindings@)
            ) == Err::<Seq<MirInstrModel>, MonoErrorModel>(e@),
        },
    decreases xs, 0int,
{
    let ghost results = subst_instr_results(instrs_view(*xs), bindings@);
    let mut out: Vec<MirInstr> = Vec::new();
    for i in 0..xs.len()
        invariant
            results == subst_instr_results(instrs_view(*xs), bindings@),
            out@.len() == i,
            forall|j: int| 0 <= j < i ==> #[trigger] results[j] == Ok::<MirInstrModel, MonoErrorModel>(instrs_view(out)[j]),
    {
        assert(results[i as int] == subst_instr(instrs_view(*xs)[i as int], bindings@));
        match instruction_with(&xs[i], bindings) {
            Ok(x) => {
                let ghost before = out;
                out.push(x);
                assert forall|j: int| 0 <= j < i + 1 implies #[trigger] results[j] == Ok::<MirInstrModel, MonoErrorModel>(instrs_view(out)[j]) by {
                    if j < i {
                        assert(instrs_view(before)[j] == instrs_view(out)[j]);
                    }
                }
            },
            Err(e) => {
                proof {
                    lemma_collect_err(results, i as int, e@);
                }
                return Err(e);
            },
        }
    }
    proof {
        lemma_collect_ok(results, instrs_view(out));
    }
    Ok(out)
}

fn substitute_block(x: &MirBlock, bindings: &Bindings) -> (r: Result<MirBlock, MonoError>)
    ensures
        match r {
            Ok(v) => subst_block(x@, bindings@) == Ok::<MirBlockModel, MonoErrorModel>(v@),
            Err(e) => subst_block(x@, bindings@) == Err::<MirBlockModel, MonoErrorModel>(e@),
        },
    decreases x, 0int,
{
    match substitute_instrs(&x.instrs, bindings) {
        Err(e) => Err(e),
        Ok(instrs) => Ok(MirBlock { instrs, term: x.term.copy() }),
    }
}

/// Replaces the parameters in the instructions of each block.
pub fn substitute_blocks_metadata(
    xs: &Vec<MirBlock>,
    bindings: &Bindings,
) -> (r: Result<Vec<MirBlock>, MonoError>)
    ensures
        match r {
            Ok(v) => collect(
                subst_block_results(blocks_view(*xs), bindings@)
            ) == Ok::<Seq<MirBlockModel>, MonoErrorModel>(blocks_view(v)),
            Err(e) => collect(
                subst_block_results(blocks_view(*xs), bindings@)
            ) == Err::<Seq<MirBlockModel>, MonoErrorModel>(e@),
        },
    decreases xs, 0int,
{
    let ghost results = subst_block_results(blocks_view(*xs), bindings@);
    let mut out: Vec<MirBlock> = Vec::new();
    for i in 0..xs.len()
        invariant
            results == subst_block_results(blocks_view(*xs), bindings@),
            out@.len() == i,
            forall|j: int| 0 <= j < i ==> #[trigger] results[j] == Ok::<MirBlockModel, MonoErrorModel>(blocks_view(out)[j]),
    {
        assert(results[i as int] == subst_block(blocks_view(*xs)[i as int], bindings@));
        match substitute_block(&xs[i], bindings) {
            Ok(x) => {
                let ghost before = out;
                out.push(x);
                assert forall|j: int| 0 <= j < i + 1 implies #[trigger] results[j] == Ok::<MirBlockModel, MonoErrorModel>(blocks_view(out)[j]) by {
                    if j < i {
                        assert(blocks_view(before)[j] == blocks_view(out)[j]);
                    }
                }
            },
            Err(e) => {
                proof {
                    lemma_collect_err(results, i as int, e@);
                }
                return Err(e);
            },
        }
    }
    proof {
        lemma_collect_ok(results, blocks_view(out));
    }
    Ok(out)
}

/// An optional region with the parameters in its blocks replaced.
pub fn substitute_opt_blocks(
    x: &Option<Vec<MirBlock>>,
    bindings: &Bindings,
) -> (r: Result<Option<Vec<MirBlock>>, MonoError>)
    ensures
        match r {
            Ok(v) => subst_opt_blocks(
                opt_blocks_view(*x),
                bindings@,
            ) == Ok::<Option<Seq<MirBlockModel>>, MonoErrorModel>(opt_blocks_view(v)),
            Err(e) => subst_opt_blocks(
                opt_blocks_view(*x),
                bindings@,
            ) == Err::<Option<Seq<MirBlockModel>>, MonoErrorModel>(e@),
        },
    decreases x, 0int,
{
    match x {
        Some(v) => match substitute_blocks_metadata(v, bindings) {
            Ok(y) => Ok(Some(y)),
            Err(e) => Err(e),
        },
        None => Ok(None),
    }
}

fn substitute_handler(
    x: &Option<(Option<u32>, Vec<MirBlock>)>,
    bindings: &Bindings,
) -> (r: Result<Option<(Option<u32>, Vec<MirBlock>)>, MonoError>)
    ensures
        match r {
            Ok(v) => subst_handler(opt_opt_u32_blocks_view(*x), bindings@) == Ok::<
                Option<(Option<u32>, Seq<MirBlockModel>)>,
                MonoErrorModel,
            >(opt_opt_u32_blocks_view(v)),
            Err(e) => subst_handler(opt_opt_u32_blocks_view(*x), bindings@) == Err::<
                Option<(Option<u32>, Seq<MirBlockModel>)>,
                MonoErrorModel,
            >(e@),
        },
    decreases x, 0int,
{
    match x {
        Some(h) => match substitute_blocks_metadata(&h.1, bindings) {
            Ok(blocks) => Ok(Some((h.0, blocks))),
            Err(e) => Err(e),
        },
        None => Ok(None),
    }
}

} // verus!
