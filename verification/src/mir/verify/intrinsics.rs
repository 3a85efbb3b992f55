//! Verification of intrinsic subscripts and of calls through callable contracts.

use crate::ast::{ArgConvention, Dtype};
use crate::data::strings_view;
use crate::mir::{
    MirFunction, MirFunctionModel, MirIntrinsicSubscript, MirPlace, MirPlaceModel, Reg,
    opt_places_view,
};
use crate::mir::verify::{Checker, found_view, needs_place, passes_place, peel_ref, referent_of, report, rule};
use crate::mir::verify::types::{compat, types_compatible};
use crate::origin::{
    Mutability, Origin, OriginModel, RefSig, RefSigModel, SigMutability, SigOrigin, SigOriginModel,
    opt_boxed_ref_sig_view,
};
use crate::table::table_get;
use crate::text::{cat2, cat3, cat4, cat5, cat6, cat7, dec, dec_text_usize};
use crate::types::{Ty, TyModel, copy_tys, opt_boxed_ty_view, opt_ty_view, opt_tys_view, ty_text, tys_view};
use vstd::prelude::*;

verus! {

/// The name of an intrinsic subscript.
pub open spec fn intrinsic_name(intrinsic: MirIntrinsicSubscript) -> Seq<char> {
    match intrinsic {
        MirIntrinsicSubscript::TupleStorage => "TupleStorage"@,
        MirIntrinsicSubscript::VariadicStorage => "VariadicStorage"@,
        MirIntrinsicSubscript::Simd => "Simd"@,
        MirIntrinsicSubscript::Pointer => "Pointer"@,
        MirIntrinsicSubscript::ComptimeList => "ComptimeList"@,
    }
}

/// The name of an intrinsic subscript.
pub fn name_of_intrinsic(intrinsic: MirIntrinsicSubscript) -> (r: &'static str)
    ensures
        r@ == intrinsic_name(intrinsic),
{
    match intrinsic {
        MirIntrinsicSubscript::TupleStorage => "TupleStorage",
        MirIntrinsicSubscript::VariadicStorage => "VariadicStorage",
        MirIntrinsicSubscript::Simd => "Simd",
        MirIntrinsicSubscript::Pointer => "Pointer",
        MirIntrinsicSubscript::ComptimeList => "ComptimeList",
    }
}

/// The scalar type of one lane.
pub open spec fn lane_ty(dtype: Dtype) -> TyModel {
    match dtype {
        Dtype::Int => TyModel::Int,
        Dtype::Float64 => TyModel::Float64,
        _ => TyModel::Simd { dtype, width: 1 },
    }
}

/// The scalar type of one lane.
pub fn simd_element_type(dtype: Dtype) -> (r: Ty)
    ensures
        r@ == lane_ty(dtype),
{
    match dtype {
        Dtype::Int => Ty::Int,
        Dtype::Float64 => Ty::Float64,
        _ => Ty::Simd { dtype, width: 1 },
    }
}

/// Whether one of the candidate element types, or what it refers to, fits.
pub open spec fn element_fits<C: Checker>(c: C, found: TyModel, candidates: Seq<TyModel>) -> bool {
    exists|i: int|
        0 <= i < candidates.len() && (compat(c, found, #[trigger] candidates[i]) || (candidates[i] is Ref && compat(
            c,
            found,
            referent_of(candidates[i]),
        )))
}

/// Whether one of the candidate element types, or what it refers to, fits.
pub fn fits_element<C: Checker>(c: &C, found: &Ty, candidates: &Vec<Ty>) -> (r: bool)
    ensures
        r == element_fits(*c, found@, tys_view(*candidates)),
{
    let ghost model = tys_view(*candidates);
    for i in 0..candidates.len()
        invariant
            model == tys_view(*candidates),
            forall|j: int|
                0 <= j < i ==> !(compat(*c, found@, #[trigger] model[j]) || (model[j] is Ref && compat(
                    *c,
                    found@,
                    referent_of(model[j]),
                ))),
    {
        assert(model[i as int] == candidates@[i as int]@);
        if types_compatible(c, found, &candidates[i]) {
            return true;
        }
        if let Ty::Ref(_) = &candidates[i] {
            if types_compatible(c, found, peel_ref(&candidates[i])) {
                return true;
            }
        }
    }
    false
}

/// Whether a type can serve as an index.
pub open spec fn is_indexer<C: Checker>(c: C, ty: TyModel) -> bool {
    compat(c, ty, TyModel::Int) || ty is UInt
}

/// Whether a type can serve as an index.
pub fn indexer<C: Checker>(c: &C, ty: &Ty) -> (r: bool)
    ensures
        r == is_indexer(*c, ty@),
{
    if types_compatible(c, ty, &Ty::Int) {
        return true;
    }
    match ty {
        Ty::UInt => true,
        _ => false,
    }
}

/// The element types that an intrinsic subscript of a base may give. The outer
/// option is whether the intrinsic applies to the base.
pub open spec fn intrinsic_elements<C: Checker>(
    c: C,
    intrinsic: MirIntrinsicSubscript,
    base: TyModel,
) -> Option<
    Option<Seq<TyModel>>,
> {
    match intrinsic {
        MirIntrinsicSubscript::TupleStorage => match base {
            TyModel::Tuple(elements) => Some(Some(elements)),
            TyModel::RuntimePack(elements) => Some(Some(elements)),
            _ => Some(c.tuple_shape(base)),
        },
        MirIntrinsicSubscript::VariadicStorage => match base {
            TyModel::VariadicPack(element) => Some(Some(seq![*element])),
            _ => None,
        },
        MirIntrinsicSubscript::Simd => None,
        MirIntrinsicSubscript::Pointer => match base {
            TyModel::Pointer { element, .. } => Some(Some(seq![*element])),
            _ => None,
        },
        MirIntrinsicSubscript::ComptimeList => match base {
            TyModel::ComptimeList(element) => Some(Some(seq![*element])),
            _ => None,
        },
    }
}

/// The issues of an intrinsic subscript's result.
pub open spec fn intrinsic_result_issues<C: Checker>(
    c: C,
    prefix: Seq<char>,
    intrinsic: MirIntrinsicSubscript,
    base: TyModel,
    dest: Option<TyModel>,
) -> Seq<Seq<char>> {
    if intrinsic is Simd && base is Simd {
        let scalar = lane_ty(base->Simd_dtype);
        match dest {
            Some(dest) => rule(
                !compat(c, dest, scalar),
                prefix + ": SIMD intrinsic result has type "@ + ty_text(dest) + ", expected "@ + ty_text(scalar),
            ),
            None => Seq::empty(),
        }
    } else {
        match intrinsic_elements(c, intrinsic, base) {
            None => seq![
                prefix + ": intrinsic "@ + intrinsic_name(intrinsic) + " is incompatible with checked base type "@ + ty_text(base),
            ],
            Some(candidates) => match (dest, candidates) {
                (Some(dest), Some(candidates)) => rule(
                    !element_fits(c, dest, candidates),
                    prefix + ": intrinsic "@ + intrinsic_name(intrinsic) + " result type "@ + ty_text(dest) + " is incompatible with its checked element type"@,
                ),
                _ => Seq::empty(),
            },
        }
    }
}

/// The issues of an intrinsic subscript.
pub open spec fn intrinsic_index_issues<C: Checker>(
    c: C,
    prefix: Seq<char>,
    intrinsic: MirIntrinsicSubscript,
    base: Option<TyModel>,
    index: Option<TyModel>,
    dest: Option<TyModel>,
) -> Seq<Seq<char>> {
    (match index {
        Some(index) => rule(
            !is_indexer(c, index),
            prefix + ": intrinsic index has non-Indexer register type "@ + ty_text(index),
        ),
        None => Seq::empty(),
    }) + (match base {
        Some(base) => intrinsic_result_issues(c, prefix, intrinsic, base, dest),
        None => Seq::empty(),
    })
}

fn one_type(ty: &Ty) -> (r: Vec<Ty>)
    ensures
        tys_view(r) == seq![ty@],
{
    let mut out: Vec<Ty> = Vec::new();
    out.push(ty.copy());
    assert(tys_view(out) =~= seq![ty@]);
    out
}

fn intrinsic_candidates<C: Checker>(
    c: &C,
    intrinsic: MirIntrinsicSubscript,
    base: &Ty,
) -> (r: Option<Option<Vec<Ty>>>)
    ensures
        match r {
            Some(candidates) => intrinsic_elements(*c, intrinsic, base@) == Some(opt_tys_view(candidates)),
            None => intrinsic_elements(*c, intrinsic, base@) is None,
        },
{
    match intrinsic {
        MirIntrinsicSubscript::TupleStorage => match base {
            Ty::Tuple(elements) => Some(Some(copy_tys(elements))),
            Ty::RuntimePack(elements) => Some(Some(copy_tys(elements))),
            _ => Some(c.tuple_elements(base)),
        },
        MirIntrinsicSubscript::VariadicStorage => match base {
            Ty::VariadicPack(element) => Some(Some(one_type(element))),
            _ => None,
        },
        MirIntrinsicSubscript::Simd => None,
        MirIntrinsicSubscript::Pointer => match base {
            Ty::Pointer { element, .. } => Some(Some(one_type(element))),
            _ => None,
        },
        MirIntrinsicSubscript::ComptimeList => match base {
            Ty::ComptimeList(element) => Some(Some(one_type(element))),
            _ => None,
        },
    }
}

fn verify_intrinsic_result<C: Checker>(
    c: &C,
    prefix: &str,
    intrinsic: MirIntrinsicSubscript,
    base: &Ty,
    dest: Option<&Ty>,
    errors: &mut Vec<String>,
)
    ensures
        strings_view(*final(errors)) == strings_view(*old(errors)) + intrinsic_result_issues(
            *c,
            prefix@,
            intrinsic,
            base@,
            found_view(dest),
        ),
{
    let ghost start = strings_view(*errors);
    let ghost issues = intrinsic_result_issues(*c, prefix@, intrinsic, base@, found_view(dest));
    if let MirIntrinsicSubscript::Simd = intrinsic {
        if let Ty::Simd { dtype, .. } = base {
            if let Some(dest) = dest {
                let scalar: Ty = simd_element_type(*dtype);
                if !types_compatible(c, dest, &scalar) {
                    report(
                        errors,
                        cat5(
                            prefix,
                            ": SIMD intrinsic result has type ",
                            &dest.text(),
                            ", expected ",
                            &scalar.text(),
                        ),
                    );
                }
            }
            assert(strings_view(*errors) =~= start + issues);
            return;
        }
    }
    match intrinsic_candidates(c, intrinsic, base) {
        None => {
            report(
                errors,
                cat5(
                    prefix,
                    ": intrinsic ",
                    name_of_intrinsic(intrinsic),
                    " is incompatible with checked base type ",
                    &base.text(),
                ),
            );
        },
        Some(candidates) => {
            if let (Some(dest), Some(candidates)) = (dest, &candidates) {
                if !fits_element(c, dest, candidates) {
                    report(
                        errors,
                        cat6(
                            prefix,
                            ": intrinsic ",
                            name_of_intrinsic(intrinsic),
                            " result type ",
                            &dest.text(),
                            " is incompatible with its checked element type",
                        ),
                    );
                }
            }
        },
    }
    assert(strings_view(*errors) =~= start + issues);
}

/// Verifies an intrinsic subscript against the types of its registers.
pub fn verify_intrinsic_index<C: Checker>(
    c: &C,
    prefix: &str,
    intrinsic: MirIntrinsicSubscript,
    base: Option<&Ty>,
    index: Option<&Ty>,
    dest: Option<&Ty>,
    errors: &mut Vec<String>,
)
    ensures
        strings_view(*final(errors)) == strings_view(*old(errors)) + intrinsic_index_issues(
            *c,
            prefix@,
            intrinsic,
            found_view(base),
            found_view(index),
            found_view(dest),
        ),
{
    let ghost start = strings_view(*errors);
    if let Some(index) = index {
        if !indexer(c, index) {
            report(errors, cat3(prefix, ": intrinsic index has non-Indexer register type ", &index.text()));
        }
    }
    if let Some(base) = base {
        verify_intrinsic_result(c, prefix, intrinsic, base, dest, errors);
    }
    assert(strings_view(*errors) =~= start + intrinsic_index_issues(
        *c,
        prefix@,
        intrinsic,
        found_view(base),
        found_view(index),
        found_view(dest),
    ));
}

/// The element types that a storage projection may select.
pub open spec fn indexed_elements<C: Checker>(c: C, base: TyModel) -> Option<Seq<TyModel>> {
    match base {
        TyModel::Tuple(elements) => Some(elements),
        TyModel::RuntimePack(elements) => Some(elements),
        TyModel::VariadicPack(element) => Some(seq![*element]),
        TyModel::ComptimeList(element) => Some(seq![*element]),
        TyModel::Pointer { element, .. } => Some(seq![*element]),
        TyModel::Simd { dtype, .. } => Some(seq![lane_ty(dtype)]),
        _ => c.tuple_shape(base),
    }
}

/// The element types that a storage projection may select. Nominal collection
/// indexing is absent: it keeps a checked call contract instead of becoming storage
/// navigation.
pub fn indexed_place_element_types<C: Checker>(c: &C, base: &Ty) -> (r: Option<Vec<Ty>>)
    ensures
        opt_tys_view(r) == indexed_elements(*c, base@),
{
    match base {
        Ty::Tuple(elements) => Some(copy_tys(elements)),
        Ty::RuntimePack(elements) => Some(copy_tys(elements)),
        Ty::VariadicPack(element) => Some(one_type(element)),
        Ty::ComptimeList(element) => Some(one_type(element)),
        Ty::Pointer { element, .. } => Some(one_type(element)),
        Ty::Simd { dtype, .. } => {
            let lane: Ty = simd_element_type(*dtype);
            Some(one_type(&lane))
        },
        _ => c.tuple_elements(base),
    }
}

/// The issue of an intrinsic slice: no intrinsic slices.
pub open spec fn intrinsic_slice_issue(prefix: Seq<char>, intrinsic: MirIntrinsicSubscript) -> Seq<char> {
    prefix + ": intrinsic "@ + intrinsic_name(intrinsic) + " is not a slice dispatch"@
}

/// Reports an intrinsic slice: any recorded kind is an issue.
pub fn verify_intrinsic_slice(prefix: &str, intrinsic: MirIntrinsicSubscript, errors: &mut Vec<String>)
    ensures
        strings_view(*final(errors)) == strings_view(*old(errors)) + seq![
            intrinsic_slice_issue(prefix@, intrinsic)
        ],
{
    report(errors, cat4(prefix, ": intrinsic ", name_of_intrinsic(intrinsic), " is not a slice dispatch"));
}

/// The parts of a callable contract that an indirect call is held to.
#[verifier::ext_equal]
pub struct CallShape {
    pub params: Seq<TyModel>,
    pub ret: TyModel,
    pub required: Seq<bool>,
    pub variadic: bool,
    pub kw_variadic: bool,
    pub conventions: Seq<Option<ArgConvention>>,
    pub ref_return: Option<RefSigModel>,
    pub raises: bool,
    pub error: Option<TyModel>,
}

/// The parts of a callable type.
pub open spec fn call_shape(contract: TyModel) -> Option<CallShape> {
    match contract {
        TyModel::Func {
            params,
            ret,
            required,
            variadic,
            kw_variadic,
            conventions,
            ref_return,
            raises,
            error,
            ..
        } => Some(
            CallShape {
                params,
                ret: *ret,
                required,
                variadic: variadic is Some,
                kw_variadic: kw_variadic is Some,
                conventions,
                ref_return: unboxed_sig(ref_return),
                raises,
                error: unboxed_ty(error),
            },
        ),
        TyModel::GenericFunc {
            params,
            ret,
            required,
            variadic,
            kw_variadic,
            conventions,
            ref_return,
            raises,
            error,
            ..
        } => Some(
            CallShape {
                params,
                ret: *ret,
                required,
                variadic: variadic is Some,
                kw_variadic: kw_variadic is Some,
                conventions,
                ref_return: unboxed_sig(ref_return),
                raises,
                error: unboxed_ty(error),
            },
        ),
        _ => None,
    }
}

/// The contents of an optional box.
pub open spec fn unboxed_ty(ty: Option<Box<TyModel>>) -> Option<TyModel> {
    match ty {
        Some(ty) => Some(*ty),
        None => None,
    }
}

/// The contents of an optional box.
pub open spec fn unboxed_sig(sig: Option<Box<RefSigModel>>) -> Option<RefSigModel> {
    match sig {
        Some(sig) => Some(*sig),
        None => None,
    }
}

/// The issues of what a call says it raises, against its contract.
pub open spec fn contract_raise_issues<C: Checker>(
    c: C,
    prefix: Seq<char>,
    raises: bool,
    error: Option<TyModel>,
    call_raises: Option<TyModel>,
) -> Seq<Seq<char>> {
    if raises != (call_raises is Some) {
        seq![prefix + ": indirect-call raising metadata does not match its callable contract"@]
    } else {
        match (call_raises, error) {
            (Some(found), Some(expected)) => rule(
                !compat(c, found, expected),
                prefix + ": indirect-call error type "@ + ty_text(found) + " does not match callable contract "@ + ty_text(expected),
            ),
            _ => Seq::empty(),
        }
    }
}

/// How many flags are set.
pub open spec fn count_set(flags: Seq<bool>) -> nat
    decreases flags.len(),
{
    if flags.len() == 0 {
        0
    } else {
        count_set(flags.drop_last()) + if flags.last() { 1nat } else { 0nat }
    }
}

/// Whether a required parameter at or past `from` is left out.
pub open spec fn omits_required(required: Seq<bool>, from: nat) -> bool {
    exists|i: int| from <= i < required.len() && #[trigger] required[i]
}

/// The issues of one positional argument of an indirect call.
pub open spec fn contract_argument_issues<C: Checker>(
    c: C,
    prefix: Seq<char>,
    function: MirFunctionModel,
    shape: CallShape,
    args: Seq<Reg>,
    arg_places: Seq<Option<MirPlaceModel>>,
    index: int,
) -> Seq<Seq<char>> {
    let expected = shape.params[index];
    (match table_get(function.reg_types, args[index].0) {
        Some(found) => rule(
            !compat(c, found, expected),
            prefix + ": argument "@ + dec(index as nat) + " of indirect callable has type "@ + ty_text(found) + ", contract declares "@ + ty_text(expected),
        ),
        None => Seq::empty(),
    }) + rule(
        index < shape.conventions.len()
            && passes_place(shape.conventions[index])
            && !(index < arg_places.len()
            && arg_places[index] is Some),
        prefix + ": mutable/reference parameter "@ + dec(index as nat) + " of indirect callable has no caller place"@,
    )
}

/// The issues of the first `n` positional arguments of an indirect call.
pub open spec fn contract_arguments_issues<C: Checker>(
    c: C,
    prefix: Seq<char>,
    function: MirFunctionModel,
    shape: CallShape,
    args: Seq<Reg>,
    arg_places: Seq<Option<MirPlaceModel>>,
    n: nat,
) -> Seq<Seq<char>>
    decreases n,
{
    if n == 0 {
        Seq::empty()
    } else {
        contract_arguments_issues(c, prefix, function, shape, args, arg_places, (n - 1) as nat) + contract_argument_issues(
            c,
            prefix,
            function,
            shape,
            args,
            arg_places,
            n - 1,
        )
    }
}

/// The issues of the arguments of an indirect call. Only a call without keywords,
/// of a callable that collects nothing, is held to the parameter list.
pub open spec fn contract_call_issues<C: Checker>(
    c: C,
    prefix: Seq<char>,
    function: MirFunctionModel,
    shape: CallShape,
    args: Seq<Reg>,
    kwargs: nat,
    arg_places: Seq<Option<MirPlaceModel>>,
) -> Seq<Seq<char>> {
    if kwargs == 0 && !shape.variadic && !shape.kw_variadic {
        (if args.len() > shape.params.len() || omits_required(shape.required, args.len()) {
            seq![
                prefix + ": indirect call has "@ + dec(args.len() as nat) + " positional arguments, callable contract requires "@ + dec(
                    count_set(shape.required) as nat
                ),
            ]
        } else {
            contract_arguments_issues(c, prefix, function, shape, args, arg_places, args.len())
        }) + rule(
            shape.required.len() != shape.params.len(),
            prefix + ": callable contract required-mask length does not match its parameters"@,
        )
    } else {
        Seq::empty()
    }
}

/// Whether a reference has the permission that a signature fixes.
pub open spec fn sig_mutability_holds(sig: SigMutability, mutability: Mutability) -> bool {
    match sig {
        SigMutability::Immutable => mutability is Immutable,
        SigMutability::Mutable => mutability is Mutable,
        _ => true,
    }
}

/// Whether a reference has the origin that a signature fixes.
pub open spec fn sig_origin_holds(sig: SigOriginModel, origin: OriginModel) -> bool {
    match sig {
        SigOriginModel::Bound(expected) => origin == expected,
        SigOriginModel::Static => origin is Static,
        SigOriginModel::Untracked { mutable } => origin == (OriginModel::Untracked { mutable }),
        _ => true,
    }
}

/// The issues of the result of an indirect call.
pub open spec fn contract_result_issues<C: Checker>(
    c: C,
    prefix: Seq<char>,
    ret: TyModel,
    ref_return: Option<RefSigModel>,
    found: TyModel,
) -> Seq<Seq<char>> {
    match (ref_return, found) {
        (Some(signature), TyModel::Ref(reference)) => rule(
            !sig_mutability_holds(signature.mutability, reference.mutability),
            prefix + ": indirect-call reference result mutability does not match its callable contract"@,
        ) + rule(
            !sig_origin_holds(signature.origin, reference.origin),
            prefix + ": indirect-call reference result origin does not match its callable contract"@,
        ) + rule(
            !compat(c, *reference.referent, ret),
            prefix + ": indirect-call result has type "@ + ty_text(found) + ", contract returns "@ + ty_text(ret),
        ),
        (Some(_), _) => seq![
            prefix + ": indirect-call result has type "@ + ty_text(found) + ", contract returns a reference to "@ + ty_text(ret),
        ],
        (None, TyModel::Ref(_)) => seq![
            prefix + ": indirect-call result is a reference, contract returns "@ + ty_text(ret) + " by value"@,
        ],
        (None, _) => rule(
            !compat(c, found, ret),
            prefix + ": indirect-call result has type "@ + ty_text(found) + ", contract returns "@ + ty_text(ret),
        ),
    }
}

/// The issues of an indirect call of a callable contract.
#[verifier::opaque]
pub open spec fn callable_contract_issues<C: Checker>(
    c: C,
    prefix: Seq<char>,
    function: MirFunctionModel,
    contract: TyModel,
    call_raises: Option<TyModel>,
    dest: Reg,
    args: Seq<Reg>,
    kwargs: nat,
    arg_places: Seq<Option<MirPlaceModel>>,
) -> Seq<Seq<char>> {
    match call_shape(contract) {
        None => Seq::empty(),
        Some(shape) => contract_raise_issues(c, prefix, shape.raises, shape.error, call_raises) + contract_call_issues(
            c,
            prefix,
            function,
            shape,
            args,
            kwargs,
            arg_places,
        ) + (match table_get(function.reg_types, dest.0) {
            Some(found) => contract_result_issues(c, prefix, shape.ret, shape.ref_return, found),
            None => Seq::empty(),
        }),
    }
}

/// The parts of a callable contract that an indirect call is held to.
pub struct CallParts<'a> {
    pub params: &'a Vec<Ty>,
    pub ret: &'a Ty,
    pub required: &'a Vec<bool>,
    pub variadic: bool,
    pub kw_variadic: bool,
    pub conventions: &'a Vec<Option<ArgConvention>>,
    pub ref_return: Option<&'a RefSig>,
    pub raises: bool,
    pub error: Option<&'a Ty>,
}

impl<'a> View for CallParts<'a> {
    type V = CallShape;

    open spec fn view(&self) -> CallShape {
        CallShape {
            params: tys_view(*self.params),
            ret: self.ret@,
            required: self.required@,
            variadic: self.variadic,
            kw_variadic: self.kw_variadic,
            conventions: self.conventions@,
            ref_return: match self.ref_return {
                Some(sig) => Some(sig@),
                None => None,
            },
            raises: self.raises,
            error: found_view(self.error),
        }
    }
}

fn unbox_ty(ty: &Option<Box<Ty>>) -> (r: Option<&Ty>)
    ensures
        found_view(r) == unboxed_ty(opt_boxed_ty_view(*ty)),
{
    match ty {
        Some(ty) => Some(ty),
        None => None,
    }
}

fn unbox_sig(sig: &Option<Box<RefSig>>) -> (r: Option<&RefSig>)
    ensures
        match r {
            Some(found) => unboxed_sig(opt_boxed_ref_sig_view(*sig)) == Some(found@),
            None => unboxed_sig(opt_boxed_ref_sig_view(*sig)) is None,
        },
{
    match sig {
        Some(sig) => Some(sig),
        None => None,
    }
}

fn call_parts(contract: &Ty) -> (r: Option<CallParts<'_>>)
    ensures
        match r {
            Some(parts) => call_shape(contract@) == Some(parts@),
            None => call_shape(contract@) is None,
        },
{
    match contract {
        Ty::Func {
            params,
            ret,
            required,
            variadic,
            kw_variadic,
            conventions,
            ref_return,
            raises,
            error,
            ..
        } => Some(
            CallParts {
                params,
                ret,
                required,
                variadic: variadic.is_some(),
                kw_variadic: kw_variadic.is_some(),
                conventions,
                ref_return: unbox_sig(ref_return),
                raises: *raises,
                error: unbox_ty(error),
            },
        ),
        Ty::GenericFunc {
            params,
            ret,
            required,
            variadic,
            kw_variadic,
            conventions,
            ref_return,
            raises,
            error,
            ..
        } => Some(
            CallParts {
                params,
                ret,
                required,
                variadic: variadic.is_some(),
                kw_variadic: kw_variadic.is_some(),
                conventions,
                ref_return: unbox_sig(ref_return),
                raises: *raises,
                error: unbox_ty(error),
            },
        ),
        _ => None,
    }
}

fn verify_contract_raises<C: Checker>(
    c: &C,
    prefix: &str,
    raises: bool,
    error: Option<&Ty>,
    call_raises: &Option<Ty>,
    errors: &mut Vec<String>,
)
    ensures
        strings_view(*final(errors)) == strings_view(*old(errors)) + contract_raise_issues(
            *c,
            prefix@,
            raises,
            found_view(error),
            opt_ty_view(*call_raises),
        ),
{
    let ghost start = strings_view(*errors);
    if raises != call_raises.is_some() {
        report(errors, cat2(prefix, ": indirect-call raising metadata does not match its callable contract"));
    } else if let (Some(found), Some(expected)) = (call_raises, error) {
        if !types_compatible(c, found, expected) {
            report(
                errors,
                cat5(
                    prefix,
                    ": indirect-call error type ",
                    &found.text(),
                    " does not match callable contract ",
                    &expected.text(),
                ),
            );
        }
    }
    assert(strings_view(*errors) =~= start + contract_raise_issues(
        *c,
        prefix@,
        raises,
        found_view(error),
        opt_ty_view(*call_raises),
    ));
}

fn required_count(flags: &Vec<bool>) -> (r: usize)
    ensures
        r == count_set(flags@),
{
    let mut n: usize = 0;
    for i in 0..flags.len()
        invariant
            n <= i,
            n == count_set(flags@.take(i as int)),
    {
        assert(flags@.take(i + 1).drop_last() =~= flags@.take(i as int));
        if flags[i] {
            n = n + 1;
        }
    }
    assert(flags@.take(flags@.len() as int) =~= flags@);
    n
}

fn leaves_out_required(required: &Vec<bool>, from: usize) -> (r: bool)
    ensures
        r == omits_required(required@, from as nat),
{
    for i in 0..required.len()
        invariant
            forall|j: int| from <= j < i ==> !#[trigger] required@[j],
    {
        if i >= from && required[i] {
            return true;
        }
    }
    false
}

fn verify_contract_arguments<C: Checker>(
    c: &C,
    prefix: &str,
    function: &MirFunction,
    shape: &CallParts<'_>,
    args: &Vec<Reg>,
    arg_places: &Vec<Option<MirPlace>>,
    errors: &mut Vec<String>,
)
    requires
        args@.len() <= shape.params@.len(),
    ensures
        strings_view(*final(errors)) == strings_view(*old(errors)) + contract_arguments_issues(
            *c,
            prefix@,
            function@,
            shape@,
            args@,
            opt_places_view(*arg_places),
            args@.len(),
        ),
{
    let ghost start = strings_view(*errors);
    let ghost places = opt_places_view(*arg_places);
    assert(start =~= start + contract_arguments_issues(*c, prefix@, function@, shape@, args@, places, 0));
    for index in 0..args.len()
        invariant
            args@.len() <= shape.params@.len(),
            places == opt_places_view(*arg_places),
            strings_view(*errors) == start + contract_arguments_issues(
                *c,
                prefix@,
                function@,
                shape@,
                args@,
                places,
                index as nat,
            ),
    {
        let ghost before = strings_view(*errors);
        let expected: &Ty = &shape.params[index];
        assert(shape@.params[index as int] == expected@);
        if let Some(found) = function.reg_types.get(args[index].0) {
            if !types_compatible(c, found, expected) {
                report(
                    errors,
                    cat7(
                        prefix,
                        ": argument ",
                        &dec_text_usize(index as usize),
                        " of indirect callable has type ",
                        &found.text(),
                        ", contract declares ",
                        &expected.text(),
                    ),
                );
            }
        }
        if index < shape.conventions.len() && needs_place(&shape.conventions[index]) {
            if index >= arg_places.len() || arg_places[index].is_none() {
                report(
                    errors,
                    cat4(
                        prefix,
                        ": mutable/reference parameter ",
                        &dec_text_usize(index as usize),
                        " of indirect callable has no caller place",
                    ),
                );
            }
        }
        assert(
            index < places.len() ==> (places[index as int] is Some) == (arg_places@[index as int] is Some)
        );
        assert(strings_view(*errors) =~= before + contract_argument_issues(
            *c,
            prefix@,
            function@,
            shape@,
            args@,
            places,
            index as int,
        ));
        assert(strings_view(*errors) =~= start + contract_arguments_issues(
            *c,
            prefix@,
            function@,
            shape@,
            args@,
            places,
            (index + 1) as nat,
        ));
    }
}

fn verify_contract_call<C: Checker>(
    c: &C,
    prefix: &str,
    function: &MirFunction,
    shape: &CallParts<'_>,
    args: &Vec<Reg>,
    kwargs: usize,
    arg_places: &Vec<Option<MirPlace>>,
    errors: &mut Vec<String>,
)
    ensures
        strings_view(*final(errors)) == strings_view(*old(errors)) + contract_call_issues(
            *c,
            prefix@,
            function@,
            shape@,
            args@,
            kwargs as nat,
            opt_places_view(*arg_places),
        ),
{
    let ghost start = strings_view(*errors);
    if kwargs == 0 && !shape.variadic && !shape.kw_variadic {
        if args.len() > shape.params.len() || leaves_out_required(shape.required, args.len()) {
            report(
                errors,
                cat5(
                    prefix,
                    ": indirect call has ",
                    &dec_text_usize(args.len() as usize),
                    " positional arguments, callable contract requires ",
                    &dec_text_usize(required_count(shape.required) as usize),
                ),
            );
        } else {
            verify_contract_arguments(c, prefix, function, shape, args, arg_places, errors);
        }
        if shape.required.len() != shape.params.len() {
            report(
                errors,
                cat2(prefix, ": callable contract required-mask length does not match its parameters"),
            );
        }
    }
    assert(strings_view(*errors) =~= start + contract_call_issues(
        *c,
        prefix@,
        function@,
        shape@,
        args@,
        kwargs as nat,
        opt_places_view(*arg_places),
    ));
}

fn signature_origin_holds(sig: &SigOrigin, origin: &Origin) -> (r: bool)
    ensures
        r == sig_origin_holds(sig@, origin@),
{
    match sig {
        SigOrigin::Bound(expected) => origin.same(expected),
        SigOrigin::Static => match origin {
            Origin::Static => true,
            _ => false,
        },
        SigOrigin::Untracked { mutable } => match origin {
            Origin::Untracked { mutable: found } => *found == *mutable,
            _ => false,
        },
        _ => true,
    }
}

fn signature_mutability_holds(sig: &SigMutability, mutability: Mutability) -> (r: bool)
    ensures
        r == sig_mutability_holds(*sig, mutability),
{
    match sig {
        SigMutability::Immutable => mutability == Mutability::Immutable,
        SigMutability::Mutable => mutability == Mutability::Mutable,
        _ => true,
    }
}

fn verify_contract_result<C: Checker>(
    c: &C,
    prefix: &str,
    ret: &Ty,
    ref_return: Option<&RefSig>,
    found: &Ty,
    errors: &mut Vec<String>,
)
    ensures
        strings_view(*final(errors)) == strings_view(*old(errors)) + contract_result_issues(
            *c,
            prefix@,
            ret@,
            match ref_return {
                Some(sig) => Some(sig@),
                None => None,
            },
            found@,
        ),
{
    let ghost start = strings_view(*errors);
    let ghost sig_model: Option<RefSigModel> = match ref_return {
        Some(sig) => Some(sig@),
        None => None,
    };
    match (ref_return, found) {
        (Some(signature), Ty::Ref(reference)) => {
            assert(*reference@.referent == reference.referent@);
            if !signature_mutability_holds(&signature.mutability, reference.mutability) {
                report(
                    errors,
                    cat2(
                        prefix,
                        ": indirect-call reference result mutability does not match its callable contract",
                    ),
                );
            }
            if !signature_origin_holds(&signature.origin, &reference.origin) {
                report(
                    errors,
                    cat2(
                        prefix,
                        ": indirect-call reference result origin does not match its callable contract",
                    ),
                );
            }
            if !types_compatible(c, &reference.referent, ret) {
                report(
                    errors,
                    cat5(
                        prefix,
                        ": indirect-call result has type ",
                        &found.text(),
                        ", contract returns ",
                        &ret.text(),
                    ),
                );
            }
        },
        (Some(_), _) => {
            report(
                errors,
                cat5(
                    prefix,
                    ": indirect-call result has type ",
                    &found.text(),
                    ", contract returns a reference to ",
                    &ret.text(),
                ),
            );
        },
        (None, Ty::Ref(_)) => {
            report(
                errors,
                cat4(
                    prefix,
                    ": indirect-call result is a reference, contract returns ",
                    &ret.text(),
                    " by value",
                ),
            );
        },
        (None, _) => {
            if !types_compatible(c, found, ret) {
                report(
                    errors,
                    cat5(
                        prefix,
                        ": indirect-call result has type ",
                        &found.text(),
                        ", contract returns ",
                        &ret.text(),
                    ),
                );
            }
        },
    }
    assert(strings_view(*errors) =~= start + contract_result_issues(*c, prefix@, ret@, sig_model, found@));
}

/// Verifies an indirect call whose callee register carries a checked callable
/// contract. There is no declaration to consult: the contract is the declaration.
pub fn verify_callable_contract_call<C: Checker>(
    c: &C,
    prefix: &str,
    function: &MirFunction,
    contract: &Ty,
    call_raises: &Option<Ty>,
    dest: Reg,
    args: &Vec<Reg>,
    kwargs: &Vec<(String, Reg)>,
    arg_places: &Vec<Option<MirPlace>>,
    errors: &mut Vec<String>,
)
    ensures
        strings_view(*final(errors)) == strings_view(*old(errors)) + callable_contract_issues(
            *c,
            prefix@,
            function@,
            contract@,
            opt_ty_view(*call_raises),
            dest,
            args@,
            kwargs@.len(),
            opt_places_view(*arg_places),
        ),
{
    proof {
        reveal(callable_contract_issues);
    }
    let ghost start = strings_view(*errors);
    let ghost issues = callable_contract_issues(
        *c,
        prefix@,
        function@,
        contract@,
        opt_ty_view(*call_raises),
        dest,
        args@,
        kwargs@.len(),
        opt_places_view(*arg_places),
    );
    if let Some(shape) = call_parts(contract) {
        verify_contract_raises(c, prefix, shape.raises, shape.error, call_raises, errors);
        verify_contract_call(c, prefix, function, &shape, args, kwargs.len(), arg_places, errors);
        if let Some(found) = function.reg_types.get(dest.0) {
            verify_contract_result(c, prefix, shape.ret, shape.ref_return, found, errors);
        }
    }
    assert(strings_view(*errors) =~= start + issues);
}

} // verus!
