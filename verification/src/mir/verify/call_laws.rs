//! What a clean call promises: it is aligned with its arguments, and its types are those
//! that the declaration or the contract asks for.

use crate::ast::ArgConvention;
use crate::checked::{CheckedCallArgumentSource, CheckedIteratorCallModel, CheckedResultAdapter};
use crate::mir::{
    IterationMode, MirCaptureAccessModel, MirDeclarationsModel, MirFunctionDeclarationModel,
    MirFunctionModel, MirIntrinsicSubscript, MirParamArgModel, MirPlaceModel, MirSubscriptArgModel,
    MirSubscriptArgumentModel, MirSubscriptCallModel, Reg,
};
use crate::mir::verify::{Checker, declaration_of, passes_place};
use crate::mir::verify::calls::{
    call_issues, get_iter_issues, index_issues, method_call_issues, method_result_issues,
    method_target_issues, multi_index_issues, multi_index_sources, multi_set_issues,
    multi_set_sources, next_call_issues, next_issues, next_target_issues, nullary_mutator,
    preparation_issues, slice_issues, stop_iteration, try_next_call_issues, try_next_issues,
    try_next_target_issues,
};
use crate::mir::verify::intrinsics::{
    CallShape, contract_argument_issues, contract_arguments_issues, contract_call_issues,
    contract_raise_issues, contract_result_issues, element_fits, intrinsic_index_issues, lane_ty,
};
use crate::mir::verify::subscripts::{
    SourcesModel, at, capture_access_issues, convention_at, declared_argument_issues,
    declared_arguments_issues, declared_error_issues, declared_receiver_issues,
    declared_result_issues, declared_subscript_issues, effective, in_method_family,
    is_trait_dispatch, param_argument_issues, param_value_issues, receiver_place_issues,
    source_place, source_ty, source_use_issues, source_uses, subscript_argument_issues,
    subscript_arguments_issues, subscript_call_issues, subscript_result_issues,
    subscript_source_issues, subscript_target_issues,
};
use crate::mir::verify::types::{abstract_iterator, compat, iterator_result_fits};
use crate::mir::verify::values::reg_found;
use crate::origin::RefTyModel;
use crate::types::{ParamDeclModel, SliceKind, TyModel};
use vstd::prelude::*;

verus! {

/// An iteration is prepared by a method without arguments that takes its receiver as the
/// mode says: borrowed plainly, immutably or by reference, or owned as a variable.
pub proof fn law_get_iter(
    prefix: Seq<char>,
    function: MirFunctionModel,
    declarations: MirDeclarationsModel,
    source: u32,
    dest: u32,
    mode: IterationMode,
    prepare: Seq<Seq<char>>,
)
    ensures
        prepare.len() == 0 ==> (get_iter_issues(prefix, function, declarations, source, dest, mode, prepare).len() == 0
            <==> source < function.n_vars && dest < function.n_vars),
        prepare.len() > 0 && declaration_of(declarations.functions, prepare[0]) is Some ==> (get_iter_issues(
            prefix,
            function,
            declarations,
            source,
            dest,
            mode,
            prepare,
        ).len() == 0 <==> {
            let d = declaration_of(declarations.functions, prepare[0])->Some_0;
            &&& source < function.n_vars
            &&& dest < function.n_vars
            &&& d.has_receiver
            &&& d.param_types.len() == 0
            &&& match d.receiver_convention {
                None => mode is Borrowed,
                Some(ArgConvention::Imm) => mode is Borrowed,
                Some(ArgConvention::Ref) => mode is Borrowed,
                Some(ArgConvention::Var) => mode is Owned,
                _ => false,
            }
        }),
{
    reveal(get_iter_issues);
    reveal(preparation_issues);
}

/// A step of a bounded iteration gives the checked type, from a declared method that
/// takes only `mut self`, raises nothing and returns what the step gives.
#[verifier::rlimit(40)]
pub proof fn law_next<C: Checker>(
    c: C,
    prefix: Seq<char>,
    function: MirFunctionModel,
    declarations: MirDeclarationsModel,
    dest: Option<TyModel>,
    iter: u32,
    call: CheckedIteratorCallModel,
)
    requires
        !abstract_iterator(call),
    ensures
        next_issues(c, prefix, function, declarations, dest, iter, Some(call)).len() == 0 <==> {
            &&& iter < function.n_vars
            &&& dest == Some(call.result_ty)
            &&& call.raises is None
            &&& call.result_adapter is None
            &&& declaration_of(declarations.functions, call.target) is Some
            &&& ({
                let d = declaration_of(declarations.functions, call.target)->Some_0;
                &&& d.param_types.len() == 0
                &&& d.receiver_convention == Some(ArgConvention::Mut)
                &&& !d.raises
                &&& d.returns_reference == (call.reference_result is Some)
                &&& match call.reference_result {
                    Some(reference) => call.result_ty == TyModel::Ref(reference) && compat(
                        c,
                        *reference.referent,
                        d.ret_ty,
                    ),
                    None => compat(c, call.result_ty, d.ret_ty),
                }
            })
        },
        next_issues(c, prefix, function, declarations, dest, iter, None).len() == 0 <==> iter < function.n_vars,
{
    reveal(next_issues);
    reveal(next_call_issues);
    reveal(next_target_issues);
}

/// A step that ends by raising gives the checked type and a `Bool`, and its exhaustion is
/// a stop of the iteration that the call and the declared method raise.
#[verifier::rlimit(40)]
pub proof fn law_try_next<C: Checker>(
    c: C,
    prefix: Seq<char>,
    function: MirFunctionModel,
    declarations: MirDeclarationsModel,
    dest: Option<TyModel>,
    yielded: TyModel,
    iter: u32,
    call: CheckedIteratorCallModel,
    exhaustion: TyModel,
)
    requires
        !abstract_iterator(call),
    ensures
        try_next_issues(c, prefix, function, declarations, dest, Some(yielded), iter, call, exhaustion).len() == 0 ==> {
            &&& iter < function.n_vars
            &&& yielded is Bool
            &&& dest == Some(call.result_ty)
            &&& call.raises == Some(exhaustion)
            &&& stop_iteration(exhaustion)
            &&& declaration_of(declarations.functions, call.target) is Some
            &&& ({
                let d = declaration_of(declarations.functions, call.target)->Some_0;
                &&& d.param_types.len() == 0
                &&& d.receiver_convention == Some(ArgConvention::Mut)
                &&& d.raises
                &&& d.error_ty == Some(exhaustion)
                &&& iterator_result_fits(c, call, d)
            })
        },
        iter < function.n_vars && yielded is Bool && dest == Some(call.result_ty) && call.raises == Some(exhaustion)
            && stop_iteration(exhaustion) && declaration_of(declarations.functions, call.target) is Some && ({
            let d = declaration_of(declarations.functions, call.target)->Some_0;
            &&& nullary_mutator(d)
            &&& d.raises
            &&& d.error_ty == Some(exhaustion)
            &&& iterator_result_fits(c, call, d)
        }) ==> try_next_issues(c, prefix, function, declarations, dest, Some(yielded), iter, call, exhaustion).len() == 0,
        stop_iteration(exhaustion) ==> exhaustion is Struct && exhaustion->Struct_1.len() == 0,
{
    reveal(try_next_issues);
    reveal(try_next_call_issues);
    reveal(try_next_target_issues);
}

/// An index operation is dispatched once, by a checked call or by an intrinsic, on a
/// receiver place whose type is that of the base.
pub proof fn law_index<C: Checker>(
    c: C,
    prefix: Seq<char>,
    function: MirFunctionModel,
    declarations: MirDeclarationsModel,
    dest: Reg,
    base: Reg,
    index: Reg,
    base_place: Option<MirPlaceModel>,
    index_place: Option<MirPlaceModel>,
    call: Option<MirSubscriptCallModel>,
    intrinsic: Option<MirIntrinsicSubscript>,
)
    ensures
        index_issues(c, prefix, function, declarations, dest, base, index, base_place, index_place, call, intrinsic).len()
            == 0 ==> {
            &&& call is Some != intrinsic is Some
            &&& receiver_place_issues(c, prefix, reg_found(function, base), base_place).len() == 0
        },
        call is None && intrinsic is Some ==> (index_issues(
            c,
            prefix,
            function,
            declarations,
            dest,
            base,
            index,
            base_place,
            index_place,
            call,
            intrinsic,
        ).len() == 0 <==> receiver_place_issues(c, prefix, reg_found(function, base), base_place).len() == 0
            && intrinsic_index_issues(
            c,
            prefix,
            intrinsic->Some_0,
            reg_found(function, base),
            reg_found(function, index),
            reg_found(function, dest),
        ).len() == 0),
        call is Some && intrinsic is Some ==> index_issues(
            c,
            prefix,
            function,
            declarations,
            dest,
            base,
            index,
            base_place,
            index_place,
            call,
            intrinsic,
        ).len() > 0,
        call is None && intrinsic is None ==> index_issues(
            c,
            prefix,
            function,
            declarations,
            dest,
            base,
            index,
            base_place,
            index_place,
            call,
            intrinsic,
        ).len() > 0,
{
    reveal(index_issues);
}

/// A receiver place holds what the receiver is, whichever of them is behind a reference.
pub proof fn law_receiver_place<C: Checker>(c: C, prefix: Seq<char>, found: TyModel, place: MirPlaceModel)
    requires
        place.ty is Some,
    ensures
        receiver_place_issues(c, prefix, Some(found), Some(place)).len() == 0 <==> compat(
            c,
            crate::mir::verify::laws::storage(found),
            crate::mir::verify::laws::storage(place.ty->Some_0),
        ),
        place.ty == Some(found) ==> receiver_place_issues(c, prefix, Some(found), Some(place)).len() == 0,
{
    reveal(compat);
}

/// An intrinsic index is an integer into storage of its kind, and gives an element of it:
/// of a tuple one of its elements, of a list, a pack or a pointer its element, of a
/// vector its lane.
pub proof fn law_intrinsic_index<C: Checker>(
    c: C,
    prefix: Seq<char>,
    intrinsic: MirIntrinsicSubscript,
    base: TyModel,
    index: TyModel,
    dest: TyModel,
)
    ensures
        intrinsic_index_issues(c, prefix, intrinsic, Some(base), Some(index), Some(dest)).len() == 0 ==> {
            &&& compat(c, index, TyModel::Int) || index is UInt
            &&& intrinsic is Simd ==> base is Simd && compat(c, dest, lane_ty(base->Simd_dtype))
            &&& intrinsic is Pointer ==> base is Pointer && element_fits(c, dest, seq![*base->Pointer_element])
            &&& intrinsic is ComptimeList ==> base is ComptimeList && element_fits(
                c,
                dest,
                seq![*base->ComptimeList_0],
            )
            &&& intrinsic is VariadicStorage ==> base is VariadicPack && element_fits(
                c,
                dest,
                seq![*base->VariadicPack_0],
            )
            &&& intrinsic is TupleStorage && base is Tuple ==> element_fits(c, dest, base->Tuple_0)
        },
        (compat(c, index, TyModel::Int) || index is UInt) && base is Pointer && dest == *base->Pointer_element
            && intrinsic is Pointer ==> intrinsic_index_issues(c, prefix, intrinsic, Some(base), Some(index), Some(dest)).len()
            == 0,
        (compat(c, index, TyModel::Int) || index is UInt) && base is Tuple && base->Tuple_0.contains(dest)
            && intrinsic is TupleStorage ==> intrinsic_index_issues(
            c,
            prefix,
            intrinsic,
            Some(base),
            Some(index),
            Some(dest),
        ).len() == 0,
        (compat(c, index, TyModel::Int) || index is UInt) && base is Simd && intrinsic is Simd && compat(
            c,
            dest,
            lane_ty(base->Simd_dtype),
        ) ==> intrinsic_index_issues(c, prefix, intrinsic, Some(base), Some(index), Some(dest)).len() == 0,
        element_fits(c, dest, seq![base]) <==> compat(c, dest, base) || (base is Ref && compat(
            c,
            dest,
            *base->Ref_0.referent,
        )),
{
    reveal(compat);
    assert(seq![base][0] == base);
    if base is Pointer && dest == *base->Pointer_element {
        assert(compat(c, dest, seq![*base->Pointer_element][0]));
        assert(element_fits(c, dest, seq![*base->Pointer_element]));
    }
    if base is Tuple && base->Tuple_0.contains(dest) {
        let i = choose|i: int| 0 <= i < base->Tuple_0.len() && base->Tuple_0[i] == dest;
        assert(compat(c, dest, base->Tuple_0[i]));
        assert(element_fits(c, dest, base->Tuple_0));
    }
}

/// A slice has one descriptor and is always a checked call; subscripts with several
/// arguments are checked calls whose places are aligned with them.
#[verifier::rlimit(40)]
pub proof fn law_multi_subscripts<C: Checker>(
    c: C,
    prefix: Seq<char>,
    function: MirFunctionModel,
    declarations: MirDeclarationsModel,
    dest: Reg,
    object: Reg,
    kind: SliceKind,
    args: Seq<MirSubscriptArgModel>,
    object_place: Option<MirPlaceModel>,
    arg_places: Seq<Option<MirPlaceModel>>,
    kwargs: Seq<(Seq<char>, MirSubscriptArgModel)>,
    kwarg_places: Seq<Option<MirPlaceModel>>,
    call: Option<MirSubscriptCallModel>,
    intrinsic: Option<MirIntrinsicSubscript>,
    value: Reg,
    value_place: Option<MirPlaceModel>,
    value_keyword: bool,
    set_call: MirSubscriptCallModel,
)
    ensures
        slice_issues(c, prefix, function, declarations, dest, object, kind, object_place, arg_places, call, intrinsic).len()
            == 0 ==> call is Some && intrinsic is None && arg_places.len() == 1,
        multi_index_issues(
            c,
            prefix,
            function,
            declarations,
            dest,
            object,
            args,
            object_place,
            arg_places,
            kwargs,
            kwarg_places,
            call,
        ).len() == 0 ==> call is Some && arg_places.len() == args.len() && kwarg_places.len() == kwargs.len()
            && receiver_place_issues(c, prefix, reg_found(function, object), object_place).len() == 0,
        call is Some && arg_places.len() == args.len() && kwarg_places.len() == kwargs.len() && receiver_place_issues(
            c,
            prefix,
            reg_found(function, object),
            object_place,
        ).len() == 0 ==> (multi_index_issues(
            c,
            prefix,
            function,
            declarations,
            dest,
            object,
            args,
            object_place,
            arg_places,
            kwargs,
            kwarg_places,
            call,
        ).len() == 0 <==> subscript_call_issues(
            c,
            prefix,
            function,
            declarations,
            call->Some_0,
            multi_index_sources(function, dest, object, args, object_place, arg_places, kwargs, kwarg_places),
        ).len() == 0),
        multi_set_issues(
            c,
            prefix,
            function,
            declarations,
            object,
            object_place,
            args,
            arg_places,
            value,
            value_place,
            value_keyword,
            set_call,
        ).len() == 0 <==> arg_places.len() == args.len() && receiver_place_issues(
            c,
            prefix,
            reg_found(function, object),
            object_place,
        ).len() == 0 && subscript_call_issues(
            c,
            prefix,
            function,
            declarations,
            set_call,
            multi_set_sources(
                function,
                object,
                object_place,
                args,
                arg_places,
                value,
                value_place,
                value_keyword,
            ),
        ).len() == 0,
{
    reveal(slice_issues);
    reveal(multi_index_issues);
    reveal(multi_set_issues);
}

/// The selected method is one for subscripts, of the receiver's own type; its receiver
/// and arguments have the places that it needs, and each argument the type of its
/// parameter.
#[verifier::rlimit(40)]
pub proof fn law_subscript_sources<C: Checker>(
    c: C,
    prefix: Seq<char>,
    call: MirSubscriptCallModel,
    sources: SourcesModel,
    i: int,
)
    requires
        subscript_source_issues(c, prefix, call, sources).len() == 0,
        0 <= i < call.arguments.len(),
    ensures
        in_method_family(call.target, sources.method),
        call.receiver_requires_place ==> sources.receiver_place is Some,
        sources.positional_places.len() == sources.positional_types.len(),
        sources.keyword_places.len() == sources.keyword_types.len(),
        ({
            let argument = call.arguments[i];
            &&& passes_place(argument.convention) ==> argument.requires_place
            &&& argument.requires_place ==> source_place(sources, argument.source) is Some
            &&& source_ty(sources, argument.source) is Some ==> compat(
                c,
                source_ty(sources, argument.source)->Some_0,
                argument.parameter_ty,
            )
            &&& argument.source matches CheckedCallArgumentSource::Positional(at) ==> at
                < sources.positional_places.len()
            &&& argument.source matches CheckedCallArgumentSource::Keyword(at) ==> at < sources.keyword_places.len()
        }),
{
    reveal(subscript_source_issues);
    reveal(subscript_target_issues);
    lemma_arguments_clean(c, prefix, sources, call.arguments, i);
    reveal(subscript_argument_issues);
}

proof fn lemma_arguments_clean<C: Checker>(
    c: C,
    prefix: Seq<char>,
    sources: SourcesModel,
    arguments: Seq<MirSubscriptArgumentModel>,
    i: int,
)
    requires
        subscript_arguments_issues(c, prefix, sources, arguments).len() == 0,
        0 <= i < arguments.len(),
    ensures
        subscript_argument_issues(c, prefix, sources, arguments[i]).len() == 0,
    decreases arguments.len(),
{
    if i < arguments.len() - 1 {
        lemma_arguments_clean(c, prefix, sources, arguments.drop_last(), i);
    }
}

/// Every source is used exactly once.
pub proof fn law_sources_used_once(
    prefix: Seq<char>,
    arguments: Seq<MirSubscriptArgumentModel>,
    keyword: bool,
    n: nat,
    i: usize,
)
    requires
        source_use_issues(prefix, arguments, keyword, n).len() == 0,
        i < n <= usize::MAX,
    ensures
        source_uses(
            arguments,
            if keyword { CheckedCallArgumentSource::Keyword(i) } else { CheckedCallArgumentSource::Positional(i) },
        ) == 1,
    decreases n,
{
    if i < n - 1 {
        law_sources_used_once(prefix, arguments, keyword, (n - 1) as nat, i);
    }
}

/// The result of a subscript is what its contract returns: a reference exactly where it
/// carries one, with a destination that fits it.
pub proof fn law_subscript_result<C: Checker>(
    c: C,
    prefix: Seq<char>,
    function: MirFunctionModel,
    call: MirSubscriptCallModel,
    dest: Reg,
)
    requires
        reg_found(function, dest) is Some,
    ensures
        subscript_result_issues(c, prefix, function, call, Some(dest)).len() == 0 <==> {
            &&& call.reference_result is Some ==> call.result_ty == TyModel::Ref(call.reference_result->Some_0)
            &&& call.reference_result is None ==> !(call.result_ty is Ref)
            &&& compat(c, reg_found(function, dest)->Some_0, call.result_ty)
            &&& reg_found(function, dest)->Some_0 is Ref && call.result_ty is Ref ==> reg_found(function, dest)
                == Some(call.result_ty)
        },
{
    reveal(subscript_result_issues);
}

/// A call of a declared method agrees with its declaration: in the receiver, in whether
/// and what it raises, in the result, and parameter by parameter.
#[verifier::rlimit(40)]
pub proof fn law_declared_subscript<C: Checker>(
    c: C,
    prefix: Seq<char>,
    call: MirSubscriptCallModel,
    d: MirFunctionDeclarationModel,
    i: int,
)
    requires
        declared_subscript_issues(c, prefix, call, Some(d)).len() == 0,
        0 <= i < d.param_types.len(),
    ensures
        d.has_receiver,
        effective(d.receiver_convention) == effective(call.receiver_convention),
        call.receiver_requires_place == passes_place(d.receiver_convention),
        d.param_decls == call.param_decls,
        d.raises == (call.raises is Some),
        call.raises is Some && d.error_ty is Some ==> compat(c, call.raises->Some_0, d.error_ty->Some_0),
        d.returns_reference == (call.reference_result is Some),
        call.reference_result is Some ==> compat(c, *call.reference_result->Some_0.referent, d.ret_ty),
        call.reference_result is None ==> compat(c, call.result_ty, d.ret_ty),
        d.param_types.len() <= call.arguments.len(),
        compat(c, call.arguments[i].parameter_ty, d.param_types[i]),
        effective(call.arguments[i].convention) == effective(convention_at(d.param_conventions, i)),
        call.arguments[i].requires_place == (i < d.ref_params.len() && d.ref_params[i]),
        call.arguments[i].source is Default ==> i < d.required.len() && !d.required[i],
{
    reveal(declared_subscript_issues);
    reveal(declared_receiver_issues);
    reveal(declared_result_issues);
    reveal(declared_error_issues);
    reveal(declared_argument_issues);
    lemma_declared_arguments(c, prefix, call, d, d.param_types.len(), i);
}

proof fn lemma_declared_arguments<C: Checker>(
    c: C,
    prefix: Seq<char>,
    call: MirSubscriptCallModel,
    d: MirFunctionDeclarationModel,
    n: nat,
    i: int,
)
    requires
        declared_arguments_issues(c, prefix, call, d, n).len() == 0,
        0 <= i < n,
    ensures
        declared_argument_issues(c, prefix, call, d, i).len() == 0,
    decreases n,
{
    if i < n - 1 {
        lemma_declared_arguments(c, prefix, call, d, (n - 1) as nat, i);
    }
}

/// A convention that says nothing is the immutable one, and no others are alike.
pub proof fn law_effective_convention(a: Option<ArgConvention>, b: Option<ArgConvention>)
    ensures
        effective(None) == ArgConvention::Imm,
        a is Some && b is Some && effective(a) == effective(b) ==> a == b,
        a is Some ==> effective(a) == a->Some_0,
        passes_place(a) <==> effective(a) == ArgConvention::Mut || effective(a) == ArgConvention::Ref,
{
}

/// A call has a place for each argument and owners for its captures; a declared callee
/// is called as it is declared.
#[verifier::rlimit(40)]
pub proof fn law_call<C: Checker>(
    c: C,
    prefix: Seq<char>,
    function: MirFunctionModel,
    declarations: MirDeclarationsModel,
    callee: Seq<char>,
    args: Seq<Reg>,
    kwargs: Seq<(Seq<char>, Reg)>,
    arg_places: Seq<Option<MirPlaceModel>>,
    kwarg_places: Seq<Option<MirPlaceModel>>,
    captures: Seq<MirCaptureAccessModel>,
    params: Seq<MirParamArgModel>,
)
    ensures
        call_issues(
            c,
            prefix,
            function,
            declarations,
            callee,
            args,
            kwargs,
            arg_places,
            kwarg_places,
            captures,
            params,
        ).len() == 0 <==> {
            &&& arg_places.len() == args.len()
            &&& kwarg_places.len() == kwargs.len()
            &&& forall|i: int| 0 <= i < captures.len() ==> (#[trigger] captures[i]).root < function.var_names.len()
            &&& declaration_of(declarations.functions, callee) is Some ==> {
                let d = declaration_of(declarations.functions, callee)->Some_0;
                &&& c.direct_call_issues(prefix, function, d, args, kwargs, arg_places).len() == 0
                &&& param_argument_issues(c, prefix, function, d.param_decls, params).len() == 0
            }
        },
{
    reveal(call_issues);
    lemma_captures(prefix, function.var_names.len(), captures);
}

proof fn lemma_captures(prefix: Seq<char>, slots: nat, accesses: Seq<MirCaptureAccessModel>)
    ensures
        capture_access_issues(prefix, slots, accesses).len() == 0 <==> forall|i: int|
            0 <= i < accesses.len() ==> (#[trigger] accesses[i]).root < slots,
    decreases accesses.len(),
{
    if accesses.len() > 0 {
        let before = accesses.drop_last();
        lemma_captures(prefix, slots, before);
        assert(accesses.last() == accesses[accesses.len() - 1]);
        assert forall|i: int| 0 <= i < before.len() implies before[i] == accesses[i] by {}
        if capture_access_issues(prefix, slots, accesses).len() == 0 {
            assert forall|i: int| 0 <= i < accesses.len() implies (#[trigger] accesses[i]).root < slots by {
                if i < before.len() {
                    assert(before[i].root < slots);
                }
            }
        }
    }
}

/// A method call gives what the method returns: the reference that it carries, or a
/// value that fits; only an abstract `__next__` by value goes through an adapter.
#[verifier::rlimit(40)]
pub proof fn law_method_call<C: Checker>(
    c: C,
    prefix: Seq<char>,
    function: MirFunctionModel,
    declarations: MirDeclarationsModel,
    dest: Option<TyModel>,
    method: Seq<char>,
    callee: Seq<char>,
    reference: Option<RefTyModel>,
    adapter: Option<CheckedResultAdapter>,
    args: Seq<Reg>,
    kwargs: Seq<(Seq<char>, Reg)>,
    arg_places: Seq<Option<MirPlaceModel>>,
    kwarg_places: Seq<Option<MirPlaceModel>>,
    captures: Seq<MirCaptureAccessModel>,
    params: Seq<MirParamArgModel>,
    param_decls: Seq<ParamDeclModel>,
)
    ensures
        method_call_issues(
            c,
            prefix,
            function,
            declarations,
            dest,
            method,
            callee,
            reference,
            adapter,
            args,
            kwargs,
            arg_places,
            kwarg_places,
            captures,
            params,
            param_decls,
        ).len() == 0 <==> {
            &&& arg_places.len() == args.len()
            &&& kwarg_places.len() == kwargs.len()
            &&& forall|i: int| 0 <= i < captures.len() ==> (#[trigger] captures[i]).root < function.var_names.len()
            &&& reference is Some ==> dest == Some(TyModel::Ref(reference->Some_0))
            &&& adapter is Some <==> is_trait_dispatch(callee) && method == "__next__"@ && reference is None
            &&& declaration_of(declarations.functions, callee) is Some ==> {
                let d = declaration_of(declarations.functions, callee)->Some_0;
                &&& c.direct_call_issues(prefix, function, d, args, kwargs, arg_places).len() == 0
                &&& d.returns_reference == (reference is Some)
                &&& reference is Some ==> compat(c, *reference->Some_0.referent, d.ret_ty)
                &&& reference is None ==> dest is Some && compat(c, dest->Some_0, d.ret_ty)
                &&& d.param_decls == param_decls
                &&& param_argument_issues(c, prefix, function, d.param_decls, params).len() == 0
            }
        },
{
    reveal(method_call_issues);
    reveal(method_result_issues);
    reveal(method_target_issues);
    lemma_captures(prefix, function.var_names.len(), captures);
}

/// A compile-time value parameter takes a register of its type; a type parameter takes
/// none.
pub proof fn law_param_value<C: Checker>(
    c: C,
    prefix: Seq<char>,
    function: MirFunctionModel,
    decl: ParamDeclModel,
    value: Option<Reg>,
)
    ensures
        decl is Type ==> (param_value_issues(c, prefix, function, decl, value).len() == 0 <==> value is None),
        decl is Value && value is None ==> param_value_issues(c, prefix, function, decl, value).len() == 1,
        decl is Value && value is Some && reg_found(function, value->Some_0) is Some && compat(
            c,
            reg_found(function, value->Some_0)->Some_0,
            *decl->Value_ty,
        ) ==> param_value_issues(c, prefix, function, decl, value).len() == 0,
        decl is Value && value is Some && reg_found(function, value->Some_0) is Some && !(*decl->Value_ty is Func
            || *decl->Value_ty is GenericFunc) && param_value_issues(c, prefix, function, decl, value).len() == 0
            ==> compat(c, reg_found(function, value->Some_0)->Some_0, *decl->Value_ty),
{
}

/// A call through a contract of fixed arity brings an argument of the parameter's type
/// for every required parameter, none too many, and a place where one is passed.
pub proof fn law_contract_call<C: Checker>(
    c: C,
    prefix: Seq<char>,
    function: MirFunctionModel,
    shape: CallShape,
    args: Seq<Reg>,
    arg_places: Seq<Option<MirPlaceModel>>,
    i: int,
)
    requires
        !shape.variadic,
        !shape.kw_variadic,
        contract_call_issues(c, prefix, function, shape, args, 0, arg_places).len() == 0,
    ensures
        args.len() <= shape.params.len(),
        shape.required.len() == shape.params.len(),
        args.len() <= i < shape.required.len() ==> !shape.required[i],
        0 <= i < args.len() && reg_found(function, args[i]) is Some ==> compat(
            c,
            reg_found(function, args[i])->Some_0,
            shape.params[i],
        ),
        0 <= i < args.len() && i < shape.conventions.len() && passes_place(shape.conventions[i])
            ==> i < arg_places.len()
            && arg_places[i] is Some,
{
    if 0 <= i < args.len() {
        lemma_contract_arguments(c, prefix, function, shape, args, arg_places, args.len(), i);
    }
}

proof fn lemma_contract_arguments<C: Checker>(
    c: C,
    prefix: Seq<char>,
    function: MirFunctionModel,
    shape: CallShape,
    args: Seq<Reg>,
    arg_places: Seq<Option<MirPlaceModel>>,
    n: nat,
    i: int,
)
    requires
        contract_arguments_issues(c, prefix, function, shape, args, arg_places, n).len() == 0,
        0 <= i < n,
    ensures
        contract_argument_issues(c, prefix, function, shape, args, arg_places, i).len() == 0,
    decreases n,
{
    if i < n - 1 {
        lemma_contract_arguments(c, prefix, function, shape, args, arg_places, (n - 1) as nat, i);
    }
}

/// A call through a contract raises exactly where the contract does, what the contract
/// says, and gives its result: by value, or as a reference where the contract has one.
pub proof fn law_contract_result<C: Checker>(
    c: C,
    prefix: Seq<char>,
    raises: bool,
    error: Option<TyModel>,
    call_raises: Option<TyModel>,
    ret: TyModel,
    found: TyModel,
)
    ensures
        contract_raise_issues(c, prefix, raises, error, call_raises).len() == 0
            <==> raises == (call_raises is Some) && (
        call_raises is Some && error is Some ==> compat(c, call_raises->Some_0, error->Some_0)),
        contract_result_issues(c, prefix, ret, None, found).len() == 0 <==> !(found is Ref) && compat(c, found, ret),
        forall|sig: crate::origin::RefSigModel|
            #![trigger contract_result_issues(c, prefix, ret, Some(sig), found)]
            contract_result_issues(c, prefix, ret, Some(sig), found).len() == 0 ==> found is Ref && compat(
                c,
                *found->Ref_0.referent,
                ret,
            ) && (sig.mutability is Mutable ==> found->Ref_0.mutability is Mutable) && (sig.mutability is Immutable
                ==> found->Ref_0.mutability is Immutable),
{
}

/// A declaration is found by its name, the first one where there are several.
pub proof fn law_declaration_of(functions: Seq<MirFunctionDeclarationModel>, name: Seq<char>)
    ensures
        declaration_of(functions, name) is Some ==> declaration_of(functions, name)->Some_0.lowered_name == name,
        declaration_of(functions, name) is None <==> forall|i: int|
            0 <= i < functions.len() ==> (#[trigger] functions[i]).lowered_name != name,
        forall|i: int|
            0 <= i < functions.len() && (#[trigger] functions[i]).lowered_name == name && (forall|j: int|
                0 <= j < i ==> (#[trigger] functions[j]).lowered_name != name)
                    ==> declaration_of(functions, name) == Some(
                functions[i],
            ),
    decreases functions.len(),
{
    if functions.len() > 0 {
        let rest = functions.skip(1);
        law_declaration_of(rest, name);
        assert forall|i: int| 0 <= i < rest.len() implies rest[i] == functions[i + 1] by {}
        if functions[0].lowered_name != name {
            if declaration_of(rest, name) is None {
                assert forall|i: int| 0 <= i < functions.len() implies (#[trigger] functions[i]).lowered_name != name by {
                    if i > 0 {
                        assert(rest[i - 1].lowered_name != name);
                    }
                }
            }
            assert forall|i: int|
                0 <= i < functions.len() && (#[trigger] functions[i]).lowered_name == name && (forall|j: int|
                    0 <= j < i ==> (#[trigger] functions[j]).lowered_name != name) implies declaration_of(functions, name)
                == Some(functions[i]) by {
                assert(i > 0);
                assert forall|j: int| 0 <= j < i - 1 implies (#[trigger] rest[j]).lowered_name != name by {
                    assert(functions[j + 1].lowered_name != name);
                }
                assert(rest[i - 1] == functions[i]);
            }
        }
    }
}

} // verus!
