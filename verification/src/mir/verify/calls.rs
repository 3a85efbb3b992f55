//! Verification of loops, subscripts and calls.

use crate::ast::ArgConvention;
use crate::checked::{
    CheckedIteratorCall, CheckedIteratorCallModel, CheckedResultAdapter, IterationMode,
    opt_checked_iterator_call_view,
};
use crate::data::{opt_string_view, strings_view};
use crate::mir::{
    MirCaptureAccess, MirCaptureAccessModel, MirDeclarations, MirDeclarationsModel, MirFunction,
    MirFunctionDeclaration, MirFunctionDeclarationModel, MirFunctionModel, MirIntrinsicSubscript,
    MirParamArg, MirParamArgModel, MirPlace, MirPlaceModel, MirSubscriptArg, MirSubscriptArgModel,
    MirSubscriptCall, MirSubscriptCallModel, Reg, capture_accesses_view, copy_opt_place,
    copy_opt_places, opt_place_view, opt_places_view, opt_subscript_call_view, param_args_view,
    string_regs_view, string_subscript_args_view, subscript_args_view,
};
use crate::mir::verify::{Checker, declaration_of, declared, found_view, report, report_all, rule};
use crate::mir::verify::instantiate::{inst_contract, instantiate_generic_callable_contract};
use crate::mir::verify::intrinsics::{
    callable_contract_issues, intrinsic_index_issues, intrinsic_slice_issue, unboxed_ty,
    verify_callable_contract_call, verify_intrinsic_index, verify_intrinsic_slice,
};
use crate::mir::verify::subscripts::{
    SourcesModel, SubscriptSources, capture_access_issues, convention_text, is_trait_dispatch,
    opt_types_view, param_argument_issues, receiver_place_issues, subscript_call_issues,
    text_of_convention, verify_capture_accesses, verify_param_arguments, verify_subscript_call,
    verify_subscript_receiver_place,
};
use crate::mir::verify::types::{
    abstract_iterator, compat, iterator_adapter_issues, iterator_result_fits,
    iterator_result_matches_declaration, types_compatible, verify_iterator_result_adapter,
};
use crate::mir::verify::values::{reg_found, reg_type};
use crate::origin::{RefTy, RefTyModel, opt_ref_ty_view};
use crate::symbol::{
    dispatch_name, is_overload_of, iterator_dispatch_symbol, member_of, member_part, overload_of,
    retarget_method_symbol, retargeted,
};
use crate::text::{cat2, cat3, cat4, cat6, cat7, dec, dec_text, ends_with, occurs_at, starts_with, str_eq};
use crate::types::{
    ParamDecl, ParamDeclModel, SliceKind, Ty, TyArg, TyArgModel, TyModel, opt_ty_view,
    param_decls_view, same_param_decls, ty_args_view, ty_text,
};
use vstd::prelude::*;

verus! {

/// Whether a preparation method can take its source this way.
pub open spec fn iterates_as(mode: IterationMode, convention: Option<ArgConvention>) -> bool {
    match mode {
        IterationMode::Borrowed => convention is None
            || convention == Some(ArgConvention::Imm)
            || convention == Some(
            ArgConvention::Ref,
        ),
        IterationMode::Owned => convention == Some(ArgConvention::Var),
    }
}

fn can_iterate(mode: IterationMode, convention: &Option<ArgConvention>) -> (r: bool)
    ensures
        r == iterates_as(mode, *convention),
{
    match mode {
        IterationMode::Borrowed => match convention {
            None => true,
            Some(ArgConvention::Imm) => true,
            Some(ArgConvention::Ref) => true,
            _ => false,
        },
        IterationMode::Owned => match convention {
            Some(ArgConvention::Var) => true,
            _ => false,
        },
    }
}

/// Whether a symbol is the abstract preparation method of the mode.
pub open spec fn dispatches_as(mode: IterationMode, symbol: Seq<char>) -> bool {
    match mode {
        IterationMode::Borrowed => symbol == dispatch_name(ArgConvention::Imm) || symbol == dispatch_name(ArgConvention::Ref),
        IterationMode::Owned => symbol == dispatch_name(ArgConvention::Var),
    }
}

fn can_dispatch(mode: IterationMode, symbol: &str) -> (r: bool)
    ensures
        r == dispatches_as(mode, symbol@),
{
    match mode {
        IterationMode::Borrowed => str_eq(symbol, &iterator_dispatch_symbol(ArgConvention::Imm)) || str_eq(
            symbol,
            &iterator_dispatch_symbol(ArgConvention::Ref),
        ),
        IterationMode::Owned => str_eq(symbol, &iterator_dispatch_symbol(ArgConvention::Var)),
    }
}

/// The name of an iteration mode.
pub open spec fn mode_name(mode: IterationMode) -> Seq<char> {
    match mode {
        IterationMode::Borrowed => "Borrowed"@,
        IterationMode::Owned => "Owned"@,
    }
}

fn name_of_mode(mode: IterationMode) -> (r: &'static str)
    ensures
        r@ == mode_name(mode),
{
    match mode {
        IterationMode::Borrowed => "Borrowed",
        IterationMode::Owned => "Owned",
    }
}

/// The issues of the first preparation method of a loop.
#[verifier::opaque]
pub open spec fn preparation_issues(
    prefix: Seq<char>,
    declarations: MirDeclarationsModel,
    mode: IterationMode,
    first: Seq<char>,
) -> Seq<Seq<char>> {
    match declaration_of(declarations.functions, first) {
        Some(declaration) => rule(
            !declaration.has_receiver || declaration.param_types.len() > 0,
            prefix + ": GetIter preparation method '"@ + first + "' is not a nullary receiver operation"@,
        ) + rule(
            !iterates_as(mode, declaration.receiver_convention),
            prefix + ": GetIter "@ + mode_name(mode) + " mode does not match preparation method '"@ + first + "' receiver convention "@ + convention_text(declaration.receiver_convention),
        ),
        None => rule(
            !dispatches_as(mode, first),
            prefix + ": GetIter refers to undeclared preparation method '"@ + first + "'"@,
        ),
    }
}

fn verify_preparation(
    prefix: &str,
    declarations: &MirDeclarations,
    mode: IterationMode,
    first: &str,
    errors: &mut Vec<String>,
)
    ensures
        strings_view(*final(errors)) == strings_view(*old(errors)) + preparation_issues(
            prefix@,
            declarations@,
            mode,
            first@,
        ),
{
    proof {
        reveal(preparation_issues);
    }
    let ghost start = strings_view(*errors);
    match declared(declarations, first) {
        Some(declaration) => {
            assert(declaration@.param_types.len() == declaration.param_types@.len());
            if !declaration.has_receiver || declaration.param_types.len() > 0 {
                report(
                    errors,
                    cat4(
                        prefix,
                        ": GetIter preparation method '",
                        first,
                        "' is not a nullary receiver operation",
                    ),
                );
            }
            if !can_iterate(mode, &declaration.receiver_convention) {
                report(
                    errors,
                    cat7(
                        prefix,
                        ": GetIter ",
                        name_of_mode(mode),
                        " mode does not match preparation method '",
                        first,
                        "' receiver convention ",
                        text_of_convention(&declaration.receiver_convention),
                    ),
                );
            }
        },
        None => {
            if !can_dispatch(mode, first) {
                report(
                    errors,
                    cat4(prefix, ": GetIter refers to undeclared preparation method '", first, "'"),
                );
            }
        },
    }
    assert(strings_view(*errors) =~= start + preparation_issues(prefix@, declarations@, mode, first@));
}

/// The issues of preparing a loop.
#[verifier::opaque]
pub open spec fn get_iter_issues(
    prefix: Seq<char>,
    function: MirFunctionModel,
    declarations: MirDeclarationsModel,
    source: u32,
    dest: u32,
    mode: IterationMode,
    prepare: Seq<Seq<char>>,
) -> Seq<Seq<char>> {
    rule(
        source >= function.n_vars,
        prefix + ": GetIter uses invalid source slot "@ + dec(source as nat),
    ) + rule(
        dest >= function.n_vars,
        prefix + ": GetIter uses invalid destination slot "@ + dec(dest as nat),
    ) + (if prepare.len() > 0 { preparation_issues(prefix, declarations, mode, prepare[0]) } else { Seq::empty() })
}

pub fn verify_get_iter(
    prefix: &str,
    function: &MirFunction,
    declarations: &MirDeclarations,
    source: u32,
    dest: u32,
    mode: IterationMode,
    prepare: &Vec<String>,
    errors: &mut Vec<String>,
)
    ensures
        strings_view(*final(errors)) == strings_view(*old(errors)) + get_iter_issues(
            prefix@,
            function@,
            declarations@,
            source,
            dest,
            mode,
            strings_view(*prepare),
        ),
{
    proof {
        reveal(get_iter_issues);
    }
    let ghost start = strings_view(*errors);
    assert(strings_view(*prepare).len() == prepare@.len());
    if source as u64 >= function.n_vars as u64 {
        report(errors, cat3(prefix, ": GetIter uses invalid source slot ", &dec_text(source as u64)));
    }
    if dest as u64 >= function.n_vars as u64 {
        report(errors, cat3(prefix, ": GetIter uses invalid destination slot ", &dec_text(dest as u64)));
    }
    if prepare.len() > 0 {
        assert(strings_view(*prepare)[0] == prepare@[0]@);
        verify_preparation(prefix, declarations, mode, &prepare[0], errors);
    }
    assert(
        strings_view(*errors) =~= start + get_iter_issues(
            prefix@,
            function@,
            declarations@,
            source,
            dest,
            mode,
            strings_view(*prepare),
        )
    );
}

/// Whether a method takes nothing but a mutable receiver.
pub open spec fn nullary_mutator(declaration: MirFunctionDeclarationModel) -> bool {
    declaration.param_types.len() == 0 && declaration.receiver_convention == Some(ArgConvention::Mut)
}

fn is_nullary_mutator(declaration: &MirFunctionDeclaration) -> (r: bool)
    ensures
        r == nullary_mutator(declaration@),
{
    assert(declaration@.param_types.len() == declaration.param_types@.len());
    if declaration.param_types.len() > 0 {
        return false;
    }
    match &declaration.receiver_convention {
        Some(ArgConvention::Mut) => true,
        _ => false,
    }
}

/// The issues of the method that advances a bounded loop.
#[verifier::opaque]
pub open spec fn next_target_issues<C: Checker>(
    c: C,
    prefix: Seq<char>,
    declarations: MirDeclarationsModel,
    call: CheckedIteratorCallModel,
) -> Seq<Seq<char>> {
    match declaration_of(declarations.functions, call.target) {
        None => seq![prefix + ": Next refers to undeclared iterator method '"@ + call.target + "'"@],
        Some(declaration) => rule(
            !nullary_mutator(declaration),
            prefix + ": Next method '"@ + call.target + "' is not a nullary 'mut self' operation"@,
        ) + rule(
            declaration.raises,
            prefix + ": bounded Next method '"@ + call.target + "' unexpectedly raises"@,
        ) + rule(
            !iterator_result_fits(c, call, declaration),
            prefix + ": Next result contract does not match '"@ + call.target + "'"@,
        ),
    }
}

fn verify_next_target<C: Checker>(
    c: &C,
    prefix: &str,
    declarations: &MirDeclarations,
    call: &CheckedIteratorCall,
    errors: &mut Vec<String>,
)
    ensures
        strings_view(*final(errors)) == strings_view(*old(errors)) + next_target_issues(
            *c,
            prefix@,
            declarations@,
            call@,
        ),
{
    proof {
        reveal(next_target_issues);
    }
    let ghost start = strings_view(*errors);
    match declared(declarations, &call.target) {
        None => {
            report(errors, cat4(prefix, ": Next refers to undeclared iterator method '", &call.target, "'"));
        },
        Some(declaration) => {
            if !is_nullary_mutator(declaration) {
                report(
                    errors,
                    cat4(prefix, ": Next method '", &call.target, "' is not a nullary 'mut self' operation"),
                );
            }
            if declaration.raises {
                report(
                    errors,
                    cat4(prefix, ": bounded Next method '", &call.target, "' unexpectedly raises"),
                );
            }
            if !iterator_result_matches_declaration(c, call, declaration) {
                report(errors, cat4(prefix, ": Next result contract does not match '", &call.target, "'"));
            }
        },
    }
    assert(strings_view(*errors) =~= start + next_target_issues(*c, prefix@, declarations@, call@));
}

fn has_exact_type(found: Option<&Ty>, expected: &Ty) -> (r: bool)
    ensures
        r == (found_view(found) == Some(expected@)),
{
    match found {
        Some(found) => found.same(expected),
        None => false,
    }
}

/// The issues of the checked call that advances a bounded loop.
#[verifier::opaque]
pub open spec fn next_call_issues<C: Checker>(
    c: C,
    prefix: Seq<char>,
    declarations: MirDeclarationsModel,
    dest: Option<TyModel>,
    call: CheckedIteratorCallModel,
) -> Seq<Seq<char>> {
    rule(
        dest != Some(call.result_ty),
        prefix + ": Next result does not match its checked type "@ + ty_text(call.result_ty),
    ) + rule(
        call.raises is Some,
        prefix + ": bounded Next carries a raising iterator contract"@,
    ) + iterator_adapter_issues(prefix, call) + (if abstract_iterator(call) {
        Seq::empty()
    } else {
        next_target_issues(c, prefix, declarations, call)
    })
}

fn verify_next_call<C: Checker>(
    c: &C,
    prefix: &str,
    declarations: &MirDeclarations,
    dest: Option<&Ty>,
    call: &CheckedIteratorCall,
    errors: &mut Vec<String>,
)
    ensures
        strings_view(*final(errors)) == strings_view(*old(errors)) + next_call_issues(
            *c,
            prefix@,
            declarations@,
            found_view(dest),
            call@,
        ),
{
    proof {
        reveal(next_call_issues);
    }
    let ghost start = strings_view(*errors);
    if !has_exact_type(dest, &call.result_ty) {
        report(
            errors,
            cat3(prefix, ": Next result does not match its checked type ", &call.result_ty.text()),
        );
    }
    if call.raises.is_some() {
        report(errors, cat2(prefix, ": bounded Next carries a raising iterator contract"));
    }
    if !verify_iterator_result_adapter(prefix, call, errors) {
        verify_next_target(c, prefix, declarations, call, errors);
    }
    assert(
        strings_view(*errors) =~= start + next_call_issues(
            *c,
            prefix@,
            declarations@,
            found_view(dest),
            call@,
        )
    );
}

/// The issues of advancing a bounded loop.
#[verifier::opaque]
pub open spec fn next_issues<C: Checker>(
    c: C,
    prefix: Seq<char>,
    function: MirFunctionModel,
    declarations: MirDeclarationsModel,
    dest: Option<TyModel>,
    iter: u32,
    call: Option<CheckedIteratorCallModel>,
) -> Seq<Seq<char>> {
    rule(
        iter >= function.n_vars,
        prefix + ": Next uses invalid iterator slot "@ + dec(iter as nat),
    ) + (match call {
        Some(call) => next_call_issues(c, prefix, declarations, dest, call),
        None => Seq::empty(),
    })
}

pub fn verify_next<C: Checker>(
    c: &C,
    prefix: &str,
    function: &MirFunction,
    declarations: &MirDeclarations,
    dest: Option<&Ty>,
    iter: u32,
    call: &Option<CheckedIteratorCall>,
    errors: &mut Vec<String>,
)
    ensures
        strings_view(*final(errors)) == strings_view(*old(errors)) + next_issues(
            *c,
            prefix@,
            function@,
            declarations@,
            found_view(dest),
            iter,
            opt_checked_iterator_call_view(*call),
        ),
{
    proof {
        reveal(next_issues);
    }
    let ghost start = strings_view(*errors);
    if iter as u64 >= function.n_vars as u64 {
        report(errors, cat3(prefix, ": Next uses invalid iterator slot ", &dec_text(iter as u64)));
    }
    if let Some(call) = call {
        verify_next_call(c, prefix, declarations, dest, call, errors);
    }
    assert(
        strings_view(*errors) =~= start + next_issues(
            *c,
            prefix@,
            function@,
            declarations@,
            found_view(dest),
            iter,
            opt_checked_iterator_call_view(*call),
        )
    );
}

/// The issues of the method that advances a loop until it raises.
#[verifier::opaque]
pub open spec fn try_next_target_issues<C: Checker>(
    c: C,
    prefix: Seq<char>,
    declarations: MirDeclarationsModel,
    call: CheckedIteratorCallModel,
    exhaustion: TyModel,
) -> Seq<Seq<char>> {
    match declaration_of(declarations.functions, call.target) {
        None => seq![prefix + ": TryNext refers to undeclared iterator method '"@ + call.target + "'"@],
        Some(declaration) => rule(
            !nullary_mutator(declaration),
            prefix + ": TryNext method '"@ + call.target + "' is not a nullary 'mut self' operation"@,
        ) + rule(
            !declaration.raises || declaration.error_ty != Some(exhaustion),
            prefix + ": TryNext exhaustion type "@ + ty_text(exhaustion) + " does not match '"@ + call.target + "' raising contract"@,
        ) + rule(
            !iterator_result_fits(c, call, declaration),
            prefix + ": TryNext result contract does not match '"@ + call.target + "'"@,
        ),
    }
}

fn verify_try_next_target<C: Checker>(
    c: &C,
    prefix: &str,
    declarations: &MirDeclarations,
    call: &CheckedIteratorCall,
    exhaustion: &Ty,
    errors: &mut Vec<String>,
)
    ensures
        strings_view(*final(errors)) == strings_view(*old(errors)) + try_next_target_issues(
            *c,
            prefix@,
            declarations@,
            call@,
            exhaustion@,
        ),
{
    proof {
        reveal(try_next_target_issues);
    }
    let ghost start = strings_view(*errors);
    match declared(declarations, &call.target) {
        None => {
            report(
                errors,
                cat4(prefix, ": TryNext refers to undeclared iterator method '", &call.target, "'"),
            );
        },
        Some(declaration) => {
            if !is_nullary_mutator(declaration) {
                report(
                    errors,
                    cat4(
                        prefix,
                        ": TryNext method '",
                        &call.target,
                        "' is not a nullary 'mut self' operation",
                    ),
                );
            }
            if !declaration.raises || !has_exact_type(declaration.error_ty.as_ref(), exhaustion) {
                report(
                    errors,
                    cat6(
                        prefix,
                        ": TryNext exhaustion type ",
                        &exhaustion.text(),
                        " does not match '",
                        &call.target,
                        "' raising contract",
                    ),
                );
            }
            if !iterator_result_matches_declaration(c, call, declaration) {
                report(errors, cat4(prefix, ": TryNext result contract does not match '", &call.target, "'"));
            }
        },
    }
    assert(
        strings_view(*errors) =~= start + try_next_target_issues(
            *c,
            prefix@,
            declarations@,
            call@,
            exhaustion@,
        )
    );
}

/// Whether a type is the error that ends a loop.
pub open spec fn stop_iteration(ty: TyModel) -> bool {
    match ty {
        TyModel::Struct(name, arguments) => arguments.len() == 0 && (name == "StopIteration"@ || occurs_at(
            name,
            "$StopIteration"@,
            name.len() - "$StopIteration"@.len(),
        )),
        _ => false,
    }
}

fn is_stop_iteration(ty: &Ty) -> (r: bool)
    ensures
        r == stop_iteration(ty@),
{
    match ty {
        Ty::Struct(name, arguments) => {
            assert(ty_args_view(*arguments).len() == arguments@.len());
            arguments.len() == 0 && (str_eq(name, "StopIteration") || ends_with(name, "$StopIteration"))
        },
        _ => false,
    }
}

/// The issues of the checked call that advances a loop until it raises.
#[verifier::opaque]
pub open spec fn try_next_call_issues<C: Checker>(
    c: C,
    prefix: Seq<char>,
    declarations: MirDeclarationsModel,
    dest: Option<TyModel>,
    call: CheckedIteratorCallModel,
    exhaustion: TyModel,
) -> Seq<Seq<char>> {
    rule(
        !stop_iteration(exhaustion),
        prefix + ": TryNext catches non-StopIteration type "@ + ty_text(exhaustion),
    ) + rule(
        dest != Some(call.result_ty),
        prefix + ": TryNext result does not match its checked type "@ + ty_text(call.result_ty),
    ) + rule(
        call.raises != Some(exhaustion),
        prefix + ": TryNext exhaustion type "@ + ty_text(exhaustion) + " does not match its checked call effect"@,
    ) + iterator_adapter_issues(prefix, call) + (if abstract_iterator(call) {
        Seq::empty()
    } else {
        try_next_target_issues(c, prefix, declarations, call, exhaustion)
    })
}

fn verify_try_next_call<C: Checker>(
    c: &C,
    prefix: &str,
    declarations: &MirDeclarations,
    dest: Option<&Ty>,
    call: &CheckedIteratorCall,
    exhaustion: &Ty,
    errors: &mut Vec<String>,
)
    ensures
        strings_view(*final(errors)) == strings_view(*old(errors)) + try_next_call_issues(
            *c,
            prefix@,
            declarations@,
            found_view(dest),
            call@,
            exhaustion@,
        ),
{
    proof {
        reveal(try_next_call_issues);
    }
    let ghost start = strings_view(*errors);
    if !is_stop_iteration(exhaustion) {
        report(errors, cat3(prefix, ": TryNext catches non-StopIteration type ", &exhaustion.text()));
    }
    if !has_exact_type(dest, &call.result_ty) {
        report(
            errors,
            cat3(prefix, ": TryNext result does not match its checked type ", &call.result_ty.text()),
        );
    }
    if !has_exact_type(call.raises.as_ref(), exhaustion) {
        report(
            errors,
            cat4(
                prefix,
                ": TryNext exhaustion type ",
                &exhaustion.text(),
                " does not match its checked call effect",
            ),
        );
    }
    if !verify_iterator_result_adapter(prefix, call, errors) {
        verify_try_next_target(c, prefix, declarations, call, exhaustion, errors);
    }
    assert(
        strings_view(*errors) =~= start + try_next_call_issues(
            *c,
            prefix@,
            declarations@,
            found_view(dest),
            call@,
            exhaustion@,
        )
    );
}

/// The issues of advancing a loop until it raises.
#[verifier::opaque]
pub open spec fn try_next_issues<C: Checker>(
    c: C,
    prefix: Seq<char>,
    function: MirFunctionModel,
    declarations: MirDeclarationsModel,
    dest: Option<TyModel>,
    yielded: Option<TyModel>,
    iter: u32,
    call: CheckedIteratorCallModel,
    exhaustion: TyModel,
) -> Seq<Seq<char>> {
    rule(
        iter >= function.n_vars,
        prefix + ": TryNext uses invalid iterator slot "@ + dec(iter as nat),
    ) + (match yielded {
        Some(found) => rule(
            !(found is Bool),
            prefix + ": TryNext yielded flag has non-Bool type "@ + ty_text(found),
        ),
        None => Seq::empty(),
    }) + try_next_call_issues(c, prefix, declarations, dest, call, exhaustion)
}

pub fn verify_try_next<C: Checker>(
    c: &C,
    prefix: &str,
    function: &MirFunction,
    declarations: &MirDeclarations,
    dest: Option<&Ty>,
    yielded: Option<&Ty>,
    iter: u32,
    call: &CheckedIteratorCall,
    exhaustion: &Ty,
    errors: &mut Vec<String>,
)
    ensures
        strings_view(*final(errors)) == strings_view(*old(errors)) + try_next_issues(
            *c,
            prefix@,
            function@,
            declarations@,
            found_view(dest),
            found_view(yielded),
            iter,
            call@,
            exhaustion@,
        ),
{
    proof {
        reveal(try_next_issues);
    }
    let ghost start = strings_view(*errors);
    if iter as u64 >= function.n_vars as u64 {
        report(errors, cat3(prefix, ": TryNext uses invalid iterator slot ", &dec_text(iter as u64)));
    }
    if let Some(found) = yielded {
        match found {
            Ty::Bool => {},
            _ => {
                report(errors, cat3(prefix, ": TryNext yielded flag has non-Bool type ", &found.text()));
            },
        }
    }
    verify_try_next_call(c, prefix, declarations, dest, call, exhaustion, errors);
    assert(
        strings_view(*errors) =~= start + try_next_issues(
            *c,
            prefix@,
            function@,
            declarations@,
            found_view(dest),
            found_view(yielded),
            iter,
            call@,
            exhaustion@,
        )
    );
}

/// What an index call is verified against. A call without arguments takes its index
/// at compile time.
pub open spec fn index_sources(
    function: MirFunctionModel,
    dest: Reg,
    base: Reg,
    index: Reg,
    base_place: Option<MirPlaceModel>,
    index_place: Option<MirPlaceModel>,
    call: MirSubscriptCallModel,
) -> SourcesModel {
    SourcesModel {
        receiver_ty: reg_found(function, base),
        method: "__getitem__"@,
        receiver_place: base_place,
        positional_places: if call.arguments.len() == 0 { Seq::empty() } else { seq![index_place] },
        keyword_places: Seq::empty(),
        positional_types: if call.arguments.len() == 0 { Seq::empty() } else { seq![reg_found(function, index)] },
        keyword_types: Seq::empty(),
        dest: Some(dest),
    }
}

fn copied_type(ty: Option<&Ty>) -> (r: Option<Ty>)
    ensures
        opt_ty_view(r) == found_view(ty),
{
    match ty {
        Some(ty) => Some(ty.copy()),
        None => None,
    }
}

/// The issues of the selected call of an index.
#[verifier::opaque]
pub open spec fn index_call_issues<C: Checker>(
    c: C,
    prefix: Seq<char>,
    function: MirFunctionModel,
    declarations: MirDeclarationsModel,
    dest: Reg,
    base: Reg,
    index: Reg,
    base_place: Option<MirPlaceModel>,
    index_place: Option<MirPlaceModel>,
    call: MirSubscriptCallModel,
) -> Seq<Seq<char>> {
    subscript_call_issues(
        c,
        prefix,
        function,
        declarations,
        call,
        index_sources(function, dest, base, index, base_place, index_place, call),
    )
}

fn verify_index_call<C: Checker>(
    c: &C,
    prefix: &str,
    function: &MirFunction,
    declarations: &MirDeclarations,
    dest: Reg,
    base: Reg,
    index: Reg,
    base_place: &Option<MirPlace>,
    index_place: &Option<MirPlace>,
    call: &MirSubscriptCall,
    errors: &mut Vec<String>,
)
    ensures
        strings_view(*final(errors)) == strings_view(*old(errors)) + index_call_issues(
            *c,
            prefix@,
            function@,
            declarations@,
            dest,
            base,
            index,
            opt_place_view(*base_place),
            opt_place_view(*index_place),
            call@,
        ),
{
    proof {
        reveal(index_call_issues);
    }
    let ghost start = strings_view(*errors);
    let mut positional_places: Vec<Option<MirPlace>> = Vec::new();
    let mut positional_types: Vec<Option<Ty>> = Vec::new();
    assert(call@.arguments.len() == call.arguments@.len());
    if call.arguments.len() > 0 {
        positional_places.push(copy_opt_place(index_place));
        positional_types.push(copied_type(reg_type(function, index)));
    }
    let keyword_places: Vec<Option<MirPlace>> = Vec::new();
    let keyword_types: Vec<Option<Ty>> = Vec::new();
    let sources: SubscriptSources<'_> = SubscriptSources {
        receiver_ty: reg_type(function, base),
        method: "__getitem__",
        receiver_place: base_place,
        positional_places: &positional_places,
        keyword_places: &keyword_places,
        positional_types: &positional_types,
        keyword_types: &keyword_types,
        dest: Some(dest),
    };
    assert(sources@ =~= index_sources(
        function@,
        dest,
        base,
        index,
        opt_place_view(*base_place),
        opt_place_view(*index_place),
        call@,
    ));
    verify_subscript_call(c, prefix, function, declarations, call, &sources, errors);
    assert(
        strings_view(*errors) =~= start + index_call_issues(
            *c,
            prefix@,
            function@,
            declarations@,
            dest,
            base,
            index,
            opt_place_view(*base_place),
            opt_place_view(*index_place),
            call@,
        )
    );
}

/// The issues of an index.
#[verifier::opaque]
pub open spec fn index_issues<C: Checker>(
    c: C,
    prefix: Seq<char>,
    function: MirFunctionModel,
    declarations: MirDeclarationsModel,
    dest: Reg,
    base: Reg,
    index: Reg,
    base_place: Option<MirPlaceModel>,
    index_place: Option<MirPlaceModel>,
    call: Option<MirSubscriptCallModel>,
    intrinsic: Option<MirIntrinsicSubscript>,
) -> Seq<Seq<char>> {
    receiver_place_issues(c, prefix, reg_found(function, base), base_place) + rule(
        (call is Some) == (intrinsic is Some),
        prefix + ": index operation must carry exactly one checked-call or intrinsic dispatch"@,
    ) + (match (call, intrinsic) {
        (Some(call), _) => index_call_issues(
            c,
            prefix,
            function,
            declarations,
            dest,
            base,
            index,
            base_place,
            index_place,
            call,
        ),
        (None, Some(intrinsic)) => intrinsic_index_issues(
            c,
            prefix,
            intrinsic,
            reg_found(function, base),
            reg_found(function, index),
            reg_found(function, dest),
        ),
        (None, None) => Seq::empty(),
    })
}

pub fn verify_index<C: Checker>(
    c: &C,
    prefix: &str,
    function: &MirFunction,
    declarations: &MirDeclarations,
    dest: Reg,
    base: Reg,
    index: Reg,
    base_place: &Option<MirPlace>,
    index_place: &Option<MirPlace>,
    call: &Option<MirSubscriptCall>,
    intrinsic: &Option<MirIntrinsicSubscript>,
    errors: &mut Vec<String>,
)
    ensures
        strings_view(*final(errors)) == strings_view(*old(errors)) + index_issues(
            *c,
            prefix@,
            function@,
            declarations@,
            dest,
            base,
            index,
            opt_place_view(*base_place),
            opt_place_view(*index_place),
            opt_subscript_call_view(*call),
            *intrinsic,
        ),
{
    proof {
        reveal(index_issues);
    }
    let ghost start = strings_view(*errors);
    verify_subscript_receiver_place(c, prefix, reg_type(function, base), base_place, errors);
    if call.is_some() == intrinsic.is_some() {
        report(
            errors,
            cat2(prefix, ": index operation must carry exactly one checked-call or intrinsic dispatch"),
        );
    }
    if let Some(call) = call {
        verify_index_call(
            c,
            prefix,
            function,
            declarations,
            dest,
            base,
            index,
            base_place,
            index_place,
            call,
            errors,
        );
    } else if let Some(intrinsic) = intrinsic {
        verify_intrinsic_index(
            c,
            prefix,
            *intrinsic,
            reg_type(function, base),
            reg_type(function, index),
            reg_type(function, dest),
            errors,
        );
    }
    assert(
        strings_view(*errors) =~= start + index_issues(
            *c,
            prefix@,
            function@,
            declarations@,
            dest,
            base,
            index,
            opt_place_view(*base_place),
            opt_place_view(*index_place),
            opt_subscript_call_view(*call),
            *intrinsic,
        )
    );
}

/// The type of a slice descriptor.
pub open spec fn descriptor_ty(kind: SliceKind) -> TyModel {
    TyModel::Struct(
        match kind {
            SliceKind::Slice => "Slice"@,
            SliceKind::Contiguous => "ContiguousSlice"@,
            SliceKind::Strided => "StridedSlice"@,
        },
        Seq::empty(),
    )
}

/// The type of a slice descriptor.
pub fn slice_descriptor_ty(kind: SliceKind) -> (r: Ty)
    ensures
        r@ == descriptor_ty(kind),
{
    let name: &str = match kind {
        SliceKind::Slice => "Slice",
        SliceKind::Contiguous => "ContiguousSlice",
        SliceKind::Strided => "StridedSlice",
    };
    let args: Vec<TyArg> = Vec::new();
    assert(ty_args_view(args) =~= Seq::empty());
    Ty::Struct(name.to_owned(), args)
}

/// What a slice call is verified against.
pub open spec fn slice_sources(
    function: MirFunctionModel,
    dest: Reg,
    object: Reg,
    kind: SliceKind,
    object_place: Option<MirPlaceModel>,
    arg_places: Seq<Option<MirPlaceModel>>,
) -> SourcesModel {
    SourcesModel {
        receiver_ty: reg_found(function, object),
        method: "__getitem__"@,
        receiver_place: object_place,
        positional_places: arg_places,
        keyword_places: Seq::empty(),
        positional_types: seq![Some(descriptor_ty(kind))],
        keyword_types: Seq::empty(),
        dest: Some(dest),
    }
}

/// The issues of the selected call of a slice.
#[verifier::opaque]
pub open spec fn slice_call_issues<C: Checker>(
    c: C,
    prefix: Seq<char>,
    function: MirFunctionModel,
    declarations: MirDeclarationsModel,
    dest: Reg,
    object: Reg,
    kind: SliceKind,
    object_place: Option<MirPlaceModel>,
    arg_places: Seq<Option<MirPlaceModel>>,
    call: MirSubscriptCallModel,
) -> Seq<Seq<char>> {
    subscript_call_issues(
        c,
        prefix,
        function,
        declarations,
        call,
        slice_sources(function, dest, object, kind, object_place, arg_places),
    )
}

fn verify_slice_call<C: Checker>(
    c: &C,
    prefix: &str,
    function: &MirFunction,
    declarations: &MirDeclarations,
    dest: Reg,
    object: Reg,
    kind: SliceKind,
    object_place: &Option<MirPlace>,
    arg_places: &Vec<Option<MirPlace>>,
    call: &MirSubscriptCall,
    errors: &mut Vec<String>,
)
    ensures
        strings_view(*final(errors)) == strings_view(*old(errors)) + slice_call_issues(
            *c,
            prefix@,
            function@,
            declarations@,
            dest,
            object,
            kind,
            opt_place_view(*object_place),
            opt_places_view(*arg_places),
            call@,
        ),
{
    proof {
        reveal(slice_call_issues);
    }
    let ghost start = strings_view(*errors);
    assert(opt_places_view(*arg_places).len() == arg_places@.len());
    let mut positional_types: Vec<Option<Ty>> = Vec::new();
    positional_types.push(Some(slice_descriptor_ty(kind)));
    let keyword_places: Vec<Option<MirPlace>> = Vec::new();
    let keyword_types: Vec<Option<Ty>> = Vec::new();
    let sources: SubscriptSources<'_> = SubscriptSources {
        receiver_ty: reg_type(function, object),
        method: "__getitem__",
        receiver_place: object_place,
        positional_places: arg_places,
        keyword_places: &keyword_places,
        positional_types: &positional_types,
        keyword_types: &keyword_types,
        dest: Some(dest),
    };
    assert(sources@ =~= slice_sources(
        function@,
        dest,
        object,
        kind,
        opt_place_view(*object_place),
        opt_places_view(*arg_places),
    ));
    verify_subscript_call(c, prefix, function, declarations, call, &sources, errors);
    assert(
        strings_view(*errors) =~= start + slice_call_issues(
            *c,
            prefix@,
            function@,
            declarations@,
            dest,
            object,
            kind,
            opt_place_view(*object_place),
            opt_places_view(*arg_places),
            call@,
        )
    );
}

/// The issues of a slice.
#[verifier::opaque]
pub open spec fn slice_issues<C: Checker>(
    c: C,
    prefix: Seq<char>,
    function: MirFunctionModel,
    declarations: MirDeclarationsModel,
    dest: Reg,
    object: Reg,
    kind: SliceKind,
    object_place: Option<MirPlaceModel>,
    arg_places: Seq<Option<MirPlaceModel>>,
    call: Option<MirSubscriptCallModel>,
    intrinsic: Option<MirIntrinsicSubscript>,
) -> Seq<Seq<char>> {
    receiver_place_issues(c, prefix, reg_found(function, object), object_place) + rule(
        arg_places.len() != 1,
        prefix + ": slice place metadata is not aligned with its descriptor argument"@,
    ) + rule(
        (call is Some) == (intrinsic is Some),
        prefix + ": slice operation must carry exactly one checked-call or intrinsic dispatch"@,
    ) + (match (call, intrinsic) {
        (Some(call), _) => slice_call_issues(
            c,
            prefix,
            function,
            declarations,
            dest,
            object,
            kind,
            object_place,
            arg_places,
            call,
        ),
        (None, Some(intrinsic)) => seq![intrinsic_slice_issue(prefix, intrinsic)],
        (None, None) => Seq::empty(),
    })
}

pub fn verify_slice<C: Checker>(
    c: &C,
    prefix: &str,
    function: &MirFunction,
    declarations: &MirDeclarations,
    dest: Reg,
    object: Reg,
    kind: SliceKind,
    object_place: &Option<MirPlace>,
    arg_places: &Vec<Option<MirPlace>>,
    call: &Option<MirSubscriptCall>,
    intrinsic: &Option<MirIntrinsicSubscript>,
    errors: &mut Vec<String>,
)
    ensures
        strings_view(*final(errors)) == strings_view(*old(errors)) + slice_issues(
            *c,
            prefix@,
            function@,
            declarations@,
            dest,
            object,
            kind,
            opt_place_view(*object_place),
            opt_places_view(*arg_places),
            opt_subscript_call_view(*call),
            *intrinsic,
        ),
{
    proof {
        reveal(slice_issues);
    }
    let ghost start = strings_view(*errors);
    assert(opt_places_view(*arg_places).len() == arg_places@.len());
    verify_subscript_receiver_place(c, prefix, reg_type(function, object), object_place, errors);
    if arg_places.len() != 1 {
        report(errors, cat2(prefix, ": slice place metadata is not aligned with its descriptor argument"));
    }
    if call.is_some() == intrinsic.is_some() {
        report(
            errors,
            cat2(prefix, ": slice operation must carry exactly one checked-call or intrinsic dispatch"),
        );
    }
    if let Some(call) = call {
        verify_slice_call(
            c,
            prefix,
            function,
            declarations,
            dest,
            object,
            kind,
            object_place,
            arg_places,
            call,
            errors,
        );
    } else if let Some(intrinsic) = intrinsic {
        verify_intrinsic_slice(prefix, *intrinsic, errors);
    }
    assert(
        strings_view(*errors) =~= start + slice_issues(
            *c,
            prefix@,
            function@,
            declarations@,
            dest,
            object,
            kind,
            opt_place_view(*object_place),
            opt_places_view(*arg_places),
            opt_subscript_call_view(*call),
            *intrinsic,
        )
    );
}

/// The type of one subscript argument.
pub open spec fn argument_ty(function: MirFunctionModel, argument: MirSubscriptArgModel) -> Option<TyModel> {
    match argument {
        MirSubscriptArgModel::Value(register) => reg_found(function, register),
        MirSubscriptArgModel::Slice { kind, .. } => Some(descriptor_ty(kind)),
    }
}

/// The type of one subscript argument.
pub fn subscript_argument_ty(function: &MirFunction, argument: &MirSubscriptArg) -> (r: Option<Ty>)
    ensures
        opt_ty_view(r) == argument_ty(function@, argument@),
{
    match argument {
        MirSubscriptArg::Value(register) => copied_type(reg_type(function, *register)),
        MirSubscriptArg::Slice { kind, .. } => Some(slice_descriptor_ty(*kind)),
    }
}

/// The types of subscript arguments.
pub open spec fn argument_tys(
    function: MirFunctionModel,
    args: Seq<MirSubscriptArgModel>,
) -> Seq<Option<TyModel>> {
    Seq::new(args.len(), |i: int| argument_ty(function, args[i]))
}

/// The types of keyword subscript arguments.
pub open spec fn keyword_tys(function: MirFunctionModel, args: Seq<(Seq<char>, MirSubscriptArgModel)>) -> Seq<
    Option<TyModel>,
> {
    Seq::new(args.len(), |i: int| argument_ty(function, args[i].1))
}

fn types_of_arguments(function: &MirFunction, args: &Vec<MirSubscriptArg>) -> (r: Vec<Option<Ty>>)
    ensures
        opt_types_view(r) == argument_tys(function@, subscript_args_view(*args)),
{
    let mut out: Vec<Option<Ty>> = Vec::new();
    let ghost model = subscript_args_view(*args);
    assert(model.len() == args@.len());
    for i in 0..args.len()
        invariant
            model == subscript_args_view(*args),
            out@.len() == i,
            forall|j: int| 0 <= j < i ==> opt_ty_view(#[trigger] out@[j]) == argument_ty(function@, model[j]),
    {
        assert(model[i as int] == args@[i as int]@);
        out.push(subscript_argument_ty(function, &args[i]));
    }
    assert(opt_types_view(out) =~= argument_tys(function@, model));
    out
}

fn types_of_keywords(function: &MirFunction, args: &Vec<(String, MirSubscriptArg)>) -> (r: Vec<Option<Ty>>)
    ensures
        opt_types_view(r) == keyword_tys(function@, string_subscript_args_view(*args)),
{
    let mut out: Vec<Option<Ty>> = Vec::new();
    let ghost model = string_subscript_args_view(*args);
    assert(model.len() == args@.len());
    for i in 0..args.len()
        invariant
            model == string_subscript_args_view(*args),
            out@.len() == i,
            forall|j: int| 0 <= j < i ==> opt_ty_view(#[trigger] out@[j]) == argument_ty(function@, model[j].1),
    {
        assert(model[i as int] == (args@[i as int].0@, args@[i as int].1@));
        out.push(subscript_argument_ty(function, &args[i].1));
    }
    assert(opt_types_view(out) =~= keyword_tys(function@, model));
    out
}

/// What a multi-argument index call is verified against.
pub open spec fn multi_index_sources(
    function: MirFunctionModel,
    dest: Reg,
    object: Reg,
    args: Seq<MirSubscriptArgModel>,
    object_place: Option<MirPlaceModel>,
    arg_places: Seq<Option<MirPlaceModel>>,
    kwargs: Seq<(Seq<char>, MirSubscriptArgModel)>,
    kwarg_places: Seq<Option<MirPlaceModel>>,
) -> SourcesModel {
    SourcesModel {
        receiver_ty: reg_found(function, object),
        method: "__getitem__"@,
        receiver_place: object_place,
        positional_places: arg_places,
        keyword_places: kwarg_places,
        positional_types: argument_tys(function, args),
        keyword_types: keyword_tys(function, kwargs),
        dest: Some(dest),
    }
}

/// The issues of a multi-argument index.
#[verifier::opaque]
pub open spec fn multi_index_issues<C: Checker>(
    c: C,
    prefix: Seq<char>,
    function: MirFunctionModel,
    declarations: MirDeclarationsModel,
    dest: Reg,
    object: Reg,
    args: Seq<MirSubscriptArgModel>,
    object_place: Option<MirPlaceModel>,
    arg_places: Seq<Option<MirPlaceModel>>,
    kwargs: Seq<(Seq<char>, MirSubscriptArgModel)>,
    kwarg_places: Seq<Option<MirPlaceModel>>,
    call: Option<MirSubscriptCallModel>,
) -> Seq<Seq<char>> {
    receiver_place_issues(c, prefix, reg_found(function, object), object_place) + rule(
        arg_places.len() != args.len() || kwarg_places.len() != kwargs.len(),
        prefix + ": multi-subscript place metadata is not aligned with its arguments"@,
    ) + (match call {
        Some(call) => subscript_call_issues(
            c,
            prefix,
            function,
            declarations,
            call,
            multi_index_sources(function, dest, object, args, object_place, arg_places, kwargs, kwarg_places),
        ),
        None => seq![prefix + ": multi-index operation lacks a checked call contract"@],
    })
}

pub fn verify_multi_index<C: Checker>(
    c: &C,
    prefix: &str,
    function: &MirFunction,
    declarations: &MirDeclarations,
    dest: Reg,
    object: Reg,
    args: &Vec<MirSubscriptArg>,
    object_place: &Option<MirPlace>,
    arg_places: &Vec<Option<MirPlace>>,
    kwargs: &Vec<(String, MirSubscriptArg)>,
    kwarg_places: &Vec<Option<MirPlace>>,
    call: &Option<MirSubscriptCall>,
    errors: &mut Vec<String>,
)
    ensures
        strings_view(*final(errors)) == strings_view(*old(errors)) + multi_index_issues(
            *c,
            prefix@,
            function@,
            declarations@,
            dest,
            object,
            subscript_args_view(*args),
            opt_place_view(*object_place),
            opt_places_view(*arg_places),
            string_subscript_args_view(*kwargs),
            opt_places_view(*kwarg_places),
            opt_subscript_call_view(*call),
        ),
{
    proof {
        reveal(multi_index_issues);
    }
    let ghost start = strings_view(*errors);
    assert(subscript_args_view(*args).len() == args@.len());
    assert(opt_places_view(*arg_places).len() == arg_places@.len());
    assert(string_subscript_args_view(*kwargs).len() == kwargs@.len());
    assert(opt_places_view(*kwarg_places).len() == kwarg_places@.len());
    verify_subscript_receiver_place(c, prefix, reg_type(function, object), object_place, errors);
    if arg_places.len() != args.len() || kwarg_places.len() != kwargs.len() {
        report(errors, cat2(prefix, ": multi-subscript place metadata is not aligned with its arguments"));
    }
    match call {
        Some(call) => {
            let positional_types: Vec<Option<Ty>> = types_of_arguments(function, args);
            let keyword_types: Vec<Option<Ty>> = types_of_keywords(function, kwargs);
            let sources: SubscriptSources<'_> = SubscriptSources {
                receiver_ty: reg_type(function, object),
                method: "__getitem__",
                receiver_place: object_place,
                positional_places: arg_places,
                keyword_places: kwarg_places,
                positional_types: &positional_types,
                keyword_types: &keyword_types,
                dest: Some(dest),
            };
            verify_subscript_call(c, prefix, function, declarations, call, &sources, errors);
        },
        None => {
            report(errors, cat2(prefix, ": multi-index operation lacks a checked call contract"));
        },
    }
    assert(
        strings_view(*errors) =~= start + multi_index_issues(
            *c,
            prefix@,
            function@,
            declarations@,
            dest,
            object,
            subscript_args_view(*args),
            opt_place_view(*object_place),
            opt_places_view(*arg_places),
            string_subscript_args_view(*kwargs),
            opt_places_view(*kwarg_places),
            opt_subscript_call_view(*call),
        )
    );
}

/// What a subscript assignment is verified against: the value is the last
/// positional argument, or the one keyword.
pub open spec fn multi_set_sources(
    function: MirFunctionModel,
    receiver: Reg,
    receiver_place: Option<MirPlaceModel>,
    args: Seq<MirSubscriptArgModel>,
    arg_places: Seq<Option<MirPlaceModel>>,
    value: Reg,
    value_place: Option<MirPlaceModel>,
    value_keyword: bool,
) -> SourcesModel {
    let ty = reg_found(function, value);
    SourcesModel {
        receiver_ty: reg_found(function, receiver),
        method: "__setitem__"@,
        receiver_place,
        positional_places: if value_keyword { arg_places } else { arg_places.push(value_place) },
        keyword_places: if value_keyword { seq![value_place] } else { Seq::empty() },
        positional_types: if value_keyword { argument_tys(function, args) } else { argument_tys(function, args).push(ty) },
        keyword_types: if value_keyword { seq![ty] } else { Seq::empty() },
        dest: None,
    }
}

/// The issues of a subscript assignment.
#[verifier::opaque]
pub open spec fn multi_set_issues<C: Checker>(
    c: C,
    prefix: Seq<char>,
    function: MirFunctionModel,
    declarations: MirDeclarationsModel,
    receiver: Reg,
    receiver_place: Option<MirPlaceModel>,
    args: Seq<MirSubscriptArgModel>,
    arg_places: Seq<Option<MirPlaceModel>>,
    value: Reg,
    value_place: Option<MirPlaceModel>,
    value_keyword: bool,
    call: MirSubscriptCallModel,
) -> Seq<Seq<char>> {
    receiver_place_issues(c, prefix, reg_found(function, receiver), receiver_place) + rule(
        arg_places.len() != args.len(),
        prefix + ": subscript-set place metadata is not aligned with its index arguments"@,
    ) + subscript_call_issues(
        c,
        prefix,
        function,
        declarations,
        call,
        multi_set_sources(
            function,
            receiver,
            receiver_place,
            args,
            arg_places,
            value,
            value_place,
            value_keyword,
        ),
    )
}

pub fn verify_multi_set<C: Checker>(
    c: &C,
    prefix: &str,
    function: &MirFunction,
    declarations: &MirDeclarations,
    receiver: Reg,
    receiver_place: &Option<MirPlace>,
    args: &Vec<MirSubscriptArg>,
    arg_places: &Vec<Option<MirPlace>>,
    value: Reg,
    value_place: &Option<MirPlace>,
    value_keyword: bool,
    call: &MirSubscriptCall,
    errors: &mut Vec<String>,
)
    ensures
        strings_view(*final(errors)) == strings_view(*old(errors)) + multi_set_issues(
            *c,
            prefix@,
            function@,
            declarations@,
            receiver,
            opt_place_view(*receiver_place),
            subscript_args_view(*args),
            opt_places_view(*arg_places),
            value,
            opt_place_view(*value_place),
            value_keyword,
            call@,
        ),
{
    proof {
        reveal(multi_set_issues);
    }
    let ghost start = strings_view(*errors);
    assert(subscript_args_view(*args).len() == args@.len());
    assert(opt_places_view(*arg_places).len() == arg_places@.len());
    verify_subscript_receiver_place(c, prefix, reg_type(function, receiver), receiver_place, errors);
    if arg_places.len() != args.len() {
        report(
            errors,
            cat2(prefix, ": subscript-set place metadata is not aligned with its index arguments"),
        );
    }
    let mut positional_places: Vec<Option<MirPlace>> = copy_opt_places(arg_places);
    let mut positional_types: Vec<Option<Ty>> = types_of_arguments(function, args);
    let mut keyword_places: Vec<Option<MirPlace>> = Vec::new();
    let mut keyword_types: Vec<Option<Ty>> = Vec::new();
    let ghost places = opt_places_view(*arg_places);
    let ghost types = opt_types_view(positional_types);
    if value_keyword {
        keyword_places.push(copy_opt_place(value_place));
        keyword_types.push(copied_type(reg_type(function, value)));
    } else {
        positional_places.push(copy_opt_place(value_place));
        positional_types.push(copied_type(reg_type(function, value)));
        assert(opt_places_view(positional_places) =~= places.push(opt_place_view(*value_place)));
        assert(opt_types_view(positional_types) =~= types.push(reg_found(function@, value)));
    }
    let sources: SubscriptSources<'_> = SubscriptSources {
        receiver_ty: reg_type(function, receiver),
        method: "__setitem__",
        receiver_place,
        positional_places: &positional_places,
        keyword_places: &keyword_places,
        positional_types: &positional_types,
        keyword_types: &keyword_types,
        dest: None,
    };
    assert(sources@ =~= multi_set_sources(
        function@,
        receiver,
        opt_place_view(*receiver_place),
        subscript_args_view(*args),
        opt_places_view(*arg_places),
        value,
        opt_place_view(*value_place),
        value_keyword,
    ));
    verify_subscript_call(c, prefix, function, declarations, call, &sources, errors);
    assert(
        strings_view(*errors) =~= start + multi_set_issues(
            *c,
            prefix@,
            function@,
            declarations@,
            receiver,
            opt_place_view(*receiver_place),
            subscript_args_view(*args),
            opt_places_view(*arg_places),
            value,
            opt_place_view(*value_place),
            value_keyword,
            call@,
        )
    );
}

/// The issues of a direct call.
#[verifier::opaque]
pub open spec fn call_issues<C: Checker>(
    c: C,
    prefix: Seq<char>,
    function: MirFunctionModel,
    declarations: MirDeclarationsModel,
    callee: Seq<char>,
    args: Seq<Reg>,
    kwargs: Seq<(Seq<char>, Reg)>,
    arg_places: Seq<Option<MirPlaceModel>>,
    kwarg_places: Seq<Option<MirPlaceModel>>,
    capture_accesses: Seq<MirCaptureAccessModel>,
    param_arg_regs: Seq<MirParamArgModel>,
) -> Seq<Seq<char>> {
    capture_access_issues(prefix, function.var_names.len(), capture_accesses) + (match declaration_of(
        declarations.functions,
        callee,
    ) {
        Some(declaration) => c.direct_call_issues(prefix, function, declaration, args, kwargs, arg_places)
            + param_argument_issues(c, prefix, function, declaration.param_decls, param_arg_regs),
        None => Seq::empty(),
    }) + rule(
        arg_places.len() != args.len() || kwarg_places.len() != kwargs.len(),
        prefix + ": call place metadata is not aligned with its arguments"@,
    )
}

pub fn verify_call<C: Checker>(
    c: &C,
    prefix: &str,
    function: &MirFunction,
    declarations: &MirDeclarations,
    callee: &str,
    args: &Vec<Reg>,
    kwargs: &Vec<(String, Reg)>,
    arg_places: &Vec<Option<MirPlace>>,
    kwarg_places: &Vec<Option<MirPlace>>,
    capture_accesses: &Vec<MirCaptureAccess>,
    param_arg_regs: &Vec<MirParamArg>,
    errors: &mut Vec<String>,
)
    ensures
        strings_view(*final(errors)) == strings_view(*old(errors)) + call_issues(
            *c,
            prefix@,
            function@,
            declarations@,
            callee@,
            args@,
            string_regs_view(*kwargs),
            opt_places_view(*arg_places),
            opt_places_view(*kwarg_places),
            capture_accesses_view(*capture_accesses),
            param_args_view(*param_arg_regs),
        ),
{
    proof {
        reveal(call_issues);
    }
    let ghost start = strings_view(*errors);
    assert(string_regs_view(*kwargs).len() == kwargs@.len());
    assert(opt_places_view(*arg_places).len() == arg_places@.len());
    assert(opt_places_view(*kwarg_places).len() == kwarg_places@.len());
    assert(capture_accesses_view(*capture_accesses).len() == capture_accesses@.len());
    assert(param_args_view(*param_arg_regs).len() == param_arg_regs@.len());
    verify_capture_accesses(prefix, function, capture_accesses, errors);
    if let Some(declaration) = declared(declarations, callee) {
        let found: Vec<String> = c.verify_direct_call(
            prefix,
            function,
            declaration,
            args,
            kwargs,
            arg_places,
        );
        report_all(errors, &found);
        verify_param_arguments(c, prefix, function, &declaration.param_decls, param_arg_regs, errors);
    }
    if arg_places.len() != args.len() || kwarg_places.len() != kwargs.len() {
        report(errors, cat2(prefix, ": call place metadata is not aligned with its arguments"));
    }
    assert(
        strings_view(*errors) =~= start + call_issues(
            *c,
            prefix@,
            function@,
            declarations@,
            callee@,
            args@,
            string_regs_view(*kwargs),
            opt_places_view(*arg_places),
            opt_places_view(*kwarg_places),
            capture_accesses_view(*capture_accesses),
            param_args_view(*param_arg_regs),
        )
    );
}

/// Whether a call advances an abstract iterator whose result is a value.
pub open spec fn abstract_next(callee: Seq<char>, method: Seq<char>, reference: Option<RefTyModel>) -> bool {
    is_trait_dispatch(callee) && method == "__next__"@ && reference is None
}

/// The issues of the result of a method call.
#[verifier::opaque]
pub open spec fn method_result_issues(
    prefix: Seq<char>,
    dest: Option<TyModel>,
    method: Seq<char>,
    callee: Seq<char>,
    reference: Option<RefTyModel>,
    adapter: Option<CheckedResultAdapter>,
) -> Seq<Seq<char>> {
    (match reference {
        Some(reference) => rule(
            dest != Some(TyModel::Ref(reference)),
            prefix + ": method-call reference ABI "@ + ty_text(TyModel::Ref(reference)) + " does not match its destination type"@,
        ),
        None => Seq::empty(),
    }) + (match adapter {
        Some(_) => rule(
            !abstract_next(callee, method, reference),
            prefix + ": copy-reference result adapter is not attached to an abstract value-returning __next__ call"@,
        ),
        None => rule(
            abstract_next(callee, method, reference),
            prefix + ": abstract value-returning __next__ call lacks its copy-reference adapter"@,
        ),
    })
}

fn verify_method_result(
    prefix: &str,
    dest: Option<&Ty>,
    method: &str,
    callee: &str,
    reference: &Option<RefTy>,
    adapter: &Option<CheckedResultAdapter>,
    errors: &mut Vec<String>,
)
    ensures
        strings_view(*final(errors)) == strings_view(*old(errors)) + method_result_issues(
            prefix@,
            found_view(dest),
            method@,
            callee@,
            opt_ref_ty_view(*reference),
            *adapter,
        ),
{
    proof {
        reveal(method_result_issues);
    }
    let ghost start = strings_view(*errors);
    if let Some(reference) = reference {
        let expected: Ty = Ty::Ref(reference.copy());
        if !has_exact_type(dest, &expected) {
            report(
                errors,
                cat4(
                    prefix,
                    ": method-call reference ABI ",
                    &expected.text(),
                    " does not match its destination type",
                ),
            );
        }
    }
    let abstract_value: bool = starts_with(callee, "__trait_dispatch.")
        && str_eq(method, "__next__")
        && reference.is_none();
    match adapter {
        Some(_) => {
            if !abstract_value {
                report(
                    errors,
                    cat2(
                        prefix,
                        ": copy-reference result adapter is not attached to an abstract value-returning __next__ call",
                    ),
                );
            }
        },
        None => {
            if abstract_value {
                report(
                    errors,
                    cat2(prefix, ": abstract value-returning __next__ call lacks its copy-reference adapter"),
                );
            }
        },
    }
    assert(
        strings_view(*errors) =~= start + method_result_issues(
            prefix@,
            found_view(dest),
            method@,
            callee@,
            opt_ref_ty_view(*reference),
            *adapter,
        )
    );
}

/// Whether the result of a method call fits the declaration.
pub open spec fn method_result_fits<C: Checker>(
    c: C,
    dest: Option<TyModel>,
    reference: Option<RefTyModel>,
    declaration: MirFunctionDeclarationModel,
) -> bool {
    match reference {
        Some(reference) => declaration.returns_reference && compat(
            c,
            *reference.referent,
            declaration.ret_ty,
        ),
        None => !declaration.returns_reference && dest is Some && compat(c, dest->Some_0, declaration.ret_ty),
    }
}

fn fits_method_result<C: Checker>(
    c: &C,
    dest: Option<&Ty>,
    reference: &Option<RefTy>,
    declaration: &MirFunctionDeclaration,
) -> (r: bool)
    ensures
        r == method_result_fits(*c, found_view(dest), opt_ref_ty_view(*reference), declaration@),
{
    match reference {
        Some(reference) => {
            assert(*reference@.referent == reference.referent@);
            declaration.returns_reference && types_compatible(c, &reference.referent, &declaration.ret_ty)
        },
        None => match dest {
            Some(result) => !declaration.returns_reference && types_compatible(
                c,
                result,
                &declaration.ret_ty,
            ),
            None => false,
        },
    }
}

/// The issues of a method call against the declaration.
#[verifier::opaque]
pub open spec fn method_target_issues<C: Checker>(
    c: C,
    prefix: Seq<char>,
    function: MirFunctionModel,
    declaration: MirFunctionDeclarationModel,
    dest: Option<TyModel>,
    reference: Option<RefTyModel>,
    args: Seq<Reg>,
    kwargs: Seq<(Seq<char>, Reg)>,
    arg_places: Seq<Option<MirPlaceModel>>,
    param_arg_regs: Seq<MirParamArgModel>,
    param_decls: Seq<ParamDeclModel>,
) -> Seq<Seq<char>> {
    c.direct_call_issues(prefix, function, declaration, args, kwargs, arg_places) + rule(
        !method_result_fits(c, dest, reference, declaration),
        prefix + ": method-call result ABI does not match '"@ + declaration.lowered_name + "'"@,
    ) + rule(
        declaration.param_decls != param_decls,
        prefix + ": method-call compile-time parameter metadata does not match '"@ + declaration.lowered_name + "'"@,
    ) + param_argument_issues(c, prefix, function, declaration.param_decls, param_arg_regs)
}

fn verify_method_target<C: Checker>(
    c: &C,
    prefix: &str,
    function: &MirFunction,
    declaration: &MirFunctionDeclaration,
    dest: Option<&Ty>,
    reference: &Option<RefTy>,
    args: &Vec<Reg>,
    kwargs: &Vec<(String, Reg)>,
    arg_places: &Vec<Option<MirPlace>>,
    param_arg_regs: &Vec<MirParamArg>,
    param_decls: &Vec<ParamDecl>,
    errors: &mut Vec<String>,
)
    ensures
        strings_view(*final(errors)) == strings_view(*old(errors)) + method_target_issues(
            *c,
            prefix@,
            function@,
            declaration@,
            found_view(dest),
            opt_ref_ty_view(*reference),
            args@,
            string_regs_view(*kwargs),
            opt_places_view(*arg_places),
            param_args_view(*param_arg_regs),
            param_decls_view(*param_decls),
        ),
{
    proof {
        reveal(method_target_issues);
    }
    let ghost start = strings_view(*errors);
    assert(string_regs_view(*kwargs).len() == kwargs@.len());
    assert(opt_places_view(*arg_places).len() == arg_places@.len());
    assert(param_args_view(*param_arg_regs).len() == param_arg_regs@.len());
    assert(param_decls_view(*param_decls).len() == param_decls@.len());
    let found: Vec<String> = c.verify_direct_call(prefix, function, declaration, args, kwargs, arg_places);
    report_all(errors, &found);
    if !fits_method_result(c, dest, reference, declaration) {
        report(
            errors,
            cat4(prefix, ": method-call result ABI does not match '", &declaration.lowered_name, "'"),
        );
    }
    if !same_param_decls(&declaration.param_decls, param_decls) {
        report(
            errors,
            cat4(
                prefix,
                ": method-call compile-time parameter metadata does not match '",
                &declaration.lowered_name,
                "'",
            ),
        );
    }
    verify_param_arguments(c, prefix, function, &declaration.param_decls, param_arg_regs, errors);
    assert(
        strings_view(*errors) =~= start + method_target_issues(
            *c,
            prefix@,
            function@,
            declaration@,
            found_view(dest),
            opt_ref_ty_view(*reference),
            args@,
            string_regs_view(*kwargs),
            opt_places_view(*arg_places),
            param_args_view(*param_arg_regs),
            param_decls_view(*param_decls),
        )
    );
}

/// The issues of a resolved method call.
#[verifier::opaque]
pub open spec fn method_call_issues<C: Checker>(
    c: C,
    prefix: Seq<char>,
    function: MirFunctionModel,
    declarations: MirDeclarationsModel,
    dest: Option<TyModel>,
    method: Seq<char>,
    callee: Seq<char>,
    reference: Option<RefTyModel>,
    adapter: Option<CheckedResultAdapter>,
    args: Seq<Reg>,
    kwargs: Seq<(Seq<char>, Reg)>,
    arg_places: Seq<Option<MirPlaceModel>>,
    kwarg_places: Seq<Option<MirPlaceModel>>,
    capture_accesses: Seq<MirCaptureAccessModel>,
    param_arg_regs: Seq<MirParamArgModel>,
    param_decls: Seq<ParamDeclModel>,
) -> Seq<Seq<char>> {
    capture_access_issues(prefix, function.var_names.len(), capture_accesses) + method_result_issues(
        prefix,
        dest,
        method,
        callee,
        reference,
        adapter,
    ) + (match declaration_of(declarations.functions, callee) {
        Some(declaration) => method_target_issues(
            c,
            prefix,
            function,
            declaration,
            dest,
            reference,
            args,
            kwargs,
            arg_places,
            param_arg_regs,
            param_decls,
        ),
        None => Seq::empty(),
    }) + rule(
        arg_places.len() != args.len() || kwarg_places.len() != kwargs.len(),
        prefix + ": method-call place metadata is not aligned with its arguments"@,
    )
}

pub fn verify_method_call<C: Checker>(
    c: &C,
    prefix: &str,
    function: &MirFunction,
    declarations: &MirDeclarations,
    dest: Option<&Ty>,
    method: &str,
    callee: &str,
    reference: &Option<RefTy>,
    adapter: &Option<CheckedResultAdapter>,
    args: &Vec<Reg>,
    kwargs: &Vec<(String, Reg)>,
    arg_places: &Vec<Option<MirPlace>>,
    kwarg_places: &Vec<Option<MirPlace>>,
    capture_accesses: &Vec<MirCaptureAccess>,
    param_arg_regs: &Vec<MirParamArg>,
    param_decls: &Vec<ParamDecl>,
    errors: &mut Vec<String>,
)
    ensures
        strings_view(*final(errors)) == strings_view(*old(errors)) + method_call_issues(
            *c,
            prefix@,
            function@,
            declarations@,
            found_view(dest),
            method@,
            callee@,
            opt_ref_ty_view(*reference),
            *adapter,
            args@,
            string_regs_view(*kwargs),
            opt_places_view(*arg_places),
            opt_places_view(*kwarg_places),
            capture_accesses_view(*capture_accesses),
            param_args_view(*param_arg_regs),
            param_decls_view(*param_decls),
        ),
{
    proof {
        reveal(method_call_issues);
    }
    let ghost start = strings_view(*errors);
    assert(string_regs_view(*kwargs).len() == kwargs@.len());
    assert(opt_places_view(*arg_places).len() == arg_places@.len());
    assert(opt_places_view(*kwarg_places).len() == kwarg_places@.len());
    assert(capture_accesses_view(*capture_accesses).len() == capture_accesses@.len());
    assert(param_args_view(*param_arg_regs).len() == param_arg_regs@.len());
    assert(param_decls_view(*param_decls).len() == param_decls@.len());
    verify_capture_accesses(prefix, function, capture_accesses, errors);
    verify_method_result(prefix, dest, method, callee, reference, adapter, errors);
    if let Some(declaration) = declared(declarations, callee) {
        verify_method_target(
            c,
            prefix,
            function,
            declaration,
            dest,
            reference,
            args,
            kwargs,
            arg_places,
            param_arg_regs,
            param_decls,
            errors,
        );
    }
    if arg_places.len() != args.len() || kwarg_places.len() != kwargs.len() {
        report(errors, cat2(prefix, ": method-call place metadata is not aligned with its arguments"));
    }
    assert(
        strings_view(*errors) =~= start + method_call_issues(
            *c,
            prefix@,
            function@,
            declarations@,
            found_view(dest),
            method@,
            callee@,
            opt_ref_ty_view(*reference),
            *adapter,
            args@,
            string_regs_view(*kwargs),
            opt_places_view(*arg_places),
            opt_places_view(*kwarg_places),
            capture_accesses_view(*capture_accesses),
            param_args_view(*param_arg_regs),
            param_decls_view(*param_decls),
        )
    );
}

/// The callable contract that a type carries: its own, or that of its bound.
pub open spec fn contract_of(ty: TyModel) -> Option<TyModel> {
    match ty {
        TyModel::Func { .. } => Some(ty),
        TyModel::GenericFunc { .. } => Some(ty),
        TyModel::Param { callable_bound, .. } => unboxed_ty(callable_bound),
        _ => None,
    }
}

/// The callable contract that a type carries: its own, or that of its bound.
pub fn callable_contract_ty(ty: &Ty) -> (r: Option<&Ty>)
    ensures
        found_view(r) == contract_of(ty@),
{
    match ty {
        Ty::Func { .. } => Some(ty),
        Ty::GenericFunc { .. } => Some(ty),
        Ty::Param { callable_bound, .. } => match callable_bound {
            Some(bound) => Some(bound),
            None => None,
        },
        _ => None,
    }
}

/// The contract of an optional callee type.
pub open spec fn stored_contract(callee: Option<TyModel>) -> Option<TyModel> {
    match callee {
        Some(ty) => contract_of(ty),
        None => None,
    }
}

fn contract_stored<'a>(callee: Option<&'a Ty>) -> (r: Option<&'a Ty>)
    ensures
        found_view(r) == stored_contract(found_view(callee)),
{
    match callee {
        Some(ty) => callable_contract_ty(ty),
        None => None,
    }
}

/// The contract that an indirect call is held to: a generic one at its retained
/// arguments, unless the call stays under the contract's own parameters.
pub open spec fn called_contract<C: Checker>(
    c: C,
    stored: Option<TyModel>,
    instantiated: Option<TyModel>,
    args: Seq<TyArgModel>,
) -> Option<
    TyModel,
> {
    match stored {
        Some(contract) => if contract is GenericFunc && instantiated is Some {
            match inst_contract(c, contract, args) {
                Ok(ty) => Some(ty),
                Err(_) => None,
            }
        } else {
            Some(contract)
        },
        None => None,
    }
}

fn contract_called<C: Checker>(
    c: &C,
    stored: Option<&Ty>,
    instantiated: &Option<Ty>,
    args: &Vec<TyArg>,
) -> (r: Option<Ty>)
    ensures
        opt_ty_view(r) == called_contract(
            *c,
            found_view(stored),
            opt_ty_view(*instantiated),
            ty_args_view(*args),
        ),
{
    match stored {
        Some(contract) => {
            let generic: bool = match contract {
                Ty::GenericFunc { .. } => true,
                _ => false,
            };
            if generic && instantiated.is_some() {
                match instantiate_generic_callable_contract(c, contract, args) {
                    Ok(ty) => Some(ty),
                    Err(_) => None,
                }
            } else {
                Some(contract.copy())
            }
        },
        None => None,
    }
}

/// The issues of what an indirect call says of its generic contract.
#[verifier::opaque]
pub open spec fn instantiation_issues<C: Checker>(
    c: C,
    prefix: Seq<char>,
    stored: Option<TyModel>,
    instantiated: Option<TyModel>,
    args: Seq<TyArgModel>,
) -> Seq<Seq<char>> {
    match stored {
        Some(contract) => if contract is GenericFunc {
            match instantiated {
                Some(found) => match inst_contract(c, contract, args) {
                    Ok(expected) => rule(
                        found != expected,
                        prefix + ": checker-instantiated callable contract does not match its retained generic arguments"@,
                    ),
                    Err(reason) => seq![prefix + ": invalid generic callable instantiation: "@ + reason],
                },
                None => rule(
                    args.len() > 0,
                    prefix + ": symbolic generic indirect call carries an orphaned instantiation witness"@,
                ) + (match c.scope_error(contract) {
                    Some(reason) => seq![prefix + ": invalid symbolic generic callable contract: "@ + reason],
                    None => Seq::empty(),
                }),
            }
        } else {
            rule(
                instantiated is Some || args.len() > 0,
                prefix + ": nongeneric indirect call carries generic instantiation metadata"@,
            )
        },
        None => rule(
            instantiated is Some || args.len() > 0,
            prefix + ": non-callable indirect operand carries generic instantiation metadata"@,
        ),
    }
}

fn verify_instantiation<C: Checker>(
    c: &C,
    prefix: &str,
    stored: Option<&Ty>,
    instantiated: &Option<Ty>,
    args: &Vec<TyArg>,
    errors: &mut Vec<String>,
)
    ensures
        strings_view(*final(errors)) == strings_view(*old(errors)) + instantiation_issues(
            *c,
            prefix@,
            found_view(stored),
            opt_ty_view(*instantiated),
            ty_args_view(*args),
        ),
{
    proof {
        reveal(instantiation_issues);
    }
    let ghost start = strings_view(*errors);
    assert(ty_args_view(*args).len() == args@.len());
    match stored {
        Some(contract) => match contract {
            Ty::GenericFunc { .. } => match instantiated {
                Some(found) => match instantiate_generic_callable_contract(c, contract, args) {
                    Ok(expected) => {
                        if !found.same(&expected) {
                            report(
                                errors,
                                cat2(
                                    prefix,
                                    ": checker-instantiated callable contract does not match its retained generic arguments",
                                ),
                            );
                        }
                    },
                    Err(reason) => {
                        report(errors, cat3(prefix, ": invalid generic callable instantiation: ", &reason));
                    },
                },
                None => {
                    if args.len() > 0 {
                        report(
                            errors,
                            cat2(
                                prefix,
                                ": symbolic generic indirect call carries an orphaned instantiation witness",
                            ),
                        );
                    }
                    if let Err(reason) = c.validate_dependent_bindings(contract) {
                        report(
                            errors,
                            cat3(prefix, ": invalid symbolic generic callable contract: ", &reason),
                        );
                    }
                },
            },
            _ => {
                if instantiated.is_some() || args.len() > 0 {
                    report(
                        errors,
                        cat2(prefix, ": nongeneric indirect call carries generic instantiation metadata"),
                    );
                }
            },
        },
        None => {
            if instantiated.is_some() || args.len() > 0 {
                report(
                    errors,
                    cat2(prefix, ": non-callable indirect operand carries generic instantiation metadata"),
                );
            }
        },
    }
    assert(
        strings_view(*errors) =~= start + instantiation_issues(
            *c,
            prefix@,
            found_view(stored),
            opt_ty_view(*instantiated),
            ty_args_view(*args),
        )
    );
}

/// The compile-time parameters of a generic callable.
pub open spec fn contract_decls(stored: Option<TyModel>) -> Option<Seq<ParamDeclModel>> {
    match stored {
        Some(TyModel::GenericFunc { decls, .. }) => Some(decls),
        _ => None,
    }
}

/// The compile-time parameters of a generic callable.
pub fn generic_callable_decls<'a>(stored: Option<&'a Ty>) -> (r: Option<&'a Vec<ParamDecl>>)
    ensures
        match r {
            Some(decls) => contract_decls(found_view(stored)) == Some(param_decls_view(*decls)),
            None => contract_decls(found_view(stored)) is None,
        },
{
    match stored {
        Some(Ty::GenericFunc { decls, .. }) => Some(decls),
        _ => None,
    }
}

/// The issues of the compile-time arguments of an indirect call.
#[verifier::opaque]
pub open spec fn indirect_params_issues<C: Checker>(
    c: C,
    prefix: Seq<char>,
    function: MirFunctionModel,
    stored: Option<TyModel>,
    param_arg_regs: Seq<MirParamArgModel>,
    param_decls: Seq<ParamDeclModel>,
) -> Seq<Seq<char>> {
    match contract_decls(stored) {
        Some(decls) => rule(
            decls != param_decls,
            prefix + ": indirect-call compile-time parameter metadata does not match its callable contract"@,
        ) + param_argument_issues(c, prefix, function, decls, param_arg_regs),
        None => rule(
            param_decls.len() > 0,
            prefix + ": nongeneric indirect call carries compile-time parameter metadata"@,
        ),
    }
}

fn verify_indirect_params<C: Checker>(
    c: &C,
    prefix: &str,
    function: &MirFunction,
    stored: Option<&Ty>,
    param_arg_regs: &Vec<MirParamArg>,
    param_decls: &Vec<ParamDecl>,
    errors: &mut Vec<String>,
)
    ensures
        strings_view(*final(errors)) == strings_view(*old(errors)) + indirect_params_issues(
            *c,
            prefix@,
            function@,
            found_view(stored),
            param_args_view(*param_arg_regs),
            param_decls_view(*param_decls),
        ),
{
    proof {
        reveal(indirect_params_issues);
    }
    let ghost start = strings_view(*errors);
    assert(param_args_view(*param_arg_regs).len() == param_arg_regs@.len());
    assert(param_decls_view(*param_decls).len() == param_decls@.len());
    match generic_callable_decls(stored) {
        Some(decls) => {
            if !same_param_decls(decls, param_decls) {
                report(
                    errors,
                    cat2(
                        prefix,
                        ": indirect-call compile-time parameter metadata does not match its callable contract",
                    ),
                );
            }
            verify_param_arguments(c, prefix, function, decls, param_arg_regs, errors);
        },
        None => {
            if param_decls.len() > 0 {
                report(
                    errors,
                    cat2(prefix, ": nongeneric indirect call carries compile-time parameter metadata"),
                );
            }
        },
    }
    assert(
        strings_view(*errors) =~= start + indirect_params_issues(
            *c,
            prefix@,
            function@,
            found_view(stored),
            param_args_view(*param_arg_regs),
            param_decls_view(*param_decls),
        )
    );
}

/// The struct whose values are called.
pub open spec fn nominal_callee(callee: Option<TyModel>) -> Option<Seq<char>> {
    match callee {
        Some(TyModel::Struct(name, _)) => Some(name),
        _ => None,
    }
}

fn callee_struct<'a>(callee: Option<&'a Ty>) -> (r: Option<&'a String>)
    ensures
        match r {
            Some(name) => nominal_callee(found_view(callee)) == Some(name@),
            None => nominal_callee(found_view(callee)) is None,
        },
{
    match callee {
        Some(Ty::Struct(name, _)) => Some(name),
        _ => None,
    }
}

/// Whether a symbol names a `__call__` method.
pub open spec fn is_call_symbol(target: Seq<char>) -> bool {
    match member_part(target) {
        Some(method) => method == "__call__"@ || overload_of(method, "__call__"@),
        None => false,
    }
}

fn call_symbol(target: &str) -> (r: bool)
    ensures
        r == is_call_symbol(target@),
{
    match member_of(target) {
        Some(method) => str_eq(&method, "__call__") || is_overload_of(&method, "__call__"),
        None => false,
    }
}

/// The method that an indirect call reaches on a nominal callee.
pub open spec fn concrete_target(target: Seq<char>, nominal: Option<Seq<char>>) -> Seq<char> {
    match nominal {
        Some(name) => match retargeted(target, name) {
            Some(symbol) => symbol,
            None => target,
        },
        None => target,
    }
}

fn target_on(target: &String, nominal: Option<&String>) -> (r: String)
    ensures
        r@ == concrete_target(
            target@,
            match nominal {
                Some(name) => Some(name@),
                None => None,
            },
        ),
{
    match nominal {
        Some(name) => match retarget_method_symbol(target, name) {
            Some(symbol) => symbol,
            None => target.clone(),
        },
        None => target.clone(),
    }
}

/// The `__call__` symbol that the contract of a callee fixes.
pub open spec fn fixed_target<C: Checker>(c: C, callee: Option<TyModel>) -> Option<Seq<char>> {
    match callee {
        Some(ty) => c.contract_target(ty),
        None => None,
    }
}

fn target_fixed<C: Checker>(c: &C, callee: Option<&Ty>) -> (r: Option<String>)
    ensures
        opt_string_view(r) == fixed_target(*c, found_view(callee)),
{
    match callee {
        Some(ty) => c.callable_contract_target(ty),
        None => None,
    }
}

/// The issues of the selected target of an indirect call.
#[verifier::opaque]
pub open spec fn indirect_target_issues<C: Checker>(
    c: C,
    prefix: Seq<char>,
    function: MirFunctionModel,
    declarations: MirDeclarationsModel,
    callee: Option<TyModel>,
    target: Seq<char>,
    args: Seq<Reg>,
    kwargs: Seq<(Seq<char>, Reg)>,
    arg_places: Seq<Option<MirPlaceModel>>,
) -> Seq<Seq<char>> {
    let nominal = nominal_callee(callee);
    let concrete = concrete_target(target, nominal);
    (match fixed_target(c, callee) {
        Some(expected) => rule(
            nominal is None && target != expected,
            prefix + ": indirect-call target '"@ + target + "' does not match callable contract '"@ + expected + "'"@,
        ),
        None => Seq::empty(),
    }) + rule(
        !is_call_symbol(target),
        prefix + ": indirect-call target '"@ + target + "' is not a __call__ method"@,
    ) + (match declaration_of(declarations.functions, concrete) {
        Some(declaration) => c.direct_call_issues(prefix, function, declaration, args, kwargs, arg_places),
        None => rule(
            nominal is Some,
            prefix + ": nominal indirect-call target '"@ + concrete + "' is undeclared"@,
        ),
    })
}

fn verify_indirect_target<C: Checker>(
    c: &C,
    prefix: &str,
    function: &MirFunction,
    declarations: &MirDeclarations,
    callee: Option<&Ty>,
    target: &String,
    args: &Vec<Reg>,
    kwargs: &Vec<(String, Reg)>,
    arg_places: &Vec<Option<MirPlace>>,
    errors: &mut Vec<String>,
)
    ensures
        strings_view(*final(errors)) == strings_view(*old(errors)) + indirect_target_issues(
            *c,
            prefix@,
            function@,
            declarations@,
            found_view(callee),
            target@,
            args@,
            string_regs_view(*kwargs),
            opt_places_view(*arg_places),
        ),
{
    proof {
        reveal(indirect_target_issues);
    }
    let ghost start = strings_view(*errors);
    assert(string_regs_view(*kwargs).len() == kwargs@.len());
    assert(opt_places_view(*arg_places).len() == arg_places@.len());
    let nominal: Option<&String> = callee_struct(callee);
    if nominal.is_none() {
        if let Some(expected) = target_fixed(c, callee) {
            if !str_eq(target, &expected) {
                report(
                    errors,
                    cat6(
                        prefix,
                        ": indirect-call target '",
                        target,
                        "' does not match callable contract '",
                        &expected,
                        "'",
                    ),
                );
            }
        }
    }
    if !call_symbol(target) {
        report(errors, cat4(prefix, ": indirect-call target '", target, "' is not a __call__ method"));
    }
    let concrete: String = target_on(target, nominal);
    match declared(declarations, &concrete) {
        Some(declaration) => {
            let found: Vec<String> = c.verify_direct_call(
                prefix,
                function,
                declaration,
                args,
                kwargs,
                arg_places,
            );
            report_all(errors, &found);
        },
        None => {
            if nominal.is_some() {
                report(
                    errors,
                    cat4(prefix, ": nominal indirect-call target '", &concrete, "' is undeclared"),
                );
            }
        },
    }
    assert(
        strings_view(*errors) =~= start + indirect_target_issues(
            *c,
            prefix@,
            function@,
            declarations@,
            found_view(callee),
            target@,
            args@,
            string_regs_view(*kwargs),
            opt_places_view(*arg_places),
        )
    );
}

/// The issues of how an indirect call finds its method.
#[verifier::opaque]
pub open spec fn indirect_dispatch_issues<C: Checker>(
    c: C,
    prefix: Seq<char>,
    function: MirFunctionModel,
    declarations: MirDeclarationsModel,
    callee: Option<TyModel>,
    resolved: Option<Seq<char>>,
    args: Seq<Reg>,
    kwargs: Seq<(Seq<char>, Reg)>,
    arg_places: Seq<Option<MirPlaceModel>>,
) -> Seq<Seq<char>> {
    match (resolved, nominal_callee(callee)) {
        (Some(target), _) => indirect_target_issues(
            c,
            prefix,
            function,
            declarations,
            callee,
            target,
            args,
            kwargs,
            arg_places,
        ),
        (None, Some(name)) => seq![
            prefix + ": nominal callable '"@ + name + "' has no checker-selected __call__ target"@,
        ],
        (None, None) => Seq::empty(),
    }
}

fn verify_indirect_dispatch<C: Checker>(
    c: &C,
    prefix: &str,
    function: &MirFunction,
    declarations: &MirDeclarations,
    callee: Option<&Ty>,
    resolved: &Option<String>,
    args: &Vec<Reg>,
    kwargs: &Vec<(String, Reg)>,
    arg_places: &Vec<Option<MirPlace>>,
    errors: &mut Vec<String>,
)
    ensures
        strings_view(*final(errors)) == strings_view(*old(errors)) + indirect_dispatch_issues(
            *c,
            prefix@,
            function@,
            declarations@,
            found_view(callee),
            opt_string_view(*resolved),
            args@,
            string_regs_view(*kwargs),
            opt_places_view(*arg_places),
        ),
{
    proof {
        reveal(indirect_dispatch_issues);
    }
    let ghost start = strings_view(*errors);
    assert(string_regs_view(*kwargs).len() == kwargs@.len());
    assert(opt_places_view(*arg_places).len() == arg_places@.len());
    match resolved {
        Some(target) => {
            verify_indirect_target(
                c,
                prefix,
                function,
                declarations,
                callee,
                target,
                args,
                kwargs,
                arg_places,
                errors,
            );
        },
        None => {
            if let Some(name) = callee_struct(callee) {
                report(
                    errors,
                    cat4(prefix, ": nominal callable '", name, "' has no checker-selected __call__ target"),
                );
            }
        },
    }
    assert(
        strings_view(*errors) =~= start + indirect_dispatch_issues(
            *c,
            prefix@,
            function@,
            declarations@,
            found_view(callee),
            opt_string_view(*resolved),
            args@,
            string_regs_view(*kwargs),
            opt_places_view(*arg_places),
        )
    );
}

/// The issues of an indirect call against the contract of its callee.
#[verifier::opaque]
pub open spec fn indirect_contract_issues<C: Checker>(
    c: C,
    prefix: Seq<char>,
    function: MirFunctionModel,
    stored: Option<TyModel>,
    raises: Option<TyModel>,
    dest: Reg,
    args: Seq<Reg>,
    kwargs: Seq<(Seq<char>, Reg)>,
    arg_places: Seq<Option<MirPlaceModel>>,
    instantiated: Option<TyModel>,
    instantiated_args: Seq<TyArgModel>,
) -> Seq<Seq<char>> {
    instantiation_issues(c, prefix, stored, instantiated, instantiated_args) + (match called_contract(
        c,
        stored,
        instantiated,
        instantiated_args,
    ) {
        Some(contract) => callable_contract_issues(
            c,
            prefix,
            function,
            contract,
            raises,
            dest,
            args,
            kwargs.len(),
            arg_places,
        ),
        None => Seq::empty(),
    })
}

fn verify_indirect_contract<C: Checker>(
    c: &C,
    prefix: &str,
    function: &MirFunction,
    stored: Option<&Ty>,
    raises: &Option<Ty>,
    dest: Reg,
    args: &Vec<Reg>,
    kwargs: &Vec<(String, Reg)>,
    arg_places: &Vec<Option<MirPlace>>,
    instantiated: &Option<Ty>,
    instantiated_args: &Vec<TyArg>,
    errors: &mut Vec<String>,
)
    ensures
        strings_view(*final(errors)) == strings_view(*old(errors)) + indirect_contract_issues(
            *c,
            prefix@,
            function@,
            found_view(stored),
            opt_ty_view(*raises),
            dest,
            args@,
            string_regs_view(*kwargs),
            opt_places_view(*arg_places),
            opt_ty_view(*instantiated),
            ty_args_view(*instantiated_args),
        ),
{
    proof {
        reveal(indirect_contract_issues);
    }
    let ghost start = strings_view(*errors);
    assert(string_regs_view(*kwargs).len() == kwargs@.len());
    assert(opt_places_view(*arg_places).len() == arg_places@.len());
    assert(ty_args_view(*instantiated_args).len() == instantiated_args@.len());
    verify_instantiation(c, prefix, stored, instantiated, instantiated_args, errors);
    if let Some(contract) = contract_called(c, stored, instantiated, instantiated_args) {
        verify_callable_contract_call(
            c,
            prefix,
            function,
            &contract,
            raises,
            dest,
            args,
            kwargs,
            arg_places,
            errors,
        );
    }
    assert(
        strings_view(*errors) =~= start + indirect_contract_issues(
            *c,
            prefix@,
            function@,
            found_view(stored),
            opt_ty_view(*raises),
            dest,
            args@,
            string_regs_view(*kwargs),
            opt_places_view(*arg_places),
            opt_ty_view(*instantiated),
            ty_args_view(*instantiated_args),
        )
    );
}

/// The issues of an indirect call.
#[verifier::opaque]
pub open spec fn call_indirect_issues<C: Checker>(
    c: C,
    prefix: Seq<char>,
    function: MirFunctionModel,
    declarations: MirDeclarationsModel,
    dest: Reg,
    callee: Option<TyModel>,
    resolved: Option<Seq<char>>,
    raises: Option<TyModel>,
    args: Seq<Reg>,
    kwargs: Seq<(Seq<char>, Reg)>,
    arg_places: Seq<Option<MirPlaceModel>>,
    kwarg_places: Seq<Option<MirPlaceModel>>,
    capture_accesses: Seq<MirCaptureAccessModel>,
    param_arg_regs: Seq<MirParamArgModel>,
    param_decls: Seq<ParamDeclModel>,
    instantiated: Option<TyModel>,
    instantiated_args: Seq<TyArgModel>,
) -> Seq<Seq<char>> {
    let stored = stored_contract(callee);
    capture_access_issues(prefix, function.var_names.len(), capture_accesses) + rule(
        arg_places.len() != args.len() || kwarg_places.len() != kwargs.len(),
        prefix + ": indirect-call place metadata is not aligned with its arguments"@,
    ) + indirect_contract_issues(
        c,
        prefix,
        function,
        stored,
        raises,
        dest,
        args,
        kwargs,
        arg_places,
        instantiated,
        instantiated_args,
    ) + indirect_params_issues(c, prefix, function, stored, param_arg_regs, param_decls) + indirect_dispatch_issues(
        c,
        prefix,
        function,
        declarations,
        callee,
        resolved,
        args,
        kwargs,
        arg_places,
    )
}

pub fn verify_call_indirect<C: Checker>(
    c: &C,
    prefix: &str,
    function: &MirFunction,
    declarations: &MirDeclarations,
    dest: Reg,
    callee: Option<&Ty>,
    resolved: &Option<String>,
    raises: &Option<Ty>,
    args: &Vec<Reg>,
    kwargs: &Vec<(String, Reg)>,
    arg_places: &Vec<Option<MirPlace>>,
    kwarg_places: &Vec<Option<MirPlace>>,
    capture_accesses: &Vec<MirCaptureAccess>,
    param_arg_regs: &Vec<MirParamArg>,
    param_decls: &Vec<ParamDecl>,
    instantiated: &Option<Ty>,
    instantiated_args: &Vec<TyArg>,
    errors: &mut Vec<String>,
)
    ensures
        strings_view(*final(errors)) == strings_view(*old(errors)) + call_indirect_issues(
            *c,
            prefix@,
            function@,
            declarations@,
            dest,
            found_view(callee),
            opt_string_view(*resolved),
            opt_ty_view(*raises),
            args@,
            string_regs_view(*kwargs),
            opt_places_view(*arg_places),
            opt_places_view(*kwarg_places),
            capture_accesses_view(*capture_accesses),
            param_args_view(*param_arg_regs),
            param_decls_view(*param_decls),
            opt_ty_view(*instantiated),
            ty_args_view(*instantiated_args),
        ),
{
    proof {
        reveal(call_indirect_issues);
    }
    let ghost start = strings_view(*errors);
    assert(string_regs_view(*kwargs).len() == kwargs@.len());
    assert(opt_places_view(*arg_places).len() == arg_places@.len());
    assert(opt_places_view(*kwarg_places).len() == kwarg_places@.len());
    assert(capture_accesses_view(*capture_accesses).len() == capture_accesses@.len());
    assert(param_args_view(*param_arg_regs).len() == param_arg_regs@.len());
    assert(param_decls_view(*param_decls).len() == param_decls@.len());
    assert(ty_args_view(*instantiated_args).len() == instantiated_args@.len());
    let stored: Option<&Ty> = contract_stored(callee);
    verify_capture_accesses(prefix, function, capture_accesses, errors);
    if arg_places.len() != args.len() || kwarg_places.len() != kwargs.len() {
        report(errors, cat2(prefix, ": indirect-call place metadata is not aligned with its arguments"));
    }
    verify_indirect_contract(
        c,
        prefix,
        function,
        stored,
        raises,
        dest,
        args,
        kwargs,
        arg_places,
        instantiated,
        instantiated_args,
        errors,
    );
    verify_indirect_params(c, prefix, function, stored, param_arg_regs, param_decls, errors);
    verify_indirect_dispatch(
        c,
        prefix,
        function,
        declarations,
        callee,
        resolved,
        args,
        kwargs,
        arg_places,
        errors,
    );
    assert(
        strings_view(*errors) =~= start + call_indirect_issues(
            *c,
            prefix@,
            function@,
            declarations@,
            dest,
            found_view(callee),
            opt_string_view(*resolved),
            opt_ty_view(*raises),
            args@,
            string_regs_view(*kwargs),
            opt_places_view(*arg_places),
            opt_places_view(*kwarg_places),
            capture_accesses_view(*capture_accesses),
            param_args_view(*param_arg_regs),
            param_decls_view(*param_decls),
            opt_ty_view(*instantiated),
            ty_args_view(*instantiated_args),
        )
    );
}

} // verus!
