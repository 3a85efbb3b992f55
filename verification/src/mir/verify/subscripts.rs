//! Verification of subscript receivers and calls, of compile-time arguments and of
//! captures.

use crate::ast::ArgConvention;
use crate::checked::CheckedCallArgumentSource;
use crate::data::strings_view;
use crate::mir::{
    MirCaptureAccess, MirCaptureAccessModel, MirDeclarations, MirDeclarationsModel, MirFunction,
    MirFunctionDeclaration, MirFunctionDeclarationModel, MirFunctionModel, MirParamArg,
    MirParamArgModel, MirPlace, MirPlaceModel, MirSubscriptArgument, MirSubscriptArgumentModel,
    MirSubscriptCall, MirSubscriptCallModel, Reg, capture_accesses_view, opt_place_view,
    opt_places_view, param_args_view, subscript_arguments_view,
};
use crate::mir::verify::{
    Checker, ReferencePermission, declaration_of, declared, found_view, needs_place, passes_place,
    peel_ref, permission_of, referent_of, report, rule,
};
use crate::mir::verify::types::{compat, types_compatible};
use crate::origin::{PointerOrigin, PointerOriginModel};
use crate::symbol::{member_of, member_part, owner_of, owner_part};
use crate::table::table_get;
use crate::text::{
    cat2, cat3, cat4, cat5, cat6, cat7, cat8, cat9, dec, dec_text, dec_text_usize, occurs_at,
    starts_with, str_eq, trim_stars, without_stars,
};
use crate::types::{
    ParamDecl, ParamDeclModel, Ty, TyModel, decl_name, opt_ty_view, param_decls_view,
    same_param_decls, ty_text, tys_view,
};
use vstd::prelude::*;

verus! {

/// The storage type and the permission of a runtime reference capability: a
/// reference, or a pointer with a place or a parameter as its origin. Raw, static
/// and untracked pointers use allocation arithmetic and are none.
pub open spec fn capability(ty: TyModel) -> Option<(TyModel, ReferencePermission)> {
    match ty {
        TyModel::Ref(reference) => Some((*reference.referent, permission_of(reference.mutability))),
        TyModel::Pointer { element, origin } => match origin {
            PointerOriginModel::Place { mutable, .. } => Some(
                (
                    *element,
                    if mutable { ReferencePermission::Mutable } else { ReferencePermission::Immutable },
                ),
            ),
            PointerOriginModel::Param { mutability, .. } => Some((*element, permission_of(mutability))),
            _ => None,
        },
        _ => None,
    }
}

/// What a reference capability designates and grants.
pub struct ReferenceCapability<'a> {
    pub target: &'a Ty,
    pub permission: ReferencePermission,
}

/// The reference capability that a type carries, if it does.
pub fn reference_capability(ty: &Ty) -> (r: Option<ReferenceCapability<'_>>)
    ensures
        match r {
            Some(found) => capability(ty@) == Some((found.target@, found.permission)),
            None => capability(ty@) is None,
        },
{
    match ty {
        Ty::Ref(reference) => {
            assert(*reference@.referent == reference.referent@);
            Some(
                ReferenceCapability {
                    target: &reference.referent,
                    permission: ReferencePermission::from_mutability(reference.mutability),
                },
            )
        },
        Ty::Pointer { element, origin } => match origin {
            PointerOrigin::Place { mutable, .. } => Some(
                ReferenceCapability {
                    target: element,
                    permission: if *mutable { ReferencePermission::Mutable } else { ReferencePermission::Immutable },
                },
            ),
            PointerOrigin::Param { mutability, .. } => Some(
                ReferenceCapability {
                    target: element,
                    permission: ReferencePermission::from_mutability(*mutability),
                },
            ),
            _ => None,
        },
        _ => None,
    }
}

/// The issues of the place of a subscript receiver. One level of reference is
/// looked through on both sides.
pub open spec fn receiver_place_issues<C: Checker>(
    c: C,
    prefix: Seq<char>,
    receiver_ty: Option<TyModel>,
    receiver_place: Option<MirPlaceModel>,
) -> Seq<Seq<char>> {
    match (receiver_ty, receiver_place) {
        (Some(found), Some(place)) => match place.ty {
            Some(storage) => rule(
                !compat(c, referent_of(found), referent_of(storage)),
                prefix + ": subscript receiver place type "@ + ty_text(referent_of(storage)) + " does not match base value type "@ + ty_text(referent_of(found)),
            ),
            None => Seq::empty(),
        },
        _ => Seq::empty(),
    }
}

/// Verifies the place of a subscript receiver against the loaded value.
pub fn verify_subscript_receiver_place<C: Checker>(
    c: &C,
    prefix: &str,
    receiver_ty: Option<&Ty>,
    receiver_place: &Option<MirPlace>,
    errors: &mut Vec<String>,
)
    ensures
        strings_view(*final(errors)) == strings_view(*old(errors)) + receiver_place_issues(
            *c,
            prefix@,
            found_view(receiver_ty),
            opt_place_view(*receiver_place),
        ),
{
    let ghost start = strings_view(*errors);
    if let (Some(found), Some(place)) = (receiver_ty, receiver_place) {
        if let Some(storage) = &place.ty {
            let receiver: &Ty = peel_ref(storage);
            let value: &Ty = peel_ref(found);
            if !types_compatible(c, value, receiver) {
                report(
                    errors,
                    cat5(
                        prefix,
                        ": subscript receiver place type ",
                        &receiver.text(),
                        " does not match base value type ",
                        &value.text(),
                    ),
                );
            }
        }
    }
    assert(strings_view(*errors) =~= start + receiver_place_issues(
        *c,
        prefix@,
        found_view(receiver_ty),
        opt_place_view(*receiver_place),
    ));
}

/// The issues of captured slots that a call reads or writes.
pub open spec fn capture_access_issues(
    prefix: Seq<char>,
    slots: nat,
    accesses: Seq<MirCaptureAccessModel>,
) -> Seq<Seq<char>>
    decreases accesses.len(),
{
    if accesses.len() == 0 {
        Seq::empty()
    } else {
        let root = accesses.last().root;
        capture_access_issues(prefix, slots, accesses.drop_last()) + rule(
            root >= slots,
            prefix + ": callable capture access uses unknown owner slot "@ + dec(root as nat),
        )
    }
}

/// Verifies that captured slots exist in the function.
pub fn verify_capture_accesses(
    prefix: &str,
    function: &MirFunction,
    accesses: &Vec<MirCaptureAccess>,
    errors: &mut Vec<String>,
)
    ensures
        strings_view(*final(errors)) == strings_view(*old(errors)) + capture_access_issues(
            prefix@,
            function@.var_names.len(),
            capture_accesses_view(*accesses),
        ),
{
    let ghost start = strings_view(*errors);
    let ghost model = capture_accesses_view(*accesses);
    let slots: usize = function.var_names.len();
    assert(function@.var_names.len() == slots);
    assert(start =~= start + capture_access_issues(prefix@, slots as nat, model.take(0)));
    for i in 0..accesses.len()
        invariant
            model == capture_accesses_view(*accesses),
            strings_view(*errors) == start + capture_access_issues(
                prefix@,
                slots as nat,
                model.take(i as int),
            ),
    {
        assert(model.take(i + 1).drop_last() =~= model.take(i as int));
        assert(model[i as int] == accesses@[i as int]@);
        let root: u32 = accesses[i].root;
        if root as u64 >= slots as u64 {
            report(
                errors,
                cat3(prefix, ": callable capture access uses unknown owner slot ", &dec_text(root as u64)),
            );
        }
        assert(
            strings_view(*errors) =~= start + capture_access_issues(prefix@, slots as nat, model.take(i + 1))
        );
    }
    assert(model.take(model.len() as int) =~= model);
}

/// Whether a parameter is filled by inference alone.
pub open spec fn decl_infer_only(decl: ParamDeclModel) -> bool {
    match decl {
        ParamDeclModel::Type { infer_only, .. } => infer_only,
        ParamDeclModel::Value { infer_only, .. } => infer_only,
    }
}

fn is_infer_only(decl: &ParamDecl) -> (r: bool)
    ensures
        r == decl_infer_only(decl@),
{
    match decl {
        ParamDecl::Type { infer_only, .. } => *infer_only,
        ParamDecl::Value { infer_only, .. } => *infer_only,
    }
}

/// The first parameter at or past `from` with the name, stars aside.
pub open spec fn param_named(decls: Seq<ParamDeclModel>, name: Seq<char>, from: int) -> Option<int>
    decreases decls.len() - from,
{
    if from < 0 || from >= decls.len() {
        None
    } else if without_stars(decl_name(decls[from])) == name {
        Some(from)
    } else {
        param_named(decls, name, from + 1)
    }
}

/// The first parameter at or past `from` that a positional argument can fill.
pub open spec fn free_param(decls: Seq<ParamDeclModel>, occupied: Seq<bool>, from: int) -> int
    decreases decls.len() - from,
{
    if from < 0 || from >= decls.len() || !(occupied[from] || decl_infer_only(decls[from])) {
        from
    } else {
        free_param(decls, occupied, from + 1)
    }
}

/// The state of matching compile-time arguments to parameters.
#[verifier::ext_equal]
pub struct ParamScan {
    pub occupied: Seq<bool>,
    pub next: int,
    pub issues: Seq<Seq<char>>,
}

/// The issues of a compile-time argument for the parameter it fills.
pub open spec fn param_value_issues<C: Checker>(
    c: C,
    prefix: Seq<char>,
    function: MirFunctionModel,
    decl: ParamDeclModel,
    value: Option<Reg>,
) -> Seq<Seq<char>> {
    match decl {
        ParamDeclModel::Type { name, .. } => rule(
            value is Some,
            prefix + ": type parameter '"@ + name + "' unexpectedly carries a runtime register"@,
        ),
        ParamDeclModel::Value { name, ty, .. } => match value {
            None => seq![prefix + ": value parameter '"@ + name + "' has no runtime register"@],
            Some(register) => match table_get(function.reg_types, register.0) {
                Some(found) => rule(
                    !(
                        (*ty is Func || *ty is GenericFunc) && c.accepts_bound(found, *ty)
                    ) && !compat(c, found, *ty),
                    prefix + ": compile-time value parameter '"@ + name + "' has register type "@ + ty_text(found) + ", declared "@ + ty_text(*ty),
                ),
                None => Seq::empty(),
            },
        },
    }
}

/// Matching one compile-time argument. A name selects its parameter directly;
/// positional arguments skip what is filled and what only inference fills.
pub open spec fn param_scan_step<C: Checker>(
    c: C,
    prefix: Seq<char>,
    function: MirFunctionModel,
    decls: Seq<ParamDeclModel>,
    argument: MirParamArgModel,
    s: ParamScan,
) -> ParamScan {
    let free = free_param(decls, s.occupied, s.next);
    let index = match argument.name {
        Some(name) => param_named(decls, name, 0),
        None => if free < decls.len() { Some(free) } else { None },
    };
    let next = match argument.name {
        Some(_) => s.next,
        None => if free < decls.len() { free + 1 } else { free },
    };
    match index {
        None => ParamScan {
            next,
            issues: s.issues + seq![
                prefix + ": compile-time argument does not match a parameter declaration"@
            ],
            ..s
        },
        Some(index) => if s.occupied[index] {
            ParamScan {
                next,
                issues: s.issues + seq![
                    prefix + ": compile-time parameter '"@ + decl_name(decls[index]) + "' is supplied more than once"@,
                ],
                ..s
            }
        } else {
            ParamScan {
                occupied: s.occupied.update(index, true),
                next,
                issues: s.issues + param_value_issues(c, prefix, function, decls[index], argument.value),
            }
        },
    }
}

/// Matching compile-time arguments in order.
pub open spec fn param_scan<C: Checker>(
    c: C,
    prefix: Seq<char>,
    function: MirFunctionModel,
    decls: Seq<ParamDeclModel>,
    arguments: Seq<MirParamArgModel>,
) -> ParamScan
    decreases arguments.len(),
{
    if arguments.len() == 0 {
        ParamScan { occupied: Seq::new(decls.len(), |i: int| false), next: 0, issues: Seq::empty() }
    } else {
        param_scan_step(
            c,
            prefix,
            function,
            decls,
            arguments.last(),
            param_scan(c, prefix, function, decls, arguments.drop_last()),
        )
    }
}

/// Whether a parameter must be supplied: a value that nothing else determines.
pub open spec fn decl_required(decl: ParamDeclModel) -> bool {
    match decl {
        ParamDeclModel::Value { default, callable_default, infer_only, variadic, .. } => default is None
            && callable_default is None && !infer_only && !variadic,
        _ => false,
    }
}

/// The issues of required parameters left out, among the first `n`.
pub open spec fn missing_param_issues(
    prefix: Seq<char>,
    decls: Seq<ParamDeclModel>,
    occupied: Seq<bool>,
    n: nat,
) -> Seq<
    Seq<char>,
>
    decreases n,
{
    if n == 0 {
        Seq::empty()
    } else {
        missing_param_issues(prefix, decls, occupied, (n - 1) as nat) + rule(
            !occupied[n - 1] && decl_required(decls[n - 1]),
            prefix + ": required compile-time value parameter '"@ + decl_name(decls[n - 1]) + "' is missing"@,
        )
    }
}

/// Whether one of the compile-time arguments has a register.
pub open spec fn any_param_value(arguments: Seq<MirParamArgModel>) -> bool {
    exists|i: int| 0 <= i < arguments.len() && (#[trigger] arguments[i]).value is Some
}

/// The issues of compile-time arguments against the parameters of the callee. A
/// type argument fills a slot but has no register.
#[verifier::opaque]
pub open spec fn param_argument_issues<C: Checker>(
    c: C,
    prefix: Seq<char>,
    function: MirFunctionModel,
    decls: Seq<ParamDeclModel>,
    arguments: Seq<MirParamArgModel>,
) -> Seq<Seq<char>> {
    if decls.len() == 0 {
        rule(any_param_value(arguments), prefix + ": nongeneric call carries a compile-time value argument"@)
    } else {
        let scan = param_scan(c, prefix, function, decls, arguments);
        scan.issues + missing_param_issues(prefix, decls, scan.occupied, decls.len())
    }
}

fn position_of_param(decls: &Vec<ParamDecl>, name: &str) -> (r: Option<usize>)
    ensures
        match r {
            Some(i) => param_named(param_decls_view(*decls), name@, 0) == Some(i as int) && i < decls@.len(),
            None => param_named(param_decls_view(*decls), name@, 0) is None,
        },
{
    let ghost model = param_decls_view(*decls);
    for i in 0..decls.len()
        invariant
            model == param_decls_view(*decls),
            param_named(model, name@, 0) == param_named(model, name@, i as int),
    {
        assert(model[i as int] == decls@[i as int]@);
        if str_eq(&trim_stars(decls[i].name()), name) {
            return Some(i);
        }
    }
    None
}

fn next_free_param(decls: &Vec<ParamDecl>, occupied: &Vec<bool>, from: usize) -> (r: usize)
    requires
        occupied@.len() == decls@.len(),
        from <= decls@.len(),
    ensures
        r == free_param(param_decls_view(*decls), occupied@, from as int),
        r <= decls@.len(),
{
    let ghost model = param_decls_view(*decls);
    assert(model.len() == decls@.len());
    let mut i: usize = from;
    while i < decls.len() && (occupied[i] || is_infer_only(&decls[i]))
        invariant
            model == param_decls_view(*decls),
            model.len() == decls@.len(),
            occupied@.len() == decls@.len(),
            i <= decls@.len(),
            free_param(model, occupied@, from as int) == free_param(model, occupied@, i as int),
        decreases decls@.len() - i,
    {
        assert(model[i as int] == decls@[i as int]@);
        i = i + 1;
    }
    assert(i < decls@.len() ==> model[i as int] == decls@[i as int]@);
    i
}

fn verify_param_value<C: Checker>(
    c: &C,
    prefix: &str,
    function: &MirFunction,
    decl: &ParamDecl,
    value: &Option<Reg>,
    errors: &mut Vec<String>,
)
    ensures
        strings_view(*final(errors)) == strings_view(*old(errors)) + param_value_issues(
            *c,
            prefix@,
            function@,
            decl@,
            *value,
        ),
{
    let ghost start = strings_view(*errors);
    match decl {
        ParamDecl::Type { name, .. } => {
            if value.is_some() {
                report(
                    errors,
                    cat4(prefix, ": type parameter '", name, "' unexpectedly carries a runtime register"),
                );
            }
        },
        ParamDecl::Value { name, ty, .. } => match value {
            None => {
                report(errors, cat4(prefix, ": value parameter '", name, "' has no runtime register"));
            },
            Some(register) => {
                if let Some(found) = function.reg_types.get(register.0) {
                    let callable: bool = match &**ty {
                        Ty::Func { .. } => true,
                        Ty::GenericFunc { .. } => true,
                        _ => false,
                    };
                    if !(callable && c.callable_bound_accepts(found, ty)) && !types_compatible(c, found, ty) {
                        report(
                            errors,
                            cat7(
                                prefix,
                                ": compile-time value parameter '",
                                name,
                                "' has register type ",
                                &found.text(),
                                ", declared ",
                                &ty.text(),
                            ),
                        );
                    }
                }
            },
        },
    }
    assert(strings_view(*errors) =~= start + param_value_issues(*c, prefix@, function@, decl@, *value));
}

fn has_param_value(arguments: &Vec<MirParamArg>) -> (r: bool)
    ensures
        r == any_param_value(param_args_view(*arguments)),
{
    let ghost model = param_args_view(*arguments);
    for i in 0..arguments.len()
        invariant
            model == param_args_view(*arguments),
            forall|j: int| 0 <= j < i ==> (#[trigger] model[j]).value is None,
    {
        assert(model[i as int] == arguments@[i as int]@);
        if arguments[i].value.is_some() {
            return true;
        }
    }
    false
}

fn verify_missing_params(prefix: &str, decls: &Vec<ParamDecl>, occupied: &Vec<bool>, errors: &mut Vec<String>)
    requires
        occupied@.len() == decls@.len(),
    ensures
        strings_view(*final(errors)) == strings_view(*old(errors)) + missing_param_issues(
            prefix@,
            param_decls_view(*decls),
            occupied@,
            decls@.len(),
        ),
{
    let ghost start = strings_view(*errors);
    let ghost model = param_decls_view(*decls);
    assert(start =~= start + missing_param_issues(prefix@, model, occupied@, 0));
    for i in 0..decls.len()
        invariant
            model == param_decls_view(*decls),
            occupied@.len() == decls@.len(),
            strings_view(*errors) == start + missing_param_issues(prefix@, model, occupied@, i as nat),
    {
        assert(model[i as int] == decls@[i as int]@);
        if !occupied[i] {
            if let ParamDecl::Value { name, default, callable_default, infer_only, variadic, .. } = &decls[i] {
                if default.is_none() && callable_default.is_none() && !*infer_only && !*variadic {
                    report(
                        errors,
                        cat4(prefix, ": required compile-time value parameter '", name, "' is missing"),
                    );
                }
            }
        }
        assert(
            strings_view(*errors) =~= start + missing_param_issues(prefix@, model, occupied@, (i + 1) as nat)
        );
    }
}

/// Verifies the source-order compile-time arguments of a call against the
/// declaration-order parameters of the callee.
pub fn verify_param_arguments<C: Checker>(
    c: &C,
    prefix: &str,
    function: &MirFunction,
    declarations: &Vec<ParamDecl>,
    arguments: &Vec<MirParamArg>,
    errors: &mut Vec<String>,
)
    ensures
        strings_view(*final(errors)) == strings_view(*old(errors)) + param_argument_issues(
            *c,
            prefix@,
            function@,
            param_decls_view(*declarations),
            param_args_view(*arguments),
        ),
{
    proof {
        reveal(param_argument_issues);
    }
    let ghost start = strings_view(*errors);
    let ghost decls = param_decls_view(*declarations);
    let ghost model = param_args_view(*arguments);
    assert(decls.len() == declarations@.len());
    if declarations.len() == 0 {
        if has_param_value(arguments) {
            report(errors, cat2(prefix, ": nongeneric call carries a compile-time value argument"));
        }
        assert(strings_view(*errors) =~= start + param_argument_issues(*c, prefix@, function@, decls, model));
        return;
    }
    let mut occupied: Vec<bool> = Vec::new();
    for i in 0..declarations.len()
        invariant
            occupied@ == Seq::new(i as nat, |j: int| false),
    {
        occupied.push(false);
        assert(occupied@ =~= Seq::new((i + 1) as nat, |j: int| false));
    }
    let mut next: usize = 0;
    assert(start =~= start + param_scan(*c, prefix@, function@, decls, model.take(0)).issues);
    for i in 0..arguments.len()
        invariant
            decls == param_decls_view(*declarations),
            decls.len() == declarations@.len(),
            model == param_args_view(*arguments),
            occupied@.len() == declarations@.len(),
            next <= declarations@.len(),
            occupied@ == param_scan(*c, prefix@, function@, decls, model.take(i as int)).occupied,
            next == param_scan(*c, prefix@, function@, decls, model.take(i as int)).next,
            strings_view(*errors) == start + param_scan(
                *c,
                prefix@,
                function@,
                decls,
                model.take(i as int),
            ).issues,
    {
        let argument: &MirParamArg = &arguments[i];
        let ghost scan = param_scan(*c, prefix@, function@, decls, model.take(i as int));
        assert(model[i as int] == argument@);
        assert(model.take(i + 1).drop_last() =~= model.take(i as int));
        let index: Option<usize> = match &argument.name {
            Some(name) => position_of_param(declarations, name),
            None => {
                let free: usize = next_free_param(declarations, &occupied, next);
                if free < declarations.len() {
                    next = free + 1;
                    Some(free)
                } else {
                    next = free;
                    None
                }
            },
        };
        match index {
            None => {
                report(
                    errors,
                    cat2(prefix, ": compile-time argument does not match a parameter declaration"),
                );
            },
            Some(index) => {
                assert(decls[index as int] == declarations@[index as int]@);
                if occupied[index] {
                    report(
                        errors,
                        cat4(
                            prefix,
                            ": compile-time parameter '",
                            declarations[index].name(),
                            "' is supplied more than once",
                        ),
                    );
                } else {
                    occupied.set(index, true);
                    verify_param_value(c, prefix, function, &declarations[index], &argument.value, errors);
                }
            },
        }
        assert(
            strings_view(*errors) =~= start + param_scan_step(
                *c,
                prefix@,
                function@,
                decls,
                argument@,
                scan,
            ).issues
        );
    }
    assert(model.take(model.len() as int) =~= model);
    verify_missing_params(prefix, declarations, &occupied, errors);
    assert(strings_view(*errors) =~= start + param_argument_issues(*c, prefix@, function@, decls, model));
}

/// How a convention is written in an issue.
pub open spec fn convention_text(convention: Option<ArgConvention>) -> Seq<char> {
    match convention {
        None => "None"@,
        Some(ArgConvention::Imm) => "Some(Imm)"@,
        Some(ArgConvention::Mut) => "Some(Mut)"@,
        Some(ArgConvention::Var) => "Some(Var)"@,
        Some(ArgConvention::Out) => "Some(Out)"@,
        Some(ArgConvention::Ref) => "Some(Ref)"@,
        Some(ArgConvention::Deinit) => "Some(Deinit)"@,
    }
}

/// How a convention is written in an issue.
pub fn text_of_convention(convention: &Option<ArgConvention>) -> (r: &'static str)
    ensures
        r@ == convention_text(*convention),
{
    match convention {
        None => "None",
        Some(ArgConvention::Imm) => "Some(Imm)",
        Some(ArgConvention::Mut) => "Some(Mut)",
        Some(ArgConvention::Var) => "Some(Var)",
        Some(ArgConvention::Out) => "Some(Out)",
        Some(ArgConvention::Ref) => "Some(Ref)",
        Some(ArgConvention::Deinit) => "Some(Deinit)",
    }
}

/// The convention that applies: an argument without one is read.
pub open spec fn effective(convention: Option<ArgConvention>) -> ArgConvention {
    match convention {
        Some(convention) => convention,
        None => ArgConvention::Imm,
    }
}

/// Whether a call uses the declared convention.
pub fn effective_call_convention_matches(
    declared: &Option<ArgConvention>,
    used: &Option<ArgConvention>,
) -> (r: bool)
    ensures
        r == (effective(*declared) == effective(*used)),
{
    let a: ArgConvention = match declared {
        Some(x) => *x,
        None => ArgConvention::Imm,
    };
    let b: ArgConvention = match used {
        Some(x) => *x,
        None => ArgConvention::Imm,
    };
    a == b
}

/// The model of a list of types that may be missing.
pub open spec fn opt_types_view(types: Vec<Option<Ty>>) -> Seq<Option<TyModel>> {
    Seq::new(types@.len(), |i: int| opt_ty_view(types@[i]))
}

/// What a selected subscript call is verified against.
pub struct SubscriptSources<'a> {
    pub receiver_ty: Option<&'a Ty>,
    pub method: &'a str,
    pub receiver_place: &'a Option<MirPlace>,
    pub positional_places: &'a Vec<Option<MirPlace>>,
    pub keyword_places: &'a Vec<Option<MirPlace>>,
    pub positional_types: &'a Vec<Option<Ty>>,
    pub keyword_types: &'a Vec<Option<Ty>>,
    pub dest: Option<Reg>,
}

/// Mathematical model of [`SubscriptSources`].
#[verifier::ext_equal]
pub struct SourcesModel {
    pub receiver_ty: Option<TyModel>,
    pub method: Seq<char>,
    pub receiver_place: Option<MirPlaceModel>,
    pub positional_places: Seq<Option<MirPlaceModel>>,
    pub keyword_places: Seq<Option<MirPlaceModel>>,
    pub positional_types: Seq<Option<TyModel>>,
    pub keyword_types: Seq<Option<TyModel>>,
    pub dest: Option<Reg>,
}

impl<'a> View for SubscriptSources<'a> {
    type V = SourcesModel;

    open spec fn view(&self) -> SourcesModel {
        SourcesModel {
            receiver_ty: found_view(self.receiver_ty),
            method: self.method@,
            receiver_place: opt_place_view(*self.receiver_place),
            positional_places: opt_places_view(*self.positional_places),
            keyword_places: opt_places_view(*self.keyword_places),
            positional_types: opt_types_view(*self.positional_types),
            keyword_types: opt_types_view(*self.keyword_types),
            dest: self.dest,
        }
    }
}

/// Whether a selected symbol belongs to the family of the subscript method.
pub open spec fn in_method_family(target: Seq<char>, method: Seq<char>) -> bool {
    match member_part(target) {
        None => false,
        Some(symbol) => {
            ||| symbol == method
            ||| occurs_at(symbol, method + "$"@, 0)
            ||| method == "__getitem__"@ && (symbol == "__getitem_param__"@ || occurs_at(symbol, "__getitem_param__$"@, 0)
                || occurs_at(symbol, "__getitem_param_value__$"@, 0))
        },
    }
}

fn method_family(target: &str, method: &str) -> (r: bool)
    ensures
        r == in_method_family(target@, method@),
{
    match member_of(target) {
        None => false,
        Some(symbol) => str_eq(&symbol, method) || starts_with(&symbol, &cat2(method, "$")) || (str_eq(
            method,
            "__getitem__",
        ) && (str_eq(&symbol, "__getitem_param__")
            || starts_with(&symbol, "__getitem_param__$")
            || starts_with(
            &symbol,
            "__getitem_param_value__$",
        ))),
    }
}

/// Whether a call dispatches through a trait bound. Its symbol is retargeted to the
/// concrete receiver when it runs.
pub open spec fn is_trait_dispatch(target: Seq<char>) -> bool {
    occurs_at(target, "__trait_dispatch."@, 0)
}

/// The struct that a receiver is, looking through one reference.
pub open spec fn receiver_struct(ty: Option<TyModel>) -> Option<Seq<char>> {
    match ty {
        Some(ty) => match referent_of(ty) {
            TyModel::Struct(name, _) => Some(name),
            _ => None,
        },
        None => None,
    }
}

fn struct_of_receiver<'a>(ty: Option<&'a Ty>) -> (r: Option<&'a String>)
    ensures
        match r {
            Some(name) => receiver_struct(found_view(ty)) == Some(name@),
            None => receiver_struct(found_view(ty)) is None,
        },
{
    match ty {
        Some(ty) => match peel_ref(ty) {
            Ty::Struct(name, _) => Some(name),
            _ => None,
        },
        None => None,
    }
}

/// The issues of the selected symbol and of the receiver.
#[verifier::opaque]
pub open spec fn subscript_target_issues(
    prefix: Seq<char>,
    call: MirSubscriptCallModel,
    sources: SourcesModel,
) -> Seq<
    Seq<char>,
> {
    let receiver = receiver_struct(sources.receiver_ty);
    rule(
        !in_method_family(call.target, sources.method),
        prefix + ": selected subscript target '"@ + call.target + "' is not in the "@ + sources.method + " method family"@,
    ) + rule(
        !is_trait_dispatch(call.target)
            && receiver is Some
            && owner_part(call.target) is Some
            && owner_part(call.target)
            != receiver,
        prefix + ": selected subscript target '"@ + call.target + "' does not belong to receiver type "@ + receiver->Some_0,
    ) + rule(
        call.receiver_requires_place && sources.receiver_place is None,
        prefix + ": selected subscript reference receiver has no retained caller place"@,
    ) + rule(
        sources.positional_places.len() != sources.positional_types.len() || sources.keyword_places.len()
            != sources.keyword_types.len(),
        prefix + ": subscript argument place/type metadata is not aligned"@,
    )
}

fn verify_subscript_target(
    prefix: &str,
    call: &MirSubscriptCall,
    sources: &SubscriptSources<'_>,
    errors: &mut Vec<String>,
)
    ensures
        strings_view(*final(errors)) == strings_view(*old(errors)) + subscript_target_issues(prefix@, call@, sources@),
{
    proof {
        reveal(subscript_target_issues);
    }
    let ghost start = strings_view(*errors);
    if !method_family(&call.target, sources.method) {
        report(
            errors,
            cat6(
                prefix,
                ": selected subscript target '",
                &call.target,
                "' is not in the ",
                sources.method,
                " method family",
            ),
        );
    }
    if !starts_with(&call.target, "__trait_dispatch.") {
        if let (Some(receiver), Some(owner)) = (
            struct_of_receiver(sources.receiver_ty),
            owner_of(&call.target),
        ) {
            if !str_eq(&owner, receiver) {
                report(
                    errors,
                    cat5(
                        prefix,
                        ": selected subscript target '",
                        &call.target,
                        "' does not belong to receiver type ",
                        receiver,
                    ),
                );
            }
        }
    }
    if call.receiver_requires_place && sources.receiver_place.is_none() {
        report(errors, cat2(prefix, ": selected subscript reference receiver has no retained caller place"));
    }
    assert(sources@.positional_places.len() == sources.positional_places@.len());
    assert(sources@.keyword_places.len() == sources.keyword_places@.len());
    assert(sources@.positional_types.len() == sources.positional_types@.len());
    assert(sources@.keyword_types.len() == sources.keyword_types@.len());
    if sources.positional_places.len() != sources.positional_types.len() || sources.keyword_places.len()
        != sources.keyword_types.len() {
        report(errors, cat2(prefix, ": subscript argument place/type metadata is not aligned"));
    }
    assert(strings_view(*errors) =~= start + subscript_target_issues(prefix@, call@, sources@));
}

/// The entry at an index, if there is one.
pub open spec fn at<T>(xs: Seq<Option<T>>, i: usize) -> Option<T> {
    if i < xs.len() { xs[i as int] } else { None }
}

/// The caller place that a selected argument keeps.
pub open spec fn source_place(
    sources: SourcesModel,
    source: CheckedCallArgumentSource,
) -> Option<MirPlaceModel> {
    match source {
        CheckedCallArgumentSource::Positional(i) => at(sources.positional_places, i),
        CheckedCallArgumentSource::Keyword(i) => at(sources.keyword_places, i),
        CheckedCallArgumentSource::Default => None,
    }
}

/// The type of the value that a selected argument takes.
pub open spec fn source_ty(sources: SourcesModel, source: CheckedCallArgumentSource) -> Option<TyModel> {
    match source {
        CheckedCallArgumentSource::Positional(i) => at(sources.positional_types, i),
        CheckedCallArgumentSource::Keyword(i) => at(sources.keyword_types, i),
        CheckedCallArgumentSource::Default => None,
    }
}

/// The issues of one selected argument against its source.
#[verifier::opaque]
pub open spec fn subscript_argument_issues<C: Checker>(
    c: C,
    prefix: Seq<char>,
    sources: SourcesModel,
    argument: MirSubscriptArgumentModel,
) -> Seq<Seq<char>> {
    (match argument.source {
        CheckedCallArgumentSource::Positional(index) => rule(
            index >= sources.positional_places.len(),
            prefix + ": selected subscript positional source "@ + dec(index as nat) + " is out of range"@,
        ),
        CheckedCallArgumentSource::Keyword(index) => rule(
            index >= sources.keyword_places.len(),
            prefix + ": selected subscript keyword source "@ + dec(index as nat) + " is out of range"@,
        ),
        CheckedCallArgumentSource::Default => Seq::empty(),
    }) + rule(
        argument.requires_place && source_place(sources, argument.source) is None,
        prefix + ": selected subscript mut/ref argument has no retained caller place"@,
    ) + (match source_ty(sources, argument.source) {
        Some(actual) => rule(
            !compat(c, actual, argument.parameter_ty),
            prefix + ": subscript source has type "@ + ty_text(actual) + ", selected parameter expects "@ + ty_text(argument.parameter_ty),
        ),
        None => Seq::empty(),
    }) + rule(
        passes_place(argument.convention) && !argument.requires_place,
        prefix + ": selected subscript mut/ref convention does not require a caller place"@,
    )
}

fn place_at<'a>(places: &'a Vec<Option<MirPlace>>, i: usize) -> (r: bool)
    ensures
        r == (at(opt_places_view(*places), i) is Some),
{
    assert(opt_places_view(*places).len() == places@.len());
    if i < places.len() {
        assert(opt_places_view(*places)[i as int] == opt_place_view(places@[i as int]));
        places[i].is_some()
    } else {
        false
    }
}

fn type_at<'a>(types: &'a Vec<Option<Ty>>, i: usize) -> (r: Option<&'a Ty>)
    ensures
        found_view(r) == at(opt_types_view(*types), i),
{
    assert(opt_types_view(*types).len() == types@.len());
    if i < types.len() {
        assert(opt_types_view(*types)[i as int] == opt_ty_view(types@[i as int]));
        match &types[i] {
            Some(ty) => Some(ty),
            None => None,
        }
    } else {
        None
    }
}

fn verify_subscript_argument<C: Checker>(
    c: &C,
    prefix: &str,
    sources: &SubscriptSources<'_>,
    argument: &MirSubscriptArgument,
    errors: &mut Vec<String>,
)
    ensures
        strings_view(*final(errors)) == strings_view(*old(errors)) + subscript_argument_issues(
            *c,
            prefix@,
            sources@,
            argument@,
        ),
{
    proof {
        reveal(subscript_argument_issues);
    }
    let ghost start = strings_view(*errors);
    assert(sources@.positional_places.len() == sources.positional_places@.len());
    assert(sources@.keyword_places.len() == sources.keyword_places@.len());
    let mut kept: bool = false;
    let mut actual: Option<&Ty> = None;
    match argument.source {
        CheckedCallArgumentSource::Positional(index) => {
            if index >= sources.positional_places.len() {
                report(
                    errors,
                    cat4(
                        prefix,
                        ": selected subscript positional source ",
                        &dec_text_usize(index as usize),
                        " is out of range",
                    ),
                );
            }
            kept = place_at(sources.positional_places, index);
            actual = type_at(sources.positional_types, index);
        },
        CheckedCallArgumentSource::Keyword(index) => {
            if index >= sources.keyword_places.len() {
                report(
                    errors,
                    cat4(
                        prefix,
                        ": selected subscript keyword source ",
                        &dec_text_usize(index as usize),
                        " is out of range",
                    ),
                );
            }
            kept = place_at(sources.keyword_places, index);
            actual = type_at(sources.keyword_types, index);
        },
        CheckedCallArgumentSource::Default => {},
    }
    if argument.requires_place && !kept {
        report(errors, cat2(prefix, ": selected subscript mut/ref argument has no retained caller place"));
    }
    if let Some(actual) = actual {
        if !types_compatible(c, actual, &argument.parameter_ty) {
            report(
                errors,
                cat5(
                    prefix,
                    ": subscript source has type ",
                    &actual.text(),
                    ", selected parameter expects ",
                    &argument.parameter_ty.text(),
                ),
            );
        }
    }
    if needs_place(&argument.convention) && !argument.requires_place {
        report(
            errors,
            cat2(prefix, ": selected subscript mut/ref convention does not require a caller place"),
        );
    }
    assert(strings_view(*errors) =~= start + subscript_argument_issues(*c, prefix@, sources@, argument@));
}

/// The issues of selected arguments in order.
pub open spec fn subscript_arguments_issues<C: Checker>(
    c: C,
    prefix: Seq<char>,
    sources: SourcesModel,
    arguments: Seq<MirSubscriptArgumentModel>,
) -> Seq<Seq<char>>
    decreases arguments.len(),
{
    if arguments.len() == 0 {
        Seq::empty()
    } else {
        subscript_arguments_issues(c, prefix, sources, arguments.drop_last()) + subscript_argument_issues(
            c,
            prefix,
            sources,
            arguments.last(),
        )
    }
}

fn verify_subscript_arguments<C: Checker>(
    c: &C,
    prefix: &str,
    sources: &SubscriptSources<'_>,
    arguments: &Vec<MirSubscriptArgument>,
    errors: &mut Vec<String>,
)
    ensures
        strings_view(*final(errors)) == strings_view(*old(errors)) + subscript_arguments_issues(
            *c,
            prefix@,
            sources@,
            subscript_arguments_view(*arguments),
        ),
{
    let ghost start = strings_view(*errors);
    let ghost model = subscript_arguments_view(*arguments);
    assert(start =~= start + subscript_arguments_issues(*c, prefix@, sources@, model.take(0)));
    for i in 0..arguments.len()
        invariant
            model == subscript_arguments_view(*arguments),
            strings_view(*errors) == start + subscript_arguments_issues(
                *c,
                prefix@,
                sources@,
                model.take(i as int),
            ),
    {
        assert(model.take(i + 1).drop_last() =~= model.take(i as int));
        assert(model[i as int] == arguments@[i as int]@);
        verify_subscript_argument(c, prefix, sources, &arguments[i], errors);
        assert(
            strings_view(*errors) =~= start + subscript_arguments_issues(
                *c,
                prefix@,
                sources@,
                model.take(i + 1),
            )
        );
    }
    assert(model.take(model.len() as int) =~= model);
}

/// How many selected arguments take their value from the source.
pub open spec fn source_uses(
    arguments: Seq<MirSubscriptArgumentModel>,
    source: CheckedCallArgumentSource,
) -> nat
    decreases arguments.len(),
{
    if arguments.len() == 0 {
        0
    } else {
        source_uses(
            arguments.drop_last(),
            source,
        ) + if arguments.last().source == source { 1nat } else { 0nat }
    }
}

fn count_source(arguments: &Vec<MirSubscriptArgument>, source: CheckedCallArgumentSource) -> (r: usize)
    ensures
        r == source_uses(subscript_arguments_view(*arguments), source),
{
    let ghost model = subscript_arguments_view(*arguments);
    let mut n: usize = 0;
    for i in 0..arguments.len()
        invariant
            model == subscript_arguments_view(*arguments),
            n <= i,
            n == source_uses(model.take(i as int), source),
    {
        assert(model.take(i + 1).drop_last() =~= model.take(i as int));
        assert(model[i as int] == arguments@[i as int]@);
        if arguments[i].source == source {
            n = n + 1;
        }
    }
    assert(model.take(model.len() as int) =~= model);
    n
}

/// The issues of sources that are not taken exactly once, among the first `n`.
pub open spec fn source_use_issues(
    prefix: Seq<char>,
    arguments: Seq<MirSubscriptArgumentModel>,
    keyword: bool,
    n: nat,
) -> Seq<Seq<char>>
    decreases n,
{
    if n == 0 {
        Seq::empty()
    } else {
        let index = (n - 1) as usize;
        let uses = source_uses(
            arguments,
            if keyword { CheckedCallArgumentSource::Keyword(index) } else { CheckedCallArgumentSource::Positional(index) },
        );
        let kind = if keyword { "keyword"@ } else { "positional"@ };
        source_use_issues(prefix, arguments, keyword, (n - 1) as nat) + rule(
            uses != 1,
            prefix + ": subscript "@ + kind + " source "@ + dec((n - 1) as nat) + " is represented "@ + dec(uses as nat) + " times"@,
        )
    }
}

fn verify_source_uses(
    prefix: &str,
    arguments: &Vec<MirSubscriptArgument>,
    keyword: bool,
    n: usize,
    errors: &mut Vec<String>,
)
    ensures
        strings_view(*final(errors)) == strings_view(*old(errors)) + source_use_issues(
            prefix@,
            subscript_arguments_view(*arguments),
            keyword,
            n as nat,
        ),
{
    let ghost start = strings_view(*errors);
    let ghost model = subscript_arguments_view(*arguments);
    let kind: &str = if keyword { "keyword" } else { "positional" };
    assert(start =~= start + source_use_issues(prefix@, model, keyword, 0));
    for index in 0..n
        invariant
            model == subscript_arguments_view(*arguments),
            kind@ == (if keyword { "keyword"@ } else { "positional"@ }),
            strings_view(*errors) == start + source_use_issues(prefix@, model, keyword, index as nat),
    {
        let source: CheckedCallArgumentSource = if keyword {
            CheckedCallArgumentSource::Keyword(index)
        } else {
            CheckedCallArgumentSource::Positional(index)
        };
        let uses: usize = count_source(arguments, source);
        if uses != 1 {
            report(
                errors,
                cat8(
                    prefix,
                    ": subscript ",
                    kind,
                    " source ",
                    &dec_text_usize(index as usize),
                    " is represented ",
                    &dec_text_usize(uses as usize),
                    " times",
                ),
            );
        }
        assert(
            strings_view(*errors) =~= start + source_use_issues(prefix@, model, keyword, (index + 1) as nat)
        );
    }
}

/// The issues of the result of a selected subscript.
#[verifier::opaque]
pub open spec fn subscript_result_issues<C: Checker>(
    c: C,
    prefix: Seq<char>,
    function: MirFunctionModel,
    call: MirSubscriptCallModel,
    dest: Option<Reg>,
) -> Seq<Seq<char>> {
    (match call.reference_result {
        Some(reference) => {
            let expected = TyModel::Ref(reference);
            rule(
                call.result_ty != expected,
                prefix + ": subscript reference-result metadata "@ + ty_text(expected) + " does not match selected result type "@ + ty_text(call.result_ty),
            )
        },
        None => rule(
            call.result_ty is Ref,
            prefix + ": subscript selected result type "@ + ty_text(call.result_ty) + " lacks reference-result metadata"@,
        ),
    }) + (match dest {
        Some(dest) => match table_get(function.reg_types, dest.0) {
            Some(found) => rule(
                (found is Ref && call.result_ty is Ref && found != call.result_ty) || !compat(c, found, call.result_ty),
                prefix + ": subscript result has type "@ + ty_text(found) + ", selected contract returns "@ + ty_text(call.result_ty),
            ),
            None => Seq::empty(),
        },
        None => Seq::empty(),
    })
}

fn is_ref(ty: &Ty) -> (r: bool)
    ensures
        r == (ty@ is Ref),
{
    match ty {
        Ty::Ref(_) => true,
        _ => false,
    }
}

fn verify_subscript_result<C: Checker>(
    c: &C,
    prefix: &str,
    function: &MirFunction,
    call: &MirSubscriptCall,
    dest: Option<Reg>,
    errors: &mut Vec<String>,
)
    ensures
        strings_view(*final(errors)) == strings_view(*old(errors)) + subscript_result_issues(
            *c,
            prefix@,
            function@,
            call@,
            dest,
        ),
{
    proof {
        reveal(subscript_result_issues);
    }
    let ghost start = strings_view(*errors);
    match &call.reference_result {
        Some(reference) => {
            let expected: Ty = Ty::Ref(reference.copy());
            if !call.result_ty.same(&expected) {
                report(
                    errors,
                    cat5(
                        prefix,
                        ": subscript reference-result metadata ",
                        &expected.text(),
                        " does not match selected result type ",
                        &call.result_ty.text(),
                    ),
                );
            }
        },
        None => {
            if is_ref(&call.result_ty) {
                report(
                    errors,
                    cat4(
                        prefix,
                        ": subscript selected result type ",
                        &call.result_ty.text(),
                        " lacks reference-result metadata",
                    ),
                );
            }
        },
    }
    if let Some(dest) = dest {
        if let Some(found) = function.reg_types.get(dest.0) {
            if (is_ref(found) && is_ref(&call.result_ty) && !found.same(&call.result_ty)) || !types_compatible(
                c,
                found,
                &call.result_ty,
            ) {
                report(
                    errors,
                    cat5(
                        prefix,
                        ": subscript result has type ",
                        &found.text(),
                        ", selected contract returns ",
                        &call.result_ty.text(),
                    ),
                );
            }
        }
    }
    assert(strings_view(*errors) =~= start + subscript_result_issues(*c, prefix@, function@, call@, dest));
}

/// The issues of a selected subscript's receiver against its declaration.
#[verifier::opaque]
pub open spec fn declared_receiver_issues(
    prefix: Seq<char>,
    call: MirSubscriptCallModel,
    declaration: MirFunctionDeclarationModel,
) -> Seq<Seq<char>> {
    rule(
        !declaration.has_receiver,
        prefix + ": selected subscript target '"@ + call.target + "' has no declared receiver"@,
    ) + rule(
        effective(declaration.receiver_convention) != effective(call.receiver_convention),
        prefix + ": subscript receiver convention "@ + convention_text(call.receiver_convention) + " does not match '"@ + call.target + "' declaration "@ + convention_text(declaration.receiver_convention),
    ) + rule(
        call.receiver_requires_place != passes_place(declaration.receiver_convention),
        prefix + ": subscript receiver place requirement does not match '"@ + call.target + "' declaration"@,
    ) + rule(
        declaration.param_decls != call.param_decls,
        prefix + ": subscript generic declaration metadata does not match '"@ + call.target + "'"@,
    )
}

fn verify_declared_receiver(
    prefix: &str,
    call: &MirSubscriptCall,
    declaration: &MirFunctionDeclaration,
    errors: &mut Vec<String>,
)
    ensures
        strings_view(*final(errors)) == strings_view(*old(errors)) + declared_receiver_issues(
            prefix@,
            call@,
            declaration@,
        ),
{
    proof {
        reveal(declared_receiver_issues);
    }
    let ghost start = strings_view(*errors);
    if !declaration.has_receiver {
        report(
            errors,
            cat4(prefix, ": selected subscript target '", &call.target, "' has no declared receiver"),
        );
    }
    if !effective_call_convention_matches(&declaration.receiver_convention, &call.receiver_convention) {
        report(
            errors,
            cat7(
                prefix,
                ": subscript receiver convention ",
                text_of_convention(&call.receiver_convention),
                " does not match '",
                &call.target,
                "' declaration ",
                text_of_convention(&declaration.receiver_convention),
            ),
        );
    }
    if call.receiver_requires_place != needs_place(&declaration.receiver_convention) {
        report(
            errors,
            cat4(
                prefix,
                ": subscript receiver place requirement does not match '",
                &call.target,
                "' declaration",
            ),
        );
    }
    if !same_param_decls(&declaration.param_decls, &call.param_decls) {
        report(
            errors,
            cat4(prefix, ": subscript generic declaration metadata does not match '", &call.target, "'"),
        );
    }
    assert(strings_view(*errors) =~= start + declared_receiver_issues(prefix@, call@, declaration@));
}

/// The issues of a selected subscript's error against its declaration.
#[verifier::opaque]
pub open spec fn declared_error_issues<C: Checker>(
    c: C,
    prefix: Seq<char>,
    call: MirSubscriptCallModel,
    declaration: MirFunctionDeclarationModel,
) -> Seq<Seq<char>> {
    if declaration.raises != (call.raises is Some) {
        seq![prefix + ": subscript raising metadata does not match '"@ + call.target + "'"@]
    } else {
        match (call.raises, declaration.error_ty) {
            (Some(found), Some(expected)) => rule(
                !compat(c, found, expected),
                prefix + ": subscript error type "@ + ty_text(found) + " does not match '"@ + call.target + "' contract "@ + ty_text(expected),
            ),
            _ => Seq::empty(),
        }
    }
}

fn verify_declared_error<C: Checker>(
    c: &C,
    prefix: &str,
    call: &MirSubscriptCall,
    declaration: &MirFunctionDeclaration,
    errors: &mut Vec<String>,
)
    ensures
        strings_view(*final(errors)) == strings_view(*old(errors)) + declared_error_issues(
            *c,
            prefix@,
            call@,
            declaration@,
        ),
{
    proof {
        reveal(declared_error_issues);
    }
    let ghost start = strings_view(*errors);
    if declaration.raises != call.raises.is_some() {
        report(errors, cat4(prefix, ": subscript raising metadata does not match '", &call.target, "'"));
    } else if let (Some(found), Some(expected)) = (&call.raises, &declaration.error_ty) {
        if !types_compatible(c, found, expected) {
            report(
                errors,
                cat7(
                    prefix,
                    ": subscript error type ",
                    &found.text(),
                    " does not match '",
                    &call.target,
                    "' contract ",
                    &expected.text(),
                ),
            );
        }
    }
    assert(strings_view(*errors) =~= start + declared_error_issues(*c, prefix@, call@, declaration@));
}

/// The issues of a selected subscript's error and result against its declaration.
#[verifier::opaque]
pub open spec fn declared_result_issues<C: Checker>(
    c: C,
    prefix: Seq<char>,
    call: MirSubscriptCallModel,
    declaration: MirFunctionDeclarationModel,
) -> Seq<Seq<char>> {
    declared_error_issues(c, prefix, call, declaration) + rule(
        declaration.returns_reference != (call.reference_result is Some),
        prefix + ": subscript reference-result ABI does not match '"@ + call.target + "' declaration"@,
    ) + (match call.reference_result {
        Some(reference) => rule(
            !compat(c, *reference.referent, declaration.ret_ty),
            prefix + ": subscript reference-result referent "@ + ty_text(*reference.referent) + " does not match '"@ + call.target + "' declaration "@ + ty_text(declaration.ret_ty),
        ),
        None => rule(
            !compat(c, call.result_ty, declaration.ret_ty),
            prefix + ": subscript selected result type "@ + ty_text(call.result_ty) + " does not match '"@ + call.target + "' declaration "@ + ty_text(declaration.ret_ty),
        ),
    }) + rule(
        call.arguments.len() < declaration.param_types.len(),
        prefix + ": selected subscript has "@ + dec(call.arguments.len() as nat) + " argument contract(s), but '"@ + call.target + "' declares "@ + dec(
            declaration.param_types.len() as nat
        ) + " fixed parameter(s)"@,
    )
}

fn verify_declared_result<C: Checker>(
    c: &C,
    prefix: &str,
    call: &MirSubscriptCall,
    declaration: &MirFunctionDeclaration,
    errors: &mut Vec<String>,
)
    ensures
        strings_view(*final(errors)) == strings_view(*old(errors)) + declared_result_issues(
            *c,
            prefix@,
            call@,
            declaration@,
        ),
{
    proof {
        reveal(declared_result_issues);
    }
    let ghost start = strings_view(*errors);
    verify_declared_error(c, prefix, call, declaration, errors);
    if declaration.returns_reference != call.reference_result.is_some() {
        report(
            errors,
            cat4(prefix, ": subscript reference-result ABI does not match '", &call.target, "' declaration"),
        );
    }
    match &call.reference_result {
        Some(reference) => {
            assert(*reference@.referent == reference.referent@);
            if !types_compatible(c, &reference.referent, &declaration.ret_ty) {
                report(
                    errors,
                    cat7(
                        prefix,
                        ": subscript reference-result referent ",
                        &reference.referent.text(),
                        " does not match '",
                        &call.target,
                        "' declaration ",
                        &declaration.ret_ty.text(),
                    ),
                );
            }
        },
        None => {
            if !types_compatible(c, &call.result_ty, &declaration.ret_ty) {
                report(
                    errors,
                    cat7(
                        prefix,
                        ": subscript selected result type ",
                        &call.result_ty.text(),
                        " does not match '",
                        &call.target,
                        "' declaration ",
                        &declaration.ret_ty.text(),
                    ),
                );
            }
        },
    }
    assert(call@.arguments.len() == call.arguments@.len());
    assert(declaration@.param_types.len() == declaration.param_types@.len());
    if call.arguments.len() < declaration.param_types.len() {
        report(
            errors,
            cat8(
                prefix,
                ": selected subscript has ",
                &dec_text_usize(call.arguments.len() as usize),
                " argument contract(s), but '",
                &call.target,
                "' declares ",
                &dec_text_usize(declaration.param_types.len() as usize),
                " fixed parameter(s)",
            ),
        );
    }
    assert(strings_view(*errors) =~= start + declared_result_issues(*c, prefix@, call@, declaration@));
}

/// The flag at an index, or what stands for a missing one.
pub open spec fn flag_at(flags: Seq<bool>, i: int, missing: bool) -> bool {
    if i < flags.len() { flags[i] } else { missing }
}

fn flag_of(flags: &Vec<bool>, i: usize, missing: bool) -> (r: bool)
    ensures
        r == flag_at(flags@, i as int, missing),
{
    if i < flags.len() { flags[i] } else { missing }
}

/// The declared convention of a parameter.
pub open spec fn convention_at(conventions: Seq<Option<ArgConvention>>, i: int) -> Option<ArgConvention> {
    if i < conventions.len() { conventions[i] } else { None }
}

fn convention_of(conventions: &Vec<Option<ArgConvention>>, i: usize) -> (r: Option<ArgConvention>)
    ensures
        r == convention_at(conventions@, i as int),
{
    if i < conventions.len() { conventions[i] } else { None }
}

/// The issues of one selected argument against the declared parameter.
#[verifier::opaque]
pub open spec fn declared_argument_issues<C: Checker>(
    c: C,
    prefix: Seq<char>,
    call: MirSubscriptCallModel,
    declaration: MirFunctionDeclarationModel,
    index: int,
) -> Seq<Seq<char>> {
    if index >= call.arguments.len() {
        Seq::empty()
    } else {
        let argument = call.arguments[index];
        let expected = declaration.param_types[index];
        let convention = convention_at(declaration.param_conventions, index);
        rule(
            effective(convention) != effective(argument.convention),
            prefix + ": selected subscript parameter "@ + dec(index as nat) + " convention "@ + convention_text(argument.convention) + " does not match '"@ + call.target + "' declaration "@ + convention_text(convention),
        ) + rule(
            !compat(c, argument.parameter_ty, expected),
            prefix + ": selected subscript parameter type "@ + ty_text(argument.parameter_ty) + " does not match '"@ + call.target + "' declaration "@ + ty_text(expected),
        ) + rule(
            argument.requires_place != flag_at(declaration.ref_params, index, false),
            prefix + ": selected subscript parameter "@ + dec(index as nat) + " place requirement does not match '"@ + call.target + "' declaration"@,
        ) + rule(
            argument.source is Default && flag_at(declaration.required, index, true),
            prefix + ": required subscript parameter "@ + dec(index as nat) + " of '"@ + call.target + "' is bound to a default"@,
        )
    }
}

fn verify_declared_argument<C: Checker>(
    c: &C,
    prefix: &str,
    call: &MirSubscriptCall,
    declaration: &MirFunctionDeclaration,
    index: usize,
    errors: &mut Vec<String>,
)
    requires
        index < declaration.param_types@.len(),
    ensures
        strings_view(*final(errors)) == strings_view(*old(errors)) + declared_argument_issues(
            *c,
            prefix@,
            call@,
            declaration@,
            index as int,
        ),
{
    proof {
        reveal(declared_argument_issues);
    }
    let ghost start = strings_view(*errors);
    assert(call@.arguments.len() == call.arguments@.len());
    if index < call.arguments.len() {
        let argument: &MirSubscriptArgument = &call.arguments[index];
        let expected: &Ty = &declaration.param_types[index];
        assert(call@.arguments[index as int] == argument@);
        assert(declaration@.param_types[index as int] == expected@);
        let convention: Option<ArgConvention> = convention_of(&declaration.param_conventions, index);
        if !effective_call_convention_matches(&convention, &argument.convention) {
            report(
                errors,
                cat9(
                    prefix,
                    ": selected subscript parameter ",
                    &dec_text_usize(index as usize),
                    " convention ",
                    text_of_convention(&argument.convention),
                    " does not match '",
                    &call.target,
                    "' declaration ",
                    text_of_convention(&convention),
                ),
            );
        }
        if !types_compatible(c, &argument.parameter_ty, expected) {
            report(
                errors,
                cat7(
                    prefix,
                    ": selected subscript parameter type ",
                    &argument.parameter_ty.text(),
                    " does not match '",
                    &call.target,
                    "' declaration ",
                    &expected.text(),
                ),
            );
        }
        if argument.requires_place != flag_of(&declaration.ref_params, index, false) {
            report(
                errors,
                cat6(
                    prefix,
                    ": selected subscript parameter ",
                    &dec_text_usize(index as usize),
                    " place requirement does not match '",
                    &call.target,
                    "' declaration",
                ),
            );
        }
        let defaulted: bool = match argument.source {
            CheckedCallArgumentSource::Default => true,
            _ => false,
        };
        if defaulted && flag_of(&declaration.required, index, true) {
            report(
                errors,
                cat6(
                    prefix,
                    ": required subscript parameter ",
                    &dec_text_usize(index as usize),
                    " of '",
                    &call.target,
                    "' is bound to a default",
                ),
            );
        }
    }
    assert(
        strings_view(*errors) =~= start + declared_argument_issues(
            *c,
            prefix@,
            call@,
            declaration@,
            index as int,
        )
    );
}

/// The issues of selected arguments against the first `n` declared parameters.
pub open spec fn declared_arguments_issues<C: Checker>(
    c: C,
    prefix: Seq<char>,
    call: MirSubscriptCallModel,
    declaration: MirFunctionDeclarationModel,
    n: nat,
) -> Seq<Seq<char>>
    decreases n,
{
    if n == 0 {
        Seq::empty()
    } else {
        declared_arguments_issues(c, prefix, call, declaration, (n - 1) as nat) + declared_argument_issues(
            c,
            prefix,
            call,
            declaration,
            n - 1,
        )
    }
}

fn verify_declared_arguments<C: Checker>(
    c: &C,
    prefix: &str,
    call: &MirSubscriptCall,
    declaration: &MirFunctionDeclaration,
    errors: &mut Vec<String>,
)
    ensures
        strings_view(*final(errors)) == strings_view(*old(errors)) + declared_arguments_issues(
            *c,
            prefix@,
            call@,
            declaration@,
            declaration@.param_types.len(),
        ),
{
    let ghost start = strings_view(*errors);
    assert(declaration@.param_types.len() == declaration.param_types@.len());
    assert(start =~= start + declared_arguments_issues(*c, prefix@, call@, declaration@, 0));
    for index in 0..declaration.param_types.len()
        invariant
            strings_view(*errors) == start + declared_arguments_issues(
                *c,
                prefix@,
                call@,
                declaration@,
                index as nat,
            ),
    {
        verify_declared_argument(c, prefix, call, declaration, index, errors);
        assert(strings_view(*errors) =~= start + declared_arguments_issues(
            *c,
            prefix@,
            call@,
            declaration@,
            (index + 1) as nat,
        ));
    }
}

/// How many of the arguments in `[from, to)` are positional.
pub open spec fn positional_between(arguments: Seq<MirSubscriptArgumentModel>, from: int, to: int) -> nat
    decreases to - from,
{
    if to <= from {
        0
    } else {
        positional_between(arguments, from, to - 1) + if arguments[to - 1].source is Positional { 1nat } else { 0nat }
    }
}

/// The type that an argument past the fixed parameters is collected as.
pub open spec fn collector_of(
    arguments: Seq<MirSubscriptArgumentModel>,
    declaration: MirFunctionDeclarationModel,
    index: int,
) -> Option<TyModel> {
    match arguments[index].source {
        CheckedCallArgumentSource::Positional(_) => match declaration.variadic {
            Some(TyModel::RuntimePack(elements)) => {
                let at = positional_between(arguments, declaration.param_types.len() as int, index);
                if at < elements.len() { Some(elements[at as int]) } else { None }
            },
            other => other,
        },
        CheckedCallArgumentSource::Keyword(_) => declaration.kw_variadic,
        CheckedCallArgumentSource::Default => None,
    }
}

/// The issues of one argument past the fixed parameters.
pub open spec fn overflow_issues<C: Checker>(
    c: C,
    prefix: Seq<char>,
    call: MirSubscriptCallModel,
    declaration: MirFunctionDeclarationModel,
    index: int,
) -> Seq<Seq<char>> {
    let argument = call.arguments[index];
    if argument.source is Default {
        seq![prefix + ": selected subscript overflow argument cannot use a default"@]
    } else {
        match collector_of(call.arguments, declaration, index) {
            None => seq![
                prefix + ": selected subscript overflow argument has no matching variadic collector in '"@ + call.target + "'"@,
            ],
            Some(expected) => rule(
                !compat(c, argument.parameter_ty, expected),
                prefix + ": selected subscript overflow type "@ + ty_text(argument.parameter_ty) + " does not match '"@ + call.target + "' collector "@ + ty_text(expected),
            ),
        }
    }
}

/// The issues of the arguments in `[fixed, to)`.
pub open spec fn overflows_issues<C: Checker>(
    c: C,
    prefix: Seq<char>,
    call: MirSubscriptCallModel,
    declaration: MirFunctionDeclarationModel,
    to: int,
) -> Seq<Seq<char>>
    decreases to,
{
    if to <= declaration.param_types.len() {
        Seq::empty()
    } else {
        overflows_issues(
            c,
            prefix,
            call,
            declaration,
            to - 1,
        ) + overflow_issues(c, prefix, call, declaration, to - 1)
    }
}

/// The issues of the arguments past the fixed parameters. A runtime pack fixes how
/// many positional ones there are.
#[verifier::opaque]
pub open spec fn collected_issues<C: Checker>(
    c: C,
    prefix: Seq<char>,
    call: MirSubscriptCallModel,
    declaration: MirFunctionDeclarationModel,
) -> Seq<Seq<char>> {
    let positional = positional_between(
        call.arguments,
        declaration.param_types.len() as int,
        call.arguments.len() as int,
    );
    (match declaration.variadic {
        Some(TyModel::RuntimePack(elements)) => rule(
            elements.len() != positional,
            prefix + ": selected subscript has "@ + dec(positional as nat) + " positional overflow argument(s), but '"@ + call.target + "' requires RuntimePack arity "@ + dec(elements.len() as nat),
        ),
        _ => Seq::empty(),
    }) + overflows_issues(c, prefix, call, declaration, call.arguments.len() as int)
}

fn count_positional(arguments: &Vec<MirSubscriptArgument>, from: usize) -> (r: usize)
    ensures
        r == positional_between(subscript_arguments_view(*arguments), from as int, arguments@.len() as int),
{
    let ghost model = subscript_arguments_view(*arguments);
    let mut n: usize = 0;
    let mut i: usize = from;
    while i < arguments.len()
        invariant
            model == subscript_arguments_view(*arguments),
            from <= i,
            i <= arguments@.len() || i == from,
            n <= i - from,
            n == positional_between(model, from as int, i as int),
        decreases arguments@.len() - i,
    {
        assert(model[i as int] == arguments@[i as int]@);
        if let CheckedCallArgumentSource::Positional(_) = arguments[i].source {
            n = n + 1;
        }
        i = i + 1;
    }
    n
}

fn overflow_collector<'a>(declaration: &'a MirFunctionDeclaration, source: CheckedCallArgumentSource, position: usize) -> (r: Option<
    &'a Ty,
>)
    ensures
        found_view(r) == (match source {
            CheckedCallArgumentSource::Positional(_) => match declaration@.variadic {
                Some(TyModel::RuntimePack(elements)) => if position < elements.len() {
                    Some(elements[position as int])
                } else {
                    None
                },
                other => other,
            },
            CheckedCallArgumentSource::Keyword(_) => declaration@.kw_variadic,
            CheckedCallArgumentSource::Default => None,
        }),
{
    match source {
        CheckedCallArgumentSource::Positional(_) => match &declaration.variadic {
            Some(ty) => match ty {
                Ty::RuntimePack(elements) => {
                    assert(tys_view(*elements).len() == elements@.len());
                    if position < elements.len() {
                        assert(tys_view(*elements)[position as int] == elements@[position as int]@);
                        Some(&elements[position])
                    } else {
                        None
                    }
                },
                _ => Some(ty),
            },
            None => None,
        },
        CheckedCallArgumentSource::Keyword(_) => match &declaration.kw_variadic {
            Some(ty) => Some(ty),
            None => None,
        },
        CheckedCallArgumentSource::Default => None,
    }
}

fn verify_overflows<C: Checker>(
    c: &C,
    prefix: &str,
    call: &MirSubscriptCall,
    declaration: &MirFunctionDeclaration,
    errors: &mut Vec<String>,
)
    ensures
        strings_view(*final(errors)) == strings_view(*old(errors)) + overflows_issues(
            *c,
            prefix@,
            call@,
            declaration@,
            call@.arguments.len() as int,
        ),
{
    let ghost start = strings_view(*errors);
    let from: usize = declaration.param_types.len();
    assert(declaration@.param_types.len() == from);
    assert(call@.arguments.len() == call.arguments@.len());
    let mut position: usize = 0;
    let mut i: usize = from;
    assert(start =~= start + overflows_issues(*c, prefix@, call@, declaration@, from as int));
    while i < call.arguments.len()
        invariant
            call@.arguments == subscript_arguments_view(call.arguments),
            declaration@.param_types.len() == from,
            from <= i,
            i <= call.arguments@.len() || i == from,
            position <= i - from,
            position == positional_between(call@.arguments, from as int, i as int),
            strings_view(*errors) == start + overflows_issues(*c, prefix@, call@, declaration@, i as int),
        decreases call.arguments@.len() - i,
    {
        let argument: &MirSubscriptArgument = &call.arguments[i];
        assert(call@.arguments[i as int] == argument@);
        let ghost before = strings_view(*errors);
        if let CheckedCallArgumentSource::Default = argument.source {
            report(errors, cat2(prefix, ": selected subscript overflow argument cannot use a default"));
        } else {
            match overflow_collector(declaration, argument.source, position) {
                None => {
                    report(
                        errors,
                        cat4(
                            prefix,
                            ": selected subscript overflow argument has no matching variadic collector in '",
                            &call.target,
                            "'",
                        ),
                    );
                },
                Some(expected) => {
                    if !types_compatible(c, &argument.parameter_ty, expected) {
                        report(
                            errors,
                            cat7(
                                prefix,
                                ": selected subscript overflow type ",
                                &argument.parameter_ty.text(),
                                " does not match '",
                                &call.target,
                                "' collector ",
                                &expected.text(),
                            ),
                        );
                    }
                },
            }
        }
        if let CheckedCallArgumentSource::Positional(_) = argument.source {
            position = position + 1;
        }
        assert(
            strings_view(*errors) =~= before + overflow_issues(*c, prefix@, call@, declaration@, i as int)
        );
        i = i + 1;
        assert(
            strings_view(*errors) =~= start + overflows_issues(*c, prefix@, call@, declaration@, i as int)
        );
    }
    assert(strings_view(*errors) =~= start + overflows_issues(
        *c,
        prefix@,
        call@,
        declaration@,
        call@.arguments.len() as int,
    ));
}

fn verify_collected<C: Checker>(
    c: &C,
    prefix: &str,
    call: &MirSubscriptCall,
    declaration: &MirFunctionDeclaration,
    errors: &mut Vec<String>,
)
    ensures
        strings_view(*final(errors)) == strings_view(*old(errors)) + collected_issues(
            *c,
            prefix@,
            call@,
            declaration@,
        ),
{
    proof {
        reveal(collected_issues);
    }
    let ghost start = strings_view(*errors);
    assert(declaration@.param_types.len() == declaration.param_types@.len());
    assert(call@.arguments.len() == call.arguments@.len());
    if let Some(Ty::RuntimePack(elements)) = &declaration.variadic {
        let positional: usize = count_positional(&call.arguments, declaration.param_types.len());
        assert(tys_view(*elements).len() == elements@.len());
        if elements.len() != positional {
            report(
                errors,
                cat7(
                    prefix,
                    ": selected subscript has ",
                    &dec_text_usize(positional as usize),
                    " positional overflow argument(s), but '",
                    &call.target,
                    "' requires RuntimePack arity ",
                    &dec_text_usize(elements.len() as usize),
                ),
            );
        }
    }
    verify_overflows(c, prefix, call, declaration, errors);
    assert(strings_view(*errors) =~= start + collected_issues(*c, prefix@, call@, declaration@));
}

/// The issues of a selected subscript against the declaration of its target.
#[verifier::opaque]
pub open spec fn declared_subscript_issues<C: Checker>(
    c: C,
    prefix: Seq<char>,
    call: MirSubscriptCallModel,
    declaration: Option<MirFunctionDeclarationModel>,
) -> Seq<Seq<char>> {
    match declaration {
        None => rule(
            !is_trait_dispatch(call.target),
            prefix + ": subscript refers to undeclared method '"@ + call.target + "'"@,
        ),
        Some(declaration) => declared_receiver_issues(prefix, call, declaration) + declared_result_issues(
            c,
            prefix,
            call,
            declaration,
        ) + declared_arguments_issues(c, prefix, call, declaration, declaration.param_types.len()) + collected_issues(
            c,
            prefix,
            call,
            declaration,
        ),
    }
}

fn verify_declared_subscript<C: Checker>(
    c: &C,
    prefix: &str,
    declarations: &MirDeclarations,
    call: &MirSubscriptCall,
    errors: &mut Vec<String>,
)
    ensures
        strings_view(*final(errors)) == strings_view(*old(errors)) + declared_subscript_issues(
            *c,
            prefix@,
            call@,
            declaration_of(declarations@.functions, call@.target),
        ),
{
    proof {
        reveal(declared_subscript_issues);
    }
    let ghost start = strings_view(*errors);
    match declared(declarations, &call.target) {
        None => {
            if !starts_with(&call.target, "__trait_dispatch.") {
                report(errors, cat4(prefix, ": subscript refers to undeclared method '", &call.target, "'"));
            }
        },
        Some(declaration) => {
            verify_declared_receiver(prefix, call, declaration, errors);
            verify_declared_result(c, prefix, call, declaration, errors);
            verify_declared_arguments(c, prefix, call, declaration, errors);
            verify_collected(c, prefix, call, declaration, errors);
        },
    }
    assert(strings_view(*errors) =~= start + declared_subscript_issues(
        *c,
        prefix@,
        call@,
        declaration_of(declarations@.functions, call@.target),
    ));
}

/// The issues of where a selected subscript takes its receiver and arguments from.
#[verifier::opaque]
pub open spec fn subscript_source_issues<C: Checker>(
    c: C,
    prefix: Seq<char>,
    call: MirSubscriptCallModel,
    sources: SourcesModel,
) -> Seq<Seq<char>> {
    subscript_target_issues(prefix, call, sources) + subscript_arguments_issues(
        c,
        prefix,
        sources,
        call.arguments,
    )
        + source_use_issues(prefix, call.arguments, false, sources.positional_places.len()) + source_use_issues(
        prefix,
        call.arguments,
        true,
        sources.keyword_places.len(),
    )
}

fn verify_subscript_sources<C: Checker>(
    c: &C,
    prefix: &str,
    call: &MirSubscriptCall,
    sources: &SubscriptSources<'_>,
    errors: &mut Vec<String>,
)
    ensures
        strings_view(*final(errors)) == strings_view(*old(errors)) + subscript_source_issues(
            *c,
            prefix@,
            call@,
            sources@,
        ),
{
    proof {
        reveal(subscript_source_issues);
    }
    let ghost start = strings_view(*errors);
    assert(sources@.positional_places.len() == sources.positional_places@.len());
    assert(sources@.keyword_places.len() == sources.keyword_places@.len());
    verify_subscript_target(prefix, call, sources, errors);
    verify_subscript_arguments(c, prefix, sources, &call.arguments, errors);
    verify_source_uses(prefix, &call.arguments, false, sources.positional_places.len(), errors);
    verify_source_uses(prefix, &call.arguments, true, sources.keyword_places.len(), errors);
    assert(strings_view(*errors) =~= start + subscript_source_issues(*c, prefix@, call@, sources@));
}

/// The issues of a selected subscript call.
#[verifier::opaque]
pub open spec fn subscript_call_issues<C: Checker>(
    c: C,
    prefix: Seq<char>,
    function: MirFunctionModel,
    declarations: MirDeclarationsModel,
    call: MirSubscriptCallModel,
    sources: SourcesModel,
) -> Seq<Seq<char>> {
    capture_access_issues(prefix, function.var_names.len(), call.capture_accesses) + subscript_source_issues(
        c,
        prefix,
        call,
        sources,
    ) + subscript_result_issues(c, prefix, function, call, sources.dest) + param_argument_issues(
        c,
        prefix,
        function,
        call.param_decls,
        call.param_arg_regs,
    ) + declared_subscript_issues(c, prefix, call, declaration_of(declarations.functions, call.target))
}

/// Verifies a selected subscript call: its symbol, where each argument comes from,
/// its result, and all of them against the declaration of its target. Dispatch
/// through a trait bound has no declaration.
pub fn verify_subscript_call<C: Checker>(
    c: &C,
    prefix: &str,
    function: &MirFunction,
    declarations: &MirDeclarations,
    call: &MirSubscriptCall,
    sources: &SubscriptSources<'_>,
    errors: &mut Vec<String>,
)
    ensures
        strings_view(*final(errors)) == strings_view(*old(errors)) + subscript_call_issues(
            *c,
            prefix@,
            function@,
            declarations@,
            call@,
            sources@,
        ),
{
    proof {
        reveal(subscript_call_issues);
    }
    let ghost start = strings_view(*errors);
    verify_capture_accesses(prefix, function, &call.capture_accesses, errors);
    verify_subscript_sources(c, prefix, call, sources, errors);
    verify_subscript_result(c, prefix, function, call, sources.dest, errors);
    verify_param_arguments(c, prefix, function, &call.param_decls, &call.param_arg_regs, errors);
    verify_declared_subscript(c, prefix, declarations, call, errors);
    assert(strings_view(*errors) =~= start + subscript_call_issues(
        *c,
        prefix@,
        function@,
        declarations@,
        call@,
        sources@,
    ));
}

} // verus!
