//! What solving promises: a solution makes the pattern the type it was solved against.

use crate::ct::{CtExprModel, CtValueModel};
use crate::native::mono::MonoErrorModel;
use crate::native::mono::bindings::BindingsModel;
use crate::native::mono::subst::{
    application_name, ct_solution, subst_arg, subst_arg_results, subst_opt, subst_results, subst_ty,
};
use crate::native::mono::unify::{
    aggregate_of, all_equal_modulo_origins, all_erased, all_erased_args, any_symbolic,
    any_symbolic_arg, arg_equal_modulo_origins, args_equal_modulo_origins, bind_ct, bind_ty,
    equal_modulo_origins, erased, erased_arg, literal_ty, mismatch_text, opt_equal_modulo_origins,
    opt_erased, solved, symbolic, symbolic_arg, unify_opt, unify_ty, unify_ty_arg, unify_ty_args,
    unify_tys,
};
use crate::origin::{CallableEnvironmentModel, OriginModel, PointerOriginModel, RefTyModel};
use crate::outcome::{collect, lemma_collect_ok};
use crate::symbol::template_of;
use crate::types::{DependentTypeModel, TyArgModel, TyModel, ty_text};
use vstd::prelude::*;

verus! {

/// Whether a type is a runtime type through and through: nothing in it is unsolved, and
/// nothing is the type of a literal.
pub open spec fn concrete(ty: TyModel) -> bool
    decreases ty,
{
    match ty {
        TyModel::IntLiteral | TyModel::FloatLiteral | TyModel::StringLiteral => false,
        TyModel::Infer | TyModel::SelfType => false,
        TyModel::Param { .. } => false,
        TyModel::Assoc { .. } => false,
        TyModel::Dependent(_) => false,
        TyModel::GenericFunc { .. } => false,
        TyModel::Struct(_, args) => forall|i: int| 0 <= i < args.len() ==> concrete_arg(#[trigger] args[i]),
        TyModel::Tuple(v) => all_concrete(v),
        TyModel::RuntimePack(v) => all_concrete(v),
        TyModel::Variant(v) => all_concrete(v),
        TyModel::Overload(v) => all_concrete(v),
        TyModel::ComptimeList(v) => concrete(*v),
        TyModel::VariadicPack(v) => concrete(*v),
        TyModel::Pointer { element, .. } => concrete(*element),
        TyModel::Ref(v) => concrete(*v.referent),
        TyModel::Func { params, ret, variadic, kw_variadic, error, .. } => {
            &&& all_concrete(params)
            &&& concrete(*ret)
            &&& variadic is Some ==> concrete(*variadic->Some_0)
            &&& kw_variadic is Some ==> concrete(*kw_variadic->Some_0)
            &&& error is Some ==> concrete(*error->Some_0)
        },
        _ => true,
    }
}

/// Whether every one of the types is a runtime type.
pub open spec fn all_concrete(tys: Seq<TyModel>) -> bool
    decreases tys,
{
    forall|i: int| 0 <= i < tys.len() ==> concrete(#[trigger] tys[i])
}

/// Whether an application argument is a runtime type, a constant or an origin.
pub open spec fn concrete_arg(arg: TyArgModel) -> bool
    decreases arg,
{
    match arg {
        TyArgModel::Ty(ty) => concrete(ty),
        TyArgModel::Val(value) => !(value is Param),
        TyArgModel::Origin(_) => true,
    }
}

/// Whether a type serves where another was given: both have one runtime structure.
/// Origins do not count, nor which kind of pack holds the elements; a bare struct name
/// stands for each of its applications, and an instance for its template.
pub open spec fn serves(f: TyModel, a: TyModel) -> bool
    decreases f,
{
    match f {
        TyModel::Struct(name, args) => a is Struct && template_of(name) == template_of(a->Struct_0) && (args.len() == 0
            || args_serve(args, a->Struct_1)),
        TyModel::Tuple(v) => (a is Tuple && all_serve(v, a->Tuple_0)) || (a is RuntimePack && all_serve(
            v,
            a->RuntimePack_0,
        )) || (a is Variant && all_serve(v, a->Variant_0)),
        TyModel::RuntimePack(v) => (a is Tuple && all_serve(v, a->Tuple_0)) || (a is RuntimePack && all_serve(
            v,
            a->RuntimePack_0,
        )) || (a is Variant && all_serve(v, a->Variant_0)),
        TyModel::Variant(v) => (a is Tuple && all_serve(v, a->Tuple_0)) || (a is RuntimePack && all_serve(
            v,
            a->RuntimePack_0,
        )) || (a is Variant && all_serve(v, a->Variant_0)),
        TyModel::ComptimeList(v) => (a is ComptimeList && serves(*v, *a->ComptimeList_0)) || (a is VariadicPack
            && serves(*v, *a->VariadicPack_0)),
        TyModel::VariadicPack(v) => (a is ComptimeList && serves(*v, *a->ComptimeList_0)) || (a is VariadicPack
            && serves(*v, *a->VariadicPack_0)),
        TyModel::Pointer { element, .. } => a is Pointer && serves(*element, *a->Pointer_element),
        TyModel::Ref(v) => a is Ref && v.mutability == a->Ref_0.mutability && serves(*v.referent, *a->Ref_0.referent),
        TyModel::Func {
            params,
            ret,
            required,
            variadic,
            kw_variadic,
            positional_only,
            keyword_only,
            raises,
            error,
            ..
        } => {
            &&& a is Func
            &&& required == a->Func_required
            &&& positional_only == a->Func_positional_only
            &&& keyword_only == a->Func_keyword_only
            &&& raises == a->Func_raises
            &&& all_serve(params, a->Func_params)
            &&& serves(*ret, *a->Func_ret)
            &&& opt_serves(variadic, a->Func_variadic)
            &&& opt_serves(kw_variadic, a->Func_kw_variadic)
            &&& opt_serves(error, a->Func_error)
        },
        TyModel::Overload(v) => a is Overload && all_serve(v, a->Overload_0),
        _ => f == a,
    }
}

/// Whether the types serve in order.
pub open spec fn all_serve(f: Seq<TyModel>, a: Seq<TyModel>) -> bool
    decreases f,
{
    f.len() == a.len() && forall|i: int| 0 <= i < f.len() ==> serves(#[trigger] f[i], a[i])
}

/// Whether an optional type serves: both are there or neither is.
pub open spec fn opt_serves(f: Option<Box<TyModel>>, a: Option<Box<TyModel>>) -> bool
    decreases f,
{
    match f {
        Some(x) => a is Some && serves(*x, *a->Some_0),
        None => a is None,
    }
}

/// Whether the application arguments serve in order.
pub open spec fn args_serve(f: Seq<TyArgModel>, a: Seq<TyArgModel>) -> bool
    decreases f,
{
    f.len() == a.len() && forall|i: int| 0 <= i < f.len() ==> arg_serves(#[trigger] f[i], a[i])
}

/// Whether an application argument serves: values have to be equal, origins do not.
pub open spec fn arg_serves(f: TyArgModel, a: TyArgModel) -> bool
    decreases f,
{
    match f {
        TyArgModel::Ty(x) => a is Ty && serves(x, a->Ty_0),
        TyArgModel::Val(x) => a is Val && x == a->Val_0,
        TyArgModel::Origin(_) => a is Origin,
    }
}

/// The solutions alone, without what else bindings know of an instance.
pub open spec fn solutions(b: BindingsModel) -> BindingsModel {
    BindingsModel { self_instance: None, generic_templates: Seq::empty(), variadic_arity: None, ..b }
}

/// Whether bindings keep what others know: every solution stays, but for a literal type,
/// which may give way to a runtime type.
pub open spec fn keeps(b: BindingsModel, later: BindingsModel) -> bool {
    &&& forall|n: Seq<char>| #[trigger]
        b.types.dom().contains(n) ==> later.types.dom().contains(n) && (literal_ty(b.types[n]) || later.types[n]
            == b.types[n])
    &&& forall|n: Seq<char>| #[trigger]
        b.values.dom().contains(n) ==> later.values.dom().contains(n) && later.values[n] == b.values[n]
    &&& forall|n: Seq<char>| #[trigger]
        b.associated.dom().contains(n) ==> later.associated.dom().contains(n) && later.associated[n] == b.associated[n]
    &&& later.callables == b.callables
    &&& later.self_instance == b.self_instance
    &&& later.generic_templates == b.generic_templates
    &&& later.variadic_arity == b.variadic_arity
}

proof fn lemma_keeps_all(a: BindingsModel, b: BindingsModel, c: BindingsModel)
    requires
        keeps(a, b),
        keeps(b, c),
    ensures
        keeps(a, c),
{
    assert forall|n: Seq<char>| #[trigger] a.types.dom().contains(n) implies c.types.dom().contains(n) && (literal_ty(
        a.types[n],
    ) || c.types[n] == a.types[n]) by {
        assert(b.types.dom().contains(n));
    }
    assert forall|n: Seq<char>| #[trigger] a.values.dom().contains(n) implies c.values.dom().contains(n) && c.values[n]
        == a.values[n] by {
        assert(b.values.dom().contains(n));
    }
    assert forall|n: Seq<char>| #[trigger] a.associated.dom().contains(n) implies c.associated.dom().contains(n)
        && c.associated[n] == a.associated[n] by {
        assert(b.associated.dom().contains(n));
    }
}

/// Solving only adds solutions.
#[verifier::rlimit(40)]
pub proof fn law_solving_keeps_solutions(pattern: TyModel, actual: TyModel, b: BindingsModel)
    ensures
        keeps(b, unify_ty(pattern, actual, b).bindings),
    decreases pattern,
{
    match pattern {
        TyModel::Param { name, .. } => {
            reveal(bind_ty);
        },
        TyModel::Assoc { .. } => {},
        _ => if !(literal_ty(actual) && pattern != actual) {
            match (pattern, actual) {
                (TyModel::Struct(p_name, p), TyModel::Struct(a_name, a)) => {
                    if p.len() == a.len() {
                        lemma_keeps_args(p, a, b);
                    }
                },
                (TyModel::Tuple(p), _) => {
                    if aggregate_of(actual) is Some && p.len() == aggregate_of(actual)->Some_0.len() {
                        lemma_keeps_list(p, aggregate_of(actual)->Some_0, b);
                    }
                },
                (TyModel::RuntimePack(p), _) => {
                    if aggregate_of(actual) is Some && p.len() == aggregate_of(actual)->Some_0.len() {
                        lemma_keeps_list(p, aggregate_of(actual)->Some_0, b);
                    }
                },
                (TyModel::Variant(p), _) => {
                    if aggregate_of(actual) is Some && p.len() == aggregate_of(actual)->Some_0.len() {
                        lemma_keeps_list(p, aggregate_of(actual)->Some_0, b);
                    }
                },
                (TyModel::ComptimeList(p), TyModel::ComptimeList(a)) => law_solving_keeps_solutions(*p, *a, b),
                (TyModel::ComptimeList(p), TyModel::VariadicPack(a)) => law_solving_keeps_solutions(*p, *a, b),
                (TyModel::VariadicPack(p), TyModel::ComptimeList(a)) => law_solving_keeps_solutions(*p, *a, b),
                (TyModel::VariadicPack(p), TyModel::VariadicPack(a)) => law_solving_keeps_solutions(*p, *a, b),
                (
                    TyModel::Pointer { element: p, .. },
                    TyModel::Pointer { element: a, .. },
                ) => law_solving_keeps_solutions(*p, *a, b),
                (TyModel::Ref(p), TyModel::Ref(a)) => law_solving_keeps_solutions(*p.referent, *a.referent, b),
                (TyModel::Func { .. }, TyModel::Func { .. }) => {
                    if pattern->Func_params.len() == actual->Func_params.len() {
                        let text = mismatch_text(pattern, actual);
                        lemma_keeps_list(pattern->Func_params, actual->Func_params, b);
                        let s0 = unify_tys(pattern->Func_params, actual->Func_params, b);
                        law_solving_keeps_solutions(*pattern->Func_ret, *actual->Func_ret, s0.bindings);
                        let s1 = unify_ty(*pattern->Func_ret, *actual->Func_ret, s0.bindings);
                        lemma_keeps_opt(pattern->Func_variadic, actual->Func_variadic, s1.bindings, text);
                        let s2 = unify_opt(pattern->Func_variadic, actual->Func_variadic, s1.bindings, text);
                        lemma_keeps_opt(pattern->Func_kw_variadic, actual->Func_kw_variadic, s2.bindings, text);
                        let s3 = unify_opt(pattern->Func_kw_variadic, actual->Func_kw_variadic, s2.bindings, text);
                        lemma_keeps_opt(pattern->Func_error, actual->Func_error, s3.bindings, text);
                        let s4 = unify_opt(pattern->Func_error, actual->Func_error, s3.bindings, text);
                        lemma_keeps_all(b, s0.bindings, s1.bindings);
                        lemma_keeps_all(b, s1.bindings, s2.bindings);
                        lemma_keeps_all(b, s2.bindings, s3.bindings);
                        lemma_keeps_all(b, s3.bindings, s4.bindings);
                    }
                },
                _ => {},
            }
        },
    }
}

proof fn lemma_keeps_opt(p: Option<Box<TyModel>>, a: Option<Box<TyModel>>, b: BindingsModel, text: Seq<char>)
    ensures
        keeps(b, unify_opt(p, a, b, text).bindings),
    decreases p,
{
    if p is Some && a is Some {
        law_solving_keeps_solutions(*p->Some_0, *a->Some_0, b);
    }
}

proof fn lemma_keeps_list(p: Seq<TyModel>, a: Seq<TyModel>, b: BindingsModel)
    requires
        p.len() == a.len(),
    ensures
        keeps(b, unify_tys(p, a, b).bindings),
    decreases p,
{
    if p.len() > 0 {
        lemma_keeps_list(p.drop_last(), a.drop_last(), b);
        let s = unify_tys(p.drop_last(), a.drop_last(), b);
        law_solving_keeps_solutions(p.last(), a.last(), s.bindings);
        lemma_keeps_all(b, s.bindings, unify_ty(p.last(), a.last(), s.bindings).bindings);
    }
}

proof fn lemma_keeps_args(p: Seq<TyArgModel>, a: Seq<TyArgModel>, b: BindingsModel)
    requires
        p.len() == a.len(),
    ensures
        keeps(b, unify_ty_args(p, a, b).bindings),
    decreases p,
{
    if p.len() > 0 {
        lemma_keeps_args(p.drop_last(), a.drop_last(), b);
        let s = unify_ty_args(p.drop_last(), a.drop_last(), b);
        lemma_keeps_arg(p.last(), a.last(), s.bindings);
        lemma_keeps_all(b, s.bindings, unify_ty_arg(p.last(), a.last(), s.bindings).bindings);
    }
}

proof fn lemma_keeps_arg(p: TyArgModel, a: TyArgModel, b: BindingsModel)
    ensures
        keeps(b, unify_ty_arg(p, a, b).bindings),
    decreases p,
{
    match (p, a) {
        (TyArgModel::Ty(x), TyArgModel::Ty(y)) => law_solving_keeps_solutions(x, y, b),
        _ => {
            reveal(bind_ct);
        },
    }
}

proof fn lemma_serves_itself(ty: TyModel)
    ensures
        serves(ty, ty),
    decreases ty,
{
    match ty {
        TyModel::Struct(_, args) => {
            assert forall|i: int| 0 <= i < args.len() implies arg_serves(#[trigger] args[i], args[i]) by {
                if let TyArgModel::Ty(t) = args[i] {
                    lemma_serves_itself(t);
                }
            }
            assert(args_serve(args, args));
        },
        TyModel::Tuple(v) => lemma_all_serve_themselves(v),
        TyModel::RuntimePack(v) => lemma_all_serve_themselves(v),
        TyModel::Variant(v) => lemma_all_serve_themselves(v),
        TyModel::Overload(v) => lemma_all_serve_themselves(v),
        TyModel::ComptimeList(v) => lemma_serves_itself(*v),
        TyModel::VariadicPack(v) => lemma_serves_itself(*v),
        TyModel::Pointer { element, .. } => lemma_serves_itself(*element),
        TyModel::Ref(v) => lemma_serves_itself(*v.referent),
        TyModel::Func { params, ret, variadic, kw_variadic, error, .. } => {
            lemma_all_serve_themselves(params);
            lemma_serves_itself(*ret);
            if let Some(x) = variadic {
                lemma_serves_itself(*x);
            }
            if let Some(x) = kw_variadic {
                lemma_serves_itself(*x);
            }
            if let Some(x) = error {
                lemma_serves_itself(*x);
            }
            assert(opt_serves(variadic, variadic));
            assert(opt_serves(kw_variadic, kw_variadic));
            assert(opt_serves(error, error));
        },
        _ => {},
    }
}

proof fn lemma_all_serve_themselves(v: Seq<TyModel>)
    ensures
        all_serve(v, v),
    decreases v,
{
    assert forall|i: int| 0 <= i < v.len() implies serves(#[trigger] v[i], v[i]) by {
        lemma_serves_itself(v[i]);
    }
}

/// What equals the canonical form of a type modulo origins serves for that type.
proof fn lemma_equal_serves(k: TyModel, a: TyModel)
    requires
        equal_modulo_origins(k, erased(a)),
    ensures
        serves(k, a),
    decreases k,
{
    match k {
        TyModel::Struct(_, args) => {
            let given = a->Struct_1;
            assert(a is Struct);
            assert(args_equal_modulo_origins(args, all_erased_args(given)));
            assert forall|i: int| 0 <= i < args.len() implies arg_serves(#[trigger] args[i], given[i]) by {
                assert(arg_equal_modulo_origins(args[i], all_erased_args(given)[i]));
                assert(all_erased_args(given)[i] == erased_arg(given[i]));
                if let TyArgModel::Ty(t) = args[i] {
                    lemma_equal_serves(t, given[i]->Ty_0);
                }
            }
            assert(args_serve(args, given));
        },
        TyModel::Tuple(v) => lemma_all_equal_serve(v, a->Tuple_0),
        TyModel::RuntimePack(v) => lemma_all_equal_serve(v, a->RuntimePack_0),
        TyModel::Variant(v) => lemma_all_equal_serve(v, a->Variant_0),
        TyModel::Overload(v) => lemma_all_serve_themselves(v),
        TyModel::ComptimeList(v) => lemma_equal_serves(*v, *a->ComptimeList_0),
        TyModel::VariadicPack(v) => lemma_equal_serves(*v, *a->VariadicPack_0),
        TyModel::Pointer { element, .. } => lemma_equal_serves(*element, *a->Pointer_element),
        TyModel::Ref(v) => lemma_equal_serves(*v.referent, *a->Ref_0.referent),
        TyModel::Func { params, ret, variadic, kw_variadic, error, .. } => {
            lemma_all_equal_serve(params, a->Func_params);
            lemma_equal_serves(*ret, *a->Func_ret);
            assert(opt_equal_modulo_origins(variadic, opt_erased(a->Func_variadic)));
            assert(opt_equal_modulo_origins(kw_variadic, opt_erased(a->Func_kw_variadic)));
            assert(opt_equal_modulo_origins(error, opt_erased(a->Func_error)));
            if let Some(x) = variadic {
                lemma_equal_serves(*x, *a->Func_variadic->Some_0);
            }
            if let Some(x) = kw_variadic {
                lemma_equal_serves(*x, *a->Func_kw_variadic->Some_0);
            }
            if let Some(x) = error {
                lemma_equal_serves(*x, *a->Func_error->Some_0);
            }
            assert(opt_serves(variadic, a->Func_variadic));
            assert(opt_serves(kw_variadic, a->Func_kw_variadic));
            assert(opt_serves(error, a->Func_error));
        },
        _ => {},
    }
}

proof fn lemma_all_equal_serve(k: Seq<TyModel>, a: Seq<TyModel>)
    requires
        all_equal_modulo_origins(k, all_erased(a)),
    ensures
        all_serve(k, a),
    decreases k,
{
    assert forall|i: int| 0 <= i < k.len() implies serves(#[trigger] k[i], a[i]) by {
        assert(equal_modulo_origins(k[i], all_erased(a)[i]));
        lemma_equal_serves(k[i], a[i]);
    }
}

/// What holds no parameter is left alone by substitution.
pub proof fn law_concrete_types_stay(ty: TyModel, b: BindingsModel)
    requires
        concrete(ty),
    ensures
        subst_ty(ty, solutions(b)) == Ok::<TyModel, MonoErrorModel>(ty),
    decreases ty,
{
    let alone = solutions(b);
    match ty {
        TyModel::Struct(name, args) => {
            if args.len() == 0 {
                assert(args =~= Seq::<TyArgModel>::empty());
            } else {
                let results = subst_arg_results(args, alone);
                assert forall|i: int| 0 <= i < results.len() implies #[trigger] results[i] == Ok::<
                    TyArgModel,
                    MonoErrorModel,
                >(args[i]) by {
                    assert(concrete_arg(args[i]));
                    assert(results[i] == subst_arg(args[i], alone));
                    if let TyArgModel::Ty(t) = args[i] {
                        law_concrete_types_stay(t, b);
                    }
                }
                lemma_collect_ok(results, args);
            }
        },
        TyModel::Tuple(v) => lemma_concrete_lists_stay(v, b),
        TyModel::RuntimePack(v) => lemma_concrete_lists_stay(v, b),
        TyModel::Variant(v) => lemma_concrete_lists_stay(v, b),
        TyModel::Overload(v) => lemma_concrete_lists_stay(v, b),
        TyModel::ComptimeList(v) => law_concrete_types_stay(*v, b),
        TyModel::VariadicPack(v) => law_concrete_types_stay(*v, b),
        TyModel::Pointer { element, .. } => law_concrete_types_stay(*element, b),
        TyModel::Ref(v) => law_concrete_types_stay(*v.referent, b),
        TyModel::Func { params, ret, variadic, kw_variadic, error, .. } => {
            lemma_concrete_lists_stay(params, b);
            law_concrete_types_stay(*ret, b);
            lemma_concrete_opt_stays(variadic, b);
            lemma_concrete_opt_stays(kw_variadic, b);
            lemma_concrete_opt_stays(error, b);
        },
        _ => {},
    }
}

proof fn lemma_concrete_opt_stays(ty: Option<Box<TyModel>>, b: BindingsModel)
    requires
        ty is Some ==> concrete(*ty->Some_0),
    ensures
        subst_opt(ty, solutions(b)) == Ok::<Option<Box<TyModel>>, MonoErrorModel>(ty),
    decreases ty,
{
    if let Some(x) = ty {
        law_concrete_types_stay(*x, b);
    }
}

proof fn lemma_concrete_lists_stay(tys: Seq<TyModel>, b: BindingsModel)
    requires
        all_concrete(tys),
    ensures
        collect(subst_results(tys, solutions(b))) == Ok::<Seq<TyModel>, MonoErrorModel>(tys),
    decreases tys,
{
    let results = subst_results(tys, solutions(b));
    assert forall|i: int| 0 <= i < results.len() implies #[trigger] results[i] == Ok::<TyModel, MonoErrorModel>(
        tys[i],
    ) by {
        assert(concrete(tys[i]));
        law_concrete_types_stay(tys[i], b);
    }
    lemma_collect_ok(results, tys);
}

/// Whether the pattern under some solutions serves for a type.
pub open spec fn becomes(pattern: TyModel, b: BindingsModel, actual: TyModel) -> bool {
    &&& subst_ty(pattern, solutions(b)) is Ok
    &&& serves(subst_ty(pattern, solutions(b))->Ok_0, actual)
}

proof fn lemma_sound(pattern: TyModel, actual: TyModel, b: BindingsModel, later: BindingsModel)
    requires
        unify_ty(pattern, actual, b).error is None,
        concrete(actual),
        keeps(unify_ty(pattern, actual, b).bindings, later),
    ensures
        becomes(pattern, later, actual),
    decreases pattern,
{
    let s = unify_ty(pattern, actual, b);
    let alone = solutions(later);
    match pattern {
        TyModel::Param { name, .. } => {
            reveal(bind_ty);
            assert(s.bindings.types.dom().contains(name));
            let known = s.bindings.types[name];
            lemma_erased_is_equal(actual);
            lemma_equal_serves(known, actual);
            assert(!literal_ty(known));
        },
        TyModel::Assoc { .. } => {
            assert(s.bindings.associated.dom().contains(ty_text(pattern)));
            lemma_serves_itself(actual);
        },
        TyModel::Struct(p_name, p) => {
            let a = actual->Struct_1;
            if p.len() > 0 {
                lemma_sound_args(p, a, b, later);
                let results = subst_arg_results(p, alone);
                let found = Seq::new(p.len(), |i: int| subst_arg(p[i], alone)->Ok_0);
                assert forall|i: int| 0 <= i < results.len() implies #[trigger] results[i] == Ok::<
                    TyArgModel,
                    MonoErrorModel,
                >(found[i]) by {
                    assert(results[i] == subst_arg(p[i], alone));
                }
                lemma_collect_ok(results, found);
                assert(args_serve(found, a));
                assert(application_name(p_name, found, alone) == p_name);
            }
        },
        TyModel::Tuple(p) => lemma_sound_list(p, aggregate_of(actual)->Some_0, b, later),
        TyModel::RuntimePack(p) => lemma_sound_list(p, aggregate_of(actual)->Some_0, b, later),
        TyModel::Variant(p) => lemma_sound_list(p, aggregate_of(actual)->Some_0, b, later),
        TyModel::ComptimeList(p) => {
            match actual {
                TyModel::ComptimeList(a) => lemma_sound(*p, *a, b, later),
                TyModel::VariadicPack(a) => lemma_sound(*p, *a, b, later),
                _ => {},
            }
        },
        TyModel::VariadicPack(p) => {
            match actual {
                TyModel::ComptimeList(a) => lemma_sound(*p, *a, b, later),
                TyModel::VariadicPack(a) => lemma_sound(*p, *a, b, later),
                _ => {},
            }
        },
        TyModel::Pointer { element: p, .. } => lemma_sound(*p, *actual->Pointer_element, b, later),
        TyModel::Ref(p) => lemma_sound(*p.referent, *actual->Ref_0.referent, b, later),
        TyModel::Func { params, ret, variadic, kw_variadic, error, .. } => {
            let text = mismatch_text(pattern, actual);
            let s0 = unify_tys(params, actual->Func_params, b);
            let s1 = unify_ty(*ret, *actual->Func_ret, s0.bindings);
            let s2 = unify_opt(variadic, actual->Func_variadic, s1.bindings, text);
            let s3 = unify_opt(kw_variadic, actual->Func_kw_variadic, s2.bindings, text);
            let s4 = unify_opt(error, actual->Func_error, s3.bindings, text);
            lemma_keeps_opt(error, actual->Func_error, s3.bindings, text);
            lemma_keeps_all(s3.bindings, s4.bindings, later);
            lemma_keeps_opt(kw_variadic, actual->Func_kw_variadic, s2.bindings, text);
            lemma_keeps_all(s2.bindings, s3.bindings, later);
            lemma_keeps_opt(variadic, actual->Func_variadic, s1.bindings, text);
            lemma_keeps_all(s1.bindings, s2.bindings, later);
            law_solving_keeps_solutions(*ret, *actual->Func_ret, s0.bindings);
            lemma_keeps_all(s0.bindings, s1.bindings, later);
            lemma_sound_list(params, actual->Func_params, b, later);
            lemma_sound(*ret, *actual->Func_ret, s0.bindings, later);
            lemma_sound_opt(variadic, actual->Func_variadic, s1.bindings, text, later);
            lemma_sound_opt(kw_variadic, actual->Func_kw_variadic, s2.bindings, text, later);
            lemma_sound_opt(error, actual->Func_error, s3.bindings, text, later);
        },
        _ => {
            law_concrete_types_stay(actual, later);
            lemma_serves_itself(actual);
        },
    }
}

proof fn lemma_erased_is_equal(ty: TyModel)
    ensures
        equal_modulo_origins(erased(ty), erased(ty)),
        literal_ty(erased(ty)) == literal_ty(ty),
{
    crate::native::mono::unify::law_equality_modulo_origins(erased(ty), erased(ty), erased(ty));
}

proof fn lemma_sound_opt(
    p: Option<Box<TyModel>>,
    a: Option<Box<TyModel>>,
    b: BindingsModel,
    text: Seq<char>,
    later: BindingsModel,
)
    requires
        unify_opt(p, a, b, text).error is None,
        a is Some ==> concrete(*a->Some_0),
        keeps(unify_opt(p, a, b, text).bindings, later),
    ensures
        subst_opt(p, solutions(later)) is Ok,
        opt_serves(subst_opt(p, solutions(later))->Ok_0, a),
    decreases p,
{
    if p is Some && a is Some {
        lemma_sound(*p->Some_0, *a->Some_0, b, later);
    }
}

proof fn lemma_sound_list(p: Seq<TyModel>, a: Seq<TyModel>, b: BindingsModel, later: BindingsModel)
    requires
        p.len() == a.len(),
        unify_tys(p, a, b).error is None,
        all_concrete(a),
        keeps(unify_tys(p, a, b).bindings, later),
    ensures
        forall|i: int| 0 <= i < p.len() ==> becomes(#[trigger] p[i], later, a[i]),
        collect(subst_results(p, solutions(later))) is Ok,
        all_serve(collect(subst_results(p, solutions(later)))->Ok_0, a),
    decreases p,
{
    let alone = solutions(later);
    if p.len() > 0 {
        let s = unify_tys(p.drop_last(), a.drop_last(), b);
        let last = unify_ty(p.last(), a.last(), s.bindings);
        law_solving_keeps_solutions(p.last(), a.last(), s.bindings);
        lemma_keeps_all(s.bindings, last.bindings, later);
        assert forall|i: int| 0 <= i < a.drop_last().len() implies concrete(#[trigger] a.drop_last()[i]) by {
            assert(concrete(a[i]));
        }
        lemma_sound_list(p.drop_last(), a.drop_last(), b, later);
        assert(concrete(a[a.len() - 1]));
        lemma_sound(p.last(), a.last(), s.bindings, later);
        assert forall|i: int| 0 <= i < p.len() implies becomes(#[trigger] p[i], later, a[i]) by {
            if i < p.len() - 1 {
                assert(becomes(p.drop_last()[i], later, a.drop_last()[i]));
            }
        }
    }
    let results = subst_results(p, alone);
    let found = Seq::new(p.len(), |i: int| subst_ty(p[i], alone)->Ok_0);
    assert forall|i: int| 0 <= i < results.len() implies #[trigger] results[i] == Ok::<TyModel, MonoErrorModel>(
        found[i],
    ) by {
        assert(becomes(p[i], later, a[i]));
    }
    lemma_collect_ok(results, found);
    assert forall|i: int| 0 <= i < found.len() implies serves(#[trigger] found[i], a[i]) by {
        assert(becomes(p[i], later, a[i]));
    }
}

proof fn lemma_sound_args(p: Seq<TyArgModel>, a: Seq<TyArgModel>, b: BindingsModel, later: BindingsModel)
    requires
        p.len() == a.len(),
        unify_ty_args(p, a, b).error is None,
        forall|i: int| 0 <= i < a.len() ==> concrete_arg(#[trigger] a[i]),
        keeps(unify_ty_args(p, a, b).bindings, later),
    ensures
        forall|i: int|
            0 <= i < p.len() ==> subst_arg(#[trigger] p[i], solutions(later)) is Ok && arg_serves(
                subst_arg(p[i], solutions(later))->Ok_0,
                a[i],
            ),
    decreases p,
{
    let alone = solutions(later);
    if p.len() > 0 {
        let (x, y) = (p.last(), a.last());
        let s = unify_ty_args(p.drop_last(), a.drop_last(), b);
        let last = unify_ty_arg(x, y, s.bindings);
        lemma_keeps_arg(x, y, s.bindings);
        lemma_keeps_all(s.bindings, last.bindings, later);
        assert forall|i: int| 0 <= i < a.drop_last().len() implies concrete_arg(#[trigger] a.drop_last()[i]) by {
            assert(concrete_arg(a[i]));
        }
        lemma_sound_args(p.drop_last(), a.drop_last(), b, later);
        assert(concrete_arg(a[a.len() - 1]));
        match (x, y) {
            (TyArgModel::Ty(t), TyArgModel::Ty(u)) => lemma_sound(t, u, s.bindings, later),
            (TyArgModel::Val(CtValueModel::Param(name)), TyArgModel::Val(value)) => {
                reveal(bind_ct);
                assert(last.bindings.values.dom().contains(name));
            },
            _ => {},
        }
        assert(subst_arg(x, alone) is Ok && arg_serves(subst_arg(x, alone)->Ok_0, y));
        assert forall|i: int| 0 <= i < p.len() implies subst_arg(#[trigger] p[i], alone) is Ok && arg_serves(
            subst_arg(p[i], alone)->Ok_0,
            a[i],
        ) by {
            if i < p.len() - 1 {
                assert(p.drop_last()[i] == p[i] && a.drop_last()[i] == a[i]);
            }
        }
    }
}

/// A solution is one: where a pattern is solved against a runtime type, substituting
/// the solutions into the pattern gives a type that serves for that type.
pub proof fn law_solution_fits(pattern: TyModel, actual: TyModel, b: BindingsModel)
    requires
        unify_ty(pattern, actual, b).error is None,
        concrete(actual),
    ensures
        subst_ty(pattern, solutions(unify_ty(pattern, actual, b).bindings)) is Ok,
        serves(subst_ty(pattern, solutions(unify_ty(pattern, actual, b).bindings))->Ok_0, actual),
        forall|name: Seq<char>| #[trigger]
            mentions(pattern, name) ==> unify_ty(pattern, actual, b).bindings.types.dom().contains(name),
{
    let later = unify_ty(pattern, actual, b).bindings;
    lemma_sound(pattern, actual, b, later);
    assert forall|name: Seq<char>| #[trigger] mentions(pattern, name) implies later.types.dom().contains(name) by {
        law_substitution_needs_solutions(pattern, name, solutions(later));
    }
}

/// Whether a type parameter stands in a type where substitution reaches it.
pub open spec fn mentions(ty: TyModel, param: Seq<char>) -> bool
    decreases ty,
{
    match ty {
        TyModel::Param { name, .. } => name == param,
        TyModel::Struct(_, args) => exists|i: int|
            0 <= i < args.len() && (#[trigger] args[i] matches TyArgModel::Ty(t) && mentions(t, param)),
        TyModel::Tuple(v) => any_mentions(v, param),
        TyModel::RuntimePack(v) => any_mentions(v, param),
        TyModel::Variant(v) => any_mentions(v, param),
        TyModel::Overload(v) => any_mentions(v, param),
        TyModel::ComptimeList(v) => mentions(*v, param),
        TyModel::VariadicPack(v) => mentions(*v, param),
        TyModel::Pointer { element, .. } => mentions(*element, param),
        TyModel::Ref(v) => mentions(*v.referent, param),
        TyModel::Func { params, ret, variadic, kw_variadic, error, .. } => {
            ||| any_mentions(params, param)
            ||| mentions(*ret, param)
            ||| (variadic is Some && mentions(*variadic->Some_0, param))
            ||| (kw_variadic is Some && mentions(*kw_variadic->Some_0, param))
            ||| (error is Some && mentions(*error->Some_0, param))
        },
        _ => false,
    }
}

/// Whether a type parameter stands in one of the types.
pub open spec fn any_mentions(tys: Seq<TyModel>, param: Seq<char>) -> bool
    decreases tys,
{
    exists|i: int| 0 <= i < tys.len() && mentions(#[trigger] tys[i], param)
}

/// Substitution succeeds only where every type parameter in the type has a solution.
pub proof fn law_substitution_needs_solutions(ty: TyModel, param: Seq<char>, b: BindingsModel)
    requires
        subst_ty(ty, b) is Ok,
        mentions(ty, param),
    ensures
        b.types.dom().contains(param),
    decreases ty,
{
    match ty {
        TyModel::Struct(name, args) => {
            let i = choose|i: int|
                0 <= i < args.len() && (#[trigger] args[i] matches TyArgModel::Ty(t) && mentions(t, param));
            let results = subst_arg_results(args, b);
            assert(collect(results) is Ok);
            lemma_collected(results, i);
            assert(results[i] == subst_arg(args[i], b));
            law_substitution_needs_solutions(args[i]->Ty_0, param, b);
        },
        TyModel::Tuple(v) => lemma_list_needs_solutions(v, param, b),
        TyModel::RuntimePack(v) => lemma_list_needs_solutions(v, param, b),
        TyModel::Variant(v) => lemma_list_needs_solutions(v, param, b),
        TyModel::Overload(v) => lemma_list_needs_solutions(v, param, b),
        TyModel::ComptimeList(v) => law_substitution_needs_solutions(*v, param, b),
        TyModel::VariadicPack(v) => law_substitution_needs_solutions(*v, param, b),
        TyModel::Pointer { element, .. } => law_substitution_needs_solutions(*element, param, b),
        TyModel::Ref(v) => law_substitution_needs_solutions(*v.referent, param, b),
        TyModel::Func { params, ret, variadic, kw_variadic, error, .. } => {
            assert(subst_opt(variadic, b) is Ok && subst_opt(kw_variadic, b) is Ok && subst_opt(error, b) is Ok);
            if any_mentions(params, param) {
                lemma_list_needs_solutions(params, param, b);
            } else if mentions(*ret, param) {
                law_substitution_needs_solutions(*ret, param, b);
            } else if variadic is Some && mentions(*variadic->Some_0, param) {
                law_substitution_needs_solutions(*variadic->Some_0, param, b);
            } else if kw_variadic is Some && mentions(*kw_variadic->Some_0, param) {
                law_substitution_needs_solutions(*kw_variadic->Some_0, param, b);
            } else {
                law_substitution_needs_solutions(*error->Some_0, param, b);
            }
        },
        _ => {},
    }
}

proof fn lemma_list_needs_solutions(tys: Seq<TyModel>, param: Seq<char>, b: BindingsModel)
    requires
        collect(subst_results(tys, b)) is Ok,
        any_mentions(tys, param),
    ensures
        b.types.dom().contains(param),
    decreases tys,
{
    let i = choose|i: int| 0 <= i < tys.len() && mentions(#[trigger] tys[i], param);
    let results = subst_results(tys, b);
    lemma_collected(results, i);
    assert(results[i] == subst_ty(tys[i], b));
    law_substitution_needs_solutions(tys[i], param, b);
}

proof fn lemma_collected<T, E>(results: Seq<Result<T, E>>, i: int)
    requires
        collect(results) is Ok,
        0 <= i < results.len(),
    ensures
        results[i] is Ok,
        collect(results)->Ok_0.len() == results.len(),
        collect(results)->Ok_0[i] == results[i]->Ok_0,
    decreases results.len(),
{
    let shorter = results.drop_last();
    assert(collect(shorter) is Ok);
    if shorter.len() > 0 {
        lemma_collected(shorter, if i < shorter.len() { i } else { 0 });
    }
}

/// Whether a pattern can be solved part by part: nothing in it is an overload set or a
/// dependent type.
pub open spec fn solvable(ty: TyModel) -> bool
    decreases ty,
{
    match ty {
        TyModel::Overload(_) => false,
        TyModel::Dependent(_) => false,
        TyModel::Struct(_, args) => forall|i: int|
            0 <= i < args.len() ==> (#[trigger] args[i] matches TyArgModel::Ty(t) ==> solvable(t)),
        TyModel::Tuple(v) => all_solvable(v),
        TyModel::RuntimePack(v) => all_solvable(v),
        TyModel::Variant(v) => all_solvable(v),
        TyModel::ComptimeList(v) => solvable(*v),
        TyModel::VariadicPack(v) => solvable(*v),
        TyModel::Pointer { element, .. } => solvable(*element),
        TyModel::Ref(v) => solvable(*v.referent),
        TyModel::Func { params, ret, variadic, kw_variadic, error, .. } => {
            &&& all_solvable(params)
            &&& solvable(*ret)
            &&& variadic is Some ==> solvable(*variadic->Some_0)
            &&& kw_variadic is Some ==> solvable(*kw_variadic->Some_0)
            &&& error is Some ==> solvable(*error->Some_0)
        },
        _ => true,
    }
}

/// Whether every one of the patterns can be solved part by part.
pub open spec fn all_solvable(tys: Seq<TyModel>) -> bool
    decreases tys,
{
    forall|i: int| 0 <= i < tys.len() ==> solvable(#[trigger] tys[i])
}

/// Whether every solution is one that solving could have found: a canonical type with
/// nothing unsolved in it, or a constant.
pub open spec fn canonical_solutions(b: BindingsModel) -> bool {
    &&& forall|n: Seq<char>| #[trigger]
        b.types.dom().contains(n) ==> !symbolic(b.types[n]) && erased(b.types[n]) == b.types[n]
    &&& forall|n: Seq<char>| #[trigger] b.values.dom().contains(n) ==> !(b.values[n] is Param)
}

/// Solving finds what substitution put in: a pattern is solved by its own substitution,
/// and the solutions are the ones that were substituted.
pub proof fn law_substitution_is_solved(pattern: TyModel, b: BindingsModel)
    requires
        solvable(pattern),
        canonical_solutions(b),
        subst_ty(pattern, solutions(b)) is Ok,
    ensures
        unify_ty(pattern, subst_ty(pattern, solutions(b))->Ok_0, b) == solved(b),
    decreases pattern,
{
    let alone = solutions(b);
    let f = subst_ty(pattern, alone)->Ok_0;
    match pattern {
        TyModel::Param { name, .. } => {
            reveal(bind_ty);
            assert(b.types.dom().contains(name));
        },
        TyModel::Assoc { .. } => {},
        TyModel::Struct(name, p) => {
            if p.len() > 0 {
                let results = subst_arg_results(p, alone);
                let found = collect(results)->Ok_0;
                assert(collect(results) is Ok);
                assert forall|i: int| 0 <= i < p.len() implies (#[trigger] p[i] matches TyArgModel::Ty(t)
                    ==> solvable(t)) && subst_arg(p[i], alone) == Ok::<TyArgModel, MonoErrorModel>(found[i]) by {
                    lemma_collected(results, i);
                    assert(results[i] == subst_arg(p[i], alone));
                }
                lemma_collected(results, 0);
                assert(application_name(name, found, alone) == name);
                lemma_args_solved(p, found, b);
            }
        },
        TyModel::Tuple(p) => {
            lemma_list_solved(p, b);
            assert(aggregate_of(f) == Some(f->Tuple_0));
        },
        TyModel::RuntimePack(p) => {
            lemma_list_solved(p, b);
            assert(aggregate_of(f) == Some(f->RuntimePack_0));
        },
        TyModel::Variant(p) => {
            lemma_list_solved(p, b);
            assert(aggregate_of(f) == Some(f->Variant_0));
        },
        TyModel::ComptimeList(p) => law_substitution_is_solved(*p, b),
        TyModel::VariadicPack(p) => law_substitution_is_solved(*p, b),
        TyModel::Pointer { element: p, .. } => law_substitution_is_solved(*p, b),
        TyModel::Ref(p) => law_substitution_is_solved(*p.referent, b),
        TyModel::Func { params, ret, variadic, kw_variadic, error, .. } => {
            let text = mismatch_text(pattern, f);
            lemma_list_solved(params, b);
            law_substitution_is_solved(*ret, b);
            assert(subst_opt(variadic, alone) is Ok && subst_opt(kw_variadic, alone) is Ok
                && subst_opt(error, alone) is Ok);
            lemma_opt_solved(variadic, b, text);
            lemma_opt_solved(kw_variadic, b, text);
            lemma_opt_solved(error, b, text);
        },
        _ => {},
    }
}

proof fn lemma_opt_solved(p: Option<Box<TyModel>>, b: BindingsModel, text: Seq<char>)
    requires
        p is Some ==> solvable(*p->Some_0),
        canonical_solutions(b),
        subst_opt(p, solutions(b)) is Ok,
    ensures
        unify_opt(p, subst_opt(p, solutions(b))->Ok_0, b, text) == solved(b),
    decreases p,
{
    if let Some(x) = p {
        law_substitution_is_solved(*x, b);
    }
}

proof fn lemma_list_solved(p: Seq<TyModel>, b: BindingsModel)
    requires
        all_solvable(p),
        canonical_solutions(b),
        collect(subst_results(p, solutions(b))) is Ok,
    ensures
        collect(subst_results(p, solutions(b)))->Ok_0.len() == p.len(),
        unify_tys(p, collect(subst_results(p, solutions(b)))->Ok_0, b) == solved(b),
    decreases p,
{
    let alone = solutions(b);
    let results = subst_results(p, alone);
    let found = collect(results)->Ok_0;
    if p.len() > 0 {
        let (q, x) = (p.drop_last(), p.last());
        assert(subst_results(q, alone) =~= results.drop_last());
        assert forall|i: int| 0 <= i < q.len() implies solvable(#[trigger] q[i]) by {
            assert(solvable(p[i]));
        }
        lemma_collected(results, results.len() - 1);
        assert(results[results.len() - 1] == subst_ty(x, alone));
        assert(solvable(p[p.len() - 1]));
        lemma_list_solved(q, b);
        law_substitution_is_solved(x, b);
        assert(found.drop_last() =~= collect(results.drop_last())->Ok_0);
    }
}

proof fn lemma_args_solved(p: Seq<TyArgModel>, found: Seq<TyArgModel>, b: BindingsModel)
    requires
        canonical_solutions(b),
        found.len() == p.len(),
        forall|i: int|
            0 <= i < p.len() ==> (#[trigger] p[i] matches TyArgModel::Ty(t) ==> solvable(t)) && subst_arg(
                p[i],
                solutions(b),
            ) == Ok::<TyArgModel, MonoErrorModel>(found[i]),
    ensures
        unify_ty_args(p, found, b) == solved(b),
    decreases p,
{
    if p.len() > 0 {
        let (q, x) = (p.drop_last(), p.last());
        assert forall|i: int| 0 <= i < q.len() implies (#[trigger] q[i] matches TyArgModel::Ty(t) ==> solvable(t))
            && subst_arg(q[i], solutions(b)) == Ok::<TyArgModel, MonoErrorModel>(found.drop_last()[i]) by {
            assert(q[i] == p[i]);
        }
        lemma_args_solved(q, found.drop_last(), b);
        assert(p[p.len() - 1] == x);
        match x {
            TyArgModel::Ty(t) => law_substitution_is_solved(t, b),
            TyArgModel::Val(CtValueModel::Param(name)) => {
                reveal(bind_ct);
                assert(b.values.dom().contains(name));
            },
            _ => {},
        }
        assert(subst_arg(x, solutions(b)) == Ok::<TyArgModel, MonoErrorModel>(found.last()));
        assert(unify_ty_arg(x, found.last(), b) == solved(b));
    }
}

/// A type without its origins, and without what callables carry beside their runtime
/// structure.
pub open spec fn stripped(ty: TyModel) -> TyModel
    decreases ty,
{
    match ty {
        TyModel::Ref(v) => TyModel::Ref(
            RefTyModel { referent: Box::new(stripped(*v.referent)), origin: OriginModel::Static, ..v },
        ),
        TyModel::Pointer { element, .. } => TyModel::Pointer {
            element: Box::new(stripped(*element)),
            origin: PointerOriginModel::Static,
        },
        TyModel::Struct(name, args) => TyModel::Struct(name, all_stripped_args(args)),
        TyModel::Tuple(v) => TyModel::Tuple(all_stripped(v)),
        TyModel::RuntimePack(v) => TyModel::RuntimePack(all_stripped(v)),
        TyModel::Variant(v) => TyModel::Variant(all_stripped(v)),
        TyModel::ComptimeList(v) => TyModel::ComptimeList(Box::new(stripped(*v))),
        TyModel::VariadicPack(v) => TyModel::VariadicPack(Box::new(stripped(*v))),
        TyModel::Func {
            params,
            ret,
            required,
            variadic,
            kw_variadic,
            positional_only,
            keyword_only,
            raises,
            error,
            ..
        } => TyModel::Func {
            environment: CallableEnvironmentModel::Default,
            params: all_stripped(params),
            names: Seq::empty(),
            ret: Box::new(stripped(*ret)),
            required,
            variadic: opt_stripped(variadic),
            kw_variadic: opt_stripped(kw_variadic),
            positional_only,
            keyword_only,
            raises,
            error: opt_stripped(error),
            conventions: Seq::empty(),
            ref_params: Seq::empty(),
            ref_return: None,
            transfers: Seq::empty(),
        },
        _ => ty,
    }
}

/// The types without their origins.
pub open spec fn all_stripped(tys: Seq<TyModel>) -> Seq<TyModel>
    decreases tys,
{
    Seq::new(tys.len(), |i: int| if 0 <= i < tys.len() { stripped(tys[i]) } else { arbitrary() })
}

/// The type, if any, without its origins.
pub open spec fn opt_stripped(ty: Option<Box<TyModel>>) -> Option<Box<TyModel>>
    decreases ty,
{
    match ty {
        Some(t) => Some(Box::new(stripped(*t))),
        None => None,
    }
}

/// The application argument without its origins.
pub open spec fn stripped_arg(arg: TyArgModel) -> TyArgModel
    decreases arg,
{
    match arg {
        TyArgModel::Ty(ty) => TyArgModel::Ty(stripped(ty)),
        TyArgModel::Origin(_) => TyArgModel::Origin(OriginModel::Static),
        _ => arg,
    }
}

/// The application arguments without their origins.
pub open spec fn all_stripped_args(args: Seq<TyArgModel>) -> Seq<TyArgModel>
    decreases args,
{
    Seq::new(args.len(), |i: int| if 0 <= i < args.len() { stripped_arg(args[i]) } else { arbitrary() })
}

/// Types are equal modulo origins exactly where they are equal without their origins:
/// nothing else about them may differ, at any depth.
pub proof fn law_equal_without_origins(a: TyModel, b: TyModel)
    ensures
        equal_modulo_origins(a, b) <==> stripped(a) == stripped(b),
    decreases a,
{
    match (a, b) {
        (TyModel::Ref(x), TyModel::Ref(y)) => law_equal_without_origins(*x.referent, *y.referent),
        (
            TyModel::Pointer { element: x, .. },
            TyModel::Pointer { element: y, .. },
        ) => law_equal_without_origins(*x, *y),
        (TyModel::Struct(_, x), TyModel::Struct(_, y)) => {
            let (p, q) = (all_stripped_args(x), all_stripped_args(y));
            assert forall|i: int| 0 <= i < x.len() && i < y.len() implies (arg_equal_modulo_origins(
                #[trigger] x[i],
                y[i],
            ) <==> p[i] == q[i]) by {
                assert(p[i] == stripped_arg(x[i]) && q[i] == stripped_arg(y[i]));
                if x[i] is Ty && y[i] is Ty {
                    law_equal_without_origins(x[i]->Ty_0, y[i]->Ty_0);
                }
            }
            if args_equal_modulo_origins(x, y) {
                assert forall|i: int| 0 <= i < p.len() implies p[i] == q[i] by {
                    assert(arg_equal_modulo_origins(x[i], y[i]));
                }
                assert(p =~= q);
            }
            if p == q {
                assert(x.len() == p.len() && y.len() == q.len());
                assert forall|i: int| 0 <= i < x.len() implies arg_equal_modulo_origins(#[trigger] x[i], y[i]) by {}
                assert(args_equal_modulo_origins(x, y));
            }
        },
        (TyModel::Tuple(x), TyModel::Tuple(y)) => lemma_lists_without_origins(x, y),
        (TyModel::RuntimePack(x), TyModel::RuntimePack(y)) => lemma_lists_without_origins(x, y),
        (TyModel::Variant(x), TyModel::Variant(y)) => lemma_lists_without_origins(x, y),
        (TyModel::ComptimeList(x), TyModel::ComptimeList(y)) => law_equal_without_origins(*x, *y),
        (TyModel::VariadicPack(x), TyModel::VariadicPack(y)) => law_equal_without_origins(*x, *y),
        (TyModel::Func { .. }, TyModel::Func { .. }) => {
            lemma_lists_without_origins(a->Func_params, b->Func_params);
            law_equal_without_origins(*a->Func_ret, *b->Func_ret);
            lemma_opt_without_origins(a->Func_variadic, b->Func_variadic);
            lemma_opt_without_origins(a->Func_kw_variadic, b->Func_kw_variadic);
            lemma_opt_without_origins(a->Func_error, b->Func_error);
        },
        _ => {},
    }
}

proof fn lemma_opt_without_origins(a: Option<Box<TyModel>>, b: Option<Box<TyModel>>)
    ensures
        opt_equal_modulo_origins(a, b) <==> opt_stripped(a) == opt_stripped(b),
    decreases a,
{
    if a is Some && b is Some {
        law_equal_without_origins(*a->Some_0, *b->Some_0);
    }
}

proof fn lemma_lists_without_origins(x: Seq<TyModel>, y: Seq<TyModel>)
    ensures
        all_equal_modulo_origins(x, y) <==> all_stripped(x) == all_stripped(y),
    decreases x,
{
    let (p, q) = (all_stripped(x), all_stripped(y));
    assert forall|i: int| 0 <= i < x.len() && i < y.len() implies (equal_modulo_origins(#[trigger] x[i], y[i])
        <==> p[i] == q[i]) by {
        law_equal_without_origins(x[i], y[i]);
    }
    if all_equal_modulo_origins(x, y) {
        assert forall|i: int| 0 <= i < p.len() implies p[i] == q[i] by {
            assert(equal_modulo_origins(x[i], y[i]));
        }
        assert(p =~= q);
    }
    if p == q {
        assert(x.len() == p.len() && y.len() == q.len());
        assert forall|i: int| 0 <= i < x.len() implies equal_modulo_origins(#[trigger] x[i], y[i]) by {}
    }
}

/// Canonical callables differ from what they were by their environments alone, and a
/// canonical type is its own canonical form.
#[verifier::rlimit(40)]
pub proof fn law_canonical_callables(ty: TyModel)
    ensures
        stripped(erased(ty)) == stripped(ty),
        erased(erased(ty)) == erased(ty),
        ty is Func ==> erased(ty)->Func_environment is Default,
    decreases ty,
{
    match ty {
        TyModel::Struct(_, args) => {
            let e = all_erased_args(args);
            assert forall|i: int| 0 <= i < args.len() implies stripped_arg(e[i]) == stripped_arg(#[trigger] args[i])
                && erased_arg(e[i]) == e[i] by {
                assert(e[i] == erased_arg(args[i]));
                if let TyArgModel::Ty(t) = args[i] {
                    law_canonical_callables(t);
                }
            }
            assert(all_stripped_args(e) =~= all_stripped_args(args));
            assert(all_erased_args(e) =~= e);
        },
        TyModel::Tuple(v) => lemma_canonical_lists(v),
        TyModel::RuntimePack(v) => lemma_canonical_lists(v),
        TyModel::Variant(v) => lemma_canonical_lists(v),
        TyModel::ComptimeList(v) => law_canonical_callables(*v),
        TyModel::VariadicPack(v) => law_canonical_callables(*v),
        TyModel::Pointer { element, .. } => law_canonical_callables(*element),
        TyModel::Ref(v) => law_canonical_callables(*v.referent),
        TyModel::Func { params, ret, variadic, kw_variadic, error, .. } => {
            lemma_canonical_lists(params);
            law_canonical_callables(*ret);
            lemma_canonical_opt(variadic);
            lemma_canonical_opt(kw_variadic);
            lemma_canonical_opt(error);
        },
        _ => {},
    }
}

proof fn lemma_canonical_opt(ty: Option<Box<TyModel>>)
    ensures
        opt_stripped(opt_erased(ty)) == opt_stripped(ty),
        opt_erased(opt_erased(ty)) == opt_erased(ty),
    decreases ty,
{
    if let Some(x) = ty {
        law_canonical_callables(*x);
    }
}

proof fn lemma_canonical_lists(tys: Seq<TyModel>)
    ensures
        all_stripped(all_erased(tys)) == all_stripped(tys),
        all_erased(all_erased(tys)) == all_erased(tys),
    decreases tys,
{
    let e = all_erased(tys);
    assert forall|i: int| 0 <= i < tys.len() implies stripped(e[i]) == stripped(#[trigger] tys[i]) && erased(e[i])
        == e[i] by {
        law_canonical_callables(tys[i]);
    }
    assert(all_stripped(e) =~= all_stripped(tys));
    assert(all_erased(e) =~= e);
}

/// A type with nothing unsolved in it mentions no type parameter, and a runtime type has
/// nothing unsolved in it.
pub proof fn law_symbolic_types(ty: TyModel, param: Seq<char>)
    ensures
        mentions(ty, param) ==> symbolic(ty),
        concrete(ty) ==> !symbolic(ty),
    decreases ty,
{
    match ty {
        TyModel::Struct(_, args) => {
            assert forall|i: int| 0 <= i < args.len() && (#[trigger] args[i]) is Ty implies (mentions(
                args[i]->Ty_0,
                param,
            ) ==> symbolic(args[i]->Ty_0)) && (concrete(args[i]->Ty_0) ==> !symbolic(args[i]->Ty_0)) by {
                law_symbolic_types(args[i]->Ty_0, param);
            }
            if mentions(ty, param) {
                let i = choose|i: int|
                    0 <= i < args.len() && (#[trigger] args[i] matches TyArgModel::Ty(t) && mentions(t, param));
                assert(symbolic_arg(args[i]));
                assert(any_symbolic_arg(args));
            }
            if concrete(ty) {
                assert forall|i: int| 0 <= i < args.len() implies !symbolic_arg(#[trigger] args[i]) by {
                    assert(concrete_arg(args[i]));
                }
                assert(!any_symbolic_arg(args));
            }
        },
        TyModel::Tuple(v) => lemma_symbolic_lists(v, param),
        TyModel::RuntimePack(v) => lemma_symbolic_lists(v, param),
        TyModel::Variant(v) => lemma_symbolic_lists(v, param),
        TyModel::Overload(v) => lemma_symbolic_lists(v, param),
        TyModel::ComptimeList(v) => law_symbolic_types(*v, param),
        TyModel::VariadicPack(v) => law_symbolic_types(*v, param),
        TyModel::Pointer { element, .. } => law_symbolic_types(*element, param),
        TyModel::Ref(v) => law_symbolic_types(*v.referent, param),
        TyModel::Func { params, ret, variadic, kw_variadic, error, .. } => {
            lemma_symbolic_lists(params, param);
            law_symbolic_types(*ret, param);
            if let Some(x) = variadic {
                law_symbolic_types(*x, param);
            }
            if let Some(x) = kw_variadic {
                law_symbolic_types(*x, param);
            }
            if let Some(x) = error {
                law_symbolic_types(*x, param);
            }
        },
        _ => {},
    }
}

proof fn lemma_symbolic_lists(tys: Seq<TyModel>, param: Seq<char>)
    ensures
        any_mentions(tys, param) ==> any_symbolic(tys),
        all_concrete(tys) ==> !any_symbolic(tys),
    decreases tys,
{
    assert forall|i: int| 0 <= i < tys.len() implies (mentions(#[trigger] tys[i], param) ==> symbolic(tys[i])) && (
    concrete(tys[i]) ==> !symbolic(tys[i])) by {
        law_symbolic_types(tys[i], param);
    }
    if any_mentions(tys, param) {
        let i = choose|i: int| 0 <= i < tys.len() && mentions(#[trigger] tys[i], param);
        assert(symbolic(tys[i]));
    }
}

/// A runtime type solves a parameter without a solution, and becomes it; what is not
/// solved through and through never does.
pub proof fn law_parameter_takes_type(name: Seq<char>, ty: TyModel, b: BindingsModel)
    ensures
        symbolic(ty) ==> bind_ty(name, ty, b).error is Some && bind_ty(name, ty, b).bindings == b,
        concrete(ty) && !b.types.dom().contains(name) ==> {
            let s = bind_ty(name, ty, b);
            &&& s.error is None
            &&& s.bindings.types.dom() == b.types.dom().insert(name)
            &&& stripped(s.bindings.types[name]) == stripped(ty)
            &&& forall|n: Seq<char>| n != name && b.types.dom().contains(n) ==> #[trigger] s.bindings.types[n]
                == b.types[n]
        },
        concrete(ty) && b.types.dom().contains(name) && !literal_ty(b.types[name])
            ==> (bind_ty(name, ty, b).error is None
            <==> stripped(b.types[name]) == stripped(ty)),
        concrete(ty) && b.types.dom().contains(name) && literal_ty(b.types[name]) ==> bind_ty(name, ty, b).error is None
            && stripped(bind_ty(name, ty, b).bindings.types[name]) == stripped(ty),
{
    reveal(bind_ty);
    law_canonical_callables(ty);
    law_symbolic_types(ty, name);
    lemma_erased_is_equal(ty);
    if concrete(ty) && b.types.dom().contains(name) {
        law_equal_without_origins(b.types[name], erased(ty));
    }
    assert(b.types.insert(name, erased(ty)).dom() =~= b.types.dom().insert(name));
}

/// A constant solves a parameter once and for all: another one is refused.
pub proof fn law_parameter_takes_value(name: Seq<char>, value: CtValueModel, b: BindingsModel)
    ensures
        value is Param ==> bind_ct(name, value, b).error is Some && bind_ct(name, value, b).bindings == b,
        !(value is Param) ==> (bind_ct(name, value, b).error is None <==> !b.values.dom().contains(name)
            || b.values[name] == value),
        bind_ct(name, value, b).error is None ==> bind_ct(name, value, b).bindings.values.dom().contains(name)
            && bind_ct(name, value, b).bindings.values[name] == value,
{
    reveal(bind_ct);
}

/// A literal fits every pattern that is no parameter, and binds nothing there.
pub proof fn law_literals_fit(pattern: TyModel, literal: TyModel, b: BindingsModel)
    requires
        literal_ty(literal),
        !(pattern is Param || pattern is Assoc),
    ensures
        unify_ty(pattern, literal, b) == solved(b),
{
}

/// A pack at a call of known arity becomes that many elements; a bare template name
/// stands for the instance at hand; an associated type for its solution; and a parameter
/// for its solution, or for none.
pub proof fn law_substitution_cases(ty: TyModel, b: BindingsModel)
    ensures
        ty is Param ==> (subst_ty(ty, b) is Ok <==> b.types.dom().contains(ty->Param_name)),
        ty is Param && b.types.dom().contains(ty->Param_name) ==> subst_ty(ty, b) == Ok::<TyModel, MonoErrorModel>(
            b.types[ty->Param_name],
        ),
        ty is VariadicPack && b.variadic_arity is Some && subst_ty(*ty->VariadicPack_0, b) is Ok ==> (subst_ty(
            ty,
            b,
        ) matches Ok(TyModel::RuntimePack(v)) && v.len() == b.variadic_arity->Some_0 && forall|i: int|
            0 <= i < v.len() ==> #[trigger] v[i] == subst_ty(*ty->VariadicPack_0, b)->Ok_0),
        ty is Struct && ty->Struct_1.len() == 0 && b.self_instance is Some && b.self_instance->Some_0.0 == ty->Struct_0
            ==> subst_ty(ty, b) == Ok::<TyModel, MonoErrorModel>(b.self_instance->Some_0.1),
        ty is Struct && ty->Struct_1.len() == 0
            && (b.self_instance is None || b.self_instance->Some_0.0 != ty->Struct_0)
            ==> subst_ty(ty, b) == Ok::<TyModel, MonoErrorModel>(ty),
        ty is Assoc ==> (subst_ty(ty, b) is Ok <==> b.associated.dom().contains(ty_text(ty))),
        ty is Assoc && b.associated.dom().contains(ty_text(ty)) ==> subst_ty(ty, b) == Ok::<TyModel, MonoErrorModel>(
            b.associated[ty_text(ty)],
        ),
        ty is Infer || ty is SelfType ==> subst_ty(ty, b) is Err,
{
    if ty is Struct && ty->Struct_1.len() == 0 {
        assert(ty->Struct_1 =~= Seq::<TyArgModel>::empty());
    }
}

/// A dependent type is the element that the value of its index selects.
pub proof fn law_dependent_substitution(elements: Seq<TyModel>, index: CtExprModel, b: BindingsModel, i: i64)
    requires
        ct_solution(index, b) == Ok::<CtValueModel, MonoErrorModel>(CtValueModel::Int(i)),
    ensures
        0 <= i && i < elements.len() && i <= usize::MAX ==> subst_ty(
            TyModel::Dependent(DependentTypeModel::Indexed { elements, index }),
            b,
        ) == subst_ty(elements[i as int], b),
        i < 0 || i >= elements.len() ==> subst_ty(
            TyModel::Dependent(DependentTypeModel::Indexed { elements, index }),
            b,
        ) is Err,
{
}

/// A concrete application of a generic template takes an instance symbol; every other
/// application keeps its name, and its arguments are substituted in order.
pub proof fn law_application_substitution(name: Seq<char>, args: Seq<TyArgModel>, b: BindingsModel, i: int)
    requires
        0 <= i < args.len(),
        subst_ty(TyModel::Struct(name, args), b) is Ok,
    ensures
        subst_ty(TyModel::Struct(name, args), b)->Ok_0 matches TyModel::Struct(found, given)
            && given.len() == args.len()
            && subst_arg(args[i], b) == Ok::<TyArgModel, MonoErrorModel>(given[i])
                && (!b.generic_templates.contains(name)
            ==> found == name) && (any_symbolic_arg(given) ==> found == name),
        args[i] matches TyArgModel::Val(CtValueModel::Param(p)) ==> subst_arg(args[i], b) is Ok
            ==> b.values.dom().contains(p)
            && subst_arg(args[i], b) == Ok::<TyArgModel, MonoErrorModel>(TyArgModel::Val(b.values[p])),
        args[i] is Origin ==> subst_arg(args[i], b) == Ok::<TyArgModel, MonoErrorModel>(args[i]),
{
    let results = subst_arg_results(args, b);
    assert(collect(results) is Ok);
    lemma_collected(results, i);
    assert(results[i] == subst_arg(args[i], b));
}

} // verus!
