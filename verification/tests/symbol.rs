use mojito::ast::{ArgConvention, Expr, ExprKind, InfixOp, ParamArg, Type};
use mojito::ct::CtValue;
use mojito::origin::PointerOrigin;
use mojito::literal::IntLiteral;
use mojito::table::NameMap;
use mojito::symbol::{
    encode_identifier, eval_comptime_int, function_symbol, instance_symbol, is_overload_of, iterator_dispatch_symbol,
    borrowed_iterator_dispatch_alternate, member_of, method_symbol, nested_lifted_name, nominal_template, owner_of,
    retarget_method_symbol, CheckedDeclId, InstanceArg, SignatureKey, TypeKey, init_overload_struct,
    nested_lifted_declaration_name,
};
use mojito::types::{Ty, TyArg};

#[test]
fn overloads_are_named_by_their_types() {
    let ints = SignatureKey::from_tys(&vec![Ty::Int]);
    assert_eq!(function_symbol("pick", &ints), "pick$ov$Int");
    assert_eq!(method_symbol("Box", "value", &ints), "Box.value$ov$Int");
    assert!(is_overload_of("pick$ov$Int", "pick"));
    assert!(!is_overload_of("pick$ov$Int", "pic"));
    let pair = SignatureKey::from_tys(&vec![Ty::Int, Ty::Bool]);
    assert_eq!(function_symbol("pick", &pair), "pick$ov$Int$Bool");
    let named = SignatureKey::from_tys(&vec![Ty::Int]).with_keyword_names(vec!["byte".into()]);
    assert_eq!(function_symbol("pick", &named), "pick$ov$Int$kw$byte");
    let collected = SignatureKey::from_tys(&vec![]).with_kw_variadic(Some(&Ty::Int));
    assert_ne!(function_symbol("pick", &collected), function_symbol("pick", &ints));
}

#[test]
fn annotations_and_checked_types_spell_alike() {
    assert_eq!(TypeKey::from_ast(&Type::Int), TypeKey::from_ty(&Ty::Int));
    assert_eq!(
        TypeKey::from_ast(&Type::Named("Box".into(), vec![])),
        TypeKey::from_ty(&Ty::Struct("Box".into(), vec![]))
    );
}

#[test]
fn encoding_is_injective() {
    assert_eq!(encode_identifier("Box2"), "Box2");
    assert_eq!(encode_identifier("A-B"), "A$u2D$B");
    assert_eq!(encode_identifier("A_B"), "A$u5F$B");
    assert_ne!(encode_identifier("A-B"), encode_identifier("A_B"));
}

#[test]
fn instances_carry_their_arguments() {
    let args = vec![InstanceArg::Ty(Ty::Int)];
    let symbol = instance_symbol("Box", &args);
    assert_eq!(symbol, "Box$mono$TInt");
    assert_eq!(nominal_template(&symbol), "Box");
    assert_eq!(nominal_template("Box"), "Box");
    let nested = vec![InstanceArg::Ty(Ty::Struct("Box".into(), vec![TyArg::Ty(Ty::Int)]))];
    assert_ne!(instance_symbol("Box", &nested), symbol);
}

#[test]
fn methods_move_to_another_owner() {
    assert_eq!(
        retarget_method_symbol("__trait_dispatch.pick$ov$Int", "Box"),
        Some("Box.pick$ov$Int".to_string())
    );
    assert_eq!(retarget_method_symbol("pick", "Box"), None);
    assert_eq!(owner_of("Box.value$ov$Int"), Some("Box".to_string()));
    assert_eq!(member_of("Box.value$ov$Int"), Some("value$ov$Int".to_string()));
    assert_eq!(init_overload_struct("Box.__init__$ov$Int"), Some("Box".to_string()));
    assert_eq!(init_overload_struct("Box.value$ov$Int"), None);
}

#[test]
fn borrowed_iteration_has_a_sibling() {
    let read = iterator_dispatch_symbol(ArgConvention::Imm);
    let reference = iterator_dispatch_symbol(ArgConvention::Ref);
    assert_eq!(borrowed_iterator_dispatch_alternate(&read), Some(reference.clone()));
    assert_eq!(borrowed_iterator_dispatch_alternate(&reference), Some(read));
    assert_eq!(borrowed_iterator_dispatch_alternate(&iterator_dispatch_symbol(ArgConvention::Var)), None);
}

#[test]
fn nested_functions_are_lifted() {
    assert_eq!(nested_lifted_name("outer", "inner"), "outer$inner");
    assert_eq!(nested_lifted_declaration_name("outer", "inner", CheckedDeclId(7)), "outer$inner$decl7");
}

#[test]
fn widths_evaluate_at_compile_time() {
    let integer = |n: i64| Box::new(Expr::new(ExprKind::Int(IntLiteral::from_i64(n)), (0, 1)));
    let power = |a: i64, b: i64| Expr::new(ExprKind::Infix(InfixOp::Pow, integer(a), integer(b)), (0, 1));
    let mut constants = NameMap::new();
    constants.insert("W".to_string(), 8i64);
    assert_eq!(eval_comptime_int(&power(2, 5), &constants), Some(32));
    assert_eq!(eval_comptime_int(&power(10, 40), &constants), None);
    assert_eq!(eval_comptime_int(&power(2, -1), &constants), None);
    let width = Expr::new(ExprKind::Identifier("W".into()), (0, 1));
    assert_eq!(eval_comptime_int(&width, &constants), Some(8));
}

#[test]
fn constant_arguments_fold_into_keys() {
    let integer = |n: i64| Expr::new(ExprKind::Int(IntLiteral::from_i64(n)), (0, 1));
    let sum = Expr::new(ExprKind::Infix(InfixOp::Add, Box::new(integer(2)), Box::new(integer(6))), (0, 1));
    let buffer = |size: Expr| Type::Named("FixedBuffer".into(), vec![ParamArg::Value(size)]);
    let checked = Ty::Struct("FixedBuffer".into(), vec![TyArg::Val(CtValue::Int(8))]);
    assert_eq!(TypeKey::from_ast(&buffer(sum)), TypeKey::from_ast(&buffer(integer(8))));
    assert_eq!(TypeKey::from_ast(&buffer(integer(8))), TypeKey::from_ty(&checked));
    let pointer = |origin: PointerOrigin| Ty::Pointer { element: Box::new(Ty::Int), origin };
    assert_eq!(
        TypeKey::from_ty(&pointer(PointerOrigin::Static)),
        TypeKey::from_ty(&pointer(PointerOrigin::Untracked { mutable: true }))
    );
}

#[test]
fn retargeting_twice_is_retargeting_once() {
    let symbol = "a.b.pick$ov$Int";
    let once = retarget_method_symbol(symbol, "Box").unwrap();
    assert_eq!(once, "Box.pick$ov$Int");
    assert_eq!(retarget_method_symbol(&once, "c.List"), retarget_method_symbol(symbol, "c.List"));
}

#[test]
fn constructors_give_back_their_struct() {
    let sig = SignatureKey::from_tys(&vec![Ty::Int]).with_keyword_names(vec!["copy".into()]);
    let symbol = method_symbol("a.__init__.Box", "__init__", &sig);
    assert_eq!(init_overload_struct(&symbol), Some("a.__init__.Box".to_string()));
    assert_eq!(init_overload_struct("Box.__init__"), None);
}
