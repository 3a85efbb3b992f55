use mojito::ct::{CtExpr, CtValue};
use mojito::mir::{Const, MirBlock, MirFunction, MirInstr, MirPlace, MirTerm, Reg};
use mojito::native::mono::bindings::Bindings;
use mojito::native::mono::facts::{const_reg_value, function_callable_targets, function_constant_values, owner_covered_prefix};
use mojito::native::mono::rewrite::substitute_instruction;
use mojito::native::mono::subst::substitute_ty;
use mojito::native::mono::unify::{
    bind_ty_args, bind_type, bind_value, is_symbolic, ty_equal_modulo_origins, ty_equivalent, unify,
};
use mojito::native::mono::MonoError;
use mojito::origin::{Mutability, Origin, PointerOrigin, RefTy};
use mojito::table::TyTable;
use mojito::types::{ParamDecl, Ty, TyArg};

fn parameter(name: &str) -> Ty {
    Ty::Param { name: name.into(), bounds: vec![], callable_bound: None }
}

fn reference(origin: Origin) -> Ty {
    Ty::Ref(RefTy { referent: Box::new(Ty::Int), origin, mutability: Mutability::Immutable })
}

#[test]
fn equality_modulo_origins_is_an_equivalence() {
    let a = reference(Origin::Static);
    let b = reference(Origin::Untracked { mutable: false });
    let c = reference(Origin::Untracked { mutable: true });
    assert!(ty_equal_modulo_origins(&a, &a));
    assert!(ty_equal_modulo_origins(&a, &b) && ty_equal_modulo_origins(&b, &a));
    assert!(ty_equal_modulo_origins(&b, &c) && ty_equal_modulo_origins(&a, &c));
    assert!(!ty_equal_modulo_origins(&a, &Ty::Int));
    let pointer = |element: Ty| Ty::Pointer { element: Box::new(element), origin: PointerOrigin::Static };
    assert!(ty_equivalent(&pointer(Ty::Int), &pointer(Ty::Bool)));
    assert!(!ty_equal_modulo_origins(&pointer(Ty::Int), &pointer(Ty::Bool)));
}

#[test]
fn solutions_are_concrete_and_consistent() {
    let mut bindings = Bindings::default();
    assert!(bind_type("T", &parameter("U"), &mut bindings).unwrap_err().contains("not concrete"));
    bind_value("n", &CtValue::Int(3), &mut bindings).unwrap();
    bind_value("n", &CtValue::Int(3), &mut bindings).unwrap();
    assert_eq!(
        bind_value("n", &CtValue::Int(4), &mut bindings),
        Err("conflicting solutions for `n`: `3` (Int(3)) and `4` (Int(4))".to_string())
    );
    let pattern = Ty::Tuple(vec![parameter("T"), parameter("T")]);
    assert!(unify(&pattern, &Ty::Tuple(vec![Ty::Int, Ty::Bool]), &mut Bindings::default()).is_err());
    let mut bindings = Bindings::default();
    unify(&pattern, &Ty::Tuple(vec![Ty::Int, Ty::Int]), &mut bindings).unwrap();
    assert_eq!(substitute_ty(&pattern, &bindings).unwrap(), Ty::Tuple(vec![Ty::Int, Ty::Int]));
    assert!(is_symbolic(&pattern));
}

#[test]
fn unsolved_parameters_are_refused() {
    assert_eq!(
        substitute_ty(&parameter("T"), &Bindings::default()),
        Err(MonoError { function: None, construct: "unresolved type parameter `T`".into() })
    );
}

#[test]
fn type_arguments_bind_by_declaration() {
    let decls = vec![
        ParamDecl::Type { name: "T".into(), default: None, infer_only: false, variadic: false },
        ParamDecl::Value {
            name: "n".into(),
            ty: Box::new(Ty::Int),
            default: Some(CtExpr::Value(CtValue::Int(2))),
            callable_default: None,
            infer_only: false,
            variadic: false,
        },
    ];
    let mut bindings = Bindings::default();
    bind_ty_args(&decls, &vec![TyArg::Ty(Ty::Int), TyArg::Val(CtValue::Int(7))], &mut bindings).unwrap();
    assert_eq!(bindings.types.get("T"), Some(&Ty::Int));
    assert_eq!(bindings.values.get("n"), Some(&CtValue::Int(7)));
    assert_eq!(owner_covered_prefix(&decls, &decls), 2);
    assert_eq!(owner_covered_prefix(&decls, &vec![]), 0);
}

#[test]
fn constants_and_callables_are_traced() {
    let mut reg_types = TyTable::new();
    reg_types.insert(0, Ty::Int);
    let function = MirFunction {
        n_params: 0,
        n_vars: 1,
        n_regs: 3,
        var_names: vec!["f".into()],
        param_types: vec![],
        ref_params: vec![],
        var_tys: TyTable::new(),
        reg_types,
        ret_ty: None,
        error_ty: None,
        raises: false,
        returns_reference: false,
        blocks: vec![MirBlock {
            instrs: vec![
                MirInstr::Const { dest: Reg(0), k: Const::Int(5) },
                MirInstr::Const { dest: Reg(1), k: Const::Function("toss".into()) },
                MirInstr::DefVar { var: 0, src: Reg(1), binding_ty: None },
                MirInstr::UseVar { dest: Reg(2), var: 0 },
            ],
            term: MirTerm::Return(None),
        }],
    };
    assert_eq!(const_reg_value(&function, Reg(0)), Some(CtValue::Int(5)));
    assert_eq!(const_reg_value(&function, Reg(2)), None);
    assert_eq!(function_constant_values(&function).get(0), Some(&CtValue::Int(5)));
    assert_eq!(function_callable_targets(&function).get(2), Some(&("toss".to_string(), true)));
}

#[test]
fn associated_types_are_solved_by_their_text() {
    let item = |bounds: Vec<String>| Ty::Assoc {
        base: Box::new(Ty::Param { name: "T".into(), bounds, callable_bound: None }),
        name: "Item".into(),
        args: vec![],
    };
    let mut bindings = Bindings::default();
    unify(&item(vec![]), &Ty::Int, &mut bindings).unwrap();
    // Another spelling of the bounds is the same associated type.
    assert_eq!(substitute_ty(&item(vec!["Copyable".into()]), &bindings).unwrap(), Ty::Int);
    let error = unify(&item(vec!["Copyable".into()]), &Ty::Bool, &mut bindings).unwrap_err();
    assert!(error.contains("conflicting solutions for associated type"), "{error}");
}

#[test]
fn places_of_a_subscript_are_substituted() {
    let place = |ty: Ty| {
        Some(MirPlace {
            root: 0,
            through: None,
            root_ty: Some(ty.clone()),
            proj: vec![],
            projection_tys: vec![],
            ty: Some(ty),
        })
    };
    // Keyword places stay as they are.
    let subscript = |ty: Ty| MirInstr::MultiIndex {
        dest: Reg(0),
        object: Reg(1),
        args: vec![],
        object_place: place(ty.clone()),
        arg_places: vec![place(ty)],
        kwargs: vec![],
        kwarg_places: vec![place(parameter("T"))],
        call: None,
    };
    let mut bindings = Bindings::default();
    bind_type("T", &Ty::Int, &mut bindings).unwrap();
    let mut instr = subscript(parameter("T"));
    substitute_instruction(&mut instr, &bindings).unwrap();
    assert_eq!(instr, subscript(Ty::Int));
}

#[test]
fn conflicts_carry_the_structural_form() {
    let mut bindings = Bindings::default();
    let first = Ty::Struct("Box".into(), vec![TyArg::Ty(Ty::Int)]);
    bind_type("T", &first, &mut bindings).unwrap();
    assert_eq!(
        bind_type("T", &Ty::NoneType, &mut bindings),
        Err(format!(
            "conflicting solutions for `T`: `{}` (Struct(\"Box\", [Ty(Int)])) and `None` (None)",
            first.text()
        ))
    );
}
