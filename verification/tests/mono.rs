use mojito::ct::CtValue;
use mojito::native::mono::bindings::Bindings;
use mojito::native::mono::subst::substitute_ty;
use mojito::native::mono::unify::{bind_type, fields_equivalent, unify};
use mojito::origin::{Mutability, Origin, PointerOrigin, RefTy};
use mojito::types::{Ty, TyArg};

fn parameter(name: &str) -> Ty {
    Ty::Param {
        name: name.into(),
        bounds: vec![],
        callable_bound: None,
    }
}

#[test]
fn structural_inference_rejects_conflicting_solutions() {
    let parameter = parameter("T");
    let mut bindings = Bindings::default();
    unify(&parameter, &Ty::Int, &mut bindings).unwrap();
    assert!(unify(&parameter, &Ty::Bool, &mut bindings)
        .unwrap_err()
        .contains("conflicting"));
}

#[test]
fn literal_actuals_merge_with_concrete_bindings_in_either_order() {
    let mut bindings = Bindings::default();
    // Receiver-first: `T := Int` from the concrete receiver, then a
    // literal-typed actual (`41 : IntLiteral`) — compatible, keeps `Int`.
    bind_type("T", &Ty::Int, &mut bindings).unwrap();
    bind_type("T", &Ty::IntLiteral, &mut bindings).unwrap();
    assert_eq!(bindings.types.get("T"), Some(&Ty::Int));

    // Result-last: the literal actual binds first, the concrete result
    // type upgrades it.
    let mut bindings = Bindings::default();
    bind_type("T", &Ty::IntLiteral, &mut bindings).unwrap();
    bind_type("T", &Ty::Int, &mut bindings).unwrap();
    assert_eq!(bindings.types.get("T"), Some(&Ty::Int));

    // Genuinely distinct concrete solutions still conflict.
    let mut bindings = Bindings::default();
    bind_type("T", &Ty::Int, &mut bindings).unwrap();
    let error = bind_type("T", &Ty::Float64, &mut bindings).unwrap_err();
    assert!(error.contains("conflicting"), "{error}");
    // Two different literal kinds conflict too.
    let mut bindings = Bindings::default();
    bind_type("T", &Ty::IntLiteral, &mut bindings).unwrap();
    assert!(bind_type("T", &Ty::FloatLiteral, &mut bindings).is_err());
}

#[test]
fn colliding_instances_share_only_modulo_pointer_elements() {
    let pointer = |element: Ty| Ty::Pointer {
        element: Box::new(element),
        origin: PointerOrigin::Static,
    };
    // Fields differing only behind a pointer are one opaque word and drop
    // inertly — benign to share.
    assert!(fields_equivalent(
        &vec![("ptr".into(), pointer(Ty::Int))],
        &vec![("ptr".into(), pointer(Ty::Float64))],
    ));
    // A payload-carrying difference is a genuine layout/lifecycle hazard.
    assert!(!fields_equivalent(
        &vec![(
            "_storage".into(),
            Ty::Struct("__UninitStorage".into(), vec![TyArg::Ty(Ty::Int)]),
        )],
        &vec![(
            "_storage".into(),
            Ty::Struct(
                "__UninitStorage".into(),
                vec![TyArg::Ty(Ty::Struct("Recorder".into(), vec![]))],
            ),
        )],
    ));
    // Field names and non-pointer types stay strict.
    assert!(!fields_equivalent(
        &vec![("a".into(), Ty::Int)],
        &vec![("b".into(), Ty::Int)],
    ));
    assert!(!fields_equivalent(
        &vec![("a".into(), Ty::Int)],
        &vec![("a".into(), Ty::Float64)],
    ));
}

#[test]
fn substitution_resolves_nested_type_and_value_arguments() {
    let mut bindings = Bindings::with_templates(vec!["Buffer".to_string()]);
    bindings.types.insert("T".into(), Ty::UInt);
    bindings.values.insert("n".into(), CtValue::Int(4));
    let ty = Ty::Struct(
        "Buffer".into(),
        vec![
            TyArg::Ty(parameter("T")),
            TyArg::Val(CtValue::Param("n".into())),
        ],
    );
    let Ty::Struct(name, args) = substitute_ty(&ty, &bindings).unwrap() else {
        panic!()
    };
    assert!(name.contains("$mono$"));
    assert_eq!(args, vec![TyArg::Ty(Ty::UInt), TyArg::Val(CtValue::Int(4))]);
}

#[test]
fn binding_solutions_ignore_reference_origins() {
    let referent = Box::new(Ty::Int);
    let first = Ty::Ref(RefTy {
        referent: referent.clone(),
        origin: Origin::Static,
        mutability: Mutability::Immutable,
    });
    let second = Ty::Ref(RefTy {
        referent,
        origin: Origin::Untracked { mutable: false },
        mutability: Mutability::Immutable,
    });
    let mut bindings = Bindings::default();
    bind_type("T", &first, &mut bindings).unwrap();
    bind_type("T", &second, &mut bindings).unwrap();
    // First solution wins; a mutability disagreement still conflicts.
    assert_eq!(bindings.types.get("T"), Some(&first));
    let mutable = Ty::Ref(RefTy {
        referent: Box::new(Ty::Int),
        origin: Origin::Static,
        mutability: Mutability::Mutable,
    });
    assert!(bind_type("T", &mutable, &mut bindings).is_err());
}
