use mojito::literal::IntLiteral;
use mojito::mir::{
    Const, FuncRef, MirBlock, MirDeclarations, MirFunction, MirFunctionDeclaration, MirInstr,
    MirProgram, MirStructDeclaration, MirTerm, Reg,
};
use mojito::native::mono::rules::DirectRules;
use mojito::native::mono::specialize::{specialize, SpecializedProgram};
use mojito::native::mono::unify::is_symbolic;
use mojito::native::mono::function::function_types;
use mojito::native::mono::MonoError;
use mojito::origin::CallableEnvironment;
use mojito::table::TyTable;
use mojito::types::{ParamDecl, Ty, TyArg};

fn parameter(name: &str) -> Ty {
    Ty::Param { name: name.into(), bounds: vec![], callable_bound: None }
}

fn type_decl(name: &str) -> ParamDecl {
    ParamDecl::Type { name: name.into(), default: None, infer_only: false, variadic: false }
}

fn table(types: Vec<Ty>) -> TyTable {
    let mut table = TyTable::new();
    let mut key = 0;
    for ty in types {
        table.insert(key, ty);
        key += 1;
    }
    table
}

fn body(params: Vec<Ty>, vars: Vec<Ty>, regs: Vec<Ty>, ret: Ty, instrs: Vec<MirInstr>, value: Option<Reg>) -> MirFunction {
    MirFunction {
        n_params: params.len(),
        n_vars: vars.len(),
        n_regs: regs.len() as u32,
        var_names: vars.iter().enumerate().map(|(i, _)| format!("v{i}")).collect(),
        ref_params: params.iter().map(|_| false).collect(),
        param_types: params,
        var_tys: table(vars),
        reg_types: table(regs),
        ret_ty: Some(ret),
        error_ty: None,
        raises: false,
        returns_reference: false,
        blocks: vec![MirBlock { instrs, term: MirTerm::Return(value) }],
    }
}

fn facts(name: &str, receiver: bool, params: Vec<(&str, Ty)>, ret: Ty, decls: Vec<ParamDecl>) -> MirFunctionDeclaration {
    MirFunctionDeclaration {
        lowered_name: name.into(),
        has_receiver: receiver,
        receiver_convention: None,
        param_names: params.iter().map(|(name, _)| name.to_string()).collect(),
        param_conventions: params.iter().map(|_| None).collect(),
        ref_params: params.iter().map(|_| false).collect(),
        required: params.iter().map(|_| true).collect(),
        param_types: params.into_iter().map(|(_, ty)| ty).collect(),
        positional_only: None,
        keyword_only: None,
        variadic: None,
        kw_variadic: None,
        ret_ty: ret,
        returns_reference: false,
        raises: false,
        error_ty: None,
        param_decls: decls,
    }
}

fn nominal(name: &str, field: &str) -> MirStructDeclaration {
    MirStructDeclaration {
        name: name.into(),
        fields: vec![(field.into(), parameter("T"))],
        param_decls: vec![type_decl("T")],
        fieldwise_init: false,
        mut_self_methods: vec![],
        explicit_destroy_message: None,
        explicit_destructors: vec![],
    }
}

fn call(dest: u32, name: &str, args: Vec<u32>) -> MirInstr {
    MirInstr::Call {
        dest: Reg(dest),
        func: FuncRef(name.into()),
        raises: None,
        arg_places: args.iter().map(|_| None).collect(),
        args: args.into_iter().map(Reg).collect(),
        kwargs: vec![],
        kwarg_places: vec![],
        capture_accesses: vec![],
        param_arg_regs: vec![],
    }
}

fn method(dest: u32, recv: u32, name: &str, args: Vec<u32>) -> MirInstr {
    MirInstr::MethodCall {
        dest: Reg(dest),
        recv: Reg(recv),
        method: name.into(),
        resolved: None,
        raises: None,
        reference_result: None,
        result_adapter: None,
        arg_places: args.iter().map(|_| None).collect(),
        args: args.into_iter().map(Reg).collect(),
        kwargs: vec![],
        recv_place: None,
        recv_writes: false,
        kwarg_places: vec![],
        capture_accesses: vec![],
        param_arg_regs: vec![],
        param_decls: vec![],
    }
}

fn literal(dest: u32, value: i64) -> MirInstr {
    MirInstr::Const { dest: Reg(dest), k: Const::IntLiteral(IntLiteral::from_i64(value)) }
}

fn specialized_main(program: &MirProgram) -> SpecializedProgram {
    specialize(&DirectRules, program, &vec!["main".to_string()]).unwrap()
}

fn names(specialized: &SpecializedProgram) -> Vec<String> {
    specialized.program.functions.iter().map(|(name, _)| name.clone()).collect()
}

fn function<'a>(specialized: &'a SpecializedProgram, name: &str) -> &'a MirFunction {
    for (candidate, function) in &specialized.program.functions {
        if candidate == name {
            return function;
        }
    }
    panic!("missing function `{name}`: {:?}", names(specialized));
}

fn program(
    functions: Vec<(&str, MirFunction)>,
    declarations: Vec<MirFunctionDeclaration>,
    structs: Vec<MirStructDeclaration>,
) -> MirProgram {
    MirProgram {
        functions: functions.into_iter().map(|(name, f)| (name.to_string(), f)).collect(),
        declarations: MirDeclarations { structs, functions: declarations },
        invariant_errors: vec![],
    }
}

#[test]
fn callable_value_parameter_reaches_dependent_tuple_calls() {
    // `visit` takes a generic callable and calls it on both elements of a tuple.
    let callable = || Ty::GenericFunc {
        environment: CallableEnvironment::Default,
        decls: vec![type_decl("T")],
        params: vec![parameter("T")],
        names: vec!["value".into()],
        ret: Box::new(Ty::NoneType),
        required: vec![true],
        variadic: None,
        kw_variadic: None,
        positional_only: None,
        keyword_only: None,
        raises: false,
        error: None,
        conventions: vec![None],
        ref_params: vec![None],
        ref_return: None,
        transfers: vec![],
    };
    let indirect = |dest: u32, callee: u32, arg: u32| MirInstr::CallIndirect {
        dest: Reg(dest),
        callee: Reg(callee),
        resolved: None,
        raises: None,
        args: vec![Reg(arg)],
        kwargs: vec![],
        callee_place: None,
        arg_places: vec![None],
        kwarg_places: vec![],
        capture_accesses: vec![],
        param_arg_regs: vec![],
        param_decls: vec![],
        instantiated_contract: None,
        instantiated_args: vec![],
    };
    let program = program(
        vec![
            (
                "main",
                body(
                    vec![],
                    vec![],
                    vec![callable(), Ty::Int, Ty::Bool, Ty::NoneType, Ty::NoneType],
                    Ty::NoneType,
                    vec![
                        MirInstr::Const { dest: Reg(0), k: Const::Function("main$toss".into()) },
                        MirInstr::Const { dest: Reg(1), k: Const::Int(1) },
                        MirInstr::Const { dest: Reg(2), k: Const::Bool(true) },
                        indirect(3, 0, 1),
                        indirect(4, 0, 2),
                    ],
                    None,
                ),
            ),
            ("main$toss", body(vec![parameter("T")], vec![parameter("T")], vec![], Ty::NoneType, vec![], None)),
        ],
        vec![
            facts("main", false, vec![], Ty::NoneType, vec![]),
            facts("main$toss", false, vec![("value", parameter("T"))], Ty::NoneType, vec![type_decl("T")]),
        ],
        vec![],
    );
    let specialized = specialized_main(&program);
    let toss_instances = specialized
        .program
        .functions
        .iter()
        .filter(|(name, _)| name.contains("main$toss") && name.contains("$mono$"))
        .count();
    assert!(
        toss_instances >= 2,
        "the callable value parameter must specialize for each Tuple element: {:?}",
        names(&specialized)
    );
}

#[test]
fn value_constructor_literal_arguments_bind_against_the_receiver_solution() {
    // `Box[Int](41)`: the receiver's type arguments solve `T := Int`, then the
    // literal-typed constructor argument must merge rather than conflict.
    let owner = Ty::Struct("Box".into(), vec![TyArg::Ty(parameter("T"))]);
    let program = program(
        vec![
            (
                "main",
                body(
                    vec![],
                    vec![],
                    vec![Ty::IntLiteral, Ty::Struct("Box".into(), vec![TyArg::Ty(Ty::Int)])],
                    Ty::NoneType,
                    vec![literal(0, 41), call(1, "Box", vec![0])],
                    None,
                ),
            ),
            (
                "Box.__init__",
                body(
                    vec![owner.clone(), parameter("T")],
                    vec![owner.clone(), parameter("T")],
                    vec![parameter("T")],
                    Ty::NoneType,
                    vec![MirInstr::UseVar { dest: Reg(0), var: 1 }],
                    None,
                ),
            ),
        ],
        vec![
            facts("main", false, vec![], Ty::NoneType, vec![]),
            facts("Box.__init__", true, vec![("value", parameter("T"))], Ty::NoneType, vec![type_decl("T")]),
        ],
        vec![nominal("Box", "value")],
    );
    let specialized = specialized_main(&program);
    assert!(
        specialized.program.functions.iter().any(|(name, _)| name == "Box$mono$TInt.__init__"),
        "the constructor instance must materialize under the owner instance: {:?}",
        names(&specialized)
    );
}

#[test]
fn distinct_instantiations_split_into_owner_named_instances() {
    // `refresh` reaches `set` through the in-body `self` receiver, which must
    // carry the owner instance's binding for `T`.
    let owner = Ty::Struct("Pairing".into(), vec![TyArg::Ty(parameter("T"))]);
    let pairing = |ty: Ty| Ty::Struct("Pairing".into(), vec![TyArg::Ty(ty)]);
    let setter = || {
        body(
            vec![owner.clone(), parameter("T")],
            vec![owner.clone(), parameter("T")],
            vec![],
            Ty::NoneType,
            vec![],
            None,
        )
    };
    let method_facts =
        |name: &str| facts(name, true, vec![("value", parameter("T"))], Ty::NoneType, vec![type_decl("T")]);
    let program = program(
        vec![
            (
                "main",
                body(
                    vec![],
                    vec![],
                    vec![
                        Ty::IntLiteral,
                        pairing(Ty::Int),
                        Ty::Bool,
                        pairing(Ty::Bool),
                        Ty::Int,
                        Ty::NoneType,
                        Ty::Bool,
                        Ty::NoneType,
                    ],
                    Ty::NoneType,
                    vec![
                        literal(0, 1),
                        call(1, "Pairing", vec![0]),
                        MirInstr::Const { dest: Reg(2), k: Const::Bool(true) },
                        call(3, "Pairing", vec![2]),
                        MirInstr::Const { dest: Reg(4), k: Const::Int(3) },
                        method(5, 1, "refresh", vec![4]),
                        MirInstr::Const { dest: Reg(6), k: Const::Bool(false) },
                        method(7, 3, "refresh", vec![6]),
                    ],
                    None,
                ),
            ),
            ("Pairing.__init__", setter()),
            (
                "Pairing.refresh",
                body(
                    vec![owner.clone(), parameter("T")],
                    vec![owner.clone(), parameter("T")],
                    vec![owner.clone(), parameter("T"), Ty::NoneType],
                    Ty::NoneType,
                    vec![
                        MirInstr::UseVar { dest: Reg(0), var: 0 },
                        MirInstr::UseVar { dest: Reg(1), var: 1 },
                        method(2, 0, "set", vec![1]),
                    ],
                    None,
                ),
            ),
            ("Pairing.set", setter()),
        ],
        vec![
            facts("main", false, vec![], Ty::NoneType, vec![]),
            method_facts("Pairing.__init__"),
            method_facts("Pairing.refresh"),
            method_facts("Pairing.set"),
        ],
        vec![nominal("Pairing", "value")],
    );
    let specialized = specialized_main(&program);
    for expected in [
        "Pairing$mono$TInt.refresh",
        "Pairing$mono$TBool.refresh",
        "Pairing$mono$TInt.set",
        "Pairing$mono$TBool.set",
        "Pairing$mono$TInt.__init__",
        "Pairing$mono$TBool.__init__",
    ] {
        assert!(
            specialized.program.functions.iter().any(|(name, _)| name == expected),
            "missing instance `{expected}`: {:?}",
            names(&specialized)
        );
    }
    let field_ty = |instance: &str| {
        specialized
            .program
            .declarations
            .structs
            .iter()
            .find(|decl| decl.name == instance)
            .unwrap_or_else(|| panic!("missing struct instance `{instance}`"))
            .fields[0]
            .1
            .clone()
    };
    assert_eq!(field_ty("Pairing$mono$TInt"), Ty::Int);
    assert_eq!(field_ty("Pairing$mono$TBool"), Ty::Bool);
    assert!(
        !specialized.program.declarations.structs.iter().any(|decl| decl.name == "Pairing"),
        "the shared template declaration must not survive canonicalization"
    );
}

#[test]
fn variadic_arity_joins_the_instance_identity_and_reifies_the_pack() {
    // `total(*values: Int)` called with no, one and three values.
    let mut total = facts("total", false, vec![], Ty::Int, vec![]);
    total.variadic = Some(Ty::Int);
    let pack = Ty::VariadicPack(Box::new(Ty::Int));
    let mut total_body = body(vec![pack.clone()], vec![pack], vec![Ty::Int], Ty::Int, vec![], None);
    total_body.blocks = vec![MirBlock {
        instrs: vec![MirInstr::Const { dest: Reg(0), k: Const::Int(0) }],
        term: MirTerm::Return(Some(Reg(0))),
    }];
    let program = program(
        vec![
            (
                "main",
                body(
                    vec![],
                    vec![],
                    vec![Ty::Int, Ty::Int, Ty::Int, Ty::Int, Ty::Int, Ty::Int],
                    Ty::NoneType,
                    vec![
                        MirInstr::Const { dest: Reg(0), k: Const::Int(1) },
                        MirInstr::Const { dest: Reg(1), k: Const::Int(2) },
                        MirInstr::Const { dest: Reg(2), k: Const::Int(3) },
                        call(3, "total", vec![]),
                        call(4, "total", vec![0]),
                        call(5, "total", vec![0, 1, 2]),
                    ],
                    None,
                ),
            ),
            ("total", total_body),
        ],
        vec![facts("main", false, vec![], Ty::NoneType, vec![]), total],
        vec![],
    );
    let specialized = specialized_main(&program);
    let arities = names(&specialized);
    for expected in ["total$mono$V0", "total$mono$V1", "total$mono$V3"] {
        assert!(
            arities.iter().any(|name| name == expected),
            "each call-site arity gets its own instance: {arities:?}"
        );
    }
    let one = function(&specialized, "total$mono$V1");
    assert!(
        one.var_tys
            .entries
            .iter()
            .any(|(_, ty)| matches!(ty, Ty::RuntimePack(elements) if elements == &[Ty::Int])),
        "the pack parameter reifies to a one-element runtime pack: {:?}",
        one.var_tys
    );
}

#[test]
fn specialized_functions_are_concrete_and_distinct() {
    let identity = body(
        vec![parameter("T")],
        vec![parameter("T")],
        vec![parameter("T")],
        parameter("T"),
        vec![MirInstr::UseVar { dest: Reg(0), var: 0 }],
        Some(Reg(0)),
    );
    let program = program(
        vec![
            (
                "main",
                body(
                    vec![],
                    vec![],
                    vec![Ty::Int, Ty::Int, Ty::Int],
                    Ty::NoneType,
                    vec![
                        MirInstr::Const { dest: Reg(0), k: Const::Int(1) },
                        call(1, "same", vec![0]),
                        call(2, "same", vec![0]),
                    ],
                    None,
                ),
            ),
            ("same", identity),
        ],
        vec![
            facts("main", false, vec![], Ty::NoneType, vec![]),
            facts("same", false, vec![("value", parameter("T"))], parameter("T"), vec![type_decl("T")]),
        ],
        vec![],
    );
    let specialized = specialized_main(&program);
    assert_eq!(names(&specialized), vec!["main".to_string(), "same$mono$TInt".to_string()]);
    assert_eq!(specialized.entries.get("main"), Some(&"main".to_string()));
    for (_, function) in &specialized.program.functions {
        assert!(!function_types(function).iter().any(|ty| is_symbolic(ty)));
    }
    for declaration in &specialized.program.declarations.functions {
        assert!(declaration.param_decls.is_empty());
    }
    // The given program is left alone.
    assert_eq!(program.functions.len(), 2);
    assert_eq!(function(&specialized, "same$mono$TInt").param_types, vec![Ty::Int]);
}

#[test]
fn missing_and_generic_entries_are_refused() {
    let program = program(
        vec![("same", body(vec![parameter("T")], vec![parameter("T")], vec![], parameter("T"), vec![], None))],
        vec![facts("same", false, vec![("value", parameter("T"))], parameter("T"), vec![type_decl("T")])],
        vec![],
    );
    let missing = specialize(&DirectRules, &program, &vec!["main".to_string()]);
    assert_eq!(
        missing.err(),
        Some(MonoError {
            function: None,
            construct: "entry function `main` (not found in the MIR program)".into(),
        })
    );
    let generic = specialize(&DirectRules, &program, &vec!["same".to_string()]);
    assert_eq!(
        generic.err(),
        Some(MonoError {
            function: Some("same".into()),
            construct: "generic entry `same` has unresolved parameters".into(),
        })
    );
}
