use mojito::ast::ArgConvention;
use mojito::checked::{CheckedIteratorCall, IterationMode};
use mojito::mir::{
    Const, FuncRef, MirBlock, MirDeclarations, MirFunction, MirFunctionDeclaration, MirInstr, MirParamArg, MirProgram,
    MirStructDeclaration, MirSubscriptCall, MirTerm, Reg,
};
use mojito::native::mono::rules::DirectRules;
use mojito::native::mono::specialize::{specialize, SpecializedProgram};
use mojito::origin::CallableEnvironment;
use mojito::symbol::iterator_dispatch_symbol;
use mojito::table::TyTable;
use mojito::types::{ParamDecl, Ty};

fn parameter(name: &str) -> Ty {
    Ty::Param { name: name.into(), bounds: vec![], callable_bound: None }
}

fn type_decl(name: &str) -> ParamDecl {
    ParamDecl::Type { name: name.into(), default: None, infer_only: false, variadic: false }
}

fn table(types: Vec<Ty>) -> TyTable {
    let mut table = TyTable::new();
    let mut key = 0;
    for ty in types {
        table.insert(key, ty);
        key += 1;
    }
    table
}

fn body(params: Vec<Ty>, vars: Vec<Ty>, regs: Vec<Ty>, ret: Ty, instrs: Vec<MirInstr>, value: Option<Reg>) -> MirFunction {
    MirFunction {
        n_params: params.len(),
        n_vars: vars.len(),
        n_regs: regs.len() as u32,
        var_names: vars.iter().enumerate().map(|(i, _)| format!("v{i}")).collect(),
        ref_params: params.iter().map(|_| false).collect(),
        param_types: params,
        var_tys: table(vars),
        reg_types: table(regs),
        ret_ty: Some(ret),
        error_ty: None,
        raises: false,
        returns_reference: false,
        blocks: vec![MirBlock { instrs, term: MirTerm::Return(value) }],
    }
}

fn facts(name: &str, receiver: bool, params: Vec<(&str, Ty)>, ret: Ty, decls: Vec<ParamDecl>) -> MirFunctionDeclaration {
    MirFunctionDeclaration {
        lowered_name: name.into(),
        has_receiver: receiver,
        receiver_convention: None,
        param_names: params.iter().map(|(name, _)| name.to_string()).collect(),
        param_conventions: params.iter().map(|_| None).collect(),
        ref_params: params.iter().map(|_| false).collect(),
        required: params.iter().map(|_| true).collect(),
        param_types: params.into_iter().map(|(_, ty)| ty).collect(),
        positional_only: None,
        keyword_only: None,
        variadic: None,
        kw_variadic: None,
        ret_ty: ret,
        returns_reference: false,
        raises: false,
        error_ty: None,
        param_decls: decls,
    }
}

fn call(dest: u32, name: &str, args: Vec<u32>) -> MirInstr {
    MirInstr::Call {
        dest: Reg(dest),
        func: FuncRef(name.into()),
        raises: None,
        arg_places: args.iter().map(|_| None).collect(),
        args: args.into_iter().map(Reg).collect(),
        kwargs: vec![],
        kwarg_places: vec![],
        capture_accesses: vec![],
        param_arg_regs: vec![],
    }
}

fn specialized_main(program: &MirProgram) -> SpecializedProgram {
    specialize(&DirectRules, program, &vec!["main".to_string()]).unwrap()
}

fn names(specialized: &SpecializedProgram) -> Vec<String> {
    specialized.program.functions.iter().map(|(name, _)| name.clone()).collect()
}

fn function<'a>(specialized: &'a SpecializedProgram, name: &str) -> &'a MirFunction {
    for (candidate, function) in &specialized.program.functions {
        if candidate == name {
            return function;
        }
    }
    panic!("missing function `{name}`: {:?}", names(specialized));
}

fn program(
    functions: Vec<(&str, MirFunction)>,
    declarations: Vec<MirFunctionDeclaration>,
    structs: Vec<MirStructDeclaration>,
) -> MirProgram {
    MirProgram {
        functions: functions.into_iter().map(|(name, f)| (name.to_string(), f)).collect(),
        declarations: MirDeclarations { structs, functions: declarations },
        invariant_errors: vec![],
    }
}

fn plain(name: &str, fields: Vec<(&str, Ty)>) -> MirStructDeclaration {
    MirStructDeclaration {
        name: name.into(),
        fields: fields.into_iter().map(|(name, ty)| (name.to_string(), ty)).collect(),
        param_decls: vec![],
        fieldwise_init: true,
        mut_self_methods: vec![],
        explicit_destroy_message: None,
        explicit_destructors: vec![],
    }
}

fn named(name: &str) -> Ty {
    Ty::Struct(name.into(), vec![])
}

fn whole(dest: u32, value: i64) -> MirInstr {
    MirInstr::Const { dest: Reg(dest), k: Const::Int(value) }
}

fn advance(target: &str, result: Ty) -> CheckedIteratorCall {
    CheckedIteratorCall {
        target: target.into(),
        result_ty: result,
        raises: None,
        reference_result: None,
        result_adapter: None,
    }
}

fn instructions(blocks: &[MirBlock]) -> Vec<&MirInstr> {
    let mut result = Vec::new();
    for block in blocks {
        for instruction in &block.instrs {
            if let MirInstr::Try { body, handler, orelse, finalbody } = instruction {
                result.extend(instructions(body));
                if let Some((_, blocks)) = handler {
                    result.extend(instructions(blocks));
                }
                if let Some(blocks) = orelse {
                    result.extend(instructions(blocks));
                }
                if let Some(blocks) = finalbody {
                    result.extend(instructions(blocks));
                }
            }
            result.push(instruction);
        }
    }
    result
}

fn has(specialized: &SpecializedProgram, name: &str) -> bool {
    specialized.program.functions.iter().any(|(candidate, _)| candidate == name)
}

/// A method that returns a value of its result type, built from nothing.
fn yields(receiver: Ty, result: Ty) -> MirFunction {
    let instr = match &result {
        Ty::Struct(name, _) => call(0, name, vec![]),
        _ => whole(0, 1),
    };
    body(vec![receiver.clone()], vec![receiver], vec![result.clone()], result, vec![instr], Some(Reg(0)))
}

/// A loop over slot 0 whose iterator slot 1 is not typed yet.
fn looping(source: Ty, regs: Vec<Ty>, start: Vec<MirInstr>, test: MirInstr, step: MirInstr) -> MirFunction {
    let mut function = body(vec![], vec![source], regs, Ty::NoneType, vec![], None);
    function.n_vars = 2;
    function.var_names = vec!["source".into(), "iterator".into()];
    function.blocks = vec![
        MirBlock { instrs: start, term: MirTerm::Jump(1) },
        MirBlock {
            instrs: vec![test],
            term: MirTerm::Branch { cond: Reg(1), then_b: 2, else_b: 3 },
        },
        MirBlock { instrs: vec![step], term: MirTerm::Jump(1) },
        MirBlock { instrs: vec![], term: MirTerm::Return(None) },
    ];
    function
}

fn iterate(prepare: Vec<&str>) -> MirInstr {
    MirInstr::GetIter {
        source: 0,
        dest: 1,
        mode: IterationMode::Borrowed,
        prepare: prepare.into_iter().map(|step| step.to_string()).collect(),
    }
}

#[test]
fn bounded_user_iterator_types_the_split_slot_and_retargets_its_operations() {
    // for x in Countdown(5): ...
    let program = program(
        vec![
            (
                "main",
                looping(
                    named("Countdown"),
                    vec![named("Countdown"), Ty::Bool, Ty::Int],
                    vec![
                        whole(2, 5),
                        call(0, "Countdown", vec![2]),
                        MirInstr::DefVar { var: 0, src: Reg(0), binding_ty: None },
                        iterate(vec!["Countdown.__iter__"]),
                    ],
                    MirInstr::HasNext { dest: Reg(1), iter: 1, method: Some("RangeIter.__len__".into()) },
                    MirInstr::Next {
                        dest: Reg(2),
                        iter: 1,
                        call: Some(advance("RangeIter.__next__", Ty::Int)),
                    },
                ),
            ),
            ("Countdown.__iter__", yields(named("Countdown"), named("RangeIter"))),
            ("RangeIter.__len__", yields(named("RangeIter"), Ty::Int)),
            ("RangeIter.__next__", yields(named("RangeIter"), Ty::Int)),
        ],
        vec![
            facts("main", false, vec![], Ty::NoneType, vec![]),
            facts("Countdown.__iter__", true, vec![], named("RangeIter"), vec![]),
            facts("RangeIter.__len__", true, vec![], Ty::Int, vec![]),
            facts("RangeIter.__next__", true, vec![], Ty::Int, vec![]),
        ],
        vec![
            plain("RangeIter", vec![("cur", Ty::Int), ("stop", Ty::Int)]),
            plain("Countdown", vec![("n", Ty::Int)]),
        ],
    );
    let specialized = specialized_main(&program);
    let main = function(&specialized, "main");
    let instrs = instructions(&main.blocks);
    let (dest, prepare) = instrs
        .iter()
        .find_map(|instruction| match instruction {
            MirInstr::GetIter { dest, prepare, .. } => Some((*dest, prepare)),
            _ => None,
        })
        .expect("main normalizes its iterable");
    assert!(
        matches!(main.var_tys.get(dest), Some(Ty::Struct(name, _)) if name == "RangeIter"),
        "the split iterator slot must be typed by the prepare chain: {:?}",
        main.var_tys.get(dest)
    );
    for step in prepare {
        assert!(has(&specialized, step), "prepare step `{step}` must name a specialized function");
    }
    let method = instrs
        .iter()
        .find_map(|instruction| match instruction {
            MirInstr::HasNext { method: Some(method), .. } => Some(method),
            _ => None,
        })
        .expect("bounded iteration reads a length method");
    assert!(has(&specialized, method), "`{method}` must name a specialized function");
    let target = instrs
        .iter()
        .find_map(|instruction| match instruction {
            MirInstr::Next { call: Some(call), .. } => Some(&call.target),
            _ => None,
        })
        .expect("bounded iteration advances through `__next__`");
    assert!(has(&specialized, target), "`{target}` must name a specialized function");
}

#[test]
fn raising_range_iteration_types_the_slot_and_reaches_its_operations() {
    // for x in range(3): ...
    let mut next = facts("Range.__next__", true, vec![], Ty::Int, vec![]);
    next.raises = true;
    next.error_ty = Some(Ty::Error);
    let program = program(
        vec![
            (
                "main",
                looping(
                    named("Range"),
                    vec![named("Range"), Ty::Bool, Ty::Int],
                    vec![
                        whole(2, 3),
                        call(0, "range", vec![2]),
                        MirInstr::DefVar { var: 0, src: Reg(0), binding_ty: None },
                        iterate(vec!["Range.__iter__"]),
                    ],
                    MirInstr::Const { dest: Reg(1), k: Const::Bool(true) },
                    MirInstr::TryNext {
                        dest: Reg(2),
                        yielded: Reg(1),
                        iter: 1,
                        call: advance("Range.__next__", Ty::Int),
                        exhaustion: Ty::Error,
                    },
                ),
            ),
            ("range", {
                let mut range = yields(Ty::Int, named("Range"));
                range.n_params = 1;
                range
            }),
            ("Range.__iter__", yields(named("Range"), named("Range"))),
            ("Range.__next__", yields(named("Range"), Ty::Int)),
        ],
        vec![
            facts("main", false, vec![], Ty::NoneType, vec![]),
            facts("range", false, vec![("end", Ty::Int)], named("Range"), vec![]),
            facts("Range.__iter__", true, vec![], named("Range"), vec![]),
            next,
        ],
        vec![plain("Range", vec![("end", Ty::Int)])],
    );
    let specialized = specialized_main(&program);
    let main = function(&specialized, "main");
    let instrs = instructions(&main.blocks);
    let dest = instrs
        .iter()
        .find_map(|instruction| match instruction {
            MirInstr::GetIter { dest, .. } => Some(*dest),
            _ => None,
        })
        .expect("range iteration normalizes its iterable");
    assert!(
        matches!(main.var_tys.get(dest), Some(Ty::Struct(..))),
        "the range iterator slot must be struct-typed: {:?}",
        main.var_tys.get(dest)
    );
    let call = instrs
        .iter()
        .find_map(|instruction| match instruction {
            MirInstr::TryNext { call, .. } => Some(call),
            _ => None,
        })
        .expect("range iteration advances through a raising `__next__`");
    assert!(has(&specialized, &call.target), "`{}` must name a specialized function", call.target);
}

#[test]
fn generic_dispatch_iteration_unrolls_to_a_typed_concrete_chain() {
    // def first_count[T](items: T): for x in items: ...
    let dispatch = iterator_dispatch_symbol(ArgConvention::Imm);
    let method = dispatch.replace("__trait_dispatch", "Counter");
    let mut counting = looping(
        parameter("T"),
        vec![Ty::Int, Ty::Bool, Ty::Int],
        vec![iterate(vec![dispatch.as_str()])],
        MirInstr::Const { dest: Reg(1), k: Const::Bool(true) },
        MirInstr::Next {
            dest: Reg(2),
            iter: 1,
            call: Some(advance("__trait_dispatch.__next__", Ty::Int)),
        },
    );
    counting.n_params = 1;
    counting.param_types = vec![parameter("T")];
    counting.ref_params = vec![false];
    let program = program(
        vec![
            (
                "main",
                body(
                    vec![],
                    vec![],
                    vec![named("Counter"), Ty::NoneType],
                    Ty::NoneType,
                    vec![call(0, "Counter", vec![]), call(1, "first_count", vec![0])],
                    None,
                ),
            ),
            ("first_count", counting),
            (method.as_str(), yields(named("Counter"), named("CountIter"))),
            ("CountIter.__next__", yields(named("CountIter"), Ty::Int)),
        ],
        vec![
            facts("main", false, vec![], Ty::NoneType, vec![]),
            facts("first_count", false, vec![("items", parameter("T"))], Ty::NoneType, vec![type_decl("T")]),
            facts(&method, true, vec![], named("CountIter"), vec![]),
            facts("CountIter.__next__", true, vec![], Ty::Int, vec![]),
        ],
        vec![plain("Counter", vec![]), plain("CountIter", vec![])],
    );
    let specialized = specialized_main(&program);
    let first_count = specialized
        .program
        .functions
        .iter()
        .find(|(name, _)| name.starts_with("first_count"))
        .expect("the generic loop body was specialized");
    let instrs = instructions(&first_count.1.blocks);
    let (dest, prepare) = instrs
        .iter()
        .find_map(|instruction| match instruction {
            MirInstr::GetIter { dest, prepare, .. } => Some((*dest, prepare)),
            _ => None,
        })
        .expect("the generic loop normalizes its iterable");
    assert!(
        !prepare.iter().any(|step| step.starts_with("__trait_dispatch.")),
        "dispatch steps must resolve statically post-mono: {prepare:?}"
    );
    assert!(
        matches!(
            first_count.1.var_tys.get(dest),
            Some(Ty::Struct(name, _)) if name.starts_with("CountIter")
        ),
        "the dispatched iterator slot must be concretely typed: {:?}",
        first_count.1.var_tys.get(dest)
    );
}

#[test]
fn dependent_lambda_calls_specialize_once_per_index_and_element_type() {
    let callable = Ty::GenericFunc {
        environment: CallableEnvironment::Default,
        decls: vec![type_decl("T")],
        params: vec![parameter("T")],
        names: vec!["value".into()],
        ret: Box::new(Ty::NoneType),
        required: vec![true],
        variadic: None,
        kw_variadic: None,
        positional_only: None,
        keyword_only: None,
        raises: false,
        error: None,
        conventions: vec![None],
        ref_params: vec![None],
        ref_return: None,
        transfers: vec![],
    };
    let indirect = |dest: u32, callee: u32, arg: u32| MirInstr::CallIndirect {
        dest: Reg(dest),
        callee: Reg(callee),
        resolved: None,
        raises: None,
        args: vec![Reg(arg)],
        kwargs: vec![],
        callee_place: None,
        arg_places: vec![None],
        kwarg_places: vec![],
        capture_accesses: vec![],
        param_arg_regs: vec![],
        param_decls: vec![],
        instantiated_contract: None,
        instantiated_args: vec![],
    };
    let lambda = "main$$lambda$0";
    let program = program(
        vec![
            (
                "main",
                body(
                    vec![],
                    vec![],
                    vec![callable, Ty::Int, Ty::Bool, Ty::NoneType, Ty::NoneType, Ty::NoneType],
                    Ty::NoneType,
                    vec![
                        MirInstr::MakeClosure { dest: Reg(0), function: lambda.into(), captures: vec![] },
                        whole(1, 1),
                        MirInstr::Const { dest: Reg(2), k: Const::Bool(true) },
                        indirect(3, 0, 1),
                        indirect(4, 0, 2),
                        indirect(5, 0, 1),
                    ],
                    None,
                ),
            ),
            (lambda, body(vec![parameter("T")], vec![parameter("T")], vec![], Ty::NoneType, vec![], None)),
        ],
        vec![
            facts("main", false, vec![], Ty::NoneType, vec![]),
            facts(lambda, false, vec![("value", parameter("T"))], Ty::NoneType, vec![type_decl("T")]),
        ],
        vec![],
    );
    let specialized = specialized_main(&program);
    let lambda_instances = specialized
        .program
        .functions
        .iter()
        .filter(|(name, _)| name.contains("$$lambda$") && name.contains("$mono$"))
        .map(|(name, _)| name.as_str())
        .collect::<Vec<_>>();
    assert!(
        lambda_instances.len() >= 2,
        "explicit and callable-bound lambdas need specialized lifted bodies: {lambda_instances:?}"
    );
    assert!(specialized.program.functions.iter().all(|(_, function)| {
        !instructions(&function.blocks)
            .iter()
            .any(|instruction| matches!(instruction, MirInstr::CallIndirect { .. }))
    }));
}

#[test]
fn nominal_len_rewrites_to_a_resolved_dunder_method_call() {
    // print(len(Sized(3)))
    let program = program(
        vec![
            (
                "main",
                body(
                    vec![],
                    vec![],
                    vec![named("Sized"), Ty::Int, Ty::Int, Ty::NoneType],
                    Ty::NoneType,
                    vec![
                        whole(1, 3),
                        call(0, "Sized", vec![1]),
                        call(2, "len", vec![0]),
                        call(3, "print", vec![2]),
                    ],
                    None,
                ),
            ),
            ("Sized.__len__", yields(named("Sized"), Ty::Int)),
        ],
        vec![
            facts("main", false, vec![], Ty::NoneType, vec![]),
            facts("Sized.__len__", true, vec![], Ty::Int, vec![]),
        ],
        vec![plain("Sized", vec![("n", Ty::Int)])],
    );
    let specialized = specialized_main(&program);
    let main = function(&specialized, "main");
    let instrs = instructions(&main.blocks);
    let resolved = instrs
        .iter()
        .find_map(|instruction| match instruction {
            MirInstr::MethodCall { method, resolved: Some(resolved), .. } if method == "__len__" => {
                Some(resolved.clone())
            }
            _ => None,
        })
        .expect("`len(nominal)` must rewrite to a resolved `__len__` call");
    assert!(
        has(&specialized, &resolved),
        "the rewritten target `{resolved}` must be a specialized function"
    );
    assert!(
        !instrs.iter().any(|instruction| matches!(
            instruction,
            MirInstr::Call { func, .. } if func.0 == "len"
        )),
        "no bare `len` builtin call may survive the rewrite"
    );
}

#[test]
fn subscript_value_parameters_join_the_accessor_instance_identity() {
    // pair[0] + pair[1]
    let index = || ParamDecl::Value {
        name: "i".into(),
        ty: Box::new(Ty::Int),
        default: None,
        callable_default: None,
        infer_only: false,
        variadic: false,
    };
    let read = |dest: u32, at: u32| MirInstr::Index {
        dest: Reg(dest),
        base: Reg(0),
        index: Reg(at),
        base_place: None,
        index_place: None,
        call: Some(MirSubscriptCall {
            target: "Pair.__getitem__".into(),
            arguments: vec![],
            receiver_convention: None,
            receiver_requires_place: false,
            result_ty: Ty::Int,
            reference_result: None,
            raises: None,
            capture_accesses: vec![],
            param_arg_regs: vec![MirParamArg { name: None, value: Some(Reg(at)) }],
            param_decls: vec![index()],
        }),
        intrinsic: None,
    };
    let program = program(
        vec![
            (
                "main",
                body(
                    vec![],
                    vec![],
                    vec![named("Pair"), Ty::Int, Ty::Int, Ty::Int, Ty::Int],
                    Ty::NoneType,
                    vec![whole(1, 0), whole(2, 1), call(0, "Pair", vec![1, 2]), read(3, 1), read(4, 2)],
                    None,
                ),
            ),
            ("Pair.__getitem__", yields(named("Pair"), Ty::Int)),
        ],
        vec![
            facts("main", false, vec![], Ty::NoneType, vec![]),
            facts("Pair.__getitem__", true, vec![], Ty::Int, vec![]),
        ],
        vec![plain("Pair", vec![("first", Ty::Int), ("second", Ty::Int)])],
    );
    let specialized = specialized_main(&program);
    let main = function(&specialized, "main");
    let targets: std::collections::HashSet<&str> = instructions(&main.blocks)
        .iter()
        .filter_map(|instruction| match instruction {
            MirInstr::Index { call: Some(call), .. } => Some(call.target.as_str()),
            _ => None,
        })
        .collect();
    assert!(
        targets.len() >= 2,
        "distinct constant indexes must dispatch distinct accessor instances: {targets:?}"
    );
    for target in targets {
        assert!(has(&specialized, target), "`{target}` must name a specialized function");
    }
}
