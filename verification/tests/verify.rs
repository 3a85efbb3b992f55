use mojito::ast::Dtype;
use mojito::ct::CtValue;
use mojito::mir::verify::instantiate::{generic_argument_maps, instantiate_generic_callable_contract};
use mojito::mir::verify::instr::{verify_blocks, verify_instruction};
use mojito::mir::verify::intrinsics::{
    indexed_place_element_types, verify_callable_contract_call, verify_intrinsic_index, verify_intrinsic_slice,
};
use mojito::mir::verify::places::{instruction_places, verify_place, verify_terminator};
use mojito::mir::verify::plain::PlainChecker;
use mojito::mir::verify::regs::{instruction_operand_regs, instruction_result_regs};
use mojito::mir::verify::types::{contains_runtime_pack, contains_type_param, types_compatible};
use mojito::mir::verify::RegionContext;
use mojito::mir::{
    Const, MirBlock, MirDeclarations, MirFunction, MirInstr, MirInterior, MirIntrinsicSubscript, MirLoan, MirPlace,
    MirSubscriptArg, MirTerm, Proj, Reg,
};
use mojito::origin::{CallableEnvironment, OriginSeg};
use mojito::table::TyTable;
use mojito::types::{ParamDecl, Ty, TyArg};

fn function(vars: Vec<Ty>, regs: Vec<Ty>) -> MirFunction {
    let mut var_tys = TyTable::new();
    for (i, ty) in vars.iter().enumerate() {
        var_tys.insert(i as u32, ty.clone());
    }
    let mut reg_types = TyTable::new();
    for (i, ty) in regs.iter().enumerate() {
        reg_types.insert(i as u32, ty.clone());
    }
    MirFunction {
        n_params: 0,
        n_vars: vars.len(),
        n_regs: regs.len() as u32,
        var_names: vec![],
        param_types: vec![],
        ref_params: vec![],
        var_tys,
        reg_types,
        ret_ty: Some(Ty::Int),
        error_ty: None,
        raises: false,
        returns_reference: false,
        blocks: vec![],
    }
}

fn nothing_declared() -> MirDeclarations {
    MirDeclarations { structs: vec![], functions: vec![] }
}

fn region(len: usize) -> RegionContext {
    RegionContext { region_len: len, function_len: len, in_try_region: false, protected: false }
}

fn place(root: u32, ty: Ty) -> MirPlace {
    MirPlace {
        root,
        through: None,
        root_ty: Some(ty.clone()),
        proj: vec![],
        projection_tys: vec![],
        ty: Some(ty),
    }
}

fn terminator(term: MirTerm) -> Vec<String> {
    let mut errors = vec![];
    let f = function(vec![], vec![Ty::Int, Ty::Bool]);
    verify_terminator(&PlainChecker, "f", &f, 0, &term, &region(1), &mut errors);
    errors
}

#[test]
fn terminators_stay_in_their_region() {
    assert!(terminator(MirTerm::Jump(0)).is_empty());
    assert_eq!(terminator(MirTerm::Jump(1)), vec!["MIR function 'f' block 0: jump to invalid block 1"]);
    assert_eq!(
        terminator(MirTerm::Branch { cond: Reg(0), then_b: 0, else_b: 3 }),
        vec![
            "MIR function 'f' block 0: branch to invalid block 3",
            "MIR function 'f' block 0: branch condition has type Int",
        ]
    );
    assert_eq!(
        terminator(MirTerm::Return(Some(Reg(1)))),
        vec!["MIR function 'f' block 0: return of Bool from a function returning Int"]
    );
    assert!(terminator(MirTerm::Return(Some(Reg(0)))).is_empty());
    assert_eq!(
        terminator(MirTerm::ReturnWithCleanup { value: None, cleanup: vec![9] }),
        vec!["MIR function 'f' block 0: return cleanup uses invalid variable 9"]
    );
    assert_eq!(
        terminator(MirTerm::FallOff),
        vec!["MIR function 'f' block 0: FallOff terminator outside a try region"]
    );
}

#[test]
fn places_agree_with_their_slots() {
    let check = |p: &MirPlace| {
        let mut errors = vec![];
        let f = function(vec![Ty::Int], vec![Ty::Bool]);
        verify_place(&PlainChecker, "f", 0, &f, &nothing_declared(), p, true, &mut errors);
        errors
    };
    assert!(check(&place(0, Ty::Int)).is_empty());
    assert_eq!(check(&place(4, Ty::Int)), vec!["MIR function 'f' block 0 place has invalid root slot 4"]);
    assert_eq!(
        check(&place(0, Ty::Bool)),
        vec!["MIR function 'f' block 0 place root slot 0 is typed Bool, declared Int"]
    );
    let mut untyped = place(0, Ty::Int);
    untyped.ty = None;
    assert_eq!(
        check(&untyped),
        vec!["MIR function 'f' block 0 place rooted at slot 0 lacks complete checked type metadata"]
    );
    let mut projected = place(0, Ty::Int);
    projected.proj = vec![Proj::ConstIndex(0)];
    projected.projection_tys = vec![Ty::Int];
    assert_eq!(
        check(&projected),
        vec!["MIR function 'f' block 0 constant element projection requires compiler-private Tuple storage, got Int"]
    );
}

#[test]
fn intrinsic_subscripts_fit_their_storage() {
    let check = |base: Ty, index: Ty, dest: Ty| {
        let mut errors = vec![];
        verify_intrinsic_index(
            &PlainChecker,
            "here",
            MirIntrinsicSubscript::VariadicStorage,
            Some(&base),
            Some(&index),
            Some(&dest),
            &mut errors,
        );
        errors
    };
    let pack = || Ty::VariadicPack(Box::new(Ty::Int));
    assert!(check(pack(), Ty::Int, Ty::Int).is_empty());
    assert_eq!(
        check(pack(), Ty::Bool, Ty::Int),
        vec!["here: intrinsic index has non-Indexer register type Bool"]
    );
    assert_eq!(
        check(pack(), Ty::UInt, Ty::Bool),
        vec!["here: intrinsic VariadicStorage result type Bool is incompatible with its checked element type"]
    );
    assert_eq!(
        check(Ty::Int, Ty::Int, Ty::Int),
        vec!["here: intrinsic VariadicStorage is incompatible with checked base type Int"]
    );
    let mut errors = vec![];
    verify_intrinsic_slice("here", MirIntrinsicSubscript::Simd, &mut errors);
    assert_eq!(errors, vec!["here: intrinsic Simd is not a slice dispatch"]);
    assert_eq!(
        indexed_place_element_types(&PlainChecker, &Ty::Tuple(vec![Ty::Int, Ty::Bool])),
        Some(vec![Ty::Int, Ty::Bool])
    );
    assert_eq!(indexed_place_element_types(&PlainChecker, &Ty::Int), None);
    assert!(indexed_place_element_types(&PlainChecker, &Ty::Simd { dtype: Dtype::Int8, width: 4 }).is_some());
}

#[test]
fn registers_of_instructions() {
    let regs = |instr: &MirInstr| {
        let mut results = vec![];
        let mut operands = vec![];
        instruction_result_regs(instr, &mut results);
        instruction_operand_regs(instr, &mut operands);
        (results, operands)
    };
    let copy = MirInstr::CopyValue { dest: Reg(1), value: Reg(2) };
    assert_eq!(regs(&copy), (vec![Reg(1)], vec![Reg(2)]));
    let mut target = place(0, Ty::Int);
    target.proj = vec![Proj::Index(Reg(7))];
    let store = MirInstr::Store { place: target.clone(), src: Reg(3) };
    assert_eq!(regs(&store), (vec![], vec![Reg(7), Reg(3)]));
    assert_eq!(instruction_places(&store), vec![&target]);
    assert!(instruction_places(&copy).is_empty());
}

fn contract(generic: bool) -> Ty {
    let parameter = Ty::Param { name: "T".into(), bounds: vec![], callable_bound: None };
    let (params, ret) = if generic { (vec![parameter.clone()], parameter) } else { (vec![Ty::Int], Ty::Int) };
    let decls =
        vec![ParamDecl::Type { name: "T".into(), default: None, infer_only: false, variadic: false }];
    if generic {
        Ty::GenericFunc {
            environment: CallableEnvironment::Default,
            decls,
            params,
            names: vec!["x".into()],
            ret: Box::new(ret),
            required: vec![true],
            variadic: None,
            kw_variadic: None,
            positional_only: None,
            keyword_only: None,
            raises: false,
            error: None,
            conventions: vec![None],
            ref_params: vec![None],
            ref_return: None,
            transfers: vec![],
        }
    } else {
        Ty::Func {
            environment: CallableEnvironment::Default,
            params,
            names: vec!["x".into()],
            ret: Box::new(ret),
            required: vec![true],
            variadic: None,
            kw_variadic: None,
            positional_only: None,
            keyword_only: None,
            raises: false,
            error: None,
            conventions: vec![None],
            ref_params: vec![None],
            ref_return: None,
            transfers: vec![],
        }
    }
}

#[test]
fn generic_contracts_instantiate() {
    let instantiate =
        |arguments: Vec<TyArg>| instantiate_generic_callable_contract(&PlainChecker, &contract(true), &arguments);
    assert_eq!(instantiate(vec![TyArg::Ty(Ty::Int)]), Ok(contract(false)));
    assert_eq!(instantiate(vec![]), Err("0 retained argument(s) for 1 declaration(s)".to_string()));
    assert_eq!(
        instantiate(vec![TyArg::Val(CtValue::Int(1))]),
        Err("type parameter 'T' retains a value argument".to_string())
    );
    assert_eq!(
        instantiate_generic_callable_contract(&PlainChecker, &Ty::Int, &vec![]),
        Err("retained contract is not generic".to_string())
    );
    let decls = vec![ParamDecl::Type { name: "*Ts".into(), default: None, infer_only: false, variadic: true }];
    let maps = generic_argument_maps(&decls, &vec![TyArg::Val(CtValue::Int(3))]).unwrap();
    assert_eq!(maps.values.get("Ts"), Some(&CtValue::Int(3)));
}

#[test]
fn indirect_calls_follow_their_contract() {
    let check = |args: Vec<Reg>, raises: Option<Ty>| {
        let mut errors = vec![];
        let f = function(vec![], vec![Ty::Int, Ty::Bool]);
        verify_callable_contract_call(
            &PlainChecker,
            "here",
            &f,
            &contract(false),
            &raises,
            Reg(0),
            &args,
            &vec![],
            &vec![None],
            &mut errors,
        );
        errors
    };
    assert!(check(vec![Reg(0)], None).is_empty());
    assert_eq!(
        check(vec![], None),
        vec!["here: indirect call has 0 positional arguments, callable contract requires 1"]
    );
    assert_eq!(
        check(vec![Reg(1)], None),
        vec!["here: argument 0 of indirect callable has type Bool, contract declares Int"]
    );
    assert_eq!(
        check(vec![Reg(0)], Some(Ty::Error)),
        vec!["here: indirect-call raising metadata does not match its callable contract"]
    );
}

#[test]
fn every_issue_of_a_body_is_reported() {
    let f = function(vec![], vec![Ty::Int]);
    let good = vec![MirBlock {
        instrs: vec![MirInstr::Const { dest: Reg(0), k: Const::Int(1) }],
        term: MirTerm::Return(Some(Reg(0))),
    }];
    let mut errors = vec![];
    verify_blocks(&PlainChecker, "f", &f, &nothing_declared(), &good, &region(1), &mut errors);
    assert!(errors.is_empty(), "{errors:?}");
    let bad = vec![MirBlock {
        instrs: vec![MirInstr::CopyValue { dest: Reg(9), value: Reg(0) }],
        term: MirTerm::Jump(5),
    }];
    verify_blocks(&PlainChecker, "f", &f, &nothing_declared(), &bad, &region(1), &mut errors);
    assert_eq!(
        errors,
        vec![
            "MIR function 'f' block 0: invalid register r9",
            "MIR function 'f' block 0: jump to invalid block 5",
        ]
    );
    let mut one = vec![];
    verify_instruction(
        &PlainChecker,
        "f",
        &f,
        &nothing_declared(),
        0,
        &MirInstr::CopyValue { dest: Reg(9), value: Reg(0) },
        &region(1),
        &mut one,
    );
    assert_eq!(one, vec!["MIR function 'f' block 0: invalid register r9"]);
}

#[test]
fn types_are_compatible_with_themselves() {
    for ty in [Ty::Int, Ty::Bool, Ty::Tuple(vec![Ty::Int]), contract(false)] {
        assert!(types_compatible(&PlainChecker, &ty, &ty));
    }
    assert!(!types_compatible(&PlainChecker, &Ty::Int, &Ty::Bool));
    assert!(contains_type_param(&contract(true)));
    assert!(!contains_type_param(&contract(false)));
    assert!(contains_runtime_pack(&Ty::Tuple(vec![Ty::RuntimePack(vec![])])));
}

#[test]
fn registers_of_keyword_subscripts_are_read() {
    let mut target = place(0, Ty::Int);
    target.proj = vec![Proj::Index(Reg(2))];
    let instr = MirInstr::MultiIndex {
        dest: Reg(5),
        object: Reg(0),
        args: vec![],
        object_place: None,
        arg_places: vec![],
        kwargs: vec![("byte".into(), MirSubscriptArg::Value(Reg(1)))],
        kwarg_places: vec![Some(target)],
        call: None,
    };
    let mut operands = vec![];
    instruction_operand_regs(&instr, &mut operands);
    assert_eq!(operands, vec![Reg(0), Reg(1), Reg(2)]);
    // Its registers are read; the keyword places are checked by the call alone.
    assert!(instruction_places(&instr).is_empty());
}

#[test]
fn subtrees_end_interior_loans() {
    let check = |loan: Vec<OriginSeg>, domain: Vec<OriginSeg>| {
        let f = function(vec![Ty::Int], vec![Ty::NoneType]);
        let instr = MirInstr::EstablishLoans {
            marker: Reg(0),
            reference: 0,
            loans: vec![MirLoan {
                place: place(0, Ty::Int),
                mutable: false,
                interior: Some(MirInterior { root: 0, path: loan }),
            }],
            dest_interior: Some(MirInterior { root: 0, path: domain }),
        };
        let mut errors = vec![];
        verify_instruction(&PlainChecker, "f", &f, &nothing_declared(), 0, &instr, &region(1), &mut errors);
        errors
    };
    let interior = || OriginSeg::Interior("element".into());
    assert!(check(vec![interior()], vec![interior()]).is_empty());
    assert!(check(vec![OriginSeg::Subtree], vec![interior()]).is_empty());
    assert_eq!(
        check(vec![OriginSeg::Subtree, interior()], vec![OriginSeg::Subtree]),
        vec![
            "MIR function 'f' block 0: loan destination domain contains a subtree segment",
            "MIR function 'f' block 0: interior loan origin rooted at slot 0 has a non-terminal subtree segment",
        ]
    );
    assert_eq!(
        check(vec![OriginSeg::AnyIndex], vec![interior()]),
        vec!["MIR function 'f' block 0: interior loan origin rooted at slot 0 has no interior segment"]
    );
}
