use mojito::ast::{ArgConvention, Dtype, Expr, ExprKind, InfixOp, KwArg, ParamArg, PrefixOp, Type};
use mojito::ct::{CtExpr, CtValue};
use mojito::debug::{debug_ct_value, debug_expr_kind, debug_string_tys, debug_ty, debug_type};
use mojito::literal::IntLiteral;
use mojito::origin::{
    CallableEnvironment, CaptureOrigin, CaptureOriginSet, Mutability, Origin, OriginParamId, OriginPlace, OriginSeg,
    OwnerId, PointerOrigin, RefSig, RefTy, SigMutability, SigOrigin,
};
use mojito::types::{DependentType, ParamDecl, Ty, TyArg};

fn place() -> OriginPlace {
    OriginPlace {
        root: OwnerId(4),
        path: vec![OriginSeg::Field("a \"quoted\"\n\u{e9}".into()), OriginSeg::AnyIndex, OriginSeg::Interior("t".into())],
    }
}

fn callable() -> Ty {
    Ty::GenericFunc {
        environment: CallableEnvironment::Capturing(CaptureOriginSet::Concrete(vec![CaptureOrigin::write(Origin::Place(
            place(),
        ))])),
        decls: vec![
            ParamDecl::Type { name: "T".into(), default: Some(Box::new(Ty::Int)), infer_only: true, variadic: false },
            ParamDecl::Value {
                name: "n".into(),
                ty: Box::new(Ty::UInt),
                default: Some(CtExpr::Neg(Box::new(CtExpr::Param("m".into())))),
                callable_default: None,
                infer_only: false,
                variadic: true,
            },
        ],
        params: vec![Ty::Bool, Ty::Simd { dtype: Dtype::Float32, width: -4 }],
        names: vec!["x".into(), "y".into()],
        ret: Box::new(Ty::Dependent(DependentType::Indexed {
            elements: vec![Ty::Int],
            index: CtExpr::Value(CtValue::UInt(7)),
        })),
        required: vec![true, false],
        variadic: None,
        kw_variadic: Some(Box::new(Ty::Error)),
        positional_only: Some(1),
        keyword_only: None,
        raises: true,
        error: None,
        conventions: vec![None, Some(ArgConvention::Mut)],
        ref_params: vec![
            None,
            Some(RefSig {
                origin: SigOrigin::Projected(Box::new(SigOrigin::Self_), vec![OriginSeg::Subtree]),
                mutability: SigMutability::BoolParam(2),
            }),
        ],
        ref_return: Some(Box::new(RefSig {
            origin: SigOrigin::Union(vec![SigOrigin::Bound(Origin::Static), SigOrigin::Param(3)]),
            mutability: SigMutability::Infer,
        })),
        transfers: vec![0, 5],
    }
}

#[test]
fn forms_of_types_are_those_of_debug() {
    let types = [
        Ty::Tuple(vec![]),
        Ty::Struct("Box".into(), vec![TyArg::Ty(Ty::Int), TyArg::Val(CtValue::Str("s".into())), TyArg::Origin(Origin::Union(vec![]))]),
        Ty::Param { name: "T".into(), bounds: vec!["Copyable".into()], callable_bound: Some(Box::new(Ty::Never)) },
        Ty::Pointer { element: Box::new(Ty::Float64), origin: PointerOrigin::Place { place: place(), mutable: true } },
        Ty::Ref(RefTy {
            referent: Box::new(Ty::SelfType),
            origin: Origin::Untracked { mutable: false },
            mutability: Mutability::Param(OriginParamId(9)),
        }),
        callable(),
    ];
    for ty in &types {
        assert_eq!(debug_ty(ty), format!("{ty:?}"));
    }
    assert_eq!(debug_ty(&Ty::NoneType), "None");
    let fields = vec![("first".to_string(), Ty::Int), ("second".to_string(), callable())];
    assert_eq!(debug_string_tys(&fields), format!("{fields:?}"));
}

#[test]
fn forms_of_values_are_those_of_debug() {
    for value in [CtValue::Int(-3), CtValue::Bool(true), CtValue::Str("tab\t".into()), CtValue::Param("n".into())] {
        assert_eq!(debug_ct_value(&value), format!("{value:?}"));
    }
    let large = CtValue::IntLiteral(IntLiteral::from_i64(2).raised(70));
    assert_eq!(debug_ct_value(&large), "IntLiteral(IntLiteral(1180591620717411303424))");
    assert_eq!(large.text(), "1180591620717411303424");
}

#[test]
fn forms_of_expressions_are_those_of_debug() {
    let name = |text: &str| Expr::new(ExprKind::Identifier(text.into()), (1, 2));
    let kinds = [
        ExprKind::Call {
            name: "f".into(),
            param_args: vec![ParamArg::Type(Type::SelfParam("o".into())), ParamArg::Value(name("n"))],
            args: vec![Expr::new(ExprKind::Prefix(PrefixOp::Not, Box::new(name("b"))), (0, 9))],
            kwargs: vec![KwArg { name: "k".into(), value: name("v") }],
        },
        ExprKind::Slice { object: Box::new(name("s")), lower: None, upper: Some(Box::new(name("u"))), step: None },
        ExprKind::Infix(InfixOp::NotIn, Box::new(name("a")), Box::new(name("b"))),
        ExprKind::TupleLit(vec![]),
        ExprKind::Uninitialized,
    ];
    for kind in &kinds {
        assert_eq!(debug_expr_kind(kind), format!("{kind:?}"));
    }
    let ty = Type::IndexedProjection { base: Box::new(Type::SelfType), index: Box::new(name("i")) };
    assert_eq!(debug_type(&ty), format!("{ty:?}"));
}
