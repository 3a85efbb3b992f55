use mojito::ast::{FnParam, ParamKind, Stmt, StmtKind, Type};
use mojito::parser::driver::{Lexed, Parser};
use mojito::parser::simple::SimpleGrammar;
use mojito::symbol::{
    is_index_normalization_symbol, lowered_def_name, lowered_method_name, unresolved_overload_marker, OverloadSets,
};
use mojito::token::Token;

fn id(name: &str) -> Token {
    Token::Identifier(name.into())
}

/// `def name(x: ty): pass` for each pair.
fn program(functions: &[(&str, &str)]) -> Vec<Stmt> {
    let mut tokens: Vec<Lexed> = vec![];
    for (name, ty) in functions {
        for token in [
            Token::Def,
            id(name),
            Token::LParen,
            id("x"),
            Token::Colon,
            id(ty),
            Token::RParen,
            Token::Colon,
            Token::Pass,
            Token::Newline,
        ] {
            tokens.push(Ok((token, (0, 1))));
        }
    }
    Parser::new(tokens).parse_program(&SimpleGrammar {}).unwrap()
}

fn param(ty: Type) -> Vec<FnParam> {
    vec![FnParam { name: "x".into(), ty, kind: ParamKind::Regular, convention: None, default: None }]
}

#[test]
fn only_overloaded_functions_are_qualified() {
    let sets = OverloadSets::scan(&program(&[("pick", "Int"), ("pick", "Bool"), ("once", "Int")]));
    assert!(sets.function_is_overloaded("pick", 1));
    assert!(!sets.function_is_overloaded("pick", 2));
    assert!(!sets.function_is_overloaded("once", 1));
    assert!(sets.is_function("once") && !sets.is_function("twice"));
    assert!(!sets.method_is_overloaded("Box.value", 1));
    assert_eq!(lowered_def_name("pick", &vec![], &param(Type::Int), &sets), "pick$ov$Int");
    assert_eq!(lowered_def_name("pick", &vec![], &param(Type::Bool), &sets), "pick$ov$Bool");
    assert_eq!(lowered_def_name("once", &vec![], &param(Type::Int), &sets), "once");
    assert_eq!(
        lowered_method_name("Box.value", &vec![], &param(Type::Int), None, None, &sets),
        "Box.value"
    );
}

#[test]
fn markers_name_no_function() {
    assert_eq!(unresolved_overload_marker("pick", 2), "pick#2");
    assert!(is_index_normalization_symbol("Box.__mlir_index__"));
    assert!(is_index_normalization_symbol("Box.__mlir_index__$ov$Int"));
    assert!(!is_index_normalization_symbol("Box.__index__"));
    assert!(!is_index_normalization_symbol("__mlir_index__"));
}

#[test]
fn programs_of_functions_are_functions() {
    let parsed = program(&[("pick", "Int")]);
    assert_eq!(parsed.len(), 1);
    assert!(matches!(&parsed[0].kind, StmtKind::Def { name, .. } if name == "pick"));
}
