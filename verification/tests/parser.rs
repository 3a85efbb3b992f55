use mojito::ast::{
    ArgConvention, CaptureKind, Expr, ExprKind, ImportNames, InfixOp, LoopBindingMode, ParamArg, Stmt, StmtKind,
    TStringPart, Type,
};
use mojito::literal::IntLiteral;
use mojito::parser::driver::{Lexed, Parser};
use mojito::parser::program::parse_interpolation;
use mojito::parser::simple::SimpleGrammar;
use mojito::parser::{
    aug_assign_op, call_name, convention_word, expression_name_starts_lowercase, infix_precedence,
    is_explicit_origin_argument, param_argument_name, push_tstring_literal, removed_convention_error,
    self_param_rooted_expression, ParseError, Precedence,
};
use mojito::token::{LexError, Token};

/// Tokens one byte apart.
fn lexed(tokens: Vec<Token>) -> Vec<Lexed> {
    tokens.into_iter().enumerate().map(|(i, token)| Ok((token, (i, i + 1)))).collect()
}

fn id(name: &str) -> Token {
    Token::Identifier(name.into())
}

fn parser(tokens: Vec<Token>) -> Parser {
    Parser::new(lexed(tokens))
}

fn parse(tokens: Vec<Token>) -> Result<Vec<Stmt>, ParseError> {
    parser(tokens).parse_program(&SimpleGrammar {})
}

fn one(tokens: Vec<Token>) -> StmtKind {
    let mut program = parse(tokens).unwrap();
    assert_eq!(program.len(), 1);
    program.pop().unwrap().kind
}

fn name(text: &str, at: usize) -> Expr {
    Expr::new(ExprKind::Identifier(text.into()), (at, at + 1))
}

fn integer(value: i64, at: usize) -> Expr {
    Expr::new(ExprKind::Int(IntLiteral::from_i64(value).canonical()), (at, at + 1))
}

fn unexpected(token: Token, message: &str, span: (usize, usize)) -> ParseError {
    ParseError::At {
        error: Box::new(ParseError::UnexpectedToken(token, message.into())),
        span,
    }
}

#[test]
fn a_declaration_keeps_its_parts_and_range() {
    let program = parse(vec![
        Token::Var,
        id("x"),
        Token::Colon,
        id("Int"),
        Token::Assign,
        Token::IntLiteral(1),
        Token::Newline,
        Token::Eof,
    ])
    .unwrap();
    assert_eq!(program.len(), 1);
    assert_eq!(
        program[0].kind,
        StmtKind::VarDecl { name: "x".into(), ty: Some(Type::Int), value: integer(1, 5) }
    );
    // The newline is no part of the statement.
    assert_eq!(program[0].span, (0, 6));
}

#[test]
fn operators_bind_by_precedence() {
    // a + b * c ** d ** e
    let kind = one(vec![
        id("a"),
        Token::Plus,
        id("b"),
        Token::Star,
        id("c"),
        Token::DoubleStar,
        id("d"),
        Token::DoubleStar,
        id("e"),
        Token::Newline,
    ]);
    let right = Expr::new(
        ExprKind::Infix(InfixOp::Pow, Box::new(name("d", 6)), Box::new(name("e", 8))),
        (6, 9),
    );
    let power = Expr::new(ExprKind::Infix(InfixOp::Pow, Box::new(name("c", 4)), Box::new(right)), (4, 9));
    let product = Expr::new(ExprKind::Infix(InfixOp::Mul, Box::new(name("b", 2)), Box::new(power)), (2, 9));
    let sum = Expr::new(ExprKind::Infix(InfixOp::Add, Box::new(name("a", 0)), Box::new(product)), (0, 9));
    assert_eq!(kind, StmtKind::Expr(sum));
}

#[test]
fn assignments_by_target() {
    assert_eq!(
        one(vec![id("x"), Token::Assign, id("y"), Token::Newline]),
        StmtKind::Assign { name: "x".into(), value: name("y", 2) }
    );
    let member = Expr::new(ExprKind::Member { object: Box::new(name("p", 0)), field: "x".into() }, (0, 3));
    assert_eq!(
        one(vec![id("p"), Token::Dot, id("x"), Token::Assign, id("y"), Token::Newline]),
        StmtKind::SetPlace { place: member, value: name("y", 4) }
    );
    assert_eq!(
        one(vec![id("x"), Token::PlusEq, id("y"), Token::Newline]),
        StmtKind::AugAssign { place: name("x", 0), op: InfixOp::Add, value: name("y", 2) }
    );
    assert_eq!(
        one(vec![id("a"), Token::Comma, id("b"), Token::Assign, id("t"), Token::Newline]),
        StmtKind::Unpack { targets: vec![name("a", 0), name("b", 2)], value: name("t", 4), declares: false }
    );
    // Without `=` the comma makes a tuple.
    assert_eq!(
        one(vec![id("a"), Token::Comma, id("b"), Token::Newline]),
        StmtKind::Expr(Expr::new(ExprKind::TupleLit(vec![name("a", 0), name("b", 2)]), (0, 3)))
    );
}

#[test]
fn literals_cannot_be_assigned_to() {
    let error = parse(vec![Token::IntLiteral(1), Token::Assign, id("y"), Token::Newline]).unwrap_err();
    assert_eq!(error, unexpected(Token::Assign, "invalid assignment target: Int(IntLiteral(1))", (2, 3)));
    let error = parse(vec![Token::IntLiteral(1), Token::PlusEq, id("y"), Token::Newline]).unwrap_err();
    assert_eq!(error, unexpected(Token::Assign, "invalid augmented-assignment target: Int(IntLiteral(1))", (1, 2)));
    let error =
        parse(vec![id("a"), Token::Comma, Token::IntLiteral(1), Token::Assign, id("y"), Token::Newline]).unwrap_err();
    assert_eq!(error, unexpected(Token::Comma, "invalid unpacking target: Int(IntLiteral(1))", (2, 3)));
}

#[test]
fn conditionals_and_loops_nest() {
    // if a: pass NEWLINE elif b: NEWLINE INDENT x DEDENT else: pass
    let kind = one(vec![
        Token::If,
        id("a"),
        Token::Colon,
        Token::Pass,
        Token::Newline,
        Token::Elif,
        id("b"),
        Token::Colon,
        Token::Newline,
        Token::Indent,
        id("x"),
        Token::Newline,
        Token::Dedent,
        Token::Else,
        Token::Colon,
        Token::Break,
        Token::Newline,
    ]);
    let StmtKind::If { branches, orelse } = kind else {
        panic!("not an if");
    };
    assert_eq!(branches.len(), 2);
    assert_eq!(branches[0].1[0].kind, StmtKind::Pass);
    assert_eq!(branches[1].1[0].kind, StmtKind::Expr(name("x", 10)));
    assert_eq!(orelse.unwrap()[0].kind, StmtKind::Break);

    let kind = one(vec![
        Token::For,
        Token::Var,
        id("i"),
        Token::In,
        id("xs"),
        Token::Colon,
        Token::Continue,
        Token::Semicolon,
        Token::Pass,
        Token::Newline,
    ]);
    let StmtKind::For { var, binding, iter, body, orelse } = kind else {
        panic!("not a loop");
    };
    assert_eq!(var, "i");
    assert_eq!(binding, LoopBindingMode::Var);
    assert_eq!(iter, name("xs", 4));
    assert_eq!(body.iter().map(|s| s.kind.clone()).collect::<Vec<_>>(), vec![StmtKind::Continue, StmtKind::Pass]);
    assert!(orelse.is_none());
}

#[test]
fn compile_time_loops_take_no_binding() {
    let error = parse(vec![
        Token::Comptime,
        Token::For,
        Token::Var,
        id("i"),
        Token::In,
        id("xs"),
        Token::Colon,
        Token::Pass,
        Token::Newline,
    ])
    .unwrap_err();
    assert_eq!(
        error,
        unexpected(Token::For, "comptime for cannot use an explicit ref/var binding", (8, 9))
    );
}

#[test]
fn functions_keep_conventions_effects_and_captures() {
    // def f(mut a: Int, b: Bool = True) raises {mut x, y^} -> Int: return a
    let kind = one(vec![
        Token::Def,
        id("f"),
        Token::LParen,
        id("mut"),
        id("a"),
        Token::Colon,
        id("Int"),
        Token::Comma,
        id("b"),
        Token::Colon,
        id("Bool"),
        Token::Assign,
        Token::BoolLiteral(true),
        Token::RParen,
        Token::Raises,
        Token::LBrace,
        id("mut"),
        id("x"),
        Token::Comma,
        id("y"),
        Token::Caret,
        Token::RBrace,
        Token::Arrow,
        id("Int"),
        Token::Colon,
        Token::Return,
        id("a"),
        Token::Newline,
    ]);
    let StmtKind::Def { name: f, params, captures, raises, raises_type, ret, body, .. } = kind else {
        panic!("not a function");
    };
    assert_eq!(f, "f");
    assert_eq!(params[0].convention, Some(ArgConvention::Mut));
    assert_eq!(params[1].default, Some(Expr::new(ExprKind::Bool(true), (12, 13))));
    let captures = captures.unwrap();
    assert_eq!(captures.entries.len(), 2);
    assert_eq!(captures.entries[0].kind, CaptureKind::Mut);
    assert_eq!(captures.entries[1].kind, CaptureKind::Move);
    assert!(raises && raises_type.is_none());
    assert_eq!(ret, Some(Type::Int));
    assert_eq!(body[0].kind, StmtKind::Return(Some(name("a", 26))));
}

fn captures(tokens: Vec<Token>) -> ParseError {
    parser(tokens).parse_capture_list().unwrap_err()
}

#[test]
fn capture_lists_reject_what_they_should() {
    let plain = |token: Token, message: &str| ParseError::UnexpectedToken(token, message.into());
    assert_eq!(
        captures(vec![Token::LBrace, id("x"), Token::Comma, id("x"), Token::RBrace]),
        plain(id("x"), "duplicate capture 'x'")
    );
    assert_eq!(
        captures(vec![Token::LBrace, id("mut"), id("x"), Token::Caret, Token::RBrace]),
        plain(Token::Caret, "'^' requires the 'var' capture convention")
    );
    assert_eq!(
        captures(vec![Token::LBrace, id("read"), id("x"), Token::RBrace]),
        plain(id("read"), "'read' was removed; use 'imm'")
    );
    assert_eq!(
        captures(vec![Token::LBrace, id("mut"), Token::Comma, id("ref"), Token::RBrace]),
        plain(id("capture convention"), "default capture convention was already specified")
    );
    assert_eq!(
        captures(vec![Token::LBrace, Token::Star]),
        plain(Token::Star, "Expected a capture convention or captured name")
    );
    assert_eq!(
        captures(vec![Token::LBrace]),
        ParseError::UnexpectedEof("Expected a token, found EOF".into())
    );
}

#[test]
fn imports() {
    assert_eq!(
        one(vec![Token::Import, id("a"), Token::Dot, id("b"), Token::As, id("c"), Token::Newline]),
        StmtKind::Import { path: vec!["a".into(), "b".into()], alias: Some("c".into()) }
    );
    let kind = one(vec![
        Token::From,
        Token::Ellipsis,
        Token::Dot,
        Token::Import,
        Token::LParen,
        id("x"),
        Token::Comma,
        Token::RParen,
        Token::Newline,
    ]);
    let StmtKind::FromImport { level, path, names } = kind else {
        panic!("not an import");
    };
    assert_eq!((level, path.len()), (4, 0));
    let ImportNames::Names(names) = names else {
        panic!("not names");
    };
    assert_eq!((names.len(), names[0].name.as_str()), (1, "x"));
    let error = parse(vec![Token::From, Token::Import, id("x"), Token::Newline]).unwrap_err();
    assert_eq!(error, unexpected(Token::From, "expected a module name after 'from'", (0, 1)));
}

#[test]
fn a_try_needs_a_handler() {
    let error = parse(vec![Token::Try, Token::Colon, Token::Pass, Token::Newline, Token::Eof]).unwrap_err();
    assert_eq!(
        error,
        unexpected(Token::Try, "a 'try' needs at least one of 'except' or 'finally'", (3, 4))
    );
}

#[test]
fn recovery_goes_on_behind_the_next_statement() {
    let tokens = || {
        lexed(vec![
            Token::Return,
            Token::Star,
            Token::Newline,
            Token::Pass,
            Token::Newline,
            Token::Raise,
            Token::Star,
            Token::Newline,
            Token::Break,
            Token::Newline,
            Token::Eof,
        ])
    };
    let report = Parser::new(tokens()).parse_program_diagnostic(&SimpleGrammar {}, 10);
    assert_eq!(report.errors.len(), 2);
    assert_eq!(
        report.program.iter().map(|s| s.kind.clone()).collect::<Vec<_>>(),
        vec![StmtKind::Pass, StmtKind::Break]
    );
    assert!(!report.truncated);
    let report = Parser::new(tokens()).parse_program_diagnostic(&SimpleGrammar {}, 1);
    assert_eq!((report.errors.len(), report.program.len(), report.truncated), (1, 0, true));
    // The first error is reported even where none is asked for.
    let none = Parser::new(tokens()).parse_program_diagnostic(&SimpleGrammar {}, 0);
    assert_eq!((none.errors.len(), none.truncated), (1, true));
    // What stops at the first error reports the same one.
    let first = Parser::new(tokens()).parse_program(&SimpleGrammar {}).unwrap_err();
    assert_eq!(report.errors[0], first);
}

#[test]
fn recovery_agrees_on_a_program_without_errors() {
    let tokens = || vec![Token::Pass, Token::Newline, Token::Newline, id("x"), Token::Newline, Token::Eof];
    let report = parser(tokens()).parse_program_diagnostic(&SimpleGrammar {}, 10);
    assert_eq!(report.program, parse(tokens()).unwrap());
    assert!(report.errors.is_empty() && !report.truncated);
}

#[test]
fn errors_of_the_lexer_come_through() {
    let broken = || Err(LexError { message: "bad".into() });
    let error = Parser::new(vec![broken()]).parse_program(&SimpleGrammar {}).unwrap_err();
    assert_eq!(error, ParseError::LexerError(LexError { message: "bad".into() }));
    let report = Parser::new(vec![broken(), Ok((Token::Pass, (4, 8)))]).parse_program_diagnostic(&SimpleGrammar {}, 5);
    assert_eq!(report.errors.len(), 1);
    assert_eq!(report.program.len(), 1);
    assert_eq!(report.program[0].span, (4, 8));
}

#[test]
fn structs_are_not_part_of_the_simple_grammar() {
    let error = parse(vec![Token::Struct, id("S")]).unwrap_err();
    assert_eq!(
        error,
        unexpected(Token::Struct, "structs and traits are not part of this grammar", (0, 1))
    );
    let error = parse(vec![Token::At, id("d"), Token::Newline, Token::Pass]).unwrap_err();
    assert_eq!(
        error,
        unexpected(Token::Pass, "a decorator must precede a 'def' or 'struct'", (2, 3))
    );
}

#[test]
fn interpolations_are_one_expression() {
    assert_eq!(parse_interpolation(&SimpleGrammar {}, lexed(vec![id("a")])).unwrap(), name("a", 0));
    let error = parse_interpolation(&SimpleGrammar {}, lexed(vec![id("a"), id("b")])).unwrap_err();
    assert_eq!(error, ParseError::UnexpectedToken(id("b"), "Expected the end of the statement".into()));
}

#[test]
fn conventions_by_word() {
    assert_eq!(convention_word("imm"), Some(ArgConvention::Imm));
    assert_eq!(convention_word("deinit"), Some(ArgConvention::Deinit));
    assert_eq!(convention_word("read"), None);
    assert_eq!(
        removed_convention_error("read"),
        Some(ParseError::UnexpectedToken(id("read"), "'read' was removed; use 'imm'".into()))
    );
    assert_eq!(removed_convention_error("imm"), None);
}

#[test]
fn operators_by_token() {
    assert_eq!(aug_assign_op(&Token::DoubleSlashEq), Some(InfixOp::FloorDiv));
    assert_eq!(aug_assign_op(&Token::Assign), None);
    assert_eq!(infix_precedence(InfixOp::Pow), Precedence::Unary);
    assert_eq!(infix_precedence(InfixOp::NotIn), Precedence::Comparison);
    assert_eq!(infix_precedence(InfixOp::BitXor), Precedence::Sum);
}

#[test]
fn callees_and_arguments_are_names() {
    assert_eq!(call_name(name("f", 0)).unwrap(), "f");
    assert_eq!(
        call_name(integer(1, 0)).unwrap_err(),
        ParseError::UnexpectedToken(Token::LParen, "only named functions can be called, found Int(IntLiteral(1))".into())
    );
    assert_eq!(param_argument_name(&ParamArg::Value(name("n", 0))).unwrap(), "n");
    assert!(param_argument_name(&ParamArg::Type(Type::Int)).is_err());
    assert!(expression_name_starts_lowercase(&name("alpha", 0)));
    assert!(expression_name_starts_lowercase(&name("éclair", 0)));
    assert!(!expression_name_starts_lowercase(&name("Alpha", 0)));
    assert!(!expression_name_starts_lowercase(&name("_x", 0)));
    assert!(!expression_name_starts_lowercase(&integer(1, 0)));
}

#[test]
fn origins_are_told_from_subscripts() {
    let call = |name: &str, args: Vec<Expr>| {
        Expr::new(
            ExprKind::Call { name: name.into(), param_args: vec![], args, kwargs: vec![] },
            (0, 1),
        )
    };
    assert!(is_explicit_origin_argument(&call("origin_of", vec![name("x", 0)])));
    assert!(!is_explicit_origin_argument(&call("origin_of", vec![])));
    assert!(!is_explicit_origin_argument(&call("size_of", vec![name("x", 0)])));
}

#[test]
fn neighbouring_texts_become_one() {
    let mut parts = vec![];
    push_tstring_literal(&mut parts, "a".into());
    push_tstring_literal(&mut parts, "".into());
    push_tstring_literal(&mut parts, "b".into());
    assert_eq!(parts, vec![TStringPart::Literal("ab".into())]);
    parts.push(TStringPart::Value(name("x", 0)));
    push_tstring_literal(&mut parts, "c".into());
    assert_eq!(parts.len(), 3);
}

#[test]
fn self_chains_are_read_again_as_expressions() {
    let chain = Type::Assoc {
        base: Box::new(Type::SelfParam("o".into())),
        name: "part".into(),
        args: vec![ParamArg::Value(Expr::new(ExprKind::Str("element".into()), (0, 1)))],
    };
    let cursor = Parser::new(vec![]);
    assert_eq!(self_param_rooted_expression(&chain), Some(()));
    let expression = cursor.rematerialize_self_param_chain(&chain, 0).unwrap();
    let ExprKind::Index { object, .. } = expression.kind else {
        panic!("not an index");
    };
    assert!(matches!(object.kind, ExprKind::Member { .. }));
    assert_eq!(self_param_rooted_expression(&Type::Int), None);
    assert!(cursor.rematerialize_self_param_chain(&Type::Int, 0).is_none());
}

#[test]
fn trait_methods_may_lack_a_body() {
    let grammar = SimpleGrammar {};
    let mut p = parser(vec![Token::Newline, Token::Indent, Token::Ellipsis, Token::Newline, Token::Dedent]);
    assert_eq!(p.parse_trait_method_body(&grammar).unwrap(), None);
    let mut p = parser(vec![Token::Pass, Token::Newline]);
    assert_eq!(p.parse_trait_method_body(&grammar).unwrap().unwrap()[0].kind, StmtKind::Pass);
}
