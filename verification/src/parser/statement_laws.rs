//! What the pieces of statements promise: each optional piece is there exactly where its
//! token is, and lists keep the order they are read in.

use crate::ast::{
    ArgConvention, CaptureKind, ExprKindModel, ExprModel, PrefixOp, StmtKindModel, StmtModel,
};
use crate::parser::{ParseErrorModel, Precedence, convention_of};
use crate::parser::driver::{
    Cursor, is_boundary, is_word, left, names_something, node_at, past_error, peeked, start_ahead,
    synchronized, taken,
};
use crate::parser::program::{interpolation, trait_method_body};
use crate::parser::simple::{
    comma, default_part, named_type, operand, param, postfix_rest, simple_args, simple_expression,
    simple_params,
};
use crate::parser::stmts::{
    Grammar, annotation_part, assigned, assignment, bad_target, callable_effects,
    capture_convention, capture_list, capture_move, captures_rest, comptime_constant,
    constant_params, dotted_name, dotted_rest, elements_rest, from_import, handler_name,
    import_alias, import_level, import_path, import_stmt, import_targets, initializer, is_place,
    is_target, loop_head, movable, raises_effect, ref_decl, result_type, return_stmt, return_value,
    tuple_display, var_decl, where_clauses, with_items, with_name,
};
use crate::parser::suites::{
    block_body, condition_block, def_stmt, else_part, except_part, finally_part, for_stmt, if_rest,
    line, statement, suite, try_stmt, while_stmt,
};
use crate::token::TokenModel;
use vstd::prelude::*;

verus! {

/// The token ahead of a cursor, if any.
pub open spec fn next(s: Cursor) -> Option<TokenModel> {
    peeked(s)->Ok_0
}

/// Optional suites are there exactly where their word is, and where it is not, nothing
/// is read.
pub proof fn law_optional_suites<G: Grammar>(g: G, s: Cursor, message: Seq<char>)
    ensures
        else_part(g, s, message) matches Ok((e, x)) ==> (x is Some <==> next(s) == Some(TokenModel::Else)) && (x is None
            ==> e == s),
        finally_part(g, s) matches Ok((e, x)) ==> (x is Some <==> next(s) == Some(TokenModel::Finally)) && (x is None
            ==> e == s),
        except_part(g, s) matches Ok((e, x)) ==> (x is Some <==> next(s) == Some(TokenModel::Except)) && (x is None
            ==> e == s),
{
}

/// Optional names, types and values are there exactly where their token is, and where it
/// is not, nothing is read.
pub proof fn law_optional_parts<G: Grammar>(g: G, s: Cursor)
    ensures
        import_alias(s) matches Ok((e, x)) ==> (x is Some <==> next(s) == Some(TokenModel::As))
            && (x is None ==> e == s),
        with_name(s) matches Ok((e, x)) ==> (x is Some <==> next(s) == Some(TokenModel::As)) && (x is None ==> e == s),
        annotation_part(g, s) matches Ok((e, x)) ==> (x is Some <==> next(s) == Some(TokenModel::Colon)) && (x is None
            ==> e == s),
        result_type(g, s) matches Ok((e, x)) ==> (x is Some <==> next(s) == Some(TokenModel::Arrow)) && (x is None
            ==> e == s),
        default_part(s) matches Ok((e, x)) ==> (x is Some <==> next(s) == Some(TokenModel::Assign)) && (x is None
            ==> e == s),
        handler_name(s) matches Ok((e, x)) ==> (x is Some <==> names_something(next(s))) && (x is None ==> e == s) && (
        x is Some ==> next(s) == Some(TokenModel::Identifier(x->Some_0))),
        capture_list(s) matches Ok((e, x)) ==> (next(s) != Some(TokenModel::LBrace) ==> x is None && e == s),
        capture_move(s) matches Ok((e, x)) ==> (x <==> next(s) == Some(TokenModel::Caret)) && (!x ==> e == s),
        comma(s) matches Ok((e, x)) ==> (x <==> next(s) == Some(TokenModel::Comma)) && (!x ==> e == s),
        raises_effect(g, s) matches Ok((e, x)) ==> (x.0 <==> next(s) == Some(TokenModel::Raises))
            && (x.1 is Some ==> x.0)
            && (!x.0 ==> e == s),
        initializer(g, s) matches Ok((e, x)) ==> (next(s) != Some(TokenModel::Assign) ==> x.kind is Uninitialized && e
            == s),
        return_value(g, s) matches Ok((e, x)) ==> (x is None ==> e == s),
{
}

/// The names behind `as` are the ones that stand there.
pub proof fn law_alias_names(s: Cursor)
    requires
        next(s) == Some(TokenModel::As),
        peeked(s) is Ok,
    ensures
        import_alias(s) is Ok ==> next(taken(s)->Ok_0.0) == Some(TokenModel::Identifier(import_alias(s)->Ok_0.1->Some_0)),
        with_name(s) is Ok ==> next(taken(s)->Ok_0.0) == Some(TokenModel::Identifier(with_name(s)->Ok_0.1->Some_0)),
{
}

/// Each leading dot of an import goes one level up, and an ellipsis three.
pub proof fn law_import_level(s: Cursor, level: usize)
    requires
        level < 1000,
        peeked(s) is Ok,
    ensures
        next(s) == Some(TokenModel::Dot) ==> import_level(s, level) == import_level(taken(s)->Ok_0.0, (level + 1) as usize),
        next(s) == Some(TokenModel::Ellipsis) ==> import_level(s, level) == import_level(
            taken(s)->Ok_0.0,
            (level + 3) as usize,
        ),
        next(s) != Some(TokenModel::Dot) && next(s) != Some(TokenModel::Ellipsis) ==> import_level(s, level) == Ok::<
            (Cursor, usize),
            (Cursor, ParseErrorModel),
        >((s, level)),
{
}

/// An import brings everything exactly where a star stands for the names.
pub proof fn law_import_targets(s: Cursor, parenthesized: bool)
    requires
        import_targets(s, parenthesized) is Ok,
    ensures
        import_targets(s, parenthesized)->Ok_0.1 is Wildcard <==> next(s) == Some(TokenModel::Star),
{
}

/// A capture's convention is the word ahead of its name: `var` copies, `imm` borrows,
/// `mut` borrows mutably, `ref` takes a reference; the removed `read` is refused.
pub proof fn law_capture_convention(s: Cursor)
    requires
        peeked(s) is Ok,
    ensures
        next(s) == Some(TokenModel::Var) ==> capture_convention(s)->Ok_0.1 == Some(CaptureKind::Copy),
        is_word(next(s), "imm"@) ==> capture_convention(s)->Ok_0.1 == Some(CaptureKind::Imm),
        is_word(next(s), "mut"@) ==> capture_convention(s)->Ok_0.1 == Some(CaptureKind::Mut),
        is_word(next(s), "ref"@) ==> capture_convention(s)->Ok_0.1 == Some(CaptureKind::Ref),
        is_word(next(s), "read"@) ==> capture_convention(s) is Err,
        capture_convention(s) matches Ok((e, None)) ==> e == s,
        forall|kind: CaptureKind| movable(Some(kind)) ==> kind == CaptureKind::Copy,
        movable(None),
{
    reveal_strlit("imm");
    reveal_strlit("mut");
    reveal_strlit("ref");
    reveal_strlit("read");
    assert("imm"@[0] == 'i' && "mut"@[0] == 'm' && "ref"@[0] == 'r' && "imm"@.len() == 3 && "read"@.len() == 4 && "ref"@.len()
        == 3 && "mut"@.len() == 3);
}

/// How an argument convention is spelled.
pub open spec fn convention_spelling(c: ArgConvention) -> Seq<char> {
    match c {
        ArgConvention::Imm => seq!['i', 'm', 'm'],
        ArgConvention::Mut => seq!['m', 'u', 't'],
        ArgConvention::Var => seq!['v', 'a', 'r'],
        ArgConvention::Out => seq!['o', 'u', 't'],
        ArgConvention::Ref => seq!['r', 'e', 'f'],
        ArgConvention::Deinit => seq!['d', 'e', 'i', 'n', 'i', 't'],
    }
}

/// A word names the convention that is spelled like it; only `var`, which is a word of
/// its own, is named by none.
pub proof fn law_convention_words(word: Seq<char>, c: ArgConvention)
    ensures
        convention_of(word) == Some(c) ==> word == convention_spelling(c) && !(c is Var),
        !(c is Var) ==> convention_of(convention_spelling(c)) == Some(c),
{
    reveal_strlit("imm");
    reveal_strlit("mut");
    reveal_strlit("out");
    reveal_strlit("ref");
    reveal_strlit("deinit");
    assert("imm"@ =~= seq!['i', 'm', 'm']);
    assert("mut"@ =~= seq!['m', 'u', 't']);
    assert("out"@ =~= seq!['o', 'u', 't']);
    assert("ref"@ =~= seq!['r', 'e', 'f']);
    assert("deinit"@ =~= seq!['d', 'e', 'i', 'n', 'i', 't']);
    let w = convention_spelling(c);
    assert(w[0] == 'i' || w[0] == 'm' || w[0] == 'o' || w[0] == 'r' || w[0] == 'd' || w[0] == 'v');
    assert(seq!['i', 'm', 'm'][0] == 'i' && seq!['m', 'u', 't'][0] == 'm' && seq!['o', 'u', 't'][0] == 'o' && seq![
        'r',
        'e',
        'f',
    ][0] == 'r' && seq!['d', 'e', 'i', 'n', 'i', 't'][0] == 'd');
}

/// What is assigned to a name is assigned to that variable, what is assigned to another
/// place to that place, and to nothing else can be assigned.
pub proof fn law_assignment(target: ExprModel, value: ExprModel)
    ensures
        assignment(target, value) is Some <==> is_place(target.kind),
        target.kind is Identifier ==> assignment(target, value) == Some(
            (StmtKindModel::Assign { name: target.kind->Identifier_0, value }),
        ),
        is_place(target.kind) && !(target.kind is Identifier) ==> assignment(target, value) == Some(
            (StmtKindModel::SetPlace { place: target, value }),
        ),
        is_target(target.kind) ==> is_place(target.kind),
        target.kind is Call || target.kind is Int || target.kind is Infix || target.kind is TupleLit ==> !is_place(
            target.kind,
        ),
{
}

/// A list of targets can be unpacked into exactly where each of them is a name, a member
/// or an index.
pub proof fn law_unpacking_targets(targets: Seq<ExprModel>)
    ensures
        bad_target(targets) is None <==> forall|i: int|
            0 <= i < targets.len() ==> (#[trigger] targets[i]).kind is Identifier || targets[i].kind is Member
                || targets[i].kind is Index,
    decreases targets.len(),
{
    if targets.len() > 0 {
        let before = targets.drop_last();
        law_unpacking_targets(before);
        assert forall|i: int| 0 <= i < before.len() implies before[i] == targets[i] by {}
        assert(targets.last() == targets[targets.len() - 1]);
        if bad_target(targets) is None {
            assert forall|i: int| 0 <= i < targets.len() implies (#[trigger] targets[i]).kind is Identifier
                || targets[i].kind is Member || targets[i].kind is Index by {
                if i < before.len() {
                    assert(before[i].kind is Identifier || before[i].kind is Member || before[i].kind is Index);
                }
            }
        }
    }
}

/// One expression is itself; with a comma behind it, it is the first of a tuple.
pub proof fn law_tuple_display<G: Grammar>(g: G, s: Cursor)
    requires
        tuple_display(g, s) is Ok,
    ensures
        g.expression(s, Precedence::Lowest) is Ok,
        ({
            let (m, first) = g.expression(s, Precedence::Lowest)->Ok_0;
            let e = tuple_display(g, s)->Ok_0.1;
            &&& next(m) != Some(TokenModel::Comma) ==> e == first
            &&& next(m) == Some(TokenModel::Comma) ==> e.kind is TupleLit && e.kind->TupleLit_0.len() >= 1
                && e.kind->TupleLit_0[0] == first
        }),
{
    let (m, first) = g.expression(s, Precedence::Lowest)->Ok_0;
    if next(m) == Some(TokenModel::Comma) {
        lemma_elements_keep(g, m, seq![first]);
        let found = elements_rest(g, m, seq![first])->Ok_0.1;
        assert(found.take(1)[0] == found[0]);
    }
}

proof fn lemma_elements_keep<G: Grammar>(g: G, s: Cursor, elements: Seq<ExprModel>)
    requires
        elements_rest(g, s, elements) is Ok,
    ensures
        elements_rest(g, s, elements)->Ok_0.1.len() >= elements.len(),
        elements_rest(g, s, elements)->Ok_0.1.take(elements.len() as int) == elements,
    decreases left(s),
{
    let found = elements_rest(g, s, elements)->Ok_0.1;
    if next(s) == Some(TokenModel::Comma) {
        let n = taken(s)->Ok_0.0;
        let t = next(n);
        if !(t == Some(TokenModel::Newline) || t == Some(TokenModel::Semicolon) || t == Some(TokenModel::Eof) || t is None) {
            let (m, value) = g.expression(n, Precedence::Lowest)->Ok_0;
            lemma_elements_keep(g, m, elements.push(value));
            assert(found.take(elements.len() as int) =~= found.take(elements.len() as int + 1).take(
                elements.len() as int,
            ));
            assert(elements.push(value).take(elements.len() as int) =~= elements);
        } else {
            assert(found.take(elements.len() as int) =~= elements);
        }
    } else {
        assert(found.take(elements.len() as int) =~= elements);
    }
}

/// A declared variable has the name behind `var`, the type behind its colon and the value
/// behind its `=`.
pub proof fn law_variable_declaration<G: Grammar>(g: G, s: Cursor)
    requires
        var_decl(g, s) is Ok,
        var_decl(g, s)->Ok_0.1 is VarDecl,
    ensures
        ({
            let k = var_decl(g, s)->Ok_0.1;
            let n = taken(s)->Ok_0.0;
            let m = taken(n)->Ok_0.0;
            &&& next(s) == Some(TokenModel::Var)
            &&& next(n) == Some(TokenModel::Identifier(k->VarDecl_name))
            &&& (k->VarDecl_ty is Some <==> next(m) == Some(TokenModel::Colon))
            &&& annotation_part(g, m) is Ok && annotation_part(g, m)->Ok_0.1 == k->VarDecl_ty
            &&& initializer(g, annotation_part(g, m)->Ok_0.0) is Ok
            &&& initializer(g, annotation_part(g, m)->Ok_0.0)->Ok_0.1 == k->VarDecl_value
        }),
{
}

/// A reference is declared with the name behind `ref` and the expression behind its `=`.
pub proof fn law_reference_declaration<G: Grammar>(g: G, s: Cursor)
    requires
        ref_decl(g, s) is Ok,
    ensures
        ({
            let k = ref_decl(g, s)->Ok_0.1;
            let n = taken(s)->Ok_0.0;
            let m = taken(n)->Ok_0.0;
            &&& k is RefDecl
            &&& next(n) == Some(TokenModel::Identifier(k->RefDecl_name))
            &&& next(m) == Some(TokenModel::Assign)
            &&& g.expression(taken(m)->Ok_0.0, Precedence::Lowest) is Ok
            &&& g.expression(taken(m)->Ok_0.0, Precedence::Lowest)->Ok_0.1 == k->RefDecl_value
        }),
{
}

/// A loop binds the variable behind its binding word, over the expression behind `in`.
pub proof fn law_loop_head<G: Grammar>(g: G, s: Cursor)
    requires
        loop_head(g, s) is Ok,
    ensures
        ({
            let (var, binding, iter) = loop_head(g, s)->Ok_0.1;
            let n = taken(s)->Ok_0.0;
            let m = if binding is Immutable { n } else { taken(n)->Ok_0.0 };
            let k = taken(m)->Ok_0.0;
            &&& next(s) == Some(TokenModel::For)
            &&& (binding is Var <==> next(n) == Some(TokenModel::Var))
            &&& (binding is Ref <==> is_word(next(n), "ref"@))
            &&& next(m) == Some(TokenModel::Identifier(var))
            &&& next(k) == Some(TokenModel::In)
            &&& g.expression(taken(k)->Ok_0.0, Precedence::Lowest) is Ok
            &&& g.expression(taken(k)->Ok_0.0, Precedence::Lowest)->Ok_0.1 == iter
        }),
{
}

/// A condition is the expression ahead of the colon, and its suite what stands behind it.
pub proof fn law_condition_block<G: Grammar>(g: G, s: Cursor, message: Seq<char>)
    requires
        condition_block(g, s, message) is Ok,
    ensures
        ({
            let (cond, body) = condition_block(g, s, message)->Ok_0.1;
            &&& g.expression(s, Precedence::Lowest) is Ok
            &&& g.expression(s, Precedence::Lowest)->Ok_0.1 == cond
            &&& next(g.expression(s, Precedence::Lowest)->Ok_0.0) == Some(TokenModel::Colon)
            &&& suite(g, taken(g.expression(s, Precedence::Lowest)->Ok_0.0)->Ok_0.0) is Ok
            &&& suite(g, taken(g.expression(s, Precedence::Lowest)->Ok_0.0)->Ok_0.0)->Ok_0.1 == body
        }),
{
}

/// The first branch of a conditional is the one behind `if`, and its `else` is read where
/// the branches end.
pub proof fn law_if_chain<G: Grammar>(g: G, s: Cursor)
    requires
        if_rest(g, s) is Ok,
    ensures
        ({
            let (branches, orelse) = if_rest(g, s)->Ok_0.1;
            let n = taken(s)->Ok_0.0;
            &&& next(s) == Some(TokenModel::If)
            &&& branches.len() >= 1
            &&& condition_block(g, n, "Expected ':' after the if condition"@) is Ok
            &&& condition_block(g, n, "Expected ':' after the if condition"@)->Ok_0.1 == branches[0]
        }),
{
    let n = taken(s)->Ok_0.0;
    let (c, first) = condition_block(g, n, "Expected ':' after the if condition"@)->Ok_0;
    lemma_branches_keep(g, c, seq![first]);
}

proof fn lemma_branches_keep<G: Grammar>(g: G, s: Cursor, branches: Seq<(ExprModel, Seq<StmtModel>)>)
    requires
        branches.len() > 0,
        crate::parser::suites::elif_rest(g, s, branches) is Ok,
    ensures
        crate::parser::suites::elif_rest(g, s, branches)->Ok_0.1.len() >= branches.len(),
        crate::parser::suites::elif_rest(g, s, branches)->Ok_0.1[0] == branches[0],
        next(s) != Some(TokenModel::Elif) ==> crate::parser::suites::elif_rest(g, s, branches)->Ok_0.1 == branches,
        next(s) == Some(TokenModel::Elif)
            ==> crate::parser::suites::elif_rest(g, s, branches)->Ok_0.1.len() > branches.len(),
    decreases left(s),
{
    if next(s) == Some(TokenModel::Elif) {
        let n = taken(s)->Ok_0.0;
        let (c, clause) = condition_block(g, n, "Expected ':' after the elif condition"@)->Ok_0;
        lemma_branches_keep(g, c, branches.push(clause));
    }
}

/// The statements of a block are read in order behind those that were there, up to its
/// end.
pub proof fn law_block_order<G: Grammar>(g: G, s: Cursor, body: Seq<StmtModel>)
    requires
        block_body(g, s, body) is Ok,
    ensures
        block_body(g, s, body)->Ok_0.1.len() >= body.len(),
        block_body(g, s, body)->Ok_0.1.take(body.len() as int) == body,
        next(s) == Some(TokenModel::Dedent) ==> block_body(g, s, body)->Ok_0.1 == body && block_body(g, s, body)->Ok_0.0
            == taken(s)->Ok_0.0,
        next(s) is None ==> block_body(g, s, body)->Ok_0.1 == body,
    decreases left(s),
{
    let found = block_body(g, s, body)->Ok_0.1;
    let t = next(s);
    if t is None || t == Some(TokenModel::Dedent) {
        assert(found.take(body.len() as int) =~= body);
    } else if t == Some(TokenModel::Newline) {
        law_block_order(g, taken(s)->Ok_0.0, body);
    } else {
        let (m, stmt) = statement(g, s)->Ok_0;
        law_block_order(g, m, body.push(stmt));
        assert(found.take(body.len() as int) =~= found.take(body.len() as int + 1).take(body.len() as int));
        assert(body.push(stmt).take(body.len() as int) =~= body);
    }
}

/// Recovering goes on right behind the next line end, semicolon, dedent or end of input,
/// and skips none before it.
pub proof fn law_synchronized(s: Cursor)
    ensures
        exists|n: int|
            0 <= n <= s.rest.len() && #[trigger] s.rest.skip(n) == synchronized(s).rest && (n == s.rest.len() || (n > 0
                && s.rest[n - 1] is Ok && is_boundary(s.rest[n - 1]->Ok_0.0))) && forall|i: int|
                0 <= i < n - 1 ==> !((#[trigger] s.rest[i]) is Ok && is_boundary(s.rest[i]->Ok_0.0)),
        forall|t: TokenModel| is_boundary(t) <==> t is Newline || t is Semicolon || t is Dedent || t is Eof,
    decreases left(s),
{
    if s.rest.len() == 0 {
        assert(s.rest.skip(0) =~= synchronized(s).rest);
    } else {
        let stops = s.rest[0] is Ok && is_boundary(s.rest[0]->Ok_0.0);
        if stops {
            assert(s.rest.skip(1) =~= synchronized(s).rest);
        } else {
            let m = match s.rest[0] {
                Ok((_, span)) => Cursor { last_span: span, ..past_error(s) },
                Err(_) => past_error(s),
            };
            law_synchronized(m);
            let n = choose|n: int|
                0 <= n <= m.rest.len() && #[trigger] m.rest.skip(n) == synchronized(m).rest
                    && (n == m.rest.len() || (n > 0
                    && m.rest[n - 1] is Ok && is_boundary(m.rest[n - 1]->Ok_0.0))) && forall|i: int|
                    0 <= i < n - 1 ==> !((#[trigger] m.rest[i]) is Ok && is_boundary(m.rest[i]->Ok_0.0));
            assert(s.rest.skip(n + 1) =~= m.rest.skip(n));
            assert forall|i: int| 0 <= i < n implies !((#[trigger] s.rest[i]) is Ok
                && is_boundary(s.rest[i]->Ok_0.0)) by {
                if i > 0 {
                    assert(m.rest[i - 1] == s.rest[i]);
                }
            }
            if n > 0 {
                assert(s.rest[n] == m.rest[n - 1]);
            }
        }
    }
}

/// A prefixed expression applies its prefix to what follows, and parentheses leave what
/// they hold as it is.
pub proof fn law_prefixed_operand(s: Cursor)
    requires
        operand(s) is Ok,
    ensures
        next(s) == Some(TokenModel::Minus) ==> {
            let n = taken(s)->Ok_0.0;
            let e = operand(s)->Ok_0.1;
            &&& e.kind is Prefix && e.kind->Prefix_0 == PrefixOp::Neg
            &&& simple_expression(n, Precedence::Unary) is Ok
            &&& *e.kind->Prefix_1 == simple_expression(n, Precedence::Unary)->Ok_0.1
        },
        next(s) == Some(TokenModel::Not) ==> {
            let n = taken(s)->Ok_0.0;
            let e = operand(s)->Ok_0.1;
            &&& e.kind is Prefix && e.kind->Prefix_0 == PrefixOp::Not
            &&& simple_expression(n, Precedence::Not) is Ok
            &&& *e.kind->Prefix_1 == simple_expression(n, Precedence::Not)->Ok_0.1
        },
{
}

/// A parameter has the name ahead of its colon, the type behind it, the convention ahead
/// of its name where there is one, and a default exactly behind an `=`.
pub proof fn law_parameter(s: Cursor)
    requires
        param(s) is Ok,
    ensures
        ({
            let p = param(s)->Ok_0.1;
            let n = taken(s)->Ok_0.0;
            &&& next(s) is Some && next(s)->Some_0 is Identifier
            &&& (p.convention is None <==> !names_something(next(n)))
            &&& p.convention is None ==> next(s) == Some(TokenModel::Identifier(p.name)) && next(n) == Some(
                TokenModel::Colon,
            )
            &&& p.convention is Some ==> next(n) == Some(TokenModel::Identifier(p.name)) && p.convention
                == convention_of(next(s)->Some_0->Identifier_0)
            &&& p.kind is Regular
        }),
{
}

/// The names of the built-in types are theirs alone.
pub proof fn law_named_types(name: Seq<char>)
    ensures
        named_type("Int"@) is Int,
        named_type("UInt"@) is UInt,
        named_type("Bool"@) is Bool,
        named_type("Float64"@) is Float64,
        named_type(name) is Named ==> named_type(name)->Named_0 == name && named_type(name)->Named_1.len() == 0,
        named_type(name) is Int ==> name == "Int"@,
        named_type(name) is UInt ==> name == "UInt"@,
        named_type(name) is Bool ==> name == "Bool"@,
        named_type(name) is Float64 ==> name == "Float64"@,
{
    reveal_strlit("Int");
    reveal_strlit("UInt");
    reveal_strlit("Bool");
    reveal_strlit("StringLiteral");
    reveal_strlit("Float64");
    assert("Int"@.len() == 3 && "UInt"@.len() == 4 && "Bool"@.len() == 4 && "Float64"@.len() == 7
        && "StringLiteral"@.len() == 13);
    assert("UInt"@[0] == 'U' && "Bool"@[0] == 'B');
}

/// A `while` has the condition and the suite behind it, and the `else` suite behind that.
pub proof fn law_while<G: Grammar>(g: G, s: Cursor)
    requires
        while_stmt(g, s) is Ok,
    ensures
        ({
            let k = while_stmt(g, s)->Ok_0.1;
            let head = condition_block(g, taken(s)->Ok_0.0, "Expected ':' after the while condition"@);
            &&& next(s) == Some(TokenModel::While)
            &&& k is While
            &&& head is Ok && head->Ok_0.1 == (k->While_cond, k->While_body)
            &&& (k->While_orelse is Some <==> next(head->Ok_0.0) == Some(TokenModel::Else))
            &&& else_part(g, head->Ok_0.0, "Expected ':' after loop 'else'"@) is Ok
            &&& else_part(g, head->Ok_0.0, "Expected ':' after loop 'else'"@)->Ok_0.1 == k->While_orelse
        }),
{
}

/// A `for` has the head and the suite behind it, and the `else` suite behind that.
pub proof fn law_for<G: Grammar>(g: G, s: Cursor)
    requires
        for_stmt(g, s) is Ok,
    ensures
        ({
            let k = for_stmt(g, s)->Ok_0.1;
            let head = loop_head(g, s);
            let body = suite(g, head->Ok_0.0);
            &&& k is For
            &&& head is Ok && head->Ok_0.1 == (k->For_var, k->For_binding, k->For_iter)
            &&& body is Ok && body->Ok_0.1 == k->For_body
            &&& (k->For_orelse is Some <==> next(body->Ok_0.0) == Some(TokenModel::Else))
            &&& else_part(g, body->Ok_0.0, "Expected ':' after loop 'else'"@)->Ok_0.1 == k->For_orelse
        }),
{
}

/// A `try` has its suite, then its handler, then its `else`, then its `finally`, each
/// where its word is; one of the handler and the `finally` is there.
#[verifier::rlimit(40)]
pub proof fn law_try<G: Grammar>(g: G, s: Cursor)
    requires
        try_stmt(g, s) is Ok,
    ensures
        ({
            let k = try_stmt(g, s)->Ok_0.1;
            let body = suite(g, taken(taken(s)->Ok_0.0)->Ok_0.0);
            let handler = except_part(g, body->Ok_0.0);
            let other = else_part(g, handler->Ok_0.0, "Expected ':' after 'else'"@);
            let last = finally_part(g, other->Ok_0.0);
            &&& next(s) == Some(TokenModel::Try)
            &&& k is Try
            &&& body is Ok && body->Ok_0.1 == k->Try_body
            &&& handler is Ok && handler->Ok_0.1 == k->Try_except
            &&& other is Ok && other->Ok_0.1 == k->Try_orelse
            &&& last is Ok && last->Ok_0.1 == k->Try_finalbody
            &&& k->Try_except is Some || k->Try_finalbody is Some
        }),
{
}

/// A handler binds the name that stands behind `except`, if one does.
pub proof fn law_handler<G: Grammar>(g: G, s: Cursor)
    requires
        except_part(g, s) is Ok,
        next(s) == Some(TokenModel::Except),
    ensures
        ({
            let (name, body) = except_part(g, s)->Ok_0.1->Some_0;
            let n = taken(s)->Ok_0.0;
            &&& except_part(g, s)->Ok_0.1 is Some
            &&& (name is Some <==> names_something(next(n)))
            &&& (name is Some ==> next(n) == Some(TokenModel::Identifier(name->Some_0)))
        }),
{
}

/// A function has the name behind `def`, and the parts of its header in their order:
/// compile-time parameters, parameters, effects, captures, result and constraints, with
/// the suite behind its colon.
#[verifier::rlimit(40)]
pub proof fn law_function<G: Grammar>(g: G, s: Cursor, decorators: Seq<crate::ast::DecoratorModel>)
    requires
        def_stmt(g, s, decorators) is Ok,
    ensures
        ({
            let k = def_stmt(g, s, decorators)->Ok_0.1;
            let n = taken(s)->Ok_0.0;
            let generics = g.type_params(taken(n)->Ok_0.0);
            let params = g.params(taken(generics->Ok_0.0)->Ok_0.0);
            let effects = callable_effects(g, taken(params->Ok_0.0)->Ok_0.0);
            let captures = capture_list(effects->Ok_0.0);
            let result = result_type(g, captures->Ok_0.0);
            &&& next(s) == Some(TokenModel::Def)
            &&& k is Def
            &&& next(n) == Some(TokenModel::Identifier(k->Def_name))
            &&& k->Def_decorators == decorators
            &&& generics is Ok && generics->Ok_0.1 == k->Def_type_params
            &&& params is Ok && params->Ok_0.1.params == k->Def_params
            &&& params->Ok_0.1.positional_only == k->Def_positional_only
            &&& params->Ok_0.1.keyword_only == k->Def_keyword_only
            &&& effects is Ok && effects->Ok_0.1 == (k->Def_raises, k->Def_raises_type)
            &&& captures is Ok && captures->Ok_0.1 == k->Def_captures
            &&& result is Ok && result->Ok_0.1 == k->Def_ret
            &&& (k->Def_ret is Some <==> next(captures->Ok_0.0) == Some(TokenModel::Arrow))
        }),
{
}

/// Names captured in a list are all different, and a default is stated at most once: a
/// list that is read keeps what it had and adds to it.
pub proof fn law_captures(s: Cursor, entries: Seq<crate::ast::CaptureModel>, default: Option<CaptureKind>)
    requires
        captures_rest(s, entries, default) is Ok,
        forall|i: int, j: int|
            0 <= i < j < entries.len() ==> (#[trigger] entries[i]).name != (#[trigger] entries[j]).name,
    ensures
        captures_rest(s, entries, default)->Ok_0.1 is Some,
        ({
            let list = captures_rest(s, entries, default)->Ok_0.1->Some_0;
            &&& forall|i: int, j: int|
                0 <= i < j < list.entries.len()
                    ==> (#[trigger] list.entries[i]).name != (#[trigger] list.entries[j]).name
            &&& default is Some ==> list.default == default
            &&& list.entries.len() >= entries.len()
        }),
    decreases left(s),
{
    if next(s) != Some(TokenModel::RBrace) {
        let (a, convention) = capture_convention(s)->Ok_0;
        let (b, word) = crate::parser::stmts::capture_name(a, convention is None)->Ok_0;
        let (c, moved) = capture_move(b)->Ok_0;
        let kind = crate::parser::stmts::capture_kind(convention, moved);
        let (d, _) = crate::parser::stmts::capture_separator(c)->Ok_0;
        match word {
            Some(name) => {
                let more = entries.push(crate::ast::CaptureModel { name, kind });
                assert forall|i: int, j: int| 0 <= i < j < more.len() implies (#[trigger] more[i]).name != (
                #[trigger] more[j]).name by {
                    if j == entries.len() {
                        assert(entries[i].name != name);
                    } else {
                        assert(entries[i].name != entries[j].name);
                    }
                }
                law_captures(d, more, default);
            },
            None => law_captures(d, entries, Some(kind)),
        }
    }
}

/// An import names the dotted path behind it, and the alias behind that.
pub proof fn law_import(s: Cursor)
    requires
        import_stmt(s) is Ok,
    ensures
        ({
            let k = import_stmt(s)->Ok_0.1;
            let path = dotted_name(taken(s)->Ok_0.0);
            &&& next(s) == Some(TokenModel::Import)
            &&& k is Import
            &&& path is Ok && path->Ok_0.1 == k->Import_path
            &&& (k->Import_alias is Some <==> next(path->Ok_0.0) == Some(TokenModel::As))
            &&& import_alias(path->Ok_0.0)->Ok_0.1 == k->Import_alias
        }),
{
}

/// The words of a dotted name are read in order, one behind each dot.
pub proof fn law_dotted_name(s: Cursor, words: Seq<Seq<char>>)
    requires
        dotted_rest(s, words) is Ok,
    ensures
        next(s) != Some(TokenModel::Dot) ==> dotted_rest(s, words)->Ok_0 == (s, words),
        next(s) == Some(TokenModel::Dot) ==> {
            let n = taken(s)->Ok_0.0;
            &&& next(n) is Some && next(n)->Some_0 is Identifier
            &&& dotted_rest(s, words) == dotted_rest(taken(n)->Ok_0.0, words.push(next(n)->Some_0->Identifier_0))
        },
{
}

/// An import from a module has the level and the path ahead of `import`, and the names
/// behind it.
pub proof fn law_from_import(s: Cursor)
    requires
        from_import(s) is Ok,
    ensures
        ({
            let k = from_import(s)->Ok_0.1;
            let level = import_level(taken(s)->Ok_0.0, 0usize);
            let path = import_path(level->Ok_0.0);
            &&& next(s) == Some(TokenModel::From)
            &&& k is FromImport
            &&& level is Ok && level->Ok_0.1 == k->FromImport_level
            &&& path is Ok && path->Ok_0.1 == k->FromImport_path
            &&& next(path->Ok_0.0) == Some(TokenModel::Import)
            &&& k->FromImport_level > 0 || k->FromImport_path.len() > 0
        }),
{
}

/// A `with` has its items in order, each with the name behind its `as`, and its suite.
pub proof fn law_with_items<G: Grammar>(g: G, s: Cursor, items: Seq<crate::ast::WithItemModel>)
    requires
        with_items(g, s, items) is Ok,
    ensures
        ({
            let found = with_items(g, s, items)->Ok_0.1;
            let context = g.expression(s, Precedence::Lowest);
            &&& found.len() > items.len()
            &&& found.take(items.len() as int) == items
            &&& context is Ok && found[items.len() as int].context == context->Ok_0.1
            &&& with_name(context->Ok_0.0) is Ok && found[items.len() as int].var == with_name(context->Ok_0.0)->Ok_0.1
        }),
    decreases left(s),
{
    let found = with_items(g, s, items)->Ok_0.1;
    let (m, context) = g.expression(s, Precedence::Lowest)->Ok_0;
    let (e, var) = with_name(m)->Ok_0;
    let more = items.push(crate::ast::WithItemModel { context, var });
    if next(e) == Some(TokenModel::Comma) {
        let n = taken(e)->Ok_0.0;
        law_with_items(g, n, more);
        assert(found.take(more.len() as int)[items.len() as int] == more[items.len() as int]);
        assert(found.take(items.len() as int) =~= found.take(more.len() as int).take(items.len() as int));
        assert(more.take(items.len() as int) =~= items);
    } else {
        assert(found == more);
        assert(found.take(items.len() as int) =~= items);
    }
}

/// A return gives back the value behind it, and what is assigned is the value behind
/// the `=`.
pub proof fn law_returned_value<G: Grammar>(g: G, s: Cursor, target: ExprModel)
    ensures
        return_stmt(g, s) matches Ok((e, k)) ==> k is Return && return_value(g, taken(s)->Ok_0.0) is Ok && return_value(
            g,
            taken(s)->Ok_0.0,
        )->Ok_0.1 == k->Return_0,
        return_value(g, s) matches Ok((e, Some(v))) ==> tuple_display(g, s) is Ok && tuple_display(g, s)->Ok_0.1 == v,
        assigned(g, s, target) matches Ok((e, k)) ==> tuple_display(g, s) is Ok && assignment(
            target,
            tuple_display(g, s)->Ok_0.1,
        ) == Some(k),
{
}

/// A compile-time constant has the name behind `comptime`, its type, its constraints and
/// the value behind its `=`.
pub proof fn law_comptime_constant<G: Grammar>(g: G, s: Cursor)
    requires
        comptime_constant(g, s) is Ok,
        comptime_constant(g, s)->Ok_0.1 is Comptime,
    ensures
        ({
            let k = comptime_constant(g, s)->Ok_0.1;
            let params = constant_params(g, taken(s)->Ok_0.0);
            let ty = annotation_part(g, params->Ok_0.0);
            let clauses = where_clauses(g, ty->Ok_0.0);
            let value = g.expression(taken(clauses->Ok_0.0)->Ok_0.0, Precedence::Lowest);
            &&& next(s) == Some(TokenModel::Identifier(k->Comptime_name))
            &&& params is Ok && params->Ok_0.1 == k->Comptime_type_params
            &&& ty is Ok && ty->Ok_0.1 == k->Comptime_ty
            &&& clauses is Ok && clauses->Ok_0.1 == k->Comptime_where_clauses
            &&& next(clauses->Ok_0.0) == Some(TokenModel::Assign)
            &&& value is Ok && value->Ok_0.1 == k->Comptime_value
        }),
{
}

/// A trait method that is only declared has dots for a body; otherwise it has the body
/// that is read.
pub proof fn law_trait_method_body<G: Grammar>(g: G, s: Cursor)
    requires
        trait_method_body(g, s) is Ok,
    ensures
        next(s) == Some(TokenModel::Ellipsis) ==> trait_method_body(g, s)->Ok_0.1 is None,
        next(s) != Some(TokenModel::Ellipsis) && next(s) != Some(TokenModel::Newline)
            ==> trait_method_body(g, s)->Ok_0.1 is Some
            && statement(g, s) is Ok && trait_method_body(g, s)->Ok_0.1->Some_0 == seq![statement(g, s)->Ok_0.1],
{
}

/// An interpolation is one expression and nothing behind it.
pub proof fn law_interpolation<G: Grammar>(g: G, s: Cursor)
    requires
        interpolation(g, s) is Ok,
    ensures
        g.expression(s, Precedence::Lowest) is Ok,
        interpolation(g, s)->Ok_0.1 == g.expression(s, Precedence::Lowest)->Ok_0.1,
        ({
            let m = g.expression(s, Precedence::Lowest)->Ok_0.0;
            next(m) is None || next(m)->Some_0 is Newline || next(m)->Some_0 is Semicolon || next(m)->Some_0 is Eof
        }),
{
}

/// A statement has the range from its first token to the last one that is no layout, and
/// an error of it a place.
pub proof fn law_statement_range<G: Grammar>(g: G, s: Cursor)
    ensures
        statement(g, s) matches Ok((e, stmt)) ==> stmt.span == (start_ahead(s), e.significant_end),
        statement(g, s) matches Err((e, error)) ==> error is At,
        s.rest.len() > 0 && s.rest[0] is Ok ==> start_ahead(s) == s.rest[0]->Ok_0.1.0,
{
}

/// Reading a token goes to the next one, remembers its range, and where it is no layout
/// its end; nothing is read at the end of the input.
pub proof fn law_taken(s: Cursor)
    ensures
        s.rest.len() == 0 ==> taken(s) is Err && peeked(s)->Ok_0 is None,
        s.rest.len() > 0 && s.rest[0] is Ok ==> {
            let (token, span) = s.rest[0]->Ok_0;
            &&& taken(s) is Ok && taken(s)->Ok_0.1 == token
            &&& next(s) == Some(token)
            &&& taken(s)->Ok_0.0.rest == s.rest.drop_first()
            &&& taken(s)->Ok_0.0.last_span == span
            &&& taken(s)->Ok_0.0.semicolon == s.semicolon
            &&& !(token is Newline || token is Indent || token is Dedent || token is Eof)
                ==> taken(s)->Ok_0.0.significant_end
                == span.1
            &&& token is Newline || token is Indent || token is Dedent || token is Eof
                ==> taken(s)->Ok_0.0.significant_end == s.significant_end
        },
        s.rest.len() > 0 && s.rest[0] is Err ==> taken(s) is Err && peeked(s) is Err,
{
}

/// What follows an expression applies to it: a dot and a name take that member of it, and
/// brackets the element at the index between them; anything else leaves it as it is.
#[verifier::rlimit(40)]
pub proof fn law_postfix(s: Cursor, base: ExprModel, from: usize)
    requires
        postfix_rest(s, base, from) is Ok,
    ensures
        next(s) == Some(TokenModel::Dot) ==> {
            let n = taken(s)->Ok_0.0;
            &&& next(n) is Some && next(n)->Some_0 is Identifier
            &&& postfix_rest(s, base, from) == postfix_rest(
                taken(n)->Ok_0.0,
                node_at(
                    taken(n)->Ok_0.0,
                    ExprKindModel::Member { object: Box::new(base), field: next(n)->Some_0->Identifier_0 },
                    from,
                ),
                from,
            )
        },
        next(s) == Some(TokenModel::LBracket) ==> {
            let index = simple_expression(taken(s)->Ok_0.0, Precedence::Lowest);
            &&& index is Ok
            &&& next(index->Ok_0.0) == Some(TokenModel::RBracket)
            &&& postfix_rest(s, base, from) == postfix_rest(
                taken(index->Ok_0.0)->Ok_0.0,
                node_at(
                    taken(index->Ok_0.0)->Ok_0.0,
                    ExprKindModel::Index { object: Box::new(base), index: Box::new(index->Ok_0.1) },
                    from,
                ),
                from,
            )
        },
        next(s) != Some(TokenModel::Dot) && next(s) != Some(TokenModel::LBracket) && next(s) != Some(TokenModel::LParen)
            ==> postfix_rest(s, base, from)->Ok_0 == (s, base),
        next(s) == Some(TokenModel::LParen) ==> base.kind is Identifier,
{
}

/// A slash makes the parameters ahead of it positional only, and a star those behind it
/// keyword only; at the parenthesis the list ends.
pub proof fn law_parameter_markers(
    s: Cursor,
    params: Seq<crate::ast::FnParamModel>,
    positional_only: Option<usize>,
    keyword_only: Option<usize>,
)
    requires
        simple_params(s, params, positional_only, keyword_only) is Ok,
        params.len() <= usize::MAX,
    ensures
        next(s) == Some(TokenModel::RParen) ==> {
            let list = simple_params(s, params, positional_only, keyword_only)->Ok_0.1;
            list.params == params && list.positional_only == positional_only && list.keyword_only == keyword_only
        },
        next(s) == Some(TokenModel::Slash) && next(taken(s)->Ok_0.0) == Some(TokenModel::Comma) ==> simple_params(
            s,
            params,
            positional_only,
            keyword_only,
        ) == simple_params(
            taken(taken(s)->Ok_0.0)->Ok_0.0,
            params,
            Some(params.len() as usize),
            keyword_only,
        ),
        next(s) == Some(TokenModel::Star) && next(taken(s)->Ok_0.0) == Some(TokenModel::Comma) ==> simple_params(
            s,
            params,
            positional_only,
            keyword_only,
        ) == simple_params(
            taken(taken(s)->Ok_0.0)->Ok_0.0,
            params,
            positional_only,
            Some(params.len() as usize),
        ),
{
}

/// Arguments end at the parenthesis; a name with an `=` behind it names the argument that
/// follows, and every other argument takes its place in order.
#[verifier::rlimit(40)]
pub proof fn law_arguments(s: Cursor, args: Seq<ExprModel>, kwargs: Seq<crate::ast::KwArgModel>)
    requires
        simple_args(s, args, kwargs) is Ok,
    ensures
        next(s) == Some(TokenModel::RParen) ==> simple_args(s, args, kwargs)->Ok_0 == (s, (args, kwargs)),
        next(s) != Some(TokenModel::RParen) ==> {
            let (m, value) = simple_expression(s, Precedence::Lowest)->Ok_0;
            &&& simple_expression(s, Precedence::Lowest) is Ok
            &&& next(m) == Some(TokenModel::Assign) ==> value.kind is Identifier
            &&& next(m) == Some(TokenModel::Comma) && left(taken(m)->Ok_0.0) < left(s) ==> simple_args(s, args, kwargs)
                == simple_args(taken(m)->Ok_0.0, args.push(value), kwargs)
            &&& next(m) != Some(TokenModel::Assign) && next(m) != Some(TokenModel::Comma) ==> simple_args(
                s,
                args,
                kwargs,
            )->Ok_0 == (m, (args.push(value), kwargs))
        },
{
}

} // verus!
