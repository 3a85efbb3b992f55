//! What reading promises: how statements hang together with the tokens they are read
//! from.

use crate::ast::{CaptureKind, ExprKindModel, ExprModel, InfixOp};
use crate::parser::{Precedence, augmented, binding_power, right_level};
use crate::parser::driver::{
    Cursor, ahead, behind, ended, identifier, is_word, left, node_at, peeked, start_ahead, taken,
};
use crate::parser::simple::{
    atom, infix_ahead, infix_rest, operand, own_level, postfix_rest, simple_expression,
};
use crate::parser::stmts::{
    Grammar, assignment, capture_kind, dotted_rest, expr_or_assign, is_place,
};
use crate::parser::suites::{condition_block, elif_rest, statement, statement_kind};
use crate::token::TokenModel;
use vstd::prelude::*;

verus! {

/// How an operator between two operands is spelled.
pub open spec fn operator_spelling(op: InfixOp) -> Seq<char> {
    match op {
        InfixOp::Add => seq!['+'],
        InfixOp::Sub => seq!['-'],
        InfixOp::Mul => seq!['*'],
        InfixOp::Div => seq!['/'],
        InfixOp::FloorDiv => seq!['/', '/'],
        InfixOp::Mod => seq!['%'],
        InfixOp::Pow => seq!['*', '*'],
        InfixOp::MatMul => seq!['@'],
        InfixOp::Shl => seq!['<', '<'],
        InfixOp::Shr => seq!['>', '>'],
        InfixOp::BitAnd => seq!['&'],
        InfixOp::BitOr => seq!['|'],
        InfixOp::BitXor => seq!['^'],
        InfixOp::Lt => seq!['<'],
        InfixOp::Gt => seq!['>'],
        InfixOp::Le => seq!['<', '='],
        InfixOp::Ge => seq!['>', '='],
        InfixOp::Eq => seq!['=', '='],
        InfixOp::Ne => seq!['!', '='],
        InfixOp::And => seq!['a', 'n', 'd'],
        InfixOp::Or => seq!['o', 'r'],
        InfixOp::In => seq!['i', 'n'],
        InfixOp::NotIn => seq!['n', 'o', 't', ' ', 'i', 'n'],
    }
}

/// How a token of operators and augmented assignments is spelled; other tokens have no
/// spelling here.
pub open spec fn token_spelling(t: TokenModel) -> Seq<char> {
    match t {
        TokenModel::Plus => seq!['+'],
        TokenModel::Minus => seq!['-'],
        TokenModel::Star => seq!['*'],
        TokenModel::Slash => seq!['/'],
        TokenModel::DoubleSlash => seq!['/', '/'],
        TokenModel::Percent => seq!['%'],
        TokenModel::DoubleStar => seq!['*', '*'],
        TokenModel::At => seq!['@'],
        TokenModel::Amp => seq!['&'],
        TokenModel::Pipe => seq!['|'],
        TokenModel::Caret => seq!['^'],
        TokenModel::PlusEq => seq!['+', '='],
        TokenModel::MinusEq => seq!['-', '='],
        TokenModel::StarEq => seq!['*', '='],
        TokenModel::SlashEq => seq!['/', '='],
        TokenModel::DoubleSlashEq => seq!['/', '/', '='],
        TokenModel::PercentEq => seq!['%', '='],
        TokenModel::DoubleStarEq => seq!['*', '*', '='],
        TokenModel::AmpEq => seq!['&', '='],
        TokenModel::PipeEq => seq!['|', '='],
        TokenModel::CaretEq => seq!['^', '='],
        TokenModel::EqEq => seq!['=', '='],
        TokenModel::NotEq => seq!['!', '='],
        TokenModel::Less => seq!['<'],
        TokenModel::Greater => seq!['>'],
        TokenModel::LessEq => seq!['<', '='],
        TokenModel::GreaterEq => seq!['>', '='],
        TokenModel::And => seq!['a', 'n', 'd'],
        TokenModel::Or => seq!['o', 'r'],
        TokenModel::In => seq!['i', 'n'],
        _ => Seq::empty(),
    }
}

/// A token stands between operands for the operator that is spelled like it.
pub proof fn law_infix_spelling(t: TokenModel, op: InfixOp)
    ensures
        infix_ahead(Some(t)) == Some(op) <==> token_spelling(t) == operator_spelling(op),
{
    let (a, b) = (token_spelling(t), operator_spelling(op));
    if a.len() == b.len() && a.len() > 0 {
        assert(a[0] == b[0] && (a.len() > 1 ==> a[1] == b[1]) <==> infix_ahead(Some(t)) == Some(op));
        if infix_ahead(Some(t)) == Some(op) {
            assert(a =~= b);
        }
    }
}

/// The operator of an augmented assignment is the one whose own spelling is the token's
/// without its `=`: the operator that the token without it stands for between operands.
/// Different tokens give different operators.
pub proof fn law_augmented_spelling(t: TokenModel, plain: TokenModel, other: TokenModel)
    ensures
        augmented(t) is Some ==> token_spelling(t) == operator_spelling(augmented(t)->Some_0).push('='),
        augmented(t) is Some && token_spelling(t) == token_spelling(plain).push('=') ==> infix_ahead(Some(plain))
            == augmented(t),
        infix_ahead(Some(plain)) is Some && !(plain is Less || plain is Greater) && token_spelling(t) == token_spelling(
            plain,
        ).push('=') ==> augmented(t) == infix_ahead(Some(plain)),
        augmented(t) is Some && augmented(t) == augmented(other) ==> t == other,
{
    if augmented(t) is Some {
        assert(token_spelling(t) =~= operator_spelling(augmented(t)->Some_0).push('='));
    }
    if token_spelling(t) == token_spelling(plain).push('=') {
        let (a, b) = (token_spelling(t), token_spelling(plain));
        assert(a.len() == b.len() + 1);
        assert(a[b.len() as int] == '=');
        if b.len() > 0 {
            assert(a[0] == b[0]);
            if b.len() > 1 {
                assert(a[1] == b[1]);
            }
        }
    }
}

/// Each level binds tighter than the one before it, and no two bind alike.
pub proof fn law_levels(a: Precedence, b: Precedence)
    ensures
        binding_power(Precedence::Lowest) < binding_power(Precedence::Walrus) < binding_power(Precedence::Conditional)
            < binding_power(Precedence::Or) < binding_power(Precedence::And) < binding_power(Precedence::Not)
            < binding_power(Precedence::Comparison) < binding_power(Precedence::Sum) < binding_power(
            Precedence::Product,
        ) < binding_power(Precedence::Unary) < binding_power(Precedence::Power) < binding_power(Precedence::Call),
        binding_power(a) == binding_power(b) ==> a == b,
{
}

/// Whether an operator compares or tests membership.
pub open spec fn relates(op: InfixOp) -> bool {
    op is Eq || op is Ne || op is Lt || op is Gt || op is Le || op is Ge || op is In || op is NotIn
}

/// Whether an operator multiplies or divides.
pub open spec fn multiplies(op: InfixOp) -> bool {
    op is Mul || op is Div || op is FloorDiv || op is Mod || op is MatMul
}

/// Whether an operator adds, subtracts, shifts or combines bits.
pub open spec fn sums(op: InfixOp) -> bool {
    op is Add || op is Sub || op is Shl || op is Shr || op is BitAnd || op is BitOr || op is BitXor
}

/// Powers bind tighter than products, those tighter than sums, those tighter than
/// comparisons, those tighter than `and`, and that tighter than `or`; operators of one
/// family bind alike. Every operator takes its right operand at its own level, so that
/// it associates to the left, but for a power, which takes another power to its right.
pub proof fn law_operator_levels(a: InfixOp, b: InfixOp)
    ensures
        a is Pow && !(b is Pow) ==> binding_power(own_level(a)) > binding_power(own_level(b)),
        multiplies(a) && (sums(b) || relates(b) || b is And || b is Or) ==> binding_power(own_level(a))
            > binding_power(own_level(b)),
        sums(a) && (relates(b) || b is And || b is Or) ==> binding_power(own_level(a)) > binding_power(own_level(b)),
        relates(a) && (b is And || b is Or) ==> binding_power(own_level(a)) > binding_power(own_level(b)),
        a is And && b is Or ==> binding_power(own_level(a)) > binding_power(own_level(b)),
        (multiplies(a) && multiplies(b)) || (sums(a) && sums(b)) || (relates(a) && relates(b)) ==> own_level(a)
            == own_level(b),
        !(a is Pow) ==> right_level(a) == own_level(a),
        a is Pow ==> binding_power(right_level(a)) < binding_power(own_level(a)),
        a is Pow && !(b is Pow) ==> binding_power(own_level(b)) < binding_power(right_level(a)),
        binding_power(own_level(a)) > binding_power(Precedence::Lowest),
{
}

/// Whether the tokens ahead are the given ones and nothing else.
pub open spec fn spells(s: Cursor, tokens: Seq<TokenModel>) -> bool {
    s.rest.len() == tokens.len() && forall|i: int|
        0 <= i < tokens.len() ==> (#[trigger] s.rest[i]) is Ok && s.rest[i]->Ok_0.0 == tokens[i]
}

proof fn lemma_spelled(s: Cursor, tokens: Seq<TokenModel>)
    requires
        spells(s, tokens),
        tokens.len() > 0,
    ensures
        peeked(s) == Ok::<Option<TokenModel>, (Cursor, crate::parser::ParseErrorModel)>(Some(tokens[0])),
        taken(s) is Ok,
        taken(s)->Ok_0.1 == tokens[0],
        spells(taken(s)->Ok_0.0, tokens.drop_first()),
        left(taken(s)->Ok_0.0) == left(s) - 1,
{
    assert(s.rest[0] is Ok);
    let n = taken(s)->Ok_0.0;
    assert forall|i: int| 0 <= i < tokens.drop_first().len() implies (#[trigger] n.rest[i]) is Ok
        && n.rest[i]->Ok_0.0 == tokens.drop_first()[i] by {
        assert(n.rest[i] == s.rest[i + 1]);
    }
}

/// A name by itself is read as that name.
proof fn lemma_name_operand(s: Cursor, name: Seq<char>, tokens: Seq<TokenModel>)
    requires
        spells(s, tokens),
        tokens.len() > 0,
        tokens[0] == TokenModel::Identifier(name),
        tokens.len() > 1 ==> !(tokens[1] is Dot || tokens[1] is LBracket || tokens[1] is LParen),
    ensures
        operand(s) is Ok,
        spells(operand(s)->Ok_0.0, tokens.drop_first()),
        operand(s)->Ok_0.1.kind == ExprKindModel::Identifier(name),
{
    lemma_spelled(s, tokens);
    let n = taken(s)->Ok_0.0;
    if tokens.len() > 1 {
        lemma_spelled(n, tokens.drop_first());
        assert(tokens.drop_first()[0] == tokens[1]);
    }
    let node = node_at(n, ExprKindModel::Identifier(name), start_ahead(s));
    assert(atom(tokens[0]) == Some(ExprKindModel::Identifier(name)));
    assert(postfix_rest(n, node, start_ahead(s)) == Ok::<(Cursor, ExprModel), (Cursor, crate::parser::ParseErrorModel)>(
        (n, node),
    ));
    assert(operand(s) == postfix_rest(n, node, start_ahead(s)));
}

/// Whether an expression is a name.
pub open spec fn is_named(e: ExprModel, name: Seq<char>) -> bool {
    e.kind == ExprKindModel::Identifier(name)
}

/// Whether an expression applies an operator to two others.
pub open spec fn applies(e: ExprModel, op: InfixOp) -> bool {
    e.kind is Infix && e.kind->Infix_0 == op
}

proof fn lemma_last_operand(s: Cursor, name: Seq<char>, level: Precedence)
    requires
        spells(s, seq![TokenModel::Identifier(name)]),
    ensures
        simple_expression(s, level) is Ok,
        is_named(simple_expression(s, level)->Ok_0.1, name),
        left(simple_expression(s, level)->Ok_0.0) == 0,
{
    lemma_name_operand(s, name, seq![TokenModel::Identifier(name)]);
    let (n, first) = operand(s)->Ok_0;
    assert(left(n) == 0);
    assert(simple_expression(s, level) == infix_rest(n, first, level, start_ahead(s)));
    assert(infix_rest(n, first, level, start_ahead(s)) == Ok::<(Cursor, ExprModel), (Cursor, crate::parser::ParseErrorModel)>(
        (n, first),
    ));
}

proof fn lemma_two_operands(
    s: Cursor,
    a: Seq<char>,
    t: TokenModel,
    op: InfixOp,
    b: Seq<char>,
    level: Precedence,
)
    requires
        spells(s, seq![TokenModel::Identifier(a), t, TokenModel::Identifier(b)]),
        infix_ahead(Some(t)) == Some(op),
        binding_power(own_level(op)) > binding_power(level),
    ensures
        simple_expression(s, level) is Ok,
        left(simple_expression(s, level)->Ok_0.0) == 0,
        applies(simple_expression(s, level)->Ok_0.1, op),
        is_named(*simple_expression(s, level)->Ok_0.1.kind->Infix_1, a),
        is_named(*simple_expression(s, level)->Ok_0.1.kind->Infix_2, b),
{
    let tokens = seq![TokenModel::Identifier(a), t, TokenModel::Identifier(b)];
    lemma_name_operand(s, a, tokens);
    let (n, first) = operand(s)->Ok_0;
    assert(tokens.drop_first() =~= seq![t, TokenModel::Identifier(b)]);
    lemma_spelled(n, tokens.drop_first());
    let m = taken(n)->Ok_0.0;
    assert(tokens.drop_first().drop_first() =~= seq![TokenModel::Identifier(b)]);
    lemma_last_operand(m, b, right_level(op));
    let (e, rhs) = simple_expression(m, right_level(op))->Ok_0;
    let from = start_ahead(s);
    let both = node_at(e, ExprKindModel::Infix(op, Box::new(first), Box::new(rhs)), from);
    assert(simple_expression(s, level) == infix_rest(n, first, level, from));
    assert(infix_rest(n, first, level, from) == infix_rest(e, both, level, from));
    assert(infix_rest(e, both, level, from) == Ok::<(Cursor, ExprModel), (Cursor, crate::parser::ParseErrorModel)>(
        (e, both),
    ));
}

/// Of two operators in a row the one that binds tighter takes the operand between them;
/// the first one does where they bind alike, unless it is a power.
pub proof fn law_operators_in_a_row(
    s: Cursor,
    a: Seq<char>,
    t: TokenModel,
    op: InfixOp,
    b: Seq<char>,
    u: TokenModel,
    next: InfixOp,
    c: Seq<char>,
)
    requires
        spells(
            s,
            seq![TokenModel::Identifier(a), t, TokenModel::Identifier(b), u, TokenModel::Identifier(c)],
        ),
        infix_ahead(Some(t)) == Some(op),
        infix_ahead(Some(u)) == Some(next),
    ensures
        simple_expression(s, Precedence::Lowest) is Ok,
        ({
            let e = simple_expression(s, Precedence::Lowest)->Ok_0.1;
            if binding_power(own_level(next)) > binding_power(own_level(op)) || (op is Pow && next is Pow) {
                &&& applies(e, op)
                &&& is_named(*e.kind->Infix_1, a)
                &&& applies(*e.kind->Infix_2, next)
                &&& is_named(*(*e.kind->Infix_2).kind->Infix_1, b)
                &&& is_named(*(*e.kind->Infix_2).kind->Infix_2, c)
            } else {
                &&& applies(e, next)
                &&& applies(*e.kind->Infix_1, op)
                &&& is_named(*(*e.kind->Infix_1).kind->Infix_1, a)
                &&& is_named(*(*e.kind->Infix_1).kind->Infix_2, b)
                &&& is_named(*e.kind->Infix_2, c)
            }
        }),
{
    let tokens = seq![TokenModel::Identifier(a), t, TokenModel::Identifier(b), u, TokenModel::Identifier(c)];
    let level = Precedence::Lowest;
    law_operator_levels(op, next);
    law_operator_levels(next, op);
    lemma_name_operand(s, a, tokens);
    let (n, first) = operand(s)->Ok_0;
    let from = start_ahead(s);
    assert(tokens.drop_first() =~= seq![t, TokenModel::Identifier(b), u, TokenModel::Identifier(c)]);
    lemma_spelled(n, tokens.drop_first());
    let m = taken(n)->Ok_0.0;
    let rest = seq![TokenModel::Identifier(b), u, TokenModel::Identifier(c)];
    assert(tokens.drop_first().drop_first() =~= rest);
    assert(simple_expression(s, level) == infix_rest(n, first, level, from));
    if binding_power(own_level(next)) > binding_power(right_level(op)) {
        lemma_two_operands(m, b, u, next, c, right_level(op));
        let (e, rhs) = simple_expression(m, right_level(op))->Ok_0;
        let both = node_at(e, ExprKindModel::Infix(op, Box::new(first), Box::new(rhs)), from);
        assert(infix_rest(n, first, level, from) == infix_rest(e, both, level, from));
        assert(infix_rest(e, both, level, from) == Ok::<(Cursor, ExprModel), (Cursor, crate::parser::ParseErrorModel)>(
            (e, both),
        ));
    } else {
        lemma_name_operand(m, b, rest);
        let (k, second) = operand(m)->Ok_0;
        assert(rest.drop_first() =~= seq![u, TokenModel::Identifier(c)]);
        lemma_spelled(k, rest.drop_first());
        assert(infix_rest(k, second, right_level(op), start_ahead(m)) == Ok::<
            (Cursor, ExprModel),
            (Cursor, crate::parser::ParseErrorModel),
        >((k, second)));
        assert(simple_expression(m, right_level(op)) == Ok::<
            (Cursor, ExprModel),
            (Cursor, crate::parser::ParseErrorModel),
        >((k, second)));
        let both = node_at(k, ExprKindModel::Infix(op, Box::new(first), Box::new(second)), from);
        assert(infix_rest(n, first, level, from) == infix_rest(k, both, level, from));
        let j = taken(k)->Ok_0.0;
        assert(rest.drop_first().drop_first() =~= seq![TokenModel::Identifier(c)]);
        lemma_last_operand(j, c, right_level(next));
        let (e, rhs) = simple_expression(j, right_level(next))->Ok_0;
        let all = node_at(e, ExprKindModel::Infix(next, Box::new(both), Box::new(rhs)), from);
        assert(infix_rest(k, both, level, from) == infix_rest(e, all, level, from));
        assert(infix_rest(e, all, level, from) == Ok::<(Cursor, ExprModel), (Cursor, crate::parser::ParseErrorModel)>(
            (e, all),
        ));
    }
}

/// What a statement that starts with an expression is, by the token behind it: an
/// augmented assignment of that expression with the operator that the token spells
/// ahead of its `=`, an assignment to it, or the expression itself.
#[verifier::rlimit(40)]
pub proof fn law_expression_statement<G: Grammar>(g: G, s: Cursor)
    requires
        g.expression(s, Precedence::Lowest) is Ok,
        expr_or_assign(g, s) is Ok,
    ensures
        ({
            let (m, target) = g.expression(s, Precedence::Lowest)->Ok_0;
            let k = expr_or_assign(g, s)->Ok_0.1;
            let t = peeked(m)->Ok_0;
            &&& peeked(m) is Ok
            &&& k is AugAssign ==> {
                &&& t is Some
                &&& token_spelling(t->Some_0) == operator_spelling(k->AugAssign_op).push('=')
                &&& k->AugAssign_place == target
                &&& is_place(target.kind)
                &&& g.expression(taken(m)->Ok_0.0, Precedence::Lowest) is Ok
                &&& g.expression(taken(m)->Ok_0.0, Precedence::Lowest)->Ok_0.1 == k->AugAssign_value
            }
            &&& (t is Some && augmented(t->Some_0) is Some ==> k is AugAssign)
            &&& (t == Some(TokenModel::Assign) ==> {
                &&& k is Assign || k is SetPlace
                &&& k is Assign ==> is_named(target, k->Assign_name)
                &&& k is SetPlace ==> k->SetPlace_place == target && !(target.kind is Identifier)
            })
            &&& (k is Expr && t != Some(TokenModel::Comma) ==> k->Expr_0 == target)
            &&& (k is Assign || k is SetPlace ==> t == Some(TokenModel::Assign))
            &&& (k is Unpack ==> t == Some(TokenModel::Comma) && !k->Unpack_declares)
        }),
{
    let (m, target) = g.expression(s, Precedence::Lowest)->Ok_0;
    let t = peeked(m)->Ok_0;
    if t is Some {
        law_augmented_spelling(t->Some_0, t->Some_0, t->Some_0);
    }
}

/// A statement is of the kind that its first word names.
#[verifier::rlimit(40)]
pub proof fn law_statement_words<G: Grammar>(g: G, s: Cursor)
    requires
        statement_kind(g, s) is Ok,
        s.rest.len() > 0,
    ensures
        ({
            let t = peeked(s)->Ok_0->Some_0;
            let k = statement_kind(g, s)->Ok_0.1;
            &&& (t is Var ==> k is VarDecl || (k is Unpack && k->Unpack_declares))
            &&& (t is Def ==> k is Def)
            &&& (t is If ==> k is If)
            &&& (t is While ==> k is While)
            &&& (t is For ==> k is For)
            &&& (t is With ==> k is With)
            &&& (t is Try ==> k is Try)
            &&& (t is Return ==> k is Return)
            &&& (t is Raise ==> k is Raise)
            &&& (t is Import ==> k is Import)
            &&& (t is From ==> k is FromImport)
            &&& (t is Break ==> k is Break)
            &&& (t is Continue ==> k is Continue)
            &&& (t is Pass || t is Ellipsis || t is TripleStringLiteral ==> k is Pass)
            &&& (t is Comptime ==> k is Comptime || k is ComptimeIf || k is ComptimeFor || k is Expr)
            &&& (k is If && !(t is Struct || t is Trait || t is At) ==> t is If)
            &&& (k is While && !(t is Struct || t is Trait || t is At) ==> t is While)
            &&& (k is Return && !(t is Struct || t is Trait || t is At) ==> t is Return)
            &&& (k is Raise && !(t is Struct || t is Trait || t is At) ==> t is Raise)
        }),
{
}

/// The pieces of compound statements come from the tokens that announce them: a
/// condition stands behind its word, a loop has an `else` and a `try` a `finally` only
/// where the word is there, and a `try` has a handler or a `finally`.
#[verifier::rlimit(40)]
pub proof fn law_compound_statements<G: Grammar>(g: G, s: Cursor)
    requires
        statement_kind(g, s) is Ok,
        s.rest.len() > 0,
    ensures
        ({
            let t = peeked(s)->Ok_0->Some_0;
            let k = statement_kind(g, s)->Ok_0.1;
            let n = taken(s)->Ok_0.0;
            &&& (t is If ==> k->If_branches.len() >= 1 && g.expression(n, Precedence::Lowest) is Ok)
            &&& (t is While ==> g.expression(n, Precedence::Lowest) is Ok && k->While_cond == g.expression(
                n,
                Precedence::Lowest,
            )->Ok_0.1)
            &&& (t is Raise ==> g.expression(n, Precedence::Lowest) is Ok && k->Raise_0 == g.expression(
                n,
                Precedence::Lowest,
            )->Ok_0.1)
            &&& (t is Return ==> (k->Return_0 is None <==> peeked(n)->Ok_0 is None || peeked(n)->Ok_0->Some_0 is Newline
                || peeked(n)->Ok_0->Some_0 is Eof))
            &&& (t is Try ==> k->Try_except is Some || k->Try_finalbody is Some)
            &&& (t is Def ==> peeked(n)->Ok_0 == Some(TokenModel::Identifier(k->Def_name)))
            &&& (t is Import ==> k->Import_path.len() >= 1 && peeked(n)->Ok_0 == Some(
                TokenModel::Identifier(k->Import_path[0]),
            ))
            &&& (t is From ==> k->FromImport_level > 0 || k->FromImport_path.len() > 0)
            &&& (t is Var && k is VarDecl ==> peeked(n)->Ok_0 == Some(TokenModel::Identifier(k->VarDecl_name)))
            &&& (t is For ==> {
                let words = peeked(n)->Ok_0;
                &&& (words == Some(TokenModel::Var) <==> k->For_binding is Var)
                &&& (k->For_binding is Ref ==> is_word(words, "ref"@))
                &&& (is_word(words, "ref"@) ==> k->For_binding is Ref)
            })
        }),
{
    let t = peeked(s)->Ok_0->Some_0;
    let n = taken(s)->Ok_0.0;
    if t is If {
        let (c, first) = condition_block(g, n, "Expected ':' after the if condition"@)->Ok_0;
        lemma_elif_keeps(g, c, seq![first]);
    }
    if t is Import {
        let (m, word) = identifier(n, "Expected a module name"@)->Ok_0;
        lemma_dotted_keeps(m, seq![word]);
    }
}

proof fn lemma_elif_keeps<G: Grammar>(g: G, s: Cursor, branches: Seq<(ExprModel, Seq<crate::ast::StmtModel>)>)
    requires
        branches.len() > 0,
        elif_rest(g, s, branches) is Ok,
    ensures
        elif_rest(g, s, branches)->Ok_0.1.len() >= branches.len(),
        elif_rest(g, s, branches)->Ok_0.1[0] == branches[0],
    decreases left(s),
{
    let t = peeked(s)->Ok_0;
    if t == Some(TokenModel::Elif) {
        let n = taken(s)->Ok_0.0;
        let (c, clause) = condition_block(g, n, "Expected ':' after the elif condition"@)->Ok_0;
        lemma_elif_keeps(g, c, branches.push(clause));
    }
}

proof fn lemma_dotted_keeps(s: Cursor, words: Seq<Seq<char>>)
    requires
        words.len() > 0,
        dotted_rest(s, words) is Ok,
    ensures
        dotted_rest(s, words)->Ok_0.1.len() >= words.len(),
        dotted_rest(s, words)->Ok_0.1[0] == words[0],
    decreases left(s),
{
    let t = peeked(s)->Ok_0;
    if t == Some(TokenModel::Dot) {
        let n = taken(s)->Ok_0.0;
        let (c, word) = identifier(n, "Expected a name after '.'"@)->Ok_0;
        lemma_dotted_keeps(c, words.push(word));
    }
}

/// A statement ends at a line, a `;` or the end of the input, and nowhere else; the end
/// of the input stays ahead, and only a `;` is remembered.
pub proof fn law_statement_end(s: Cursor)
    ensures
        s.rest.len() == 0 ==> ended(s) is Ok && ended(s)->Ok_0.0.rest == s.rest,
        s.rest.len() > 0 && s.rest[0] is Ok ==> {
            let t = s.rest[0]->Ok_0.0;
            &&& (ended(s) is Ok <==> t is Newline || t is Semicolon || t is Eof)
            &&& (ended(s) is Ok ==> ended(s)->Ok_0.0.semicolon == t is Semicolon)
            &&& (t is Newline || t is Semicolon ==> ended(s)->Ok_0.0.rest == s.rest.drop_first())
            &&& (t is Eof ==> ended(s)->Ok_0.0.rest == s.rest)
        },
{
}

/// A capture is moved only where it says so; otherwise it has its convention, and the
/// immutable one where it has none.
pub proof fn law_capture_kind(convention: Option<CaptureKind>, moved: bool)
    ensures
        moved ==> capture_kind(convention, moved) is Move,
        !moved && convention is Some ==> Some(capture_kind(convention, moved)) == convention,
        !moved && convention is None ==> capture_kind(convention, moved) is Imm,
{
}

} // verus!
