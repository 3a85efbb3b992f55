//! Programs, and reading on after an error.

use crate::ast::{Expr, ExprModel, Stmt, StmtModel, stmts_view};
use crate::parser::{
    ParseError, ParseErrorModel, ParseReport, ParseReportModel, Precedence, located,
    parse_errors_view,
};
use crate::parser::driver::{
    Cursor, Lexed, Parsed, Parser, discarded, ended, expected, is_layout, left, lexed_view, peeked,
    stalled, synchronized, taken, token_is,
};
use crate::parser::stmts::{Grammar, no_stmts};
use crate::parser::suites::{block_body, statement, told_opt_stmts, told_stmts};
use crate::token::{Token, TokenModel};
use vstd::prelude::*;

verus! {

/// A list of one statement.
fn one_stmt(x: Stmt) -> (r: Vec<Stmt>)
    ensures
        stmts_view(r) == seq![x@],
{
    let mut r: Vec<Stmt> = Vec::new();
    r.push(x);
    assert(stmts_view(r) =~= seq![x@]);
    r
}

/// The statements of a program, or its first error.
pub open spec fn program<G: Grammar>(g: G, s: Cursor) -> Parsed<Seq<StmtModel>> {
    program_rest(g, s, Seq::empty())
}

/// Reading a program with recovery: an error is noted, and reading goes on behind the
/// next boundary of statements until so many errors are noted.
pub open spec fn report<G: Grammar>(
    g: G,
    s: Cursor,
    max_errors: usize,
    program: Seq<StmtModel>,
    errors: Seq<ParseErrorModel>,
) -> (Cursor, ParseReportModel)
    decreases left(s),
{
    match peeked(s) {
        Err((_, e)) => {
            let errors = errors.push(located(e, s.last_span));
            let next = discarded(s);
            if errors.len() >= max_errors {
                (next, ParseReportModel { program, errors, truncated: true })
            } else if left(next) < left(s) {
                report(g, next, max_errors, program, errors)
            } else {
                (next, ParseReportModel { program, errors, truncated: false })
            }
        },
        Ok(t) => if t is None || t == Some(TokenModel::Eof) {
            (s, ParseReportModel { program, errors, truncated: false })
        } else if is_layout(t->Some_0) {
            if left(discarded(s)) < left(s) {
                report(g, discarded(s), max_errors, program, errors)
            } else {
                (s, ParseReportModel { program, errors, truncated: false })
            }
        } else {
            match statement(g, s) {
                Ok((next, stmt)) => if left(next) < left(s) {
                    report(g, next, max_errors, program.push(stmt), errors)
                } else {
                    (next, ParseReportModel { program, errors, truncated: false })
                },
                Err((next, e)) => {
                    let errors = errors.push(e);
                    if errors.len() >= max_errors {
                        (next, ParseReportModel { program, errors, truncated: true })
                    } else if left(synchronized(next)) < left(s) {
                        report(g, synchronized(next), max_errors, program, errors)
                    } else {
                        (next, ParseReportModel { program, errors, truncated: false })
                    }
                },
            }
        },
    }
}

impl Parser {
    /// Reads a program and stops at the first error.
    pub fn parse_program<G: Grammar>(&mut self, g: &G) -> (r: Result<Vec<Stmt>, ParseError>)
        ensures
            told_stmts(r, final(self)@) == program(*g, old(self)@),
    {
        self.parse_program_rest(g, no_stmts())
    }

    /// Reads a program for its errors: recovers at the boundaries of statements.
    pub fn parse_program_diagnostic<G: Grammar>(&mut self, g: &G, max_errors: usize) -> (r: ParseReport)
        ensures
            (final(self)@, r@) == report(*g, old(self)@, max_errors, Seq::empty(), Seq::empty()),
            r@.errors.len() <= error_limit(max_errors),
            r@.truncated <==> r@.errors.len() >= error_limit(max_errors),
    {
        proof {
            law_reported_errors(*g, self@, max_errors);
        }
        self.read_on(g, max_errors)
    }

    fn read_on<G: Grammar>(&mut self, g: &G, max_errors: usize) -> (r: ParseReport)
        ensures
            (final(self)@, r@) == report(*g, old(self)@, max_errors, Seq::empty(), Seq::empty()),
    {
        let mut program: Vec<Stmt> = Vec::new();
        let mut errors: Vec<ParseError> = Vec::new();
        assert(stmts_view(program) =~= Seq::empty());
        assert(parse_errors_view(errors) =~= Seq::empty());
        loop
            invariant
                report(*g, self@, max_errors, stmts_view(program), parse_errors_view(errors)) == report(
                    *g,
                    old(self)@,
                    max_errors,
                    Seq::empty(),
                    Seq::empty(),
                ),
            decreases left(self@),
        {
            let ghost (noted, read) = (parse_errors_view(errors), stmts_view(program));
            let t: Option<Token> = match self.peek_token() {
                Err(e) => {
                    errors.push(e.at(self.last_span));
                    assert(parse_errors_view(errors) =~= noted.push(located(e@, self@.last_span)));
                    assert(parse_errors_view(errors).len() == errors@.len());
                    self.discard_one();
                    if errors.len() >= max_errors {
                        return ParseReport { program, errors, truncated: true };
                    }
                    continue;
                },
                Ok(t) => t,
            };
            match t {
                None => {
                    return ParseReport { program, errors, truncated: false };
                },
                Some(token) => match token {
                    Token::Eof => {
                        return ParseReport { program, errors, truncated: false };
                    },
                    Token::Newline | Token::Indent | Token::Dedent => self.discard_one(),
                    _ => match self.parse_statement(g) {
                        Ok(stmt) => {
                            program.push(stmt);
                            assert(stmts_view(program) =~= read.push(stmt@));
                        },
                        Err(e) => {
                            errors.push(e);
                            assert(parse_errors_view(errors) =~= noted.push(e@));
                            assert(parse_errors_view(errors).len() == errors@.len());
                            if errors.len() >= max_errors {
                                return ParseReport { program, errors, truncated: true };
                            }
                            self.synchronize_statement();
                        },
                    },
                },
            }
        }
    }
}

/// An interpolation: one expression, and nothing behind it.
pub open spec fn interpolation<G: Grammar>(g: G, s: Cursor) -> Parsed<ExprModel> {
    match g.expression(s, Precedence::Lowest) {
        Err(f) => Err(f),
        Ok((s, e)) => match ended(s) {
            Err(f) => Err(f),
            Ok((s, _)) => Ok((s, e)),
        },
    }
}

/// The tokens of an interpolation as one expression.
pub fn parse_interpolation<G: Grammar>(g: &G, tokens: Vec<Lexed>) -> (r: Result<Expr, ParseError>)
    ensures
        ({
            let s = Cursor {
                rest: Seq::new(tokens@.len(), |i: int| lexed_view(tokens@[i])),
                last_span: (0, 0),
                significant_end: 0,
                semicolon: false,
            };
            match r {
                Ok(e) => interpolation(*g, s) matches Ok((_, m)) && m == e@,
                Err(e) => interpolation(*g, s) matches Err((_, m)) && m == e@,
            }
        }),
{
    let mut sub = Parser::new(tokens);
    let e = g.parse_expression(&mut sub, Precedence::Lowest)?;
    sub.expect_stmt_end()?;
    Ok(e)
}

/// The body of a trait method; `...` is a requirement without a body.
pub open spec fn trait_method_body<G: Grammar>(g: G, start: Cursor) -> Parsed<Option<Seq<StmtModel>>>
{
    let s = start;
    match peeked(s) { Err(f) => Err(f), Ok(t) =>
    if t == Some(TokenModel::Ellipsis) {
        match taken(s) { Err(f) => Err(f), Ok((s, _)) =>
        match ended(s) { Err(f) => Err(f), Ok((s, _)) =>
        Ok((s, None)) }}
    } else {
    if t == Some(TokenModel::Newline) {
        match taken(s) { Err(f) => Err(f), Ok((s, _)) =>
        match expected(s, TokenModel::Indent, "Expected an indented trait-method body"@) {
        Err(f) => Err(f), Ok((s, _)) =>
        match peeked(s) { Err(f) => Err(f), Ok(t) =>
        if t == Some(TokenModel::Ellipsis) {
            match taken(s) { Err(f) => Err(f), Ok((s, _)) =>
            match ended(s) { Err(f) => Err(f), Ok((s, _)) =>
            match expected(s, TokenModel::Dedent, "Expected the trait-method body to end after '...'"@) {
            Err(f) => Err(f), Ok((s, _)) =>
            Ok((s, None)) }}}
        } else {
        match block_body(g, s, Seq::empty()) { Err(f) => Err(f), Ok((s, body)) =>
        Ok((s, Some(body))) }}}}}
    } else {
    match statement(g, s) { Err(f) => Err(f), Ok((s, stmt)) =>
    Ok((s, Some(seq![stmt]))) }}}}
}

/// The statements of a program. Empty lines between them are passed.
pub open spec fn program_rest<G: Grammar>(
    g: G,
    start: Cursor,
    stmts: Seq<StmtModel>,
) -> Parsed<Seq<StmtModel>>
    decreases left(start),
{
    let s = start;
    match peeked(s) { Err(f) => Err(f), Ok(t) =>
    if t == Some(TokenModel::Eof) || t is None {
        Ok((s, stmts))
    } else {
    if t == Some(TokenModel::Newline) {
        match taken(s) { Err(f) => Err(f), Ok((s, _)) =>
        if left(s) < left(start) { program_rest(g, s, stmts) } else { stalled(s) } }
    } else {
    match statement(g, s) { Err(f) => Err(f), Ok((s, stmt)) =>
    { let stmts = stmts.push(stmt);
    if left(s) < left(start) { program_rest(g, s, stmts) } else { stalled(s) } }}}}}
}

impl Parser {
    /// The body of a trait method; `...` is a requirement without a body.
    pub fn parse_trait_method_body<G: Grammar>(&mut self, g: &G) -> (r: Result<Option<Vec<Stmt>>, ParseError>)
        ensures
            told_opt_stmts(r, final(self)@) == trait_method_body(*g, old(self)@),
            left(final(self)@) <= left(old(self)@),
    {
        let t: Option<Token> = self.peek_token()?;
        if token_is(&t, &Token::Ellipsis) {
            self.next_token()?;
            self.expect_stmt_end()?;
            return Ok(None);
        }
        if token_is(&t, &Token::Newline) {
            self.next_token()?;
            self.expect(Token::Indent, "Expected an indented trait-method body")?;
            let t: Option<Token> = self.peek_token()?;
            if token_is(&t, &Token::Ellipsis) {
                self.next_token()?;
                self.expect_stmt_end()?;
                self.expect(Token::Dedent, "Expected the trait-method body to end after '...'")?;
                return Ok(None);
            }
            let body = self.parse_block_body(g, no_stmts())?;
            return Ok(Some(body));
        }
        let stmt = self.parse_statement(g)?;
        Ok(Some(one_stmt(stmt)))
    }

    /// The statements of a program. Empty lines between them are passed.
    #[verifier::loop_isolation(false)]
    pub fn parse_program_rest<G: Grammar>(
        &mut self,
        g: &G,
        stmts: Vec<Stmt>,
    ) -> (r: Result<Vec<Stmt>, ParseError>)
        ensures
            told_stmts(r, final(self)@) == program_rest(*g, old(self)@, stmts_view(stmts)),
            left(final(self)@) <= left(old(self)@),
    {
        let ghost stmts_0 = stmts_view(stmts);
        let mut stmts = stmts;
        loop
            invariant
                program_rest(*g, self@, stmts_view(stmts)) == program_rest(*g, old(self)@, stmts_0),
                left(self@) <= left(old(self)@),
            decreases left(self@),
        {
            let t: Option<Token> = self.peek_token()?;
            if token_is(&t, &Token::Eof) || t.is_none() {
                return Ok(stmts);
            }
            if token_is(&t, &Token::Newline) {
                self.next_token()?;
                continue;
            }
            let stmt = self.parse_statement(g)?;
            let ghost before = stmts_view(stmts);
            stmts.push(stmt);
            assert(stmts_view(stmts) =~= before.push(stmts_view(stmts).last()));
        }
    }
}

proof fn lemma_report_of_good_program<G: Grammar>(g: G, s: Cursor, max_errors: usize, stmts: Seq<StmtModel>)
    requires
        program_rest(g, s, stmts) is Ok,
    ensures
        report(g, s, max_errors, stmts, Seq::empty()) == (
            program_rest(g, s, stmts)->Ok_0.0,
            ParseReportModel {
                program: program_rest(g, s, stmts)->Ok_0.1,
                errors: Seq::empty(),
                truncated: false,
            },
        ),
    decreases left(s),
{
    match peeked(s) {
        Err(_) => {},
        Ok(t) => {
            if t is None || t == Some(TokenModel::Eof) {
            } else if t == Some(TokenModel::Newline) {
                lemma_report_of_good_program(g, discarded(s), max_errors, stmts);
            } else {
                if t == Some(TokenModel::Indent) || t == Some(TokenModel::Dedent) {
                    g.rejects_layout(s);
                    assert(statement(g, s) is Err);
                }
                match statement(g, s) {
                    Err(_) => {},
                    Ok((next, stmt)) => {
                        assert(!is_layout(t->Some_0));
                        lemma_report_of_good_program(g, next, max_errors, stmts.push(stmt));
                    },
                }
            }
        },
    }
}

/// Reading with recovery and reading that stops at the first error agree on a program
/// without errors: the same statements, no errors, nothing cut short.
pub proof fn law_recovery_agrees_on_good_programs<G: Grammar>(g: G, s: Cursor, max_errors: usize)
    requires
        program(g, s) is Ok,
    ensures
        report(g, s, max_errors, Seq::empty(), Seq::empty()).1.program == program(g, s)->Ok_0.1,
        report(g, s, max_errors, Seq::empty(), Seq::empty()).1.errors.len() == 0,
        !report(g, s, max_errors, Seq::empty(), Seq::empty()).1.truncated,
{
    lemma_report_of_good_program(g, s, max_errors, Seq::empty());
}

/// An error that has a place keeps it, whatever surrounds it.
pub proof fn law_located_once(e: ParseErrorModel, inner: (usize, usize), outer: (usize, usize))
    ensures
        located(located(e, inner), outer) == located(e, inner),
{
}

/// Whether every error has a place.
pub open spec fn all_placed(errors: Seq<ParseErrorModel>) -> bool {
    forall|i: int| 0 <= i < errors.len() ==> (#[trigger] errors[i]) is At
}

/// How many errors end a reading: at least one is always noted.
pub open spec fn error_limit(max_errors: usize) -> nat {
    if max_errors == 0 { 1 } else { max_errors as nat }
}

proof fn lemma_report_errors<G: Grammar>(
    g: G,
    s: Cursor,
    max_errors: usize,
    program: Seq<StmtModel>,
    errors: Seq<ParseErrorModel>,
)
    requires
        errors.len() < error_limit(max_errors),
        all_placed(errors),
    ensures
        report(g, s, max_errors, program, errors).1.errors.len() <= error_limit(max_errors),
        report(g, s, max_errors, program, errors).1.truncated == (report(g, s, max_errors, program, errors).1.errors.len()
            >= error_limit(max_errors)),
        all_placed(report(g, s, max_errors, program, errors).1.errors),
    decreases left(s),
{
    match peeked(s) {
        Err((_, e)) => {
            let more = errors.push(located(e, s.last_span));
            if more.len() < max_errors && left(discarded(s)) < left(s) {
                lemma_report_errors(g, discarded(s), max_errors, program, more);
            }
        },
        Ok(t) => {
            if t is Some && t != Some(TokenModel::Eof) {
                if is_layout(t->Some_0) {
                    if left(discarded(s)) < left(s) {
                        lemma_report_errors(g, discarded(s), max_errors, program, errors);
                    }
                } else {
                    match statement(g, s) {
                        Ok((next, stmt)) => {
                            if left(next) < left(s) {
                                lemma_report_errors(g, next, max_errors, program.push(stmt), errors);
                            }
                        },
                        Err((next, e)) => {
                            let more = errors.push(e);
                            assert(e is At);
                            if more.len() < max_errors && left(synchronized(next)) < left(s) {
                                lemma_report_errors(g, synchronized(next), max_errors, program, more);
                            }
                        },
                    }
                }
            }
        },
    }
}

/// Reading with recovery gives no more errors than asked for, but the first one
/// always; it is truncated exactly where so many are noted; and each has a place.
pub proof fn law_reported_errors<G: Grammar>(g: G, s: Cursor, max_errors: usize)
    ensures
        ({
            let r = report(g, s, max_errors, Seq::empty(), Seq::empty()).1;
            &&& r.errors.len() <= error_limit(max_errors)
            &&& r.truncated == (r.errors.len() >= error_limit(max_errors))
            &&& all_placed(r.errors)
        }),
{
    lemma_report_errors(g, s, max_errors, Seq::empty(), Seq::empty());
}

} // verus!
