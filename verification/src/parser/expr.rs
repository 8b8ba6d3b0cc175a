//! Parsing expressions: literals, paths, parenthesised expressions and tuples, arrays,
//! blocks, `if`, `while`, `return`, `break` and `continue`, prefix and infix operators by
//! binding power, calls, method calls and fields, with recovery from errors. An expression
//! that cannot be parsed becomes an error node that spans where parsing stopped. Each
//! parsing function is stated as a function of the tokens and the parser's state; where one
//! of them would not move forward, it stops there with an error.
use std::rc::Rc;

use vstd::prelude::*;

use crate::desugar::syntax::exprs_m;
use crate::desugar::syntax::segment_m;
use crate::desugar::syntax::segments_m;
use crate::desugar::syntax::Expr;
use crate::desugar::syntax::Path;
use crate::desugar::syntax::Segment;
use crate::desugar::syntax::Type;
use crate::desugar::syntax::ExprM;
use crate::desugar::syntax::SegmentM;
use crate::desugar::syntax::TypeM;
use crate::diag::spec_err;
use crate::name::Name;
use crate::text::chars_of;
use crate::text::string_of_chars;
use crate::diag::Report;
use crate::lexer::char_span;
use crate::lexer::error_diags;
use crate::lexer::is_digit;
use crate::lexer::lemma_lex_progress;
use crate::lexer::lemma_lex_range;
use crate::lexer::spanned_token;
use crate::lexer::spec_lex;
use crate::lexer::text_upto;
use crate::lexer::Lexer;
use crate::parser::spec_expr_first;
use crate::parser::spec_expr_follow;
use crate::parser::spec_infix_bp;
use crate::span::Span;
use crate::span::Spanned;
use crate::token::Token;

use super::recover::in_input;
use super::recover::lemma_recovery_in_input;
use super::recover::recovery;
use super::recover::Parser;
use super::recover::FUEL;
use super::expr_first;
use super::expr_follow;
use super::stmt_first;
use super::TokenSet;

verus! {

/// One diagnostic: its label and its messages.
pub type Diag = ((Span, Seq<char>), Seq<(Span, Seq<char>)>);

/// The state of a parse: the position of the next token, the brackets that recovery has
/// opened, and the diagnostics so far.
pub struct PState {
    pub pos: int,
    pub delims: Seq<Spanned<Token>>,
    pub diags: Seq<Diag>,
}

/// What a parse reads: the tokens, and the text of each.
pub struct Input {
    pub toks: Seq<Spanned<Token>>,
    pub texts: Seq<Seq<char>>,
}

impl Parser {
    pub open spec fn state(&self) -> PState {
        PState { pos: self.pos as int, delims: self.delims@, diags: self.report@ }
    }

    pub open spec fn input(&self) -> Input {
        Input { toks: self.tokens@, texts: self.texts@.map_values(|s: String| s@) }
    }
}

/// The text of the token at `i`, or nothing when no text was given for it.
pub open spec fn text_at(inp: Input, i: int) -> Seq<char> {
    if 0 <= i < inp.texts.len() {
        inp.texts[i]
    } else {
        Seq::empty()
    }
}

/// The diagnostic for a token that is not expected.
pub open spec fn unexpected(t: Spanned<Token>) -> Diag {
    spec_err(t.s, "Unexpected token"@, "not expected here"@)
}

/// The next token, when it is one of `first`, without taking it; otherwise an error is
/// reported and recovery skips to a token of `first` (not taken) or of `follow`.
pub open spec fn p_start(inp: Input, st: PState, first: Set<Token>, follow: Set<Token>) -> (
    Result<Spanned<Token>, Span>,
    PState,
) {
    let t = inp.toks[st.pos];
    if first.contains(t.v) {
        (Ok(t), st)
    } else {
        let r = recovery(inp.toks, st.pos, st.delims, FUEL as nat, first, follow, true);
        (r.result, PState { pos: r.pos, delims: r.delims, diags: st.diags.push(unexpected(t)) + r.diags })
    }
}

/// The next token, taken, when it is one of `first`; otherwise an error is reported and
/// recovery skips to a token of `first` (taken) or of `follow`.
pub open spec fn p_expect(inp: Input, st: PState, first: Set<Token>, follow: Set<Token>) -> (
    Result<Spanned<Token>, Span>,
    PState,
) {
    let t = inp.toks[st.pos];
    if first.contains(t.v) {
        (Ok(t), PState { pos: st.pos + 1, ..st })
    } else {
        let r = recovery(inp.toks, st.pos, st.delims, FUEL as nat, first, follow, false);
        (r.result, PState { pos: r.pos, delims: r.delims, diags: st.diags.push(unexpected(t)) + r.diags })
    }
}

/// Whether the next token is `tok`, which is then taken; the next token must be `tok` or
/// one of `follow`, else recovery runs first.
pub open spec fn p_eat(inp: Input, st: PState, tok: Token, follow: Set<Token>) -> (
    Result<bool, Span>,
    PState,
) {
    let (r, st1) = p_start(inp, st, follow.insert(tok), follow);
    match r {
        Err(s) => (Err(s), st1),
        Ok(t) => if t.v == tok {
            (Ok(true), PState { pos: st1.pos + 1, ..st1 })
        } else {
            (Ok(false), st1)
        },
    }
}

/// The tokens that may start a statement.
pub open spec fn spec_stmt_first() -> Set<Token> {
    set![Token::Def, Token::Type, Token::Trait, Token::Struct, Token::Enum, Token::Impl, Token::Var].union(spec_expr_first())
}

/// The tokens that start the expressions parsed here: literals, paths, parentheses and
/// prefix operators.
pub open spec fn spec_lhs_first() -> Set<Token> {
    set![Token::True, Token::False, Token::Int, Token::Float, Token::IntSuffix, Token::FloatSuffix, Token::String, Token::Name, Token::LParen, Token::Minus, Token::Not, Token::Break, Token::Continue, Token::Return, Token::LBrack, Token::LBrace, Token::If, Token::While]
}

/// What may follow an expression inside one: the given followers, those of any expression,
/// and the starts of statements.
pub open spec fn full_follow(follow: Set<Token>) -> Set<Token> {
    follow.union(spec_expr_follow()).union(spec_stmt_first())
}

/// `st1` lies at or after `st` and within the input.
pub open spec fn fwd(inp: Input, st: PState, st1: PState) -> bool {
    st.pos <= st1.pos <= inp.toks.len()
}

/// An error at the next token, with the state unchanged; parsing never ends up here, since
/// it never moves back.
pub open spec fn stuck<T>(inp: Input, st: PState) -> (Result<T, Span>, PState) {
    (Err(inp.toks[st.pos].s), st)
}

/// The number of leading characters of `v` that `ok` accepts: digits, and also dots when
/// `dots`.
pub open spec fn numeral_len(v: Seq<char>, dots: bool) -> nat
    decreases v.len(),
{
    if v.len() == 0 {
        0
    } else if numeral_len(v.drop_last(), dots) == v.len() - 1 && (is_digit(v.last()) || (dots
        && v.last() == '.')) {
        v.len() as nat
    } else {
        numeral_len(v.drop_last(), dots)
    }
}

/// A name, taken from the next token.
pub open spec fn p_name(inp: Input, st: PState, follow: Set<Token>) -> (Result<(Span, Seq<char>), Span>, PState) {
    let (r, st1) = p_expect(inp, st, set![Token::Name], follow);
    match r {
        Err(s) => (Err(s), st1),
        Ok(t) => (Ok((t.s, text_at(inp, st1.pos - 1))), st1),
    }
}

/// A segment of a path: a name, which must be followed by one of `follow`.
pub open spec fn p_segment(inp: Input, st: PState, follow: Set<Token>) -> (Result<SegmentM, Span>, PState) {
    let (r, st1) = p_name(inp, st, follow);
    match r {
        Err(s) => (Err(s), st1),
        Ok((sp, x)) => {
            let (r2, st2) = p_start(inp, st1, follow, follow);
            match r2 {
                Err(s) => (Err(s), st2),
                Ok(_) => (Ok(SegmentM { span: sp, name: x, types: Seq::empty() }), st2),
            }
        },
    }
}

/// More segments of a path after those in `acc`, each after a `::`.
pub open spec fn p_path_more(inp: Input, st: PState, follow: Set<Token>, acc: Seq<SegmentM>) -> (
    Result<Seq<SegmentM>, Span>,
    PState,
)
    decreases inp.toks.len() - st.pos,
{
    let f1 = follow.insert(Token::ColonColon);
    let (r, st1) = p_eat(inp, st, Token::ColonColon, follow);
    match r {
        Err(s) => (Err(s), st1),
        Ok(false) => (Ok(acc), st1),
        Ok(true) => {
            let (r2, st2) = p_start(inp, st1, f1.insert(Token::Name), f1);
            match r2 {
                Err(s) => (Err(s), st2),
                Ok(t) => if t.v == Token::Name {
                    let (r3, st3) = p_segment(inp, st2, f1);
                    match r3 {
                        Err(s) => (Err(s), st3),
                        Ok(g) => if st.pos < st3.pos <= inp.toks.len() {
                            p_path_more(inp, st3, follow, acc.push(g))
                        } else {
                            stuck(inp, st3)
                        },
                    }
                } else {
                    (Ok(acc), st2)
                },
            }
        },
    }
}

/// A path: segments separated by `::`, with the span from its first segment to its last.
pub open spec fn p_path(inp: Input, st: PState, follow: Set<Token>) -> (Result<(Span, Seq<SegmentM>), Span>, PState) {
    let (r, st1) = p_segment(inp, st, follow.insert(Token::ColonColon));
    match r {
        Err(s) => (Err(s), st1),
        Ok(g) => {
            let (r2, st2) = p_path_more(inp, st1, follow, seq![g]);
            match r2 {
                Err(s) => (Err(s), st2),
                Ok(gs) => (Ok((g.span.spec_join(gs.last().span), gs)), st2),
            }
        },
    }
}

/// An expression; one that cannot be parsed is an error node.
pub open spec fn p_expr(inp: Input, st: PState, follow: Set<Token>) -> ((Span, ExprM), PState)
    decreases inp.toks.len() - st.pos, 20nat,
{
    let (r, st1) = p_expr_bp(inp, st, follow, 0);
    match r {
        Ok(e) => (e, st1),
        Err(s) => ((s, ExprM::Error(s, TypeM::Unknown)), st1),
    }
}

/// An expression whose operators bind at least as tightly as `min_bp`.
pub open spec fn p_expr_bp(inp: Input, st: PState, follow: Set<Token>, min_bp: u8) -> (
    Result<(Span, ExprM), Span>,
    PState,
)
    decreases inp.toks.len() - st.pos, 19nat,
{
    let ff = full_follow(follow);
    let (r, st1) = p_expr_lhs(inp, st, ff);
    let lhs = match r {
        Ok(e) => e,
        Err(s) => (s, ExprM::Error(s, TypeM::Unknown)),
    };
    if fwd(inp, st, st1) {
        p_expr_loop(inp, st1, ff, min_bp, lhs)
    } else {
        stuck(inp, st1)
    }
}

/// Operators after `lhs`: calls, and infix operators that bind at least as tightly as
/// `min_bp`. Other postfix operators and assignment end the expression.
pub open spec fn p_expr_loop(inp: Input, st: PState, ff: Set<Token>, min_bp: u8, lhs: (Span, ExprM)) -> (
    Result<(Span, ExprM), Span>,
    PState,
)
    decreases inp.toks.len() - st.pos, 18nat,
{
    let (r, st1) = p_start(inp, st, ff, ff);
    match r {
        Err(s) => (Err(s), st1),
        Ok(op) => if !fwd(inp, st, st1) {
            stuck(inp, st1)
        } else if op.v == Token::LParen {
            if 9 < min_bp {
                (Ok(lhs), st1)
            } else {
                let (ra, st2) = p_expr_args(inp, st1, ff);
                match ra {
                    Err(s) => (Err(s), st2),
                    Ok((sa, args)) => {
                        let e = ExprM::Call(lhs.0.spec_join(sa), TypeM::Unknown, Box::new(lhs.1), args);
                        if st.pos < st2.pos <= inp.toks.len() {
                            p_expr_loop(inp, st2, ff, min_bp, (lhs.0.spec_join(op.s), e))
                        } else {
                            stuck(inp, st2)
                        }
                    },
                }
            }
        } else if op.v == Token::Dot {
            p_dot(inp, st1, ff, min_bp, lhs, op)
        } else {
            match spec_infix_bp(op.v) {
                Some((l, rb)) => if l < min_bp || op.v == Token::Eq || st1.pos + 1 > inp.toks.len() {
                    (Ok(lhs), st1)
                } else {
                    let st2 = PState { pos: st1.pos + 1, ..st1 };
                    let (rr, st3) = p_expr_bp(inp, st2, ff, rb);
                    match rr {
                        Err(s) => (Err(s), st3),
                        Ok(rhs) => {
                            let sp = lhs.0.spec_join(rhs.0);
                            let e = ExprM::InfixBinaryOp(sp, TypeM::Unknown, op.v, Box::new(lhs.1), Box::new(rhs.1));
                            if st.pos < st3.pos <= inp.toks.len() {
                                p_expr_loop(inp, st3, ff, min_bp, (sp, e))
                            } else {
                                stuck(inp, st3)
                            }
                        },
                    }
                },
                None => (Ok(lhs), st1),
            }
        },
    }
}

/// The expression before any operator: a literal, a path, an expression in parentheses or
/// a tuple, or a prefix operator applied to an expression.
pub open spec fn p_expr_lhs(inp: Input, st: PState, ff: Set<Token>) -> (Result<(Span, ExprM), Span>, PState)
    decreases inp.toks.len() - st.pos, 17nat,
{
    let (r, st1) = p_start(inp, st, spec_lhs_first(), ff);
    match r {
        Err(s) => (Err(s), st1),
        Ok(t) => if !(st.pos <= st1.pos < inp.toks.len()) {
            stuck(inp, st1)
        } else {
            p_lhs_token(inp, st1, ff, t)
        },
    }
}

/// The expression that the token `t`, the next one, starts.
pub open spec fn p_lhs_token(inp: Input, st1: PState, ff: Set<Token>, t: Spanned<Token>) -> (
    Result<(Span, ExprM), Span>,
    PState,
)
    decreases inp.toks.len() - st1.pos, 16nat,
{
    if st1.pos >= inp.toks.len() {
        stuck(inp, st1)
    } else {
        let s = t.s;
        let v = text_at(inp, st1.pos);
        let st2 = PState { pos: st1.pos + 1, ..st1 };
        if t.v == Token::True || t.v == Token::False {
            (Ok((s, ExprM::Bool(s, TypeM::Unknown, t.v == Token::True))), st2)
        } else if t.v == Token::Int {
            (Ok((s, ExprM::Int(s, TypeM::Unknown, v))), st2)
        } else if t.v == Token::Float {
            (Ok((s, ExprM::Float(s, TypeM::Unknown, v))), st2)
        } else if t.v == Token::String {
            (Ok((s, ExprM::String(s, TypeM::Unknown, v))), st2)
        } else if t.v == Token::IntSuffix {
            let i = numeral_len(v, false) as int;
            (Ok((s, ExprM::IntSuffix(s, TypeM::Unknown, v.take(i), v.skip(i)))), st2)
        } else if t.v == Token::FloatSuffix {
            let i = numeral_len(v, true) as int;
            (Ok((s, ExprM::FloatSuffix(s, TypeM::Unknown, v.take(i), v.skip(i)))), st2)
        } else if t.v == Token::Name {
            let (rp, st3) = p_path(inp, st1, ff);
            match rp {
                Err(e) => (Err(e), st3),
                Ok((sp, gs)) => (Ok((sp, ExprM::Path(sp, TypeM::Unknown, gs))), st3),
            }
        } else if t.v == Token::LParen {
            let (ra, st3) = p_expr_args(inp, st1, ff);
            match ra {
                Err(e) => (Err(e), st3),
                Ok((sa, es)) => if es.len() == 1 {
                    (Ok((sa, ExprM::Paren(sa, TypeM::Unknown, Box::new(es[0])))), st3)
                } else {
                    (Ok((sa, ExprM::Tuple(sa, TypeM::Unknown, es))), st3)
                },
            }
        } else if t.v == Token::Break {
            (Ok((s, ExprM::Break(s, TypeM::Unknown))), st2)
        } else if t.v == Token::Continue {
            (Ok((s, ExprM::Continue(s, TypeM::Unknown))), st2)
        } else if t.v == Token::Return {
            p_return(inp, st2, ff, s)
        } else if t.v == Token::LBrack {
            p_array(inp, st1, ff, s)
        } else if t.v == Token::LBrace {
            p_block(inp, st1, ff)
        } else if t.v == Token::If {
            p_if(inp, st2, ff, s)
        } else if t.v == Token::While {
            p_while(inp, st2, ff, s)
        } else {
            let (rr, st3) = p_expr_bp(inp, st2, ff, 8);
            match rr {
                Err(e) => (Err(e), st3),
                Ok(rhs) => {
                    let sp = s.spec_join(rhs.0);
                    (Ok((sp, ExprM::PrefixUnaryOp(sp, TypeM::Unknown, t.v, Box::new(rhs.1)))), st3)
                },
            }
        }
    }
}

/// `return`, at `s`, with the expression after it, if one follows.
pub open spec fn p_return(inp: Input, st: PState, ff: Set<Token>, s: Span) -> (
    Result<(Span, ExprM), Span>,
    PState,
)
    decreases inp.toks.len() - st.pos, 30nat,
{
    let (rt, st1) = p_start(inp, st, ff.union(spec_expr_first()), ff);
    match rt {
        Err(e) => (Err(e), st1),
        Ok(t1) => if !spec_expr_first().contains(t1.v) {
            let u = ExprM::Tuple(s, TypeM::Unknown, Seq::empty());
            (Ok((s, ExprM::Return(s, TypeM::Unknown, Box::new(u)))), st1)
        } else if !fwd(inp, st, st1) {
            stuck(inp, st1)
        } else {
            let (e, st2) = p_expr(inp, st1, ff);
            let sp = s.spec_join(e.0);
            (Ok((sp, ExprM::Return(sp, TypeM::Unknown, Box::new(e.1)))), st2)
        },
    }
}

/// An array: expressions in brackets, separated by commas; its span runs from `s`.
pub open spec fn p_array(inp: Input, st: PState, ff: Set<Token>, s: Span) -> (
    Result<(Span, ExprM), Span>,
    PState,
)
    decreases inp.toks.len() - st.pos, 12nat,
{
    let (r0, st1) = p_expect(inp, st, set![Token::LBrack], ff);
    match r0 {
        Err(e) => (Err(e), st1),
        Ok(t0) => if !(st.pos < st1.pos <= inp.toks.len()) {
            stuck(inp, st1)
        } else {
            let (rx, st2) = p_exprs(inp, st1, ff.insert(Token::RBrack));
            match rx {
                Err(e) => (Err(e), st2),
                Ok(es) => {
                    let (r1, st3) = p_expect(inp, st2, set![Token::RBrack], ff);
                    match r1 {
                        Err(e) => (Err(e), st3),
                        Ok(t1) => {
                            let sp = s.spec_join(t0.s.spec_join(t1.s));
                            (Ok((sp, ExprM::Array(sp, TypeM::Unknown, es))), st3)
                        },
                    }
                },
            }
        },
    }
}

/// After `lhs` and the dot `op` at the next token: a method call `.x(..)`, or a field
/// `.x`, then the operators after it.
pub open spec fn p_dot(inp: Input, st: PState, ff: Set<Token>, min_bp: u8, lhs: (Span, ExprM), op: Spanned<Token>) -> (
    Result<(Span, ExprM), Span>,
    PState,
)
    decreases inp.toks.len() - st.pos, 17nat,
{
    if 9 < min_bp || st.pos + 1 > inp.toks.len() {
        (Ok(lhs), st)
    } else {
        let st2 = PState { pos: st.pos + 1, ..st };
        let (rt, st3) = p_start(inp, st2, set![Token::Name], ff);
        match rt {
            Err(e) => (Err(e), st3),
            Ok(_) => {
                let (rx, st4) = p_name(inp, st3, ff);
                match rx {
                    Err(e) => (Err(e), st4),
                    Ok((xs, x)) => {
                        let (rt2, st5) = p_start(inp, st4, ff.insert(Token::LParen), ff);
                        match rt2 {
                            Err(e) => (Err(e), st5),
                            Ok(t2) => if !(st.pos < st5.pos <= inp.toks.len()) {
                                stuck(inp, st5)
                            } else if t2.v == Token::LParen {
                                let (ra, st6) = p_expr_args(inp, st5, ff);
                                match ra {
                                    Err(e) => (Err(e), st6),
                                    Ok((sa, args)) => {
                                        let e = ExprM::Dot(lhs.0.spec_join(sa), TypeM::Unknown, Box::new(lhs.1), x, Seq::empty(), args);
                                        if st.pos < st6.pos <= inp.toks.len() {
                                            p_expr_loop(inp, st6, ff, min_bp, (lhs.0.spec_join(op.s), e))
                                        } else {
                                            stuck(inp, st6)
                                        }
                                    },
                                }
                            } else {
                                let e = ExprM::Field(lhs.0.spec_join(xs), TypeM::Unknown, Box::new(lhs.1), x);
                                p_expr_loop(inp, st5, ff, min_bp, (lhs.0.spec_join(op.s), e))
                            },
                        }
                    },
                }
            },
        }
    }
}

/// An expression that ends with a block, after which a block need not have a semicolon.
pub open spec fn is_braced(e: ExprM) -> bool {
    e is Block || e is IfElse || e is While
}

/// Semicolons, as many as come.
pub open spec fn p_semis(inp: Input, st: PState, f: Set<Token>) -> (Result<(), Span>, PState)
    decreases inp.toks.len() - st.pos,
{
    let (r, st1) = p_eat(inp, st, Token::SemiColon, f);
    match r {
        Err(e) => (Err(e), st1),
        Ok(false) => (Ok(()), st1),
        Ok(true) => if st.pos < st1.pos <= inp.toks.len() {
            p_semis(inp, st1, f)
        } else {
            stuck(inp, st1)
        },
    }
}

/// A block: `{ }`, `{ e }`, statements each ended by semicolons `{ s; ... }`, and a
/// statement that ends with a block, which needs no semicolon `{ s ... }`.
pub open spec fn p_block(inp: Input, st: PState, follow: Set<Token>) -> (Result<(Span, ExprM), Span>, PState)
    decreases inp.toks.len() - st.pos, 12nat,
{
    let (r0, st1) = p_expect(inp, st, set![Token::LBrace], follow);
    match r0 {
        Err(e) => (Err(e), st1),
        Ok(t0) => if st.pos < st1.pos <= inp.toks.len() {
            p_block_items(inp, st1, follow, t0.s, Seq::empty())
        } else {
            stuck(inp, st1)
        },
    }
}

/// The rest of a block that started at `s0`, after the statements `stmts`.
pub open spec fn p_block_items(inp: Input, st: PState, follow: Set<Token>, s0: Span, stmts: Seq<ExprM>) -> (
    Result<(Span, ExprM), Span>,
    PState,
)
    decreases inp.toks.len() - st.pos, 26nat,
{
    let fb = follow.union(spec_stmt_first()).insert(Token::RBrace);
    let (r, st1) = p_start(inp, st, spec_expr_first().insert(Token::SemiColon).insert(Token::RBrace), follow);
    match r {
        Err(e) => (Err(e), st1),
        Ok(t1) => if !(st.pos <= st1.pos < inp.toks.len()) {
            stuck(inp, st1)
        } else if t1.v == Token::SemiColon {
            let (rs, st2) = p_semis(inp, st1, fb);
            match rs {
                Err(e) => (Err(e), st2),
                Ok(_) => if st.pos < st2.pos <= inp.toks.len() {
                    p_block_items(inp, st2, follow, s0, stmts)
                } else {
                    stuck(inp, st2)
                },
            }
        } else if t1.v == Token::RBrace {
            let sp = s0.spec_join(t1.s);
            let u = ExprM::Tuple(sp, TypeM::Unknown, Seq::empty());
            (Ok((sp, ExprM::Block(sp, TypeM::Unknown, stmts, Box::new(u)))), PState { pos: st1.pos + 1, ..st1 })
        } else {
            let (e, st2) = p_expr(inp, st1, fb);
            let (re, st3) = p_eat(inp, st2, Token::SemiColon, fb);
            match re {
                Err(x) => (Err(x), st3),
                Ok(true) => {
                    let (rs, st4) = p_semis(inp, st3, fb);
                    match rs {
                        Err(x) => (Err(x), st4),
                        Ok(_) => if st.pos < st4.pos <= inp.toks.len() {
                            p_block_items(inp, st4, follow, s0, stmts.push(e.1))
                        } else {
                            stuck(inp, st4)
                        },
                    }
                },
                Ok(false) => if is_braced(e.1) && inp.toks[st3.pos].v != Token::RBrace {
                    if st.pos < st3.pos <= inp.toks.len() {
                        p_block_items(inp, st3, follow, s0, stmts.push(e.1))
                    } else {
                        stuck(inp, st3)
                    }
                } else {
                    let (r1, st4) = p_expect(inp, st3, set![Token::RBrace], follow);
                    match r1 {
                        Err(x) => (Err(x), st4),
                        Ok(t2) => {
                            let sp = s0.spec_join(t2.s);
                            (Ok((sp, ExprM::Block(sp, TypeM::Unknown, stmts, Box::new(e.1)))), st4)
                        },
                    }
                },
            }
        },
    }
}

/// `if` at `s`, with its condition, its block, and its `else` block, which is empty when
/// there is none.
pub open spec fn p_if(inp: Input, st: PState, ff: Set<Token>, s: Span) -> (Result<(Span, ExprM), Span>, PState)
    decreases inp.toks.len() - st.pos, 30nat,
{
    let fe = ff.insert(Token::Else).union(spec_stmt_first());
    let (e, st1) = p_expr(inp, st, ff.insert(Token::LBrace));
    if !fwd(inp, st, st1) {
        stuck(inp, st1)
    } else {
        let (rb0, st2) = p_block(inp, st1, fe);
        match rb0 {
            Err(x) => (Err(x), st2),
            Ok(b0) => {
                let (rt, st3) = p_start(inp, st2, fe, ff);
                match rt {
                    Err(x) => (Err(x), st3),
                    Ok(t) => if t.v == Token::Else {
                        if !(st.pos <= st3.pos < inp.toks.len()) {
                            stuck(inp, st3)
                        } else {
                            let (rb1, st4) = p_block(inp, PState { pos: st3.pos + 1, ..st3 }, ff);
                            match rb1 {
                                Err(x) => (Err(x), st4),
                                Ok(b1) => {
                                    let sp = s.spec_join(b1.0);
                                    (Ok((sp, ExprM::IfElse(sp, TypeM::Unknown, Box::new(e.1), Box::new(b0.1), Box::new(b1.1)))), st4)
                                },
                            }
                        }
                    } else {
                        let sp = s.spec_join(b0.0);
                        let u = ExprM::Tuple(sp, TypeM::Unknown, Seq::empty());
                        let b1 = ExprM::Block(sp, TypeM::Unknown, Seq::empty(), Box::new(u));
                        (Ok((sp, ExprM::IfElse(sp, TypeM::Unknown, Box::new(e.1), Box::new(b0.1), Box::new(b1)))), st3)
                    },
                }
            },
        }
    }
}

/// `while` at `s`, with its condition and its block.
pub open spec fn p_while(inp: Input, st: PState, ff: Set<Token>, s: Span) -> (Result<(Span, ExprM), Span>, PState)
    decreases inp.toks.len() - st.pos, 30nat,
{
    let (e, st1) = p_expr(inp, st, ff.insert(Token::LBrace));
    if !fwd(inp, st, st1) {
        stuck(inp, st1)
    } else {
        let (rb, st2) = p_block(inp, st1, ff);
        match rb {
            Err(x) => (Err(x), st2),
            Ok(b) => {
                let sp = s.spec_join(b.0);
                (Ok((sp, ExprM::While(sp, TypeM::Unknown, Box::new(e.1), Box::new(b.1)))), st2)
            },
        }
    }
}

/// Arguments in parentheses, separated by commas; the span covers the parentheses.
pub open spec fn p_expr_args(inp: Input, st: PState, follow: Set<Token>) -> (
    Result<(Span, Seq<ExprM>), Span>,
    PState,
)
    decreases inp.toks.len() - st.pos, 12nat,
{
    let (r0, st1) = p_expect(inp, st, set![Token::LParen], follow);
    match r0 {
        Err(s) => (Err(s), st1),
        Ok(t0) => if !(st.pos < st1.pos <= inp.toks.len()) {
            stuck(inp, st1)
        } else {
            let (rx, st2) = p_exprs(inp, st1, follow.insert(Token::RParen));
            match rx {
                Err(s) => (Err(s), st2),
                Ok(es) => {
                    let (r1, st3) = p_expect(inp, st2, set![Token::RParen], follow);
                    match r1 {
                        Err(s) => (Err(s), st3),
                        Ok(t1) => (Ok((t0.s.spec_join(t1.s), es)), st3),
                    }
                },
            }
        },
    }
}

/// Expressions separated by commas, possibly none.
pub open spec fn p_exprs(inp: Input, st: PState, follow: Set<Token>) -> (Result<Seq<ExprM>, Span>, PState)
    decreases inp.toks.len() - st.pos, 25nat,
{
    let (r, st1) = p_start(inp, st, spec_expr_first().union(follow), follow);
    match r {
        Err(s) => (Err(s), st1),
        Ok(t) => if !spec_expr_first().contains(t.v) {
            (Ok(Seq::empty()), st1)
        } else if !fwd(inp, st, st1) {
            stuck(inp, st1)
        } else {
            let (e, st2) = p_expr(inp, st1, follow.insert(Token::Comma));
            if fwd(inp, st, st2) {
                p_exprs_more(inp, st2, follow, seq![e.1])
            } else {
                stuck(inp, st2)
            }
        },
    }
}

/// More expressions after those in `acc`, each after a comma.
pub open spec fn p_exprs_more(inp: Input, st: PState, follow: Set<Token>, acc: Seq<ExprM>) -> (
    Result<Seq<ExprM>, Span>,
    PState,
)
    decreases inp.toks.len() - st.pos, 24nat,
{
    let f1 = follow.insert(Token::Comma);
    let (r, st1) = p_eat(inp, st, Token::Comma, follow);
    match r {
        Err(s) => (Err(s), st1),
        Ok(false) => (Ok(acc), st1),
        Ok(true) => {
            let (r2, st2) = p_start(inp, st1, spec_expr_first().union(f1), f1);
            match r2 {
                Err(s) => (Err(s), st2),
                Ok(t) => if !spec_expr_first().contains(t.v) {
                    (Ok(acc), st2)
                } else if !(st.pos < st2.pos <= inp.toks.len()) {
                    stuck(inp, st2)
                } else {
                    let (e, st3) = p_expr(inp, st2, f1);
                    if st.pos < st3.pos <= inp.toks.len() {
                        p_exprs_more(inp, st3, follow, acc.push(e.1))
                    } else {
                        stuck(inp, st3)
                    }
                },
            }
        },
    }
}

/// The result of a parse, with names and expressions taken by their models.
pub open spec fn name_res(r: Result<(Span, Name), Span>) -> Result<(Span, Seq<char>), Span> {
    match r {
        Ok((s, x)) => Ok((s, x@)),
        Err(e) => Err(e),
    }
}

pub open spec fn seg_res(r: Result<Segment, Span>) -> Result<SegmentM, Span> {
    match r {
        Ok(g) => Ok(segment_m(g)),
        Err(e) => Err(e),
    }
}

pub open spec fn segs_res(r: Result<Vec<Segment>, Span>) -> Result<Seq<SegmentM>, Span> {
    match r {
        Ok(v) => Ok(segments_m(v@)),
        Err(e) => Err(e),
    }
}

pub open spec fn path_res(r: Result<(Span, Vec<Segment>), Span>) -> Result<(Span, Seq<SegmentM>), Span> {
    match r {
        Ok((s, v)) => Ok((s, segments_m(v@))),
        Err(e) => Err(e),
    }
}

pub open spec fn expr_res(r: Result<(Span, Expr), Span>) -> Result<(Span, ExprM), Span> {
    match r {
        Ok((s, e)) => Ok((s, e@)),
        Err(e) => Err(e),
    }
}

pub open spec fn args_res(r: Result<(Span, Vec<Expr>), Span>) -> Result<(Span, Seq<ExprM>), Span> {
    match r {
        Ok((s, v)) => Ok((s, exprs_m(v@))),
        Err(e) => Err(e),
    }
}

pub open spec fn list_res(r: Result<Vec<Expr>, Span>) -> Result<Seq<ExprM>, Span> {
    match r {
        Ok(v) => Ok(exprs_m(v@)),
        Err(e) => Err(e),
    }
}

proof fn lemma_segments_m_push(v: Seq<Segment>, g: Segment)
    ensures
        segments_m(v.push(g)) == segments_m(v).push(segment_m(g)),
{
    assert(v.push(g).drop_last() =~= v);
}

proof fn lemma_segments_m_index(v: Seq<Segment>, i: int)
    requires
        0 <= i < v.len(),
    ensures
        segments_m(v).len() == v.len(),
        segments_m(v)[i] == segment_m(v[i]),
    decreases v.len(),
{
    lemma_segments_m_len(v);
    if i < v.len() - 1 {
        lemma_segments_m_index(v.drop_last(), i);
    }
}

proof fn lemma_segments_m_len(v: Seq<Segment>)
    ensures
        segments_m(v).len() == v.len(),
    decreases v.len(),
{
    if v.len() > 0 {
        lemma_segments_m_len(v.drop_last());
    }
}

proof fn lemma_exprs_m_push(v: Seq<Expr>, e: Expr)
    ensures
        exprs_m(v.push(e)) == exprs_m(v).push(e@),
{
    assert(v.push(e).drop_last() =~= v);
}

/// The length of the numeral that starts `cs`, and the two parts.
fn split_numeral(v: &String, dots: bool) -> (r: (String, String))
    ensures
        r.0@ == v@.take(numeral_len(v@, dots) as int),
        r.1@ == v@.skip(numeral_len(v@, dots) as int),
{
    let cs = chars_of(v.as_str());
    let mut i: usize = 0;
    let mut stop = false;
    while i < cs.len() && !stop
        invariant
            cs@ == v@,
            i <= cs@.len(),
            !stop ==> numeral_len(cs@.take(i as int), dots) == i,
            stop ==> numeral_len(cs@, dots) == i,
        decreases cs@.len() - i + if stop { 0int } else { 1int },
    {
        let c = cs[i];
        proof {
            assert(cs@.take(i + 1).drop_last() =~= cs@.take(i as int));
        }
        if ('0' <= c && c <= '9') || (dots && c == '.') {
            i = i + 1;
        } else {
            proof {
                lemma_numeral_stops(cs@, i as int, dots);
            }
            stop = true;
        }
    }
    proof {
        if !stop {
            assert(cs@.take(cs@.len() as int) =~= cs@);
        }
    }
    let mut a: Vec<char> = Vec::new();
    let mut b: Vec<char> = Vec::new();
    let mut j: usize = 0;
    while j < cs.len()
        invariant
            i <= cs@.len(),
            j <= cs@.len(),
            a@ == cs@.take(if j < i { j as int } else { i as int }),
            b@ == (if j <= i { Seq::<char>::empty() } else { cs@.subrange(i as int, j as int) }),
        decreases cs@.len() - j,
    {
        if j < i {
            a.push(cs[j]);
            assert(a@ =~= cs@.take(j + 1));
        } else {
            b.push(cs[j]);
            assert(b@ =~= cs@.subrange(i as int, j + 1));
        }
        j = j + 1;
    }
    assert(cs@.subrange(i as int, cs@.len() as int) =~= cs@.skip(i as int));
    assert(i == cs@.len() ==> b@ =~= cs@.skip(i as int));
    (string_of_chars(&a), string_of_chars(&b))
}

/// Once a character stops the numeral, it stays stopped there.
proof fn lemma_numeral_stops(cs: Seq<char>, i: int, dots: bool)
    requires
        0 <= i < cs.len(),
        numeral_len(cs.take(i), dots) == i,
        !(is_digit(cs[i]) || (dots && cs[i] == '.')),
    ensures
        numeral_len(cs, dots) == i,
    decreases cs.len() - i,
{
    if cs.len() == i + 1 {
        assert(cs.drop_last() =~= cs.take(i));
    } else {
        assert(cs.drop_last().take(i) =~= cs.take(i));
        lemma_numeral_stops(cs.drop_last(), i, dots);
        assert(numeral_len(cs.drop_last(), dots) == i);
    }
}

/// See `spec_lhs_first`.
pub fn lhs_first() -> (s: TokenSet)
    ensures
        s@ == spec_lhs_first(),
{
    let s = TokenSet::empty().with(Token::True).with(Token::False).with(Token::Int).with(Token::Float).with(Token::IntSuffix).with(Token::FloatSuffix).with(Token::String).with(Token::Name).with(Token::LParen).with(Token::Minus).with(Token::Not).with(Token::Break).with(Token::Continue).with(Token::Return).with(Token::LBrack).with(Token::LBrace).with(Token::If).with(Token::While);
    assert(s@ =~= spec_lhs_first());
    s
}

proof fn lemma_exprs_m_len(v: Seq<Expr>)
    ensures
        exprs_m(v).len() == v.len(),
    decreases v.len(),
{
    if v.len() > 0 {
        lemma_exprs_m_len(v.drop_last());
    }
}

/// The parser's state may be read from: its position lies in the input.
pub open spec fn ready(p: Parser) -> bool {
    in_input(p.tokens@, p.pos as int)
}

impl Parser {
    /// See `p_start`.
    pub fn start(&mut self, first: TokenSet, follow: TokenSet) -> (r: Result<Spanned<Token>, Span>)
        requires
            ready(*old(self)),
        ensures
            ready(*final(self)),
            final(self).tokens == old(self).tokens,
            final(self).texts == old(self).texts,
            (r, final(self).state()) == p_start(old(self).input(), old(self).state(), first@, follow@),
            final(self).pos >= old(self).pos,
            r matches Ok(t) ==> t == final(self).tokens@[final(self).pos as int] && first@.contains(t.v),
    {
        let t = self.tokens[self.pos];
        if first.contains(t.v) {
            return Ok(t);
        }
        proof {
            lemma_recovery_in_input(self.tokens@, self.pos as int, self.delims@, FUEL as nat, first@, follow@, true);
            super::recover::lemma_recovery_resumes_outside_brackets(self.tokens@, self.pos as int, self.delims@, FUEL as nat, first@, follow@, true);
        }
        self.report.err(t.s, "Unexpected token", "not expected here");
        self.recover::<true>(first, follow)
    }

    /// See `p_expect`.
    pub fn expect(&mut self, first: TokenSet, follow: TokenSet) -> (r: Result<Spanned<Token>, Span>)
        requires
            ready(*old(self)),
            !first@.contains(Token::Eof),
        ensures
            ready(*final(self)),
            final(self).tokens == old(self).tokens,
            final(self).texts == old(self).texts,
            (r, final(self).state()) == p_expect(old(self).input(), old(self).state(), first@, follow@),
            final(self).pos >= old(self).pos,
            r matches Ok(t) ==> final(self).pos > old(self).pos && t == final(self).tokens@[final(self).pos - 1]
                && first@.contains(t.v),
    {
        let n = self.tokens.len();
        let t = self.tokens[self.pos];
        if first.contains(t.v) {
            proof {
                if self.pos + 1 >= self.tokens@.len() {
                    assert(t == self.tokens@.last());
                }
            }
            self.pos = self.pos + 1;
            return Ok(t);
        }
        proof {
            lemma_recovery_in_input(self.tokens@, self.pos as int, self.delims@, FUEL as nat, first@, follow@, false);
            super::recover::lemma_recovery_resumes_outside_brackets(self.tokens@, self.pos as int, self.delims@, FUEL as nat, first@, follow@, false);
        }
        self.report.err(t.s, "Unexpected token", "not expected here");
        self.recover::<false>(first, follow)
    }

    /// See `p_eat`.
    pub fn eat(&mut self, tok: Token, follow: TokenSet) -> (r: Result<bool, Span>)
        requires
            ready(*old(self)),
            tok != Token::Eof,
        ensures
            ready(*final(self)),
            final(self).tokens == old(self).tokens,
            final(self).texts == old(self).texts,
            (r, final(self).state()) == p_eat(old(self).input(), old(self).state(), tok, follow@),
    {
        let first = follow.with(tok);
        assert(first@ == follow@.insert(tok));
        let ghost p0 = self.state();
        proof {
            lemma_recovery_in_input(self.tokens@, self.pos as int, self.delims@, FUEL as nat, first@, follow@, true);
        }
        let t = self.start(first, follow)?;
        let n = self.tokens.len();
        if t.v == tok {
            proof {
                assert(t == self.tokens@[self.pos as int]);
                if self.pos + 1 >= n {
                    assert(t == self.tokens@.last());
                }
            }
            self.pos = self.pos + 1;
            Ok(true)
        } else {
            Ok(false)
        }
    }



    /// The text of the token at `i`, or nothing when none was given.
    pub fn text_of(&self, i: usize) -> (s: String)
        ensures
            s@ == text_at(self.input(), i as int),
    {
        if i < self.texts.len() {
            self.texts[i].clone()
        } else {
            String::new()
        }
    }

    /// See `p_name`.
    pub fn name(&mut self, follow: TokenSet) -> (r: Result<(Span, Name), Span>)
        requires
            ready(*old(self)),
        ensures
            ready(*final(self)),
            final(self).tokens == old(self).tokens,
            final(self).texts == old(self).texts,
            (name_res(r), final(self).state()) == p_name(old(self).input(), old(self).state(), follow@),
    {
        let first = TokenSet::single(Token::Name);
        assert(first@ =~= set![Token::Name]);
        let t = self.expect(first, follow)?;
        let x = self.text_of(self.pos - 1);
        Ok((t.s, Name::from_string(x)))
    }

    /// See `p_segment`.
    pub fn segment(&mut self, follow: TokenSet) -> (r: Result<Segment, Span>)
        requires
            ready(*old(self)),
        ensures
            ready(*final(self)),
            final(self).tokens == old(self).tokens,
            final(self).texts == old(self).texts,
            (seg_res(r), final(self).state()) == p_segment(old(self).input(), old(self).state(), follow@),
    {
        let (sp, x) = self.name(follow)?;
        self.start(follow, follow)?;
        let g = Segment { span: sp, name: x, types: Vec::new() };
        assert(crate::desugar::syntax::types_m(g.types@) =~= Seq::<TypeM>::empty());
        Ok(g)
    }

    /// See `p_path_more`.
    pub fn path_more(&mut self, follow: TokenSet, acc: Vec<Segment>) -> (r: Result<Vec<Segment>, Span>)
        requires
            ready(*old(self)),
        ensures
            ready(*final(self)),
            final(self).tokens == old(self).tokens,
            final(self).texts == old(self).texts,
            (segs_res(r), final(self).state()) == p_path_more(
                old(self).input(),
                old(self).state(),
                follow@,
                segments_m(acc@),
            ),
            r matches Ok(v) ==> v@.len() >= acc@.len(),
        decreases old(self).tokens@.len() - old(self).pos,
    {
        let p0 = self.pos;
        let f1 = follow.with(Token::ColonColon);
        assert(f1@ == follow@.insert(Token::ColonColon));
        let more = self.eat(Token::ColonColon, follow)?;
        if !more {
            return Ok(acc);
        }
        let f2 = f1.with(Token::Name);
        let t = self.start(f2, f1)?;
        if t.v != Token::Name {
            return Ok(acc);
        }
        let g = self.segment(f1)?;
        let n = self.tokens.len();
        if !(p0 < self.pos && self.pos <= n) {
            return Err(self.tokens[self.pos].s);
        }
        let mut acc = acc;
        let ghost a0 = acc@;
        acc.push(g);
        proof {
            lemma_segments_m_push(a0, g);
        }
        self.path_more(follow, acc)
    }

    /// See `p_path`.
    pub fn path(&mut self, follow: TokenSet) -> (r: Result<(Span, Vec<Segment>), Span>)
        requires
            ready(*old(self)),
        ensures
            ready(*final(self)),
            final(self).tokens == old(self).tokens,
            final(self).texts == old(self).texts,
            (path_res(r), final(self).state()) == p_path(old(self).input(), old(self).state(), follow@),
    {
        let f1 = follow.with(Token::ColonColon);
        assert(f1@ == follow@.insert(Token::ColonColon));
        let g = self.segment(f1)?;
        let s0 = g.span;
        let mut acc: Vec<Segment> = Vec::new();
        acc.push(g);
        proof {
            lemma_segments_m_push(Seq::empty(), g);
            assert(acc@ =~= Seq::<Segment>::empty().push(g));
            assert(segments_m(Seq::<Segment>::empty()) == Seq::<SegmentM>::empty());
            assert(Seq::<SegmentM>::empty().push(segment_m(g)) =~= seq![segment_m(g)]);
        }
        let gs = self.path_more(follow, acc)?;
        let k = gs.len();
        proof {
            lemma_segments_m_index(gs@, k - 1);
        }
        let s1 = gs[k - 1].span;
        Ok((s0.join(s1), gs))
    }

    /// Whether the end token comes next or is reached by recovery, which is then taken;
    /// see `p_expect`.
    pub fn expect_end(&mut self, eof: TokenSet) -> (r: bool)
        requires
            ready(*old(self)),
            eof@ == set![Token::Eof],
        ensures
            final(self).tokens == old(self).tokens,
            final(self).texts == old(self).texts,
            r == (p_expect(old(self).input(), old(self).state(), eof@, eof@).0 is Ok),
            final(self).state() == p_expect(old(self).input(), old(self).state(), eof@, eof@).1,
    {
        let t = self.tokens[self.pos];
        let n = self.tokens.len();
        if t.v == Token::Eof {
            self.pos = self.pos + 1;
            return true;
        }
        proof {
            lemma_recovery_in_input(self.tokens@, self.pos as int, self.delims@, FUEL as nat, eof@, eof@, false);
        }
        self.report.err(t.s, "Unexpected token", "not expected here");
        self.recover::<false>(eof, eof).is_ok()
    }

    /// See `p_expr`.
    pub fn expr(&mut self, follow: TokenSet) -> (r: (Span, Expr))
        requires
            ready(*old(self)),
        ensures
            ready(*final(self)),
            final(self).tokens == old(self).tokens,
            final(self).texts == old(self).texts,
            ((r.0, r.1@), final(self).state()) == p_expr(old(self).input(), old(self).state(), follow@),
        decreases old(self).tokens@.len() - old(self).pos, 20nat,
    {
        match self.expr_bp(follow, 0) {
            Ok(e) => e,
            Err(s) => (s, Expr::Error(s, Type::Unknown)),
        }
    }

    /// See `p_expr_bp`.
    pub fn expr_bp(&mut self, follow: TokenSet, min_bp: u8) -> (r: Result<(Span, Expr), Span>)
        requires
            ready(*old(self)),
        ensures
            ready(*final(self)),
            final(self).tokens == old(self).tokens,
            final(self).texts == old(self).texts,
            (expr_res(r), final(self).state()) == p_expr_bp(old(self).input(), old(self).state(), follow@, min_bp),
        decreases old(self).tokens@.len() - old(self).pos, 19nat,
    {
        let ff = follow.or(expr_follow()).or(stmt_first());
        assert(ff@ =~= full_follow(follow@));
        let p0 = self.pos;
        let lhs = match self.expr_lhs(ff) {
            Ok(e) => e,
            Err(s) => (s, Expr::Error(s, Type::Unknown)),
        };
        let n = self.tokens.len();
        if !(p0 <= self.pos && self.pos <= n) {
            return Err(self.tokens[self.pos].s);
        }
        self.expr_loop(ff, min_bp, lhs)
    }

    /// See `p_expr_loop`.
    #[verifier::rlimit(40)]
    pub fn expr_loop(&mut self, ff: TokenSet, min_bp: u8, lhs: (Span, Expr)) -> (r: Result<(Span, Expr), Span>)
        requires
            ready(*old(self)),
        ensures
            ready(*final(self)),
            final(self).tokens == old(self).tokens,
            final(self).texts == old(self).texts,
            (expr_res(r), final(self).state()) == p_expr_loop(
                old(self).input(),
                old(self).state(),
                ff@,
                min_bp,
                (lhs.0, lhs.1@),
            ),
        decreases old(self).tokens@.len() - old(self).pos, 18nat,
    {
        let p0 = self.pos;
        let op = self.start(ff, ff)?;
        let n = self.tokens.len();
        if !(p0 <= self.pos && self.pos <= n) {
            return Err(self.tokens[self.pos].s);
        }
        if op.v == Token::Dot {
            return self.dot(ff, min_bp, lhs, op);
        }
        if op.v == Token::LParen {
            if 9 < min_bp {
                return Ok(lhs);
            }
            let (sa, args) = self.expr_args(ff)?;
            let e = Expr::Call(lhs.0.join(sa), Type::Unknown, Rc::new(lhs.1), args);
            if !(p0 < self.pos && self.pos <= n) {
                return Err(self.tokens[self.pos].s);
            }
            return self.expr_loop(ff, min_bp, (lhs.0.join(op.s), e));
        }
        match op.v.infix_bp() {
            Some((l, rb)) => {
                if l < min_bp || op.v == Token::Eq || self.pos + 1 > n {
                    return Ok(lhs);
                }
                proof {
                    if self.pos + 1 >= n {
                        assert(op == self.tokens@.last());
                    }
                }
                self.pos = self.pos + 1;
                let rhs = self.expr_bp(ff, rb)?;
                let sp = lhs.0.join(rhs.0);
                let e = Expr::InfixBinaryOp(sp, Type::Unknown, op.v, Rc::new(lhs.1), Rc::new(rhs.1));
                if !(p0 < self.pos && self.pos <= n) {
                    return Err(self.tokens[self.pos].s);
                }
                self.expr_loop(ff, min_bp, (sp, e))
            },
            None => Ok(lhs),
        }
    }

    /// See `p_expr_lhs`.
    /// See `p_expr_lhs`.
    pub fn expr_lhs(&mut self, ff: TokenSet) -> (r: Result<(Span, Expr), Span>)
        requires
            ready(*old(self)),
        ensures
            ready(*final(self)),
            final(self).tokens == old(self).tokens,
            final(self).texts == old(self).texts,
            (expr_res(r), final(self).state()) == p_expr_lhs(old(self).input(), old(self).state(), ff@),
        decreases old(self).tokens@.len() - old(self).pos, 17nat,
    {
        let p0 = self.pos;
        let first = lhs_first();
        let t = self.start(first, ff)?;
        let n = self.tokens.len();
        if !(p0 <= self.pos && self.pos < n) {
            return Err(self.tokens[self.pos].s);
        }
        self.lhs_token(ff, t)
    }

    /// See `p_lhs_token`.
    #[verifier::rlimit(60)]
    pub fn lhs_token(&mut self, ff: TokenSet, t: Spanned<Token>) -> (r: Result<(Span, Expr), Span>)
        requires
            ready(*old(self)),
            old(self).tokens@[old(self).pos as int] == t,
            spec_lhs_first().contains(t.v),
        ensures
            ready(*final(self)),
            final(self).tokens == old(self).tokens,
            final(self).texts == old(self).texts,
            (expr_res(r), final(self).state()) == p_lhs_token(old(self).input(), old(self).state(), ff@, t),
        decreases old(self).tokens@.len() - old(self).pos, 16nat,
    {
        let n = self.tokens.len();
        let s = t.s;
        proof {
            if self.pos + 1 >= n {
                assert(t == self.tokens@.last());
            }
        }
        match t.v {
            Token::True | Token::False => {
                self.pos = self.pos + 1;
                Ok((s, Expr::Bool(s, Type::Unknown, t.v == Token::True)))
            },
            Token::Int => {
                let v = self.text_of(self.pos);
                self.pos = self.pos + 1;
                Ok((s, Expr::Int(s, Type::Unknown, v)))
            },
            Token::Float => {
                let v = self.text_of(self.pos);
                self.pos = self.pos + 1;
                Ok((s, Expr::Float(s, Type::Unknown, v)))
            },
            Token::String => {
                let v = self.text_of(self.pos);
                self.pos = self.pos + 1;
                Ok((s, Expr::String(s, Type::Unknown, v)))
            },
            Token::IntSuffix => {
                let v = self.text_of(self.pos);
                self.pos = self.pos + 1;
                let (a, b) = split_numeral(&v, false);
                Ok((s, Expr::IntSuffix(s, Type::Unknown, a, Name::from_string(b))))
            },
            Token::FloatSuffix => {
                let v = self.text_of(self.pos);
                self.pos = self.pos + 1;
                let (a, b) = split_numeral(&v, true);
                Ok((s, Expr::FloatSuffix(s, Type::Unknown, a, Name::from_string(b))))
            },
            Token::Name => {
                let (sp, gs) = self.path(ff)?;
                Ok((sp, Expr::Path(sp, Type::Unknown, Path { segments: gs })))
            },
            Token::LParen => {
                let (sa, es) = self.expr_args(ff)?;
                if es.len() == 1 {
                    let mut es = es;
                    let ghost v0 = es@;
                    let e = es.pop().unwrap();
                    proof {
                        assert(v0 =~= Seq::<Expr>::empty().push(e));
                        lemma_exprs_m_push(Seq::empty(), e);
                        assert(exprs_m(Seq::<Expr>::empty()) == Seq::<ExprM>::empty());
                    }
                    Ok((sa, Expr::Paren(sa, Type::Unknown, Rc::new(e))))
                } else {
                    proof {
                        lemma_exprs_m_len(es@);
                    }
                    Ok((sa, Expr::Tuple(sa, Type::Unknown, es)))
                }
            },
            Token::Break => {
                self.pos = self.pos + 1;
                Ok((s, Expr::Break(s, Type::Unknown)))
            },
            Token::Continue => {
                self.pos = self.pos + 1;
                Ok((s, Expr::Continue(s, Type::Unknown)))
            },
            Token::Return => {
                self.pos = self.pos + 1;
                self.return_expr(ff, s)
            },
            Token::LBrack => self.array(ff, s),
            Token::LBrace => self.block(ff),
            Token::If => {
                self.pos = self.pos + 1;
                self.if_expr(ff, s)
            },
            Token::While => {
                self.pos = self.pos + 1;
                self.while_expr(ff, s)
            },
            _ => {
                self.pos = self.pos + 1;
                let rhs = self.expr_bp(ff, 8)?;
                let sp = s.join(rhs.0);
                Ok((sp, Expr::PrefixUnaryOp(sp, Type::Unknown, t.v, Rc::new(rhs.1))))
            },
        }
    }

    /// See `p_return`.
    #[verifier::rlimit(40)]
    pub fn return_expr(&mut self, ff: TokenSet, s: Span) -> (r: Result<(Span, Expr), Span>)
        requires
            ready(*old(self)),
        ensures
            ready(*final(self)),
            final(self).tokens == old(self).tokens,
            final(self).texts == old(self).texts,
            (expr_res(r), final(self).state()) == p_return(old(self).input(), old(self).state(), ff@, s),
        decreases old(self).tokens@.len() - old(self).pos, 30nat,
    {
        let p0 = self.pos;
        let ef = expr_first();
        let first = ff.or(ef);
        assert(first@ == ff@.union(spec_expr_first()));
        let t1 = self.start(first, ff)?;
        if !ef.contains(t1.v) {
            let none: Vec<Expr> = Vec::new();
            proof {
                assert(none@ =~= Seq::<Expr>::empty());
                assert(exprs_m(none@) == Seq::<ExprM>::empty());
            }
            let u = Expr::Tuple(s, Type::Unknown, none);
            assert(u@ == ExprM::Tuple(s, TypeM::Unknown, Seq::empty()));
            return Ok((s, Expr::Return(s, Type::Unknown, Rc::new(u))));
        }
        let n = self.tokens.len();
        if !(p0 <= self.pos && self.pos <= n) {
            return Err(self.tokens[self.pos].s);
        }
        let e = self.expr(ff);
        let sp = s.join(e.0);
        Ok((sp, Expr::Return(sp, Type::Unknown, Rc::new(e.1))))
    }

    /// See `p_array`.
    #[verifier::rlimit(40)]
    pub fn array(&mut self, ff: TokenSet, s: Span) -> (r: Result<(Span, Expr), Span>)
        requires
            ready(*old(self)),
        ensures
            ready(*final(self)),
            final(self).tokens == old(self).tokens,
            final(self).texts == old(self).texts,
            (expr_res(r), final(self).state()) == p_array(old(self).input(), old(self).state(), ff@, s),
        decreases old(self).tokens@.len() - old(self).pos, 12nat,
    {
        let p0 = self.pos;
        let open = TokenSet::single(Token::LBrack);
        assert(open@ =~= set![Token::LBrack]);
        let t0 = self.expect(open, ff)?;
        let n = self.tokens.len();
        if !(p0 < self.pos && self.pos <= n) {
            return Err(self.tokens[self.pos].s);
        }
        let es = self.exprs(ff.with(Token::RBrack))?;
        let close = TokenSet::single(Token::RBrack);
        assert(close@ =~= set![Token::RBrack]);
        let t1 = self.expect(close, ff)?;
        let sp = s.join(t0.s.join(t1.s));
        Ok((sp, Expr::Array(sp, Type::Unknown, es)))
    }

    /// See `p_dot`.
    #[verifier::rlimit(40)]
    pub fn dot(&mut self, ff: TokenSet, min_bp: u8, lhs: (Span, Expr), op: Spanned<Token>) -> (r: Result<(Span, Expr), Span>)
        requires
            ready(*old(self)),
            old(self).tokens@[old(self).pos as int] == op,
            op.v == Token::Dot,
        ensures
            ready(*final(self)),
            final(self).tokens == old(self).tokens,
            final(self).texts == old(self).texts,
            (expr_res(r), final(self).state()) == p_dot(
                old(self).input(),
                old(self).state(),
                ff@,
                min_bp,
                (lhs.0, lhs.1@),
                op,
            ),
        decreases old(self).tokens@.len() - old(self).pos, 17nat,
    {
        let p0 = self.pos;
        let n = self.tokens.len();
        if 9 < min_bp || self.pos + 1 > n {
            return Ok(lhs);
        }
        proof {
            if self.pos + 1 >= n {
                assert(op == self.tokens@.last());
            }
        }
        self.pos = self.pos + 1;
        let name_first = TokenSet::single(Token::Name);
        assert(name_first@ =~= set![Token::Name]);
        self.start(name_first, ff)?;
        let (xs, x) = self.name(ff)?;
        let t2 = self.start(ff.with(Token::LParen), ff)?;
        if !(p0 < self.pos && self.pos <= n) {
            return Err(self.tokens[self.pos].s);
        }
        if t2.v == Token::LParen {
            let (sa, args) = self.expr_args(ff)?;
            let e = Expr::Dot(lhs.0.join(sa), Type::Unknown, Rc::new(lhs.1), x, Vec::new(), args);
            if !(p0 < self.pos && self.pos <= n) {
                return Err(self.tokens[self.pos].s);
            }
            self.expr_loop(ff, min_bp, (lhs.0.join(op.s), e))
        } else {
            let e = Expr::Field(lhs.0.join(xs), Type::Unknown, Rc::new(lhs.1), x);
            self.expr_loop(ff, min_bp, (lhs.0.join(op.s), e))
        }
    }

    /// See `p_semis`.
    pub fn semis(&mut self, f: TokenSet) -> (r: Result<(), Span>)
        requires
            ready(*old(self)),
        ensures
            ready(*final(self)),
            final(self).tokens == old(self).tokens,
            final(self).texts == old(self).texts,
            (r, final(self).state()) == p_semis(old(self).input(), old(self).state(), f@),
        decreases old(self).tokens@.len() - old(self).pos,
    {
        let p0 = self.pos;
        let more = self.eat(Token::SemiColon, f)?;
        if !more {
            return Ok(());
        }
        let n = self.tokens.len();
        if !(p0 < self.pos && self.pos <= n) {
            return Err(self.tokens[self.pos].s);
        }
        self.semis(f)
    }

    /// See `p_block`.
    #[verifier::rlimit(40)]
    pub fn block(&mut self, follow: TokenSet) -> (r: Result<(Span, Expr), Span>)
        requires
            ready(*old(self)),
        ensures
            ready(*final(self)),
            final(self).tokens == old(self).tokens,
            final(self).texts == old(self).texts,
            (expr_res(r), final(self).state()) == p_block(old(self).input(), old(self).state(), follow@),
        decreases old(self).tokens@.len() - old(self).pos, 12nat,
    {
        let p0 = self.pos;
        let open = TokenSet::single(Token::LBrace);
        assert(open@ =~= set![Token::LBrace]);
        let t0 = self.expect(open, follow)?;
        let n = self.tokens.len();
        if !(p0 < self.pos && self.pos <= n) {
            return Err(self.tokens[self.pos].s);
        }
        let none: Vec<Expr> = Vec::new();
        proof {
            assert(none@ =~= Seq::<Expr>::empty());
            assert(exprs_m(none@) == Seq::<ExprM>::empty());
        }
        self.block_items(follow, t0.s, none)
    }

    /// See `p_block_items`.
    #[verifier::rlimit(60)]
    pub fn block_items(&mut self, follow: TokenSet, s0: Span, stmts: Vec<Expr>) -> (r: Result<(Span, Expr), Span>)
        requires
            ready(*old(self)),
        ensures
            ready(*final(self)),
            final(self).tokens == old(self).tokens,
            final(self).texts == old(self).texts,
            (expr_res(r), final(self).state()) == p_block_items(
                old(self).input(),
                old(self).state(),
                follow@,
                s0,
                exprs_m(stmts@),
            ),
        decreases old(self).tokens@.len() - old(self).pos, 26nat,
    {
        let p0 = self.pos;
        let n = self.tokens.len();
        let fb = follow.or(stmt_first()).with(Token::RBrace);
        assert(fb@ =~= follow@.union(spec_stmt_first()).insert(Token::RBrace));
        let first = expr_first().with(Token::SemiColon).with(Token::RBrace);
        assert(first@ =~= spec_expr_first().insert(Token::SemiColon).insert(Token::RBrace));
        let t1 = self.start(first, follow)?;
        if !(p0 <= self.pos && self.pos < n) {
            return Err(self.tokens[self.pos].s);
        }
        if t1.v == Token::SemiColon {
            self.semis(fb)?;
            if !(p0 < self.pos && self.pos <= n) {
                return Err(self.tokens[self.pos].s);
            }
            return self.block_items(follow, s0, stmts);
        }
        if t1.v == Token::RBrace {
            proof {
                if self.pos + 1 >= n {
                    assert(t1 == self.tokens@.last());
                }
            }
            self.pos = self.pos + 1;
            let sp = s0.join(t1.s);
            let none: Vec<Expr> = Vec::new();
            proof {
                assert(none@ =~= Seq::<Expr>::empty());
                assert(exprs_m(none@) == Seq::<ExprM>::empty());
            }
            let u = Expr::Tuple(sp, Type::Unknown, none);
            assert(u@ == ExprM::Tuple(sp, TypeM::Unknown, Seq::empty()));
            return Ok((sp, Expr::Block(sp, Type::Unknown, stmts, Rc::new(u))));
        }
        let e = self.expr(fb);
        let semi = self.eat(Token::SemiColon, fb)?;
        let mut stmts = stmts;
        let ghost s0m = stmts@;
        if semi {
            self.semis(fb)?;
            if !(p0 < self.pos && self.pos <= n) {
                return Err(self.tokens[self.pos].s);
            }
            stmts.push(e.1);
            proof {
                lemma_exprs_m_push(s0m, e.1);
            }
            return self.block_items(follow, s0, stmts);
        }
        let braced = match &e.1 {
            Expr::Block(..) | Expr::IfElse(..) | Expr::While(..) => true,
            _ => false,
        };
        if braced && self.tokens[self.pos].v != Token::RBrace {
            if !(p0 < self.pos && self.pos <= n) {
                return Err(self.tokens[self.pos].s);
            }
            stmts.push(e.1);
            proof {
                lemma_exprs_m_push(s0m, e.1);
            }
            return self.block_items(follow, s0, stmts);
        }
        let close = TokenSet::single(Token::RBrace);
        assert(close@ =~= set![Token::RBrace]);
        let t2 = self.expect(close, follow)?;
        let sp = s0.join(t2.s);
        Ok((sp, Expr::Block(sp, Type::Unknown, stmts, Rc::new(e.1))))
    }

    /// See `p_if`.
    #[verifier::rlimit(40)]
    pub fn if_expr(&mut self, ff: TokenSet, s: Span) -> (r: Result<(Span, Expr), Span>)
        requires
            ready(*old(self)),
        ensures
            ready(*final(self)),
            final(self).tokens == old(self).tokens,
            final(self).texts == old(self).texts,
            (expr_res(r), final(self).state()) == p_if(old(self).input(), old(self).state(), ff@, s),
        decreases old(self).tokens@.len() - old(self).pos, 30nat,
    {
        let p0 = self.pos;
        let n = self.tokens.len();
        let fe = ff.with(Token::Else).or(stmt_first());
        assert(fe@ =~= ff@.insert(Token::Else).union(spec_stmt_first()));
        let e = self.expr(ff.with(Token::LBrace));
        if !(p0 <= self.pos && self.pos <= n) {
            return Err(self.tokens[self.pos].s);
        }
        let b0 = self.block(fe)?;
        let t = self.start(fe, ff)?;
        if t.v == Token::Else {
            if !(p0 <= self.pos && self.pos < n) {
                return Err(self.tokens[self.pos].s);
            }
            proof {
                if self.pos + 1 >= n {
                    assert(t == self.tokens@.last());
                }
            }
            self.pos = self.pos + 1;
            let b1 = self.block(ff)?;
            let sp = s.join(b1.0);
            Ok((sp, Expr::IfElse(sp, Type::Unknown, Rc::new(e.1), Rc::new(b0.1), Rc::new(b1.1))))
        } else {
            let sp = s.join(b0.0);
            let none: Vec<Expr> = Vec::new();
            let none2: Vec<Expr> = Vec::new();
            proof {
                assert(none@ =~= Seq::<Expr>::empty());
                assert(none2@ =~= Seq::<Expr>::empty());
                assert(exprs_m(none@) == Seq::<ExprM>::empty());
            }
            let u = Expr::Tuple(sp, Type::Unknown, none);
            assert(u@ == ExprM::Tuple(sp, TypeM::Unknown, Seq::empty()));
            let b1 = Expr::Block(sp, Type::Unknown, none2, Rc::new(u));
            assert(b1@ == ExprM::Block(sp, TypeM::Unknown, Seq::empty(), Box::new(u@)));
            Ok((sp, Expr::IfElse(sp, Type::Unknown, Rc::new(e.1), Rc::new(b0.1), Rc::new(b1))))
        }
    }

    /// See `p_while`.
    #[verifier::rlimit(40)]
    pub fn while_expr(&mut self, ff: TokenSet, s: Span) -> (r: Result<(Span, Expr), Span>)
        requires
            ready(*old(self)),
        ensures
            ready(*final(self)),
            final(self).tokens == old(self).tokens,
            final(self).texts == old(self).texts,
            (expr_res(r), final(self).state()) == p_while(old(self).input(), old(self).state(), ff@, s),
        decreases old(self).tokens@.len() - old(self).pos, 30nat,
    {
        let p0 = self.pos;
        let n = self.tokens.len();
        let e = self.expr(ff.with(Token::LBrace));
        if !(p0 <= self.pos && self.pos <= n) {
            return Err(self.tokens[self.pos].s);
        }
        let b = self.block(ff)?;
        let sp = s.join(b.0);
        Ok((sp, Expr::While(sp, Type::Unknown, Rc::new(e.1), Rc::new(b.1))))
    }

    /// See `p_expr_args`.
    #[verifier::rlimit(40)]
    pub fn expr_args(&mut self, follow: TokenSet) -> (r: Result<(Span, Vec<Expr>), Span>)
        requires
            ready(*old(self)),
        ensures
            ready(*final(self)),
            final(self).tokens == old(self).tokens,
            final(self).texts == old(self).texts,
            (args_res(r), final(self).state()) == p_expr_args(old(self).input(), old(self).state(), follow@),
        decreases old(self).tokens@.len() - old(self).pos, 12nat,
    {
        let p0 = self.pos;
        let open = TokenSet::single(Token::LParen);
        assert(open@ =~= set![Token::LParen]);
        let t0 = self.expect(open, follow)?;
        let n = self.tokens.len();
        if !(p0 < self.pos && self.pos <= n) {
            return Err(self.tokens[self.pos].s);
        }
        let es = self.exprs(follow.with(Token::RParen))?;
        let close = TokenSet::single(Token::RParen);
        assert(close@ =~= set![Token::RParen]);
        let t1 = self.expect(close, follow)?;
        Ok((t0.s.join(t1.s), es))
    }

    /// See `p_exprs`.
    pub fn exprs(&mut self, follow: TokenSet) -> (r: Result<Vec<Expr>, Span>)
        requires
            ready(*old(self)),
        ensures
            ready(*final(self)),
            final(self).tokens == old(self).tokens,
            final(self).texts == old(self).texts,
            (list_res(r), final(self).state()) == p_exprs(old(self).input(), old(self).state(), follow@),
        decreases old(self).tokens@.len() - old(self).pos, 25nat,
    {
        let p0 = self.pos;
        let ef = expr_first();
        let t = self.start(ef.or(follow), follow)?;
        if !ef.contains(t.v) {
            let none: Vec<Expr> = Vec::new();
            proof {
                assert(none@ =~= Seq::<Expr>::empty());
                assert(exprs_m(none@) == Seq::<ExprM>::empty());
            }
            return Ok(none);
        }
        let n = self.tokens.len();
        if !(p0 <= self.pos && self.pos <= n) {
            return Err(self.tokens[self.pos].s);
        }
        let e = self.expr(follow.with(Token::Comma));
        if !(p0 <= self.pos && self.pos <= n) {
            return Err(self.tokens[self.pos].s);
        }
        let mut acc: Vec<Expr> = Vec::new();
        acc.push(e.1);
        proof {
            lemma_exprs_m_push(Seq::empty(), e.1);
            assert(acc@ =~= Seq::<Expr>::empty().push(e.1));
            assert(exprs_m(Seq::<Expr>::empty()) == Seq::<ExprM>::empty());
            assert(Seq::<ExprM>::empty().push(e.1@) =~= seq![e.1@]);
        }
        self.exprs_more(follow, acc)
    }

    /// See `p_exprs_more`.
    pub fn exprs_more(&mut self, follow: TokenSet, acc: Vec<Expr>) -> (r: Result<Vec<Expr>, Span>)
        requires
            ready(*old(self)),
        ensures
            ready(*final(self)),
            final(self).tokens == old(self).tokens,
            final(self).texts == old(self).texts,
            (list_res(r), final(self).state()) == p_exprs_more(
                old(self).input(),
                old(self).state(),
                follow@,
                exprs_m(acc@),
            ),
        decreases old(self).tokens@.len() - old(self).pos, 24nat,
    {
        let p0 = self.pos;
        let f1 = follow.with(Token::Comma);
        assert(f1@ == follow@.insert(Token::Comma));
        let more = self.eat(Token::Comma, follow)?;
        if !more {
            return Ok(acc);
        }
        let ef = expr_first();
        let t = self.start(ef.or(f1), f1)?;
        if !ef.contains(t.v) {
            return Ok(acc);
        }
        let n = self.tokens.len();
        if !(p0 < self.pos && self.pos <= n) {
            return Err(self.tokens[self.pos].s);
        }
        let e = self.expr(f1);
        if !(p0 < self.pos && self.pos <= n) {
            return Err(self.tokens[self.pos].s);
        }
        let mut acc = acc;
        let ghost a0 = acc@;
        acc.push(e.1);
        proof {
            lemma_exprs_m_push(a0, e.1);
        }
        self.exprs_more(follow, acc)
    }
}

/// The tokens of `cs` from index `i`, as the lexer hands them out, ending with the end
/// token, and the diagnostics it reports on the way.
pub open spec fn lex_all(file: u16, cs: Seq<char>, i: int) -> (Seq<Spanned<Token>>, Seq<Diag>)
    decreases cs.len() - i,
{
    let r = spec_lex(cs, i);
    match r.0 {
        Some(_) => if i < r.1 <= cs.len() {
            let (ts, ds) = lex_all(file, cs, r.1);
            (seq![spanned_token(file, cs, r.0)->0] + ts, error_diags(file, cs, r.2) + ds)
        } else {
            (Seq::empty(), Seq::empty())
        },
        None => (
            seq![Spanned { s: char_span(file, cs, r.1, r.1), v: Token::Eof }],
            error_diags(file, cs, r.2),
        ),
    }
}

/// The text of each token.
pub open spec fn texts_of(cs: Seq<char>, ts: Seq<Spanned<Token>>) -> Seq<Seq<char>> {
    ts.map_values(|t: Spanned<Token>| text_upto(cs, cs.len() as int, t.s.start as int, t.s.end as int))
}

/// The tokens of the whole input end with the end token.
pub proof fn lemma_lex_all_ends(file: u16, cs: Seq<char>, i: int)
    requires
        0 <= i <= cs.len(),
    ensures
        lex_all(file, cs, i).0.len() > 0,
        lex_all(file, cs, i).0.last().v is Eof,
    decreases cs.len() - i,
{
    lemma_lex_progress(cs, i);
    let r = spec_lex(cs, i);
    if r.0 is Some {
        lemma_lex_all_ends(file, cs, r.1);
        let ts = lex_all(file, cs, r.1).0;
        assert((seq![spanned_token(file, cs, r.0)->0] + ts).last() == ts.last());
    }
}

/// Parsing `input` as one expression followed by the end of the input: the expression,
/// unless the end cannot be reached, and the diagnostics of the lexer, then those of the
/// parser.
pub open spec fn spec_parse_expr(file: u16, cs: Seq<char>) -> (Option<ExprM>, Seq<Diag>) {
    let (ts, lds) = lex_all(file, cs, 0);
    let inp = Input { toks: ts, texts: texts_of(cs, ts) };
    let st0 = PState { pos: 0, delims: Seq::empty(), diags: Seq::empty() };
    let (e, st1) = p_expr(inp, st0, set![Token::Eof]);
    let (r, st2) = p_expect(inp, st1, set![Token::Eof], set![Token::Eof]);
    (if r is Ok { Some(e.1) } else { None }, lds + st2.diags)
}

/// The tokens of `input` and their texts, and the lexer's diagnostics.
pub fn tokenize(file: u16, input: &str) -> (r: (Vec<Spanned<Token>>, Vec<String>, Report))
    ensures
        r.0@ == lex_all(file, input@, 0).0,
        r.1@.map_values(|s: String| s@) == texts_of(input@, r.0@),
        r.2@ == lex_all(file, input@, 0).1,
{
    let ghost cs = input@;
    let ghost full = lex_all(file, cs, 0);
    let mut l = Lexer::new(file, input);
    let mut toks: Vec<Spanned<Token>> = Vec::new();
    let mut texts: Vec<String> = Vec::new();
    proof {
        assert(toks@ + lex_all(file, cs, 0).0 =~= full.0);
        assert(l.diags() + lex_all(file, cs, 0).1 =~= full.1);
    }
    loop
        invariant
            l.wf(),
            l.input() == cs,
            l.file_id() == file,
            full == lex_all(file, cs, 0),
            0 <= l.index() <= cs.len(),
            toks@.len() == texts@.len(),
            forall|k: int|
                0 <= k < toks@.len() ==> #[trigger] texts@[k]@ == text_upto(
                    cs,
                    cs.len() as int,
                    toks@[k].s.start as int,
                    toks@[k].s.end as int,
                ),
            !l.at_eof() ==> toks@ + lex_all(file, cs, l.index()).0 == full.0,
            !l.at_eof() ==> l.diags() + lex_all(file, cs, l.index()).1 == full.1,
            l.at_eof() ==> toks@ == full.0 && l.diags() == full.1,
            l.at_eof() ==> spec_lex(cs, l.index()).0 is None && l.index() == cs.len(),
        ensures
            toks@ == full.0,
            l.diags() == full.1,
            toks@.len() == texts@.len(),
            forall|k: int|
                0 <= k < toks@.len() ==> #[trigger] texts@[k]@ == text_upto(
                    cs,
                    cs.len() as int,
                    toks@[k].s.start as int,
                    toks@[k].s.end as int,
                ),
        decreases cs.len() - l.index() + if l.at_eof() { 0int } else { 1int },
    {
        let ghost i = l.index();
        let ghost eof0 = l.at_eof();
        let ghost d0 = l.diags();
        proof {
            lemma_lex_progress(cs, i);
            lemma_lex_range(cs, i);
        }
        match l.next() {
            Some(t) => {
                let x = l.text(t);
                let ghost prev = toks@;
                toks.push(t);
                texts.push(x);
                proof {
                    let r = spec_lex(cs, i);
                    if r.0 is Some {
                        let rest = lex_all(file, cs, r.1);
                        assert(toks@ + rest.0 =~= prev + lex_all(file, cs, i).0);
                        assert(l.diags() + rest.1 =~= d0 + lex_all(file, cs, i).1);
                    } else {
                        assert(!eof0);
                        assert(toks@ =~= prev + lex_all(file, cs, i).0);
                        assert(l.diags() =~= d0 + lex_all(file, cs, i).1);
                        assert(spec_lex(cs, cs.len() as int).0 is None);
                    }
                }
            },
            None => {
                proof {
                    assert(eof0);
                    assert(l.diags() =~= d0);
                }
                break;
            },
        }
    }
    proof {
        assert(texts@.map_values(|s: String| s@) =~= texts_of(cs, toks@));
    }
    (toks, texts, l.report)
}

/// Parses `input` as one expression followed by the end of the input; see
/// `spec_parse_expr`.
pub fn parse_expr(file: u16, input: &str) -> (r: (Option<Expr>, Report))
    ensures
        (match r.0 {
            Some(e) => Some(e@),
            None => None,
        }, r.1@) == spec_parse_expr(file, input@),
{
    let (toks, texts, lex_report) = tokenize(file, input);
    let ghost ts = lex_all(file, input@, 0).0;
    let ghost inp = Input { toks: ts, texts: texts_of(input@, ts) };
    proof {
        lemma_lex_all_ends(file, input@, 0);
    }
    let mut p = Parser::with_texts(toks, texts);
    assert(p.input() == inp);
    assert(p.delims@ =~= Seq::<Spanned<Token>>::empty());
    assert(p.report@ =~= Seq::<Diag>::empty());
    assert(p.state() == PState { pos: 0, delims: Seq::<Spanned<Token>>::empty(), diags: Seq::<Diag>::empty() });
    let eof = TokenSet::single(Token::Eof);
    assert(eof@ =~= set![Token::Eof]);
    let (_, e) = p.expr(eof);
    let ok = p.expect_end(eof);
    let mut report = lex_report;
    report.append(&mut p.report);
    (if ok { Some(e) } else { None }, report)
}

} // verus!
