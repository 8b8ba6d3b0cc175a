//! The parser's cursor over tokens, and its recovery from errors: after an unexpected token,
//! tokens are skipped until one that may start what is expected, or follow it, is found
//! outside every bracket opened while skipping.
use vstd::prelude::*;

use crate::diag::spec_err;
use crate::diag::Report;
use crate::span::Span;
use crate::span::Spanned;
use crate::token::Token;

use super::TokenSet;

verus! {

/// The most tokens that one recovery looks at before it gives up.
pub const FUEL: usize = 1000;

/// The state of a parse: the tokens, the position of the next one, the diagnostics so far,
/// and the brackets that recovery has opened and not yet seen closed.
pub struct Parser {
    pub tokens: Vec<Spanned<Token>>,
    pub texts: Vec<String>,
    pub pos: usize,
    pub report: Report,
    pub delims: Vec<Spanned<Token>>,
}

/// An opening bracket.
pub open spec fn is_open(t: Token) -> bool {
    t is LBrace || t is LParen || t is LBrack
}

/// `c` closes the bracket `o`.
pub open spec fn closes(c: Token, o: Token) -> bool {
    ||| c is RBrace && o is LBrace
    ||| c is RParen && o is LParen
    ||| c is RBrack && o is LBrack
}

/// The diagnostic for a bracket left open at the end of the input.
pub open spec fn unmatched(d: Spanned<Token>) -> ((Span, Seq<char>), Seq<(Span, Seq<char>)>) {
    match d.v {
        Token::LParen => spec_err(d.s, "Unmatched `(`"@, "expected `)`"@),
        Token::LBrace => spec_err(d.s, "Unmatched `{`"@, "expected `}`"@),
        _ => spec_err(d.s, "Unmatched `[`"@, "expected `]`"@),
    }
}

/// What a recovery ends with: the position, the open brackets, the diagnostics it adds, and
/// its result.
pub struct Recovery {
    pub pos: int,
    pub delims: Seq<Spanned<Token>>,
    pub diags: Seq<((Span, Seq<char>), Seq<(Span, Seq<char>)>)>,
    pub result: Result<Spanned<Token>, Span>,
}

/// Recovery from position `pos` with `fuel` more tokens to look at. A token of `first`
/// outside brackets is the result, consumed unless `peek`; a token of `follow` outside
/// brackets ends it with an error at that token; so does the end of the input, which reports
/// each bracket still open. Otherwise the token is skipped: an opening bracket is pushed, a
/// closing one that matches the last open bracket pops it.
pub open spec fn recovery(
    toks: Seq<Spanned<Token>>,
    pos: int,
    delims: Seq<Spanned<Token>>,
    fuel: nat,
    first: Set<Token>,
    follow: Set<Token>,
    peek: bool,
) -> Recovery
    decreases fuel,
{
    let t = toks[pos];
    if fuel == 0 {
        Recovery {
            pos,
            delims,
            diags: seq![spec_err(t.s, "Too many errors"@, "stopping here"@)],
            result: Err(t.s),
        }
    } else if first.contains(t.v) && delims.len() == 0 {
        Recovery {
            pos: if peek {
                pos
            } else {
                pos + 1
            },
            delims,
            diags: Seq::empty(),
            result: Ok(t),
        }
    } else if follow.contains(t.v) && delims.len() == 0 {
        Recovery { pos, delims, diags: Seq::empty(), result: Err(t.s) }
    } else if t.v is Eof {
        Recovery {
            pos,
            delims: Seq::empty(),
            diags: delims.map_values(|d: Spanned<Token>| unmatched(d)),
            result: Err(t.s),
        }
    } else if is_open(t.v) {
        recovery(toks, pos + 1, delims.push(t), (fuel - 1) as nat, first, follow, peek)
    } else if delims.len() > 0 && closes(t.v, delims.last().v) {
        recovery(toks, pos + 1, delims.drop_last(), (fuel - 1) as nat, first, follow, peek)
    } else {
        recovery(toks, pos + 1, delims, (fuel - 1) as nat, first, follow, peek)
    }
}

/// The input ends with its end token, and `pos` lies before it or on it.
pub open spec fn in_input(toks: Seq<Spanned<Token>>, pos: int) -> bool {
    0 <= pos < toks.len() && toks.last().v is Eof
}

/// A recovery that returns a token returns one of `first`, with no bracket left open, and it
/// never moves back.
pub proof fn lemma_recovery_resumes_outside_brackets(
    toks: Seq<Spanned<Token>>,
    pos: int,
    delims: Seq<Spanned<Token>>,
    fuel: nat,
    first: Set<Token>,
    follow: Set<Token>,
    peek: bool,
)
    requires
        in_input(toks, pos),
    ensures
        recovery(toks, pos, delims, fuel, first, follow, peek).pos >= pos,
        recovery(toks, pos, delims, fuel, first, follow, peek).result matches Ok(t) ==> first.contains(
            t.v,
        ) && recovery(toks, pos, delims, fuel, first, follow, peek).delims.len() == 0,
    decreases fuel,
{
    let t = toks[pos];
    if fuel > 0 && !(first.contains(t.v) && delims.len() == 0) && !(follow.contains(t.v)
        && delims.len() == 0) && !(t.v is Eof) {
        assert(pos + 1 < toks.len()) by {
            if pos + 1 >= toks.len() {
                assert(t == toks.last());
            }
        }
        if is_open(t.v) {
            lemma_recovery_resumes_outside_brackets(
                toks,
                pos + 1,
                delims.push(t),
                (fuel - 1) as nat,
                first,
                follow,
                peek,
            );
        } else if delims.len() > 0 && closes(t.v, delims.last().v) {
            lemma_recovery_resumes_outside_brackets(
                toks,
                pos + 1,
                delims.drop_last(),
                (fuel - 1) as nat,
                first,
                follow,
                peek,
            );
        } else {
            lemma_recovery_resumes_outside_brackets(
                toks,
                pos + 1,
                delims,
                (fuel - 1) as nat,
                first,
                follow,
                peek,
            );
        }
    }
}

/// Recovery stays within the input, and a token it takes without `peek` lies behind the
/// position it stops at.
pub proof fn lemma_recovery_in_input(
    toks: Seq<Spanned<Token>>,
    pos: int,
    delims: Seq<Spanned<Token>>,
    fuel: nat,
    first: Set<Token>,
    follow: Set<Token>,
    peek: bool,
)
    requires
        in_input(toks, pos),
    ensures
        in_input(toks, recovery(toks, pos, delims, fuel, first, follow, peek).pos)
            || (recovery(toks, pos, delims, fuel, first, follow, peek).result is Ok && !peek
            && recovery(toks, pos, delims, fuel, first, follow, peek).pos == toks.len()),
        recovery(toks, pos, delims, fuel, first, follow, peek).pos >= pos,
        recovery(toks, pos, delims, fuel, first, follow, peek).result is Ok && !peek
            ==> recovery(toks, pos, delims, fuel, first, follow, peek).pos > pos,
        !first.contains(Token::Eof) ==> in_input(
            toks,
            recovery(toks, pos, delims, fuel, first, follow, peek).pos,
        ),
        recovery(toks, pos, delims, fuel, first, follow, peek).result matches Ok(t) ==> t == toks[
            recovery(toks, pos, delims, fuel, first, follow, peek).pos - if peek {
                0int
            } else {
                1int
            }],
    decreases fuel,
{
    let t = toks[pos];
    if fuel > 0 && !(first.contains(t.v) && delims.len() == 0) && !(follow.contains(t.v)
        && delims.len() == 0) && !(t.v is Eof) {
        assert(pos + 1 < toks.len()) by {
            if pos + 1 >= toks.len() {
                assert(t == toks.last());
            }
        }
        if is_open(t.v) {
            lemma_recovery_in_input(toks, pos + 1, delims.push(t), (fuel - 1) as nat, first, follow, peek);
        } else if delims.len() > 0 && closes(t.v, delims.last().v) {
            lemma_recovery_in_input(toks, pos + 1, delims.drop_last(), (fuel - 1) as nat, first, follow, peek);
        } else {
            lemma_recovery_in_input(toks, pos + 1, delims, (fuel - 1) as nat, first, follow, peek);
        }
    } else if fuel > 0 && first.contains(t.v) && delims.len() == 0 && !peek {
        assert(!(t.v is Eof) ==> pos + 1 < toks.len()) by {
            if pos + 1 >= toks.len() {
                assert(t == toks.last());
            }
        }
    }
}

impl Parser {
    /// A parse of `tokens` from the first one, with no diagnostics.
    pub fn new(tokens: Vec<Spanned<Token>>) -> (p: Parser)
        ensures
            p.tokens == tokens,
            p.texts@.len() == 0,
            p.pos == 0,
            p.report@.len() == 0,
            p.delims@.len() == 0,
    {
        Parser { tokens, texts: Vec::new(), pos: 0, report: Report::new(), delims: Vec::new() }
    }

    /// A parse of `tokens`, whose texts are `texts`, from the first one, with no
    /// diagnostics.
    pub fn with_texts(tokens: Vec<Spanned<Token>>, texts: Vec<String>) -> (p: Parser)
        ensures
            p.tokens == tokens,
            p.texts == texts,
            p.pos == 0,
            p.report@.len() == 0,
            p.delims@.len() == 0,
    {
        Parser { tokens, texts, pos: 0, report: Report::new(), delims: Vec::new() }
    }

    /// The next token.
    pub fn peek(&self) -> (t: Spanned<Token>)
        requires
            self.pos < self.tokens@.len(),
        ensures
            t == self.tokens@[self.pos as int],
    {
        self.tokens[self.pos]
    }

    /// Takes the next token.
    pub fn next(&mut self) -> (t: Spanned<Token>)
        requires
            old(self).pos < old(self).tokens@.len(),
        ensures
            t == old(self).tokens@[old(self).pos as int],
            *final(self) == (Parser { pos: (old(self).pos + 1) as usize, ..*old(self) }),
    {
        let t = self.tokens[self.pos];
        assert(self.pos < self.tokens.len());
        self.pos = self.pos + 1;
        t
    }

    /// Skips the next token, if there is one.
    pub fn skip(&mut self)
        ensures
            *final(self) == (Parser {
                pos: if old(self).pos < old(self).tokens@.len() {
                    (old(self).pos + 1) as usize
                } else {
                    old(self).pos
                },
                ..*old(self)
            }),
    {
        if self.pos < self.tokens.len() {
            self.pos = self.pos + 1;
        }
    }

    /// Reports each bracket still open, in the order they were opened, and forgets them.
    fn report_unmatched(&mut self)
        ensures
            final(self).tokens == old(self).tokens,
            final(self).texts == old(self).texts,
            final(self).pos == old(self).pos,
            final(self).delims@.len() == 0,
            final(self).report@ == old(self).report@ + old(self).delims@.map_values(
                |d: Spanned<Token>| unmatched(d),
            ),
    {
        let ghost r0 = self.report@;
        let ghost ds = self.delims@;
        let mut i: usize = 0;
        while i < self.delims.len()
            invariant
                self.delims@ == ds,
                self.tokens == old(self).tokens,
                self.texts == old(self).texts,
                self.pos == old(self).pos,
                i <= ds.len(),
                self.report@ == r0 + ds.take(i as int).map_values(|d: Spanned<Token>| unmatched(d)),
            decreases ds.len() - i,
        {
            let d = self.delims[i];
            match d.v {
                Token::LParen => self.report.err(d.s, "Unmatched `(`", "expected `)`"),
                Token::LBrace => self.report.err(d.s, "Unmatched `{`", "expected `}`"),
                _ => self.report.err(d.s, "Unmatched `[`", "expected `]`"),
            }
            proof {
                assert(ds.take(i + 1) =~= ds.take(i as int).push(d));
                assert(ds.take(i + 1).map_values(|d: Spanned<Token>| unmatched(d)) =~= ds.take(
                    i as int,
                ).map_values(|d: Spanned<Token>| unmatched(d)).push(unmatched(d)));
            }
            i = i + 1;
        }
        proof {
            assert(ds.take(i as int) =~= ds);
        }
        self.delims = Vec::new();
    }

    /// Skips tokens until one of `first`, or of `follow`, outside the brackets opened while
    /// skipping, or the end of the input; gives up after `FUEL` tokens. See `recovery`.
    pub fn recover<const PEEK: bool>(&mut self, first: TokenSet, follow: TokenSet) -> (r: Result<
        Spanned<Token>,
        Span,
    >)
        requires
            in_input(old(self).tokens@, old(self).pos as int),
        ensures
            final(self).tokens == old(self).tokens,
            final(self).texts == old(self).texts,
            final(self).pos == recovery(
                old(self).tokens@,
                old(self).pos as int,
                old(self).delims@,
                FUEL as nat,
                first@,
                follow@,
                PEEK,
            ).pos,
            final(self).delims@ == recovery(
                old(self).tokens@,
                old(self).pos as int,
                old(self).delims@,
                FUEL as nat,
                first@,
                follow@,
                PEEK,
            ).delims,
            final(self).report@ == old(self).report@ + recovery(
                old(self).tokens@,
                old(self).pos as int,
                old(self).delims@,
                FUEL as nat,
                first@,
                follow@,
                PEEK,
            ).diags,
            r == recovery(
                old(self).tokens@,
                old(self).pos as int,
                old(self).delims@,
                FUEL as nat,
                first@,
                follow@,
                PEEK,
            ).result,
    {
        let ghost toks = self.tokens@;
        let ghost goal = recovery(
            toks,
            self.pos as int,
            self.delims@,
            FUEL as nat,
            first@,
            follow@,
            PEEK,
        );
        let ghost r0 = self.report@;
        let mut fuel: usize = FUEL;
        loop
            invariant
                self.tokens@ == toks,
                self.tokens == old(self).tokens,
                self.texts == old(self).texts,
                r0 == old(self).report@,
                self.report@ == r0,
                in_input(toks, self.pos as int),
                goal == recovery(toks, self.pos as int, self.delims@, fuel as nat, first@, follow@, PEEK),
                goal == recovery(
                    old(self).tokens@,
                    old(self).pos as int,
                    old(self).delims@,
                    FUEL as nat,
                    first@,
                    follow@,
                    PEEK,
                ),
            decreases fuel,
        {
            let t = self.tokens[self.pos];
            assert(self.pos < self.tokens.len());
            if fuel == 0 {
                self.report.err(t.s, "Too many errors", "stopping here");
                return Err(t.s);
            }
            if first.contains(t.v) && self.delims.len() == 0 {
                if !PEEK {
                    self.pos = self.pos + 1;
                }
                return Ok(t);
            }
            if follow.contains(t.v) && self.delims.len() == 0 {
                return Err(t.s);
            }
            if t.v == Token::Eof {
                self.report_unmatched();
                return Err(t.s);
            }
            proof {
                if self.pos + 1 >= toks.len() {
                    assert(t == toks.last());
                }
            }
            let open = match t.v {
                Token::LBrace | Token::LParen | Token::LBrack => true,
                _ => false,
            };
            let n = self.delims.len();
            let close = n > 0 && match (t.v, self.delims[n - 1].v) {
                (Token::RBrace, Token::LBrace) => true,
                (Token::RParen, Token::LParen) => true,
                (Token::RBrack, Token::LBrack) => true,
                _ => false,
            };
            self.pos = self.pos + 1;
            if open {
                self.delims.push(t);
            } else if close {
                self.delims.pop();
            }
            fuel = fuel - 1;
        }
    }
}

} // verus!
