//! What the parser decides from single tokens: the binding power of operators, and the
//! sets of tokens that may start or follow each kind of syntax.
use vstd::prelude::*;

use crate::token::Token;

pub mod expr;
pub mod recover;

verus! {

/// The position of a token kind among all kinds.
pub open spec fn spec_token_index(t: Token) -> u32 {
    match t {
        Token::And => 0,
        Token::As => 1,
        Token::Break => 2,
        Token::Compute => 3,
        Token::Continue => 4,
        Token::Def => 5,
        Token::Else => 6,
        Token::Enum => 7,
        Token::False => 8,
        Token::For => 9,
        Token::From => 10,
        Token::Fun => 11,
        Token::Group => 12,
        Token::If => 13,
        Token::Impl => 14,
        Token::In => 15,
        Token::Into => 16,
        Token::Join => 17,
        Token::Match => 18,
        Token::Let => 19,
        Token::Of => 20,
        Token::On => 21,
        Token::Or => 22,
        Token::Over => 23,
        Token::Return => 24,
        Token::Select => 25,
        Token::Struct => 26,
        Token::Record => 27,
        Token::Trait => 28,
        Token::True => 29,
        Token::Type => 30,
        Token::Var => 31,
        Token::Where => 32,
        Token::While => 33,
        Token::With => 34,
        Token::Name => 35,
        Token::Underscore => 36,
        Token::Int => 37,
        Token::IntSuffix => 38,
        Token::Float => 39,
        Token::FloatSuffix => 40,
        Token::String => 41,
        Token::Char => 42,
        Token::LParen => 43,
        Token::RParen => 44,
        Token::LBrace => 45,
        Token::RBrace => 46,
        Token::LBrack => 47,
        Token::RBrack => 48,
        Token::Eq => 49,
        Token::EqEq => 50,
        Token::FatArrow => 51,
        Token::ColonColon => 52,
        Token::Colon => 53,
        Token::NotEq => 54,
        Token::Not => 55,
        Token::Le => 56,
        Token::Lt => 57,
        Token::Ge => 58,
        Token::Gt => 59,
        Token::DotDot => 60,
        Token::Dot => 61,
        Token::SemiColon => 62,
        Token::Comma => 63,
        Token::Plus => 64,
        Token::Bar => 65,
        Token::Minus => 66,
        Token::Code => 67,
        Token::Star => 68,
        Token::Slash => 69,
        Token::Question => 70,
        Token::Error => 71,
        Token::Eof => 72,
    }
}

/// The position of a token kind among all kinds.
pub fn token_index(t: Token) -> (i: u32)
    ensures
        i == spec_token_index(t),
        i < 128,
{
    match t {
        Token::And => 0,
        Token::As => 1,
        Token::Break => 2,
        Token::Compute => 3,
        Token::Continue => 4,
        Token::Def => 5,
        Token::Else => 6,
        Token::Enum => 7,
        Token::False => 8,
        Token::For => 9,
        Token::From => 10,
        Token::Fun => 11,
        Token::Group => 12,
        Token::If => 13,
        Token::Impl => 14,
        Token::In => 15,
        Token::Into => 16,
        Token::Join => 17,
        Token::Match => 18,
        Token::Let => 19,
        Token::Of => 20,
        Token::On => 21,
        Token::Or => 22,
        Token::Over => 23,
        Token::Return => 24,
        Token::Select => 25,
        Token::Struct => 26,
        Token::Record => 27,
        Token::Trait => 28,
        Token::True => 29,
        Token::Type => 30,
        Token::Var => 31,
        Token::Where => 32,
        Token::While => 33,
        Token::With => 34,
        Token::Name => 35,
        Token::Underscore => 36,
        Token::Int => 37,
        Token::IntSuffix => 38,
        Token::Float => 39,
        Token::FloatSuffix => 40,
        Token::String => 41,
        Token::Char => 42,
        Token::LParen => 43,
        Token::RParen => 44,
        Token::LBrace => 45,
        Token::RBrace => 46,
        Token::LBrack => 47,
        Token::RBrack => 48,
        Token::Eq => 49,
        Token::EqEq => 50,
        Token::FatArrow => 51,
        Token::ColonColon => 52,
        Token::Colon => 53,
        Token::NotEq => 54,
        Token::Not => 55,
        Token::Le => 56,
        Token::Lt => 57,
        Token::Ge => 58,
        Token::Gt => 59,
        Token::DotDot => 60,
        Token::Dot => 61,
        Token::SemiColon => 62,
        Token::Comma => 63,
        Token::Plus => 64,
        Token::Bar => 65,
        Token::Minus => 66,
        Token::Code => 67,
        Token::Star => 68,
        Token::Slash => 69,
        Token::Question => 70,
        Token::Error => 71,
        Token::Eof => 72,
    }
}

/// A set of token kinds, one bit per kind.
#[derive(Clone, Copy)]
pub struct TokenSet {
    pub bits: u128,
}

/// Whether bit `i` of `b` is set.
pub open spec fn has_bit(b: u128, i: u32) -> bool {
    (b >> i) & 1 == 1
}

impl View for TokenSet {
    type V = Set<Token>;

    open spec fn view(&self) -> Set<Token> {
        Set::new(|t: Token| has_bit(self.bits, spec_token_index(t)))
    }
}

proof fn lemma_bits_or(a: u128, b: u128, i: u32)
    requires
        i < 128,
    ensures
        has_bit(a | b, i) == (has_bit(a, i) || has_bit(b, i)),
{
    assert(((a | b) >> i) & 1 == 1 <==> ((a >> i) & 1 == 1 || (b >> i) & 1 == 1)) by (bit_vector)
        requires
            i < 128,
    ;
}

proof fn lemma_bit_single(i: u32, j: u32)
    requires
        i < 128,
        j < 128,
    ensures
        has_bit(1u128 << i, j) == (i == j),
{
    assert(((1u128 << i) >> j) & 1 == 1 <==> i == j) by (bit_vector)
        requires
            i < 128,
            j < 128,
    ;
}

proof fn lemma_bit_zero(i: u32)
    requires
        i < 128,
    ensures
        !has_bit(0u128, i),
{
    assert((0u128 >> i) & 1 == 0) by (bit_vector)
        requires
            i < 128,
    ;
}

/// Different kinds have different positions.
proof fn lemma_index_injective(a: Token, b: Token)
    ensures
        spec_token_index(a) == spec_token_index(b) ==> a == b,
{
}

impl TokenSet {
    /// The set with no kinds.
    pub fn empty() -> (s: TokenSet)
        ensures
            s@ == Set::<Token>::empty(),
    {
        let s = TokenSet { bits: 0 };
        proof {
            assert forall|t: Token| !s@.contains(t) by {
                lemma_bit_zero(spec_token_index(t));
            }
            assert(s@ =~= Set::<Token>::empty());
        }
        s
    }

    /// The set with the one kind `t`.
    pub fn single(t: Token) -> (s: TokenSet)
        ensures
            s@ == set![t],
    {
        let i = token_index(t);
        let s = TokenSet { bits: 1u128 << i };
        proof {
            assert forall|u: Token| s@.contains(u) <==> u == t by {
                lemma_bit_single(i, spec_token_index(u));
                lemma_index_injective(t, u);
            }
            assert(s@ =~= set![t]);
        }
        s
    }

    /// The union of two sets.
    pub fn or(self, other: TokenSet) -> (s: TokenSet)
        ensures
            s@ == self@.union(other@),
    {
        let s = TokenSet { bits: self.bits | other.bits };
        proof {
            assert forall|u: Token| s@.contains(u) <==> self@.contains(u) || other@.contains(u) by {
                let i = spec_token_index(u);
                assert(i < 128) by {
                    assert(spec_token_index(u) < 128);
                }
                lemma_bits_or(self.bits, other.bits, i);
            }
            assert(s@ =~= self@.union(other@));
        }
        s
    }

    /// The set with `t` added.
    pub fn with(self, t: Token) -> (s: TokenSet)
        ensures
            s@ == self@.insert(t),
    {
        let s = self.or(TokenSet::single(t));
        assert(s@ =~= self@.insert(t));
        s
    }

    pub fn contains(&self, t: Token) -> (b: bool)
        ensures
            b == self@.contains(t),
    {
        let i = token_index(t);
        (self.bits >> i) & 1 == 1
    }
}

/// The tokens that may start a query clause.
pub open spec fn spec_query_first() -> Set<Token> {
    set![Token::From, Token::Where, Token::Over, Token::Group, Token::Var, Token::Select, Token::Compute, Token::Into]
}

/// The tokens that may start an expression.
pub open spec fn spec_expr_first() -> Set<Token> {
    set![Token::Int, Token::Float, Token::String, Token::Name, Token::LParen, Token::Minus, Token::Break, Token::Continue, Token::Return, Token::LBrack, Token::Fun, Token::If, Token::Match, Token::While, Token::True, Token::False, Token::For, Token::Not, Token::Char, Token::LBrace].union(spec_query_first())
}

/// The tokens that may follow an expression.
pub open spec fn spec_expr_follow() -> Set<Token> {
    set![Token::Eof, Token::And, Token::DotDot, Token::Dot, Token::Eq, Token::EqEq, Token::Ge, Token::Gt, Token::Le, Token::Lt, Token::Minus, Token::NotEq, Token::Or, Token::Plus, Token::Slash, Token::Star, Token::LParen, Token::Colon, Token::SemiColon]
}

/// The tokens that may start a query clause.
pub fn query_first() -> (s: TokenSet)
    ensures
        s@ == spec_query_first(),
{
    let s = TokenSet::empty().with(Token::From).with(Token::Where).with(Token::Over).with(Token::Group).with(Token::Var).with(Token::Select).with(Token::Compute).with(Token::Into);
    assert(s@ =~= set![Token::From, Token::Where, Token::Over, Token::Group, Token::Var, Token::Select, Token::Compute, Token::Into]);
    s
}

/// The tokens that may start an expression.
pub fn expr_first() -> (s: TokenSet)
    ensures
        s@ == spec_expr_first(),
{
    let s = TokenSet::empty().with(Token::Int).with(Token::Float).with(Token::String).with(Token::Name).with(Token::LParen).with(Token::Minus).with(Token::Break).with(Token::Continue).with(Token::Return).with(Token::LBrack).with(Token::Fun).with(Token::If).with(Token::Match).with(Token::While).with(Token::True).with(Token::False).with(Token::For).with(Token::Not).with(Token::Char).with(Token::LBrace).or(query_first());
    assert(s@ =~= spec_expr_first());
    s
}

/// The tokens that may follow an expression.
pub fn expr_follow() -> (s: TokenSet)
    ensures
        s@ == spec_expr_follow(),
{
    let s = TokenSet::empty().with(Token::Eof).with(Token::And).with(Token::DotDot).with(Token::Dot).with(Token::Eq).with(Token::EqEq).with(Token::Ge).with(Token::Gt).with(Token::Le).with(Token::Lt).with(Token::Minus).with(Token::NotEq).with(Token::Or).with(Token::Plus).with(Token::Slash).with(Token::Star).with(Token::LParen).with(Token::Colon).with(Token::SemiColon);
    assert(s@ =~= set![Token::Eof, Token::And, Token::DotDot, Token::Dot, Token::Eq, Token::EqEq, Token::Ge, Token::Gt, Token::Le, Token::Lt, Token::Minus, Token::NotEq, Token::Or, Token::Plus, Token::Slash, Token::Star, Token::LParen, Token::Colon, Token::SemiColon]);
    s
}

/// The tokens that may start a statement: those of a declaration, and those of an
/// expression.
pub fn stmt_first() -> (s: TokenSet)
    ensures
        s@ == set![Token::Def, Token::Type, Token::Trait, Token::Struct, Token::Enum, Token::Impl, Token::Var].union(spec_expr_first()),
{
    let s = TokenSet::empty().with(Token::Def).with(Token::Type).with(Token::Trait).with(Token::Struct).with(Token::Enum).with(Token::Impl).with(Token::Var).or(expr_first());
    assert(s@ =~= set![Token::Def, Token::Type, Token::Trait, Token::Struct, Token::Enum, Token::Impl, Token::Var].union(spec_expr_first()));
    s
}

/// The tokens that may follow a statement, a type: the end of the input.
pub fn eof_follow() -> (s: TokenSet)
    ensures
        s@ == set![Token::Eof],
{
    TokenSet::single(Token::Eof)
}

/// The tokens that may start a type.
pub fn type_first() -> (s: TokenSet)
    ensures
        s@ == set![Token::Name, Token::LParen, Token::Struct, Token::Fun, Token::LBrack],
{
    let s = TokenSet::empty().with(Token::Name).with(Token::LParen).with(Token::Struct).with(Token::Fun).with(Token::LBrack);
    assert(s@ =~= set![Token::Name, Token::LParen, Token::Struct, Token::Fun, Token::LBrack]);
    s
}

/// The tokens that may start a pattern.
pub fn pat_first() -> (s: TokenSet)
    ensures
        s@ == set![Token::Name, Token::LParen, Token::Underscore, Token::Int, Token::String, Token::Struct, Token::True, Token::False, Token::Char],
{
    let s = TokenSet::empty().with(Token::Name).with(Token::LParen).with(Token::Underscore).with(Token::Int).with(Token::String).with(Token::Struct).with(Token::True).with(Token::False).with(Token::Char);
    assert(s@ =~= set![Token::Name, Token::LParen, Token::Underscore, Token::Int, Token::String, Token::Struct, Token::True, Token::False, Token::Char]);
    s
}

/// The tokens that may follow a pattern.
pub fn pat_follow() -> (s: TokenSet)
    ensures
        s@ == set![Token::Eof, Token::Or, Token::Colon],
{
    let s = TokenSet::empty().with(Token::Eof).with(Token::Or).with(Token::Colon);
    assert(s@ =~= set![Token::Eof, Token::Or, Token::Colon]);
    s
}

/// The tokens that may follow a query clause: those that follow an expression, and those
/// that start another clause.
pub fn query_follow() -> (s: TokenSet)
    ensures
        s@ == spec_expr_follow().union(spec_query_first()),
{
    expr_follow().or(query_first())
}

/// The left and right binding powers of an infix operator.
pub open spec fn spec_infix_bp(t: Token) -> Option<(u8, u8)> {
    match t {
        Token::Eq => Some((1, 2)),
        Token::DotDot => Some((2, 3)),
        Token::And | Token::Or => Some((3, 4)),
        Token::EqEq | Token::NotEq | Token::Lt | Token::Gt | Token::Le | Token::Ge => Some((4, 5)),
        Token::Plus | Token::Minus => Some((5, 6)),
        Token::Star | Token::Slash => Some((6, 7)),
        _ => None,
    }
}

/// The binding power of a prefix operator.
pub open spec fn spec_prefix_bp(t: Token) -> Option<((), u8)> {
    if t == Token::Not || t == Token::Minus {
        Some(((), 8u8))
    } else {
        None
    }
}

/// The binding power of a postfix operator.
pub open spec fn spec_postfix_bp(t: Token) -> Option<(u8, ())> {
    if t == Token::Question || t == Token::LParen || t == Token::Dot || t == Token::Colon {
        Some((9u8, ()))
    } else {
        None
    }
}

impl Token {
    /// The left and right binding powers of an infix operator: assignment binds loosest,
    /// then ranges, `and` and `or`, comparisons, sums, and products tightest; each operator
    /// binds tighter on its right.
    pub fn infix_bp(self) -> (r: Option<(u8, u8)>)
        ensures
            r == spec_infix_bp(self),
    {
        match self {
            Token::Eq => Some((1, 2)),
            Token::DotDot => Some((2, 3)),
            Token::And | Token::Or => Some((3, 4)),
            Token::EqEq | Token::NotEq | Token::Lt | Token::Gt | Token::Le | Token::Ge => Some((4, 5)),
            Token::Plus | Token::Minus => Some((5, 6)),
            Token::Star | Token::Slash => Some((6, 7)),
            _ => None,
        }
    }

    /// The binding power of a prefix operator, `!` or `-`.
    pub fn prefix_bp(self) -> (r: Option<((), u8)>)
        ensures
            r == spec_prefix_bp(self),
    {
        match self {
            Token::Not | Token::Minus => Some(((), 8)),
            _ => None,
        }
    }

    /// The binding power of a postfix operator: `?`, a call, a field access or a type
    /// annotation.
    pub fn postfix_bp(self) -> (r: Option<(u8, ())>)
        ensures
            r == spec_postfix_bp(self),
    {
        match self {
            Token::Question | Token::LParen | Token::Dot | Token::Colon => Some((9, ())),
            _ => None,
        }
    }
}

/// The multiplicative operators, `*` and `/`.
pub open spec fn is_product_op(t: Token) -> bool {
    t == Token::Star || t == Token::Slash
}

/// The additive operators, `+` and `-`.
pub open spec fn is_sum_op(t: Token) -> bool {
    t == Token::Plus || t == Token::Minus
}

/// The comparison operators.
pub open spec fn is_comparison_op(t: Token) -> bool {
    t == Token::EqEq || t == Token::NotEq || t == Token::Lt || t == Token::Gt || t == Token::Le
        || t == Token::Ge
}

/// The logical connectives, `and` and `or`.
pub open spec fn is_logic_op(t: Token) -> bool {
    t == Token::And || t == Token::Or
}

/// `a` binds tighter than `b`: in `x b y a z` the operator `a` takes `y` first, because the
/// expression loop after `b` (run with `b`'s right binding power as its minimum) stops only at
/// an operator whose left binding power is below that minimum.
pub open spec fn binds_tighter(a: Token, b: Token) -> bool {
    spec_infix_bp(a) is Some && spec_infix_bp(b) is Some && spec_infix_bp(a).unwrap().0
        >= spec_infix_bp(b).unwrap().1
}

/// Operator precedence, from loosest to tightest: assignment, ranges, `and`/`or`,
/// comparisons, sums, products. Each operator binds tighter than every operator of a looser
/// level (so `a + b / c` is `a + (b / c)` and `a < b + c` is `a < (b + c)`), and operators of
/// one level have the same binding powers (so `/` binds exactly as `*` does, and `-` as `+`)
/// and group to the left (`a - b + c` is `(a - b) + c`).
pub proof fn lemma_operator_precedence(a: Token, b: Token)
    ensures
        is_product_op(a) && (is_sum_op(b) || is_comparison_op(b) || is_logic_op(b) || b
            == Token::DotDot || b == Token::Eq) ==> binds_tighter(a, b),
        is_sum_op(a) && (is_comparison_op(b) || is_logic_op(b) || b == Token::DotDot || b
            == Token::Eq) ==> binds_tighter(a, b),
        is_comparison_op(a) && (is_logic_op(b) || b == Token::DotDot || b == Token::Eq)
            ==> binds_tighter(a, b),
        is_logic_op(a) && (b == Token::DotDot || b == Token::Eq) ==> binds_tighter(a, b),
        a == Token::DotDot && b == Token::Eq ==> binds_tighter(a, b),
        (is_product_op(a) && is_product_op(b)) || (is_sum_op(a) && is_sum_op(b)) || (
        is_comparison_op(a) && is_comparison_op(b)) || (is_logic_op(a) && is_logic_op(b))
            ==> spec_infix_bp(a) == spec_infix_bp(b) && spec_infix_bp(a) is Some && !binds_tighter(
            a,
            b,
        ),
        is_product_op(a) && is_sum_op(b) ==> !binds_tighter(b, a),
{
}

/// Prefix operators bind tighter than every infix operator, and postfix operators tighter
/// still; every infix operator binds tighter on its right than on its left.
pub proof fn lemma_binding_powers(a: Token, b: Token, c: Token)
    ensures
        spec_infix_bp(a) matches Some((l, r)) ==> 1 <= l < r,
        spec_infix_bp(a) matches Some((l, r)) ==> (spec_prefix_bp(b) matches Some((_, p)) ==> r
            < p),
        spec_prefix_bp(b) matches Some((_, p)) ==> (spec_postfix_bp(c) matches Some((q, _)) ==> p
            < q),
{
}

} // verus!
