use vstd::prelude::*;

verus! {

/// The tokens of the surface language.
#[derive(Clone, Copy, Debug, PartialEq, Eq, Structural, Hash)]
pub enum Token {
    And,
    As,
    Break,
    Compute,
    Continue,
    Def,
    Else,
    Enum,
    False,
    For,
    From,
    Fun,
    Group,
    If,
    Impl,
    In,
    Into,
    Join,
    Match,
    Let,
    Of,
    On,
    Or,
    Over,
    Return,
    Select,
    Struct,
    Record,
    Trait,
    True,
    Type,
    Var,
    Where,
    While,
    With,
    Name,
    Underscore,
    Int,
    IntSuffix,
    Float,
    FloatSuffix,
    String,
    Char,
    LParen,
    RParen,
    LBrace,
    RBrace,
    LBrack,
    RBrack,
    Eq,
    EqEq,
    FatArrow,
    ColonColon,
    Colon,
    NotEq,
    Not,
    Le,
    Lt,
    Ge,
    Gt,
    DotDot,
    Dot,
    SemiColon,
    Comma,
    Plus,
    Bar,
    Minus,
    Code,
    Star,
    Slash,
    Question,
    Error,
    Eof,
}

/// The token that a word of letters, digits and underscores stands for:
/// one of the keywords, or `Name`.
pub open spec fn spec_keyword(w: Seq<char>) -> Token {
    if w == "and"@ {
        Token::And
    } else if w == "as"@ {
        Token::As
    } else if w == "break"@ {
        Token::Break
    } else if w == "compute"@ {
        Token::Compute
    } else if w == "continue"@ {
        Token::Continue
    } else if w == "def"@ {
        Token::Def
    } else if w == "else"@ {
        Token::Else
    } else if w == "enum"@ {
        Token::Enum
    } else if w == "false"@ {
        Token::False
    } else if w == "for"@ {
        Token::For
    } else if w == "from"@ {
        Token::From
    } else if w == "fun"@ {
        Token::Fun
    } else if w == "group"@ {
        Token::Group
    } else if w == "if"@ {
        Token::If
    } else if w == "impl"@ {
        Token::Impl
    } else if w == "in"@ {
        Token::In
    } else if w == "into"@ {
        Token::Into
    } else if w == "join"@ {
        Token::Join
    } else if w == "match"@ {
        Token::Match
    } else if w == "let"@ {
        Token::Let
    } else if w == "of"@ {
        Token::Of
    } else if w == "on"@ {
        Token::On
    } else if w == "or"@ {
        Token::Or
    } else if w == "over"@ {
        Token::Over
    } else if w == "return"@ {
        Token::Return
    } else if w == "select"@ {
        Token::Select
    } else if w == "struct"@ {
        Token::Struct
    } else if w == "record"@ {
        Token::Record
    } else if w == "trait"@ {
        Token::Trait
    } else if w == "true"@ {
        Token::True
    } else if w == "type"@ {
        Token::Type
    } else if w == "var"@ {
        Token::Var
    } else if w == "where"@ {
        Token::Where
    } else if w == "while"@ {
        Token::While
    } else if w == "with"@ {
        Token::With
    } else {
        Token::Name
    }
}

/// Whether `cs[i..j]` spells out the literal `lit`.
pub fn slice_is(cs: &Vec<char>, i: usize, j: usize, lit: &str) -> (b: bool)
    requires
        i <= j <= cs@.len(),
    ensures
        b == (cs@.subrange(i as int, j as int) == lit@),
{
    let n = lit.unicode_len();
    if j - i != n {
        return false;
    }
    let mut k: usize = 0;
    while k < n
        invariant
            i <= j <= cs@.len(),
            j - i == n,
            n == lit@.len(),
            k <= n,
            forall|t: int| 0 <= t < k ==> cs@[i + t] == lit@[t],
        decreases n - k,
    {
        if cs[i + k] != lit.get_char(k) {
            assert(cs@.subrange(i as int, j as int)[k as int] != lit@[k as int]);
            return false;
        }
        k = k + 1;
    }
    assert(cs@.subrange(i as int, j as int) =~= lit@);
    true
}

/// The token for the word `cs[i..j]`: a keyword's token, or `Name`.
pub fn keyword(cs: &Vec<char>, i: usize, j: usize) -> (t: Token)
    requires
        i <= j <= cs@.len(),
    ensures
        t == spec_keyword(cs@.subrange(i as int, j as int)),
{
    if slice_is(cs, i, j, "and") {
        Token::And
    } else if slice_is(cs, i, j, "as") {
        Token::As
    } else if slice_is(cs, i, j, "break") {
        Token::Break
    } else if slice_is(cs, i, j, "compute") {
        Token::Compute
    } else if slice_is(cs, i, j, "continue") {
        Token::Continue
    } else if slice_is(cs, i, j, "def") {
        Token::Def
    } else if slice_is(cs, i, j, "else") {
        Token::Else
    } else if slice_is(cs, i, j, "enum") {
        Token::Enum
    } else if slice_is(cs, i, j, "false") {
        Token::False
    } else if slice_is(cs, i, j, "for") {
        Token::For
    } else if slice_is(cs, i, j, "from") {
        Token::From
    } else if slice_is(cs, i, j, "fun") {
        Token::Fun
    } else if slice_is(cs, i, j, "group") {
        Token::Group
    } else if slice_is(cs, i, j, "if") {
        Token::If
    } else if slice_is(cs, i, j, "impl") {
        Token::Impl
    } else if slice_is(cs, i, j, "in") {
        Token::In
    } else if slice_is(cs, i, j, "into") {
        Token::Into
    } else if slice_is(cs, i, j, "join") {
        Token::Join
    } else if slice_is(cs, i, j, "match") {
        Token::Match
    } else if slice_is(cs, i, j, "let") {
        Token::Let
    } else if slice_is(cs, i, j, "of") {
        Token::Of
    } else if slice_is(cs, i, j, "on") {
        Token::On
    } else if slice_is(cs, i, j, "or") {
        Token::Or
    } else if slice_is(cs, i, j, "over") {
        Token::Over
    } else if slice_is(cs, i, j, "return") {
        Token::Return
    } else if slice_is(cs, i, j, "select") {
        Token::Select
    } else if slice_is(cs, i, j, "struct") {
        Token::Struct
    } else if slice_is(cs, i, j, "record") {
        Token::Record
    } else if slice_is(cs, i, j, "trait") {
        Token::Trait
    } else if slice_is(cs, i, j, "true") {
        Token::True
    } else if slice_is(cs, i, j, "type") {
        Token::Type
    } else if slice_is(cs, i, j, "var") {
        Token::Var
    } else if slice_is(cs, i, j, "where") {
        Token::Where
    } else if slice_is(cs, i, j, "while") {
        Token::While
    } else if slice_is(cs, i, j, "with") {
        Token::With
    } else {
        Token::Name
    }
}

} // verus!
