use vstd::prelude::*;
use vstd::utf8::*;

use crate::diag::spec_err;
use crate::diag::Report;
use crate::span::Span;
use crate::span::Spanned;
use crate::text::chars_of;
use crate::text::push_char;
use crate::token::keyword;
use crate::token::spec_keyword;
use crate::token::Token;

verus! {

pub open spec fn is_digit(c: char) -> bool {
    '0' <= c && c <= '9'
}

pub open spec fn is_ident_start(c: char) -> bool {
    ('a' <= c && c <= 'z') || ('A' <= c && c <= 'Z') || c == '_'
}

pub open spec fn is_ident_continue(c: char) -> bool {
    is_ident_start(c) || is_digit(c)
}

/// The number of bytes of the UTF-8 encoding of `cs`.
pub open spec fn byte_len(cs: Seq<char>) -> int {
    encode_utf8(cs).len() as int
}

/// The byte offset at which the character with index `k` of `cs` starts.
pub open spec fn offset(cs: Seq<char>, k: int) -> int {
    byte_len(cs.take(k))
}

/// The end of the run of identifier characters that starts at `i`.
pub open spec fn scan_ident(cs: Seq<char>, i: int) -> int
    decreases cs.len() - i,
{
    if 0 <= i < cs.len() && is_ident_continue(cs[i]) {
        scan_ident(cs, i + 1)
    } else {
        i
    }
}

/// The end of the run of decimal digits that starts at `i`.
pub open spec fn scan_digits(cs: Seq<char>, i: int) -> int
    decreases cs.len() - i,
{
    if 0 <= i < cs.len() && is_digit(cs[i]) {
        scan_digits(cs, i + 1)
    } else {
        i
    }
}

/// The index of the first newline at or after `i`, or the end of the input.
pub open spec fn scan_line(cs: Seq<char>, i: int) -> int
    decreases cs.len() - i,
{
    if 0 <= i < cs.len() && cs[i] != '\n' {
        scan_line(cs, i + 1)
    } else {
        i
    }
}

/// The end of a string literal whose body starts at `i`: just after the closing quote.
/// A backslash escapes the character after it. `None` when the input ends first.
pub open spec fn scan_string(cs: Seq<char>, i: int) -> Option<int>
    decreases cs.len() - i,
{
    if i < 0 || i >= cs.len() {
        None
    } else if cs[i] == '\\' {
        if i + 1 < cs.len() {
            scan_string(cs, i + 2)
        } else {
            None
        }
    } else if cs[i] == '"' {
        Some(i + 1)
    } else {
        scan_string(cs, i + 1)
    }
}

/// The end of a code block whose body starts at `i`: just after the closing `---`.
/// `None` when the input ends first.
pub open spec fn scan_code(cs: Seq<char>, i: int) -> Option<int>
    decreases cs.len() - i,
{
    if i < 0 || i >= cs.len() {
        None
    } else if cs[i] != '-' {
        scan_code(cs, i + 1)
    } else if i + 1 >= cs.len() {
        None
    } else if cs[i + 1] != '-' {
        scan_code(cs, i + 2)
    } else if i + 2 >= cs.len() {
        None
    } else if cs[i + 2] == '-' {
        Some(i + 3)
    } else {
        scan_code(cs, i + 3)
    }
}

/// What the lexer does with the character at index `i`.
pub enum Step {
    /// The input ends inside a literal or code block: no more tokens.
    Stop,
    /// Nothing to emit; go on at the given index.
    Skip(int),
    /// A malformed character literal ends at the given index: report it and go on there.
    SkipBad(int),
    /// A token that ends at the given index.
    Emit(Token, int),
}

/// The token of a character that forms a token on its own.
pub open spec fn spec_single(c: char) -> Token {
    if c == '(' {
        Token::LParen
    } else if c == ')' {
        Token::RParen
    } else if c == '{' {
        Token::LBrace
    } else if c == '}' {
        Token::RBrace
    } else if c == '[' {
        Token::LBrack
    } else if c == ']' {
        Token::RBrack
    } else if c == ';' {
        Token::SemiColon
    } else if c == ',' {
        Token::Comma
    } else if c == '+' {
        Token::Plus
    } else if c == '|' {
        Token::Bar
    } else if c == '*' {
        Token::Star
    } else if c == '/' {
        Token::Slash
    } else if c == '?' {
        Token::Question
    } else {
        Token::Error
    }
}

/// A number starting with the digit at `i`: an integer or a float, each with an optional suffix.
pub open spec fn spec_number(cs: Seq<char>, i: int) -> Step {
    let j = scan_digits(cs, i + 1);
    if j < cs.len() && cs[j] == '.' {
        if j + 1 < cs.len() && is_digit(cs[j + 1]) {
            let k = scan_digits(cs, j + 2);
            if k < cs.len() && is_ident_start(cs[k]) {
                Step::Emit(Token::FloatSuffix, scan_ident(cs, k + 1))
            } else {
                Step::Emit(Token::Float, k)
            }
        } else {
            Step::Emit(Token::Int, j)
        }
    } else if j < cs.len() && is_ident_start(cs[j]) {
        Step::Emit(Token::IntSuffix, scan_ident(cs, j + 1))
    } else {
        Step::Emit(Token::Int, j)
    }
}

/// A character literal whose opening quote is at `i`.
pub open spec fn spec_char_lit(cs: Seq<char>, i: int) -> Step {
    let a = i + 1;
    if a >= cs.len() {
        Step::Stop
    } else {
        let b = if cs[a] == '\\' {
            a + 2
        } else {
            a + 1
        };
        if b >= cs.len() {
            Step::Stop
        } else if cs[b] == '\'' {
            Step::Emit(Token::Char, b + 1)
        } else {
            Step::SkipBad(b + 1)
        }
    }
}

/// A token of one or two characters: `two` when the character after `c` is `next`.
pub open spec fn spec_pair(cs: Seq<char>, i: int, next: char, two: Token, one: Token) -> Step {
    if i + 1 < cs.len() && cs[i + 1] == next {
        Step::Emit(two, i + 2)
    } else {
        Step::Emit(one, i + 1)
    }
}

/// The lexer's step at index `i` (`0 <= i < cs.len()`).
pub open spec fn spec_step(cs: Seq<char>, i: int) -> Step {
    let c = cs[i];
    if c == '#' {
        Step::Skip(scan_line(cs, i + 1))
    } else if c == ' ' || c == '\n' || c == '\t' {
        Step::Skip(i + 1)
    } else if is_ident_start(c) {
        let j = scan_ident(cs, i + 1);
        Step::Emit(
            if j == i + 1 && c == '_' {
                Token::Underscore
            } else {
                spec_keyword(cs.subrange(i, j))
            },
            j,
        )
    } else if is_digit(c) {
        spec_number(cs, i)
    } else if c == '"' {
        match scan_string(cs, i + 1) {
            Some(j) => Step::Emit(Token::String, j),
            None => Step::Stop,
        }
    } else if c == '\'' {
        spec_char_lit(cs, i)
    } else if c == '=' {
        if i + 1 < cs.len() && cs[i + 1] == '=' {
            Step::Emit(Token::EqEq, i + 2)
        } else if i + 1 < cs.len() && cs[i + 1] == '>' {
            Step::Emit(Token::FatArrow, i + 2)
        } else {
            Step::Emit(Token::Eq, i + 1)
        }
    } else if c == ':' {
        spec_pair(cs, i, ':', Token::ColonColon, Token::Colon)
    } else if c == '!' {
        spec_pair(cs, i, '=', Token::NotEq, Token::Not)
    } else if c == '<' {
        spec_pair(cs, i, '=', Token::Le, Token::Lt)
    } else if c == '>' {
        spec_pair(cs, i, '=', Token::Ge, Token::Gt)
    } else if c == '.' {
        spec_pair(cs, i, '.', Token::DotDot, Token::Dot)
    } else if c == '-' {
        if i + 2 < cs.len() && cs[i + 1] == '-' && cs[i + 2] == '-' {
            match scan_code(cs, i + 3) {
                Some(j) => Step::Emit(Token::Code, j),
                None => Step::Stop,
            }
        } else {
            Step::Emit(Token::Minus, i + 1)
        }
    } else {
        Step::Emit(spec_single(c), i + 1)
    }
}

/// Lexing from index `i`: the next token with its start and end indices (`None` when the
/// input is used up), the index where lexing stops, and the end index of each character
/// reported as unexpected on the way, in order. A token `Error` is itself one such character.
pub open spec fn spec_lex(cs: Seq<char>, i: int) -> (Option<(Token, int, int)>, int, Seq<int>)
    decreases cs.len() - i,
{
    if i < 0 || i >= cs.len() {
        (None, i, Seq::empty())
    } else {
        match spec_step(cs, i) {
            Step::Stop => (None, cs.len() as int, Seq::empty()),
            Step::Skip(j) => if i < j <= cs.len() {
                spec_lex(cs, j)
            } else {
                (None, i, Seq::empty())
            },
            Step::SkipBad(j) => if i < j <= cs.len() {
                let r = spec_lex(cs, j);
                (r.0, r.1, seq![j] + r.2)
            } else {
                (None, i, Seq::empty())
            },
            Step::Emit(t, j) => (
                Some((t, i, j)),
                j,
                if t == Token::Error {
                    seq![j]
                } else {
                    Seq::empty()
                },
            ),
        }
    }
}

/// The span, in bytes, of the characters from index `a` to index `b` of `cs`.
pub open spec fn char_span(file: u16, cs: Seq<char>, a: int, b: int) -> Span {
    Span::spec_new(file, offset(cs, a) as u32, offset(cs, b) as u32)
}

/// The diagnostic for an unexpected character that ends at index `j`.
pub open spec fn unexpected_diag(file: u16, cs: Seq<char>, j: int) -> (
    (Span, Seq<char>),
    Seq<(Span, Seq<char>)>,
) {
    spec_err(
        Span::spec_new(file, (offset(cs, j) - 1) as u32, offset(cs, j) as u32),
        "Unexpected character"@,
        "Unexpected character '"@ + seq![cs[j - 1]] + "'"@,
    )
}

pub open spec fn error_diags(file: u16, cs: Seq<char>, errs: Seq<int>) -> Seq<
    ((Span, Seq<char>), Seq<(Span, Seq<char>)>),
> {
    errs.map_values(|j: int| unexpected_diag(file, cs, j))
}

pub open spec fn spanned_token(file: u16, cs: Seq<char>, r: Option<(Token, int, int)>) -> Option<
    Spanned<Token>,
> {
    match r {
        Some((t, a, b)) => Some(Spanned { s: char_span(file, cs, a, b), v: t }),
        None => None,
    }
}

/// The characters of `cs[..k]` whose byte offset lies in `start..end`.
pub open spec fn text_upto(cs: Seq<char>, k: int, start: int, end: int) -> Seq<char>
    decreases k,
{
    if k <= 0 {
        Seq::empty()
    } else {
        text_upto(cs, k - 1, start, end) + if start <= offset(cs, k - 1) < end {
            seq![cs[k - 1]]
        } else {
            Seq::empty()
        }
    }
}

pub proof fn lemma_encode_concat(a: Seq<char>, b: Seq<char>)
    ensures
        encode_utf8(a + b) == encode_utf8(a) + encode_utf8(b),
    decreases a.len(),
{
    if a.len() == 0 {
        assert(a + b =~= b);
        assert(encode_utf8(a) =~= Seq::<u8>::empty());
        assert(encode_utf8(a) + encode_utf8(b) =~= encode_utf8(b));
    } else {
        assert((a + b).drop_first() =~= a.drop_first() + b);
        lemma_encode_concat(a.drop_first(), b);
        assert(encode_utf8(a + b) =~= encode_scalar(a[0] as u32) + encode_utf8(
            a.drop_first() + b,
        ));
        assert(encode_utf8(a) + encode_utf8(b) =~= encode_scalar(a[0] as u32) + (encode_utf8(
            a.drop_first(),
        ) + encode_utf8(b)));
    }
}

/// The UTF-8 width of a character, from its code point.
pub open spec fn spec_width(c: char) -> int {
    let u = c as u32;
    if u <= 0x7F {
        1
    } else if u <= 0x7FF {
        2
    } else if u <= 0xFFFF {
        3
    } else {
        4
    }
}

pub proof fn lemma_width(c: char)
    ensures
        encode_utf8(seq![c]).len() == spec_width(c),
        1 <= spec_width(c) <= 4,
{
    broadcast use char_is_scalar;

    assert(is_scalar(c as u32));
    assert(seq![c].drop_first() =~= Seq::<char>::empty());
    assert(encode_utf8(seq![c]) =~= encode_scalar(c as u32) + encode_utf8(Seq::<char>::empty()));
}

pub proof fn lemma_offset_step(cs: Seq<char>, k: int)
    requires
        0 <= k < cs.len(),
    ensures
        offset(cs, k + 1) == offset(cs, k) + spec_width(cs[k]),
{
    assert(cs.take(k + 1) =~= cs.take(k) + seq![cs[k]]);
    lemma_encode_concat(cs.take(k), seq![cs[k]]);
    lemma_width(cs[k]);
}

pub proof fn lemma_offset_total(cs: Seq<char>, b: int)
    requires
        0 <= b <= cs.len(),
    ensures
        0 <= offset(cs, b) <= byte_len(cs),
{
    assert(cs =~= cs.take(b) + cs.skip(b));
    lemma_encode_concat(cs.take(b), cs.skip(b));
}

pub proof fn lemma_offset_ge_index(cs: Seq<char>, a: int)
    requires
        0 <= a <= cs.len(),
    ensures
        offset(cs, a) >= a,
    decreases a,
{
    if a > 0 {
        lemma_offset_ge_index(cs, a - 1);
        lemma_offset_step(cs, a - 1);
        lemma_width(cs[a - 1]);
    } else {
        assert(cs.take(0) =~= Seq::<char>::empty());
    }
}

/// Offsets grow strictly with the index, and never pass the whole input's length.
pub proof fn lemma_offset_mono(cs: Seq<char>, a: int, b: int)
    requires
        0 <= a <= b <= cs.len(),
    ensures
        offset(cs, a) <= offset(cs, b) <= byte_len(cs),
        a < b ==> offset(cs, a) < offset(cs, b),
        offset(cs, a) >= a,
    decreases b,
{
    lemma_offset_total(cs, b);
    lemma_offset_ge_index(cs, a);
    if a < b {
        lemma_offset_mono(cs, a, b - 1);
        lemma_offset_step(cs, b - 1);
        lemma_width(cs[b - 1]);
    }
}

pub proof fn lemma_scan_ident(cs: Seq<char>, i: int)
    requires
        0 <= i <= cs.len(),
    ensures
        i <= scan_ident(cs, i) <= cs.len(),
    decreases cs.len() - i,
{
    if i < cs.len() && is_ident_continue(cs[i]) {
        lemma_scan_ident(cs, i + 1);
    }
}

pub proof fn lemma_scan_digits(cs: Seq<char>, i: int)
    requires
        0 <= i <= cs.len(),
    ensures
        i <= scan_digits(cs, i) <= cs.len(),
    decreases cs.len() - i,
{
    if i < cs.len() && is_digit(cs[i]) {
        lemma_scan_digits(cs, i + 1);
    }
}

pub proof fn lemma_scan_line(cs: Seq<char>, i: int)
    requires
        0 <= i <= cs.len(),
    ensures
        i <= scan_line(cs, i) <= cs.len(),
    decreases cs.len() - i,
{
    if i < cs.len() && cs[i] != '\n' {
        lemma_scan_line(cs, i + 1);
    }
}

pub proof fn lemma_scan_string(cs: Seq<char>, i: int)
    requires
        0 <= i,
    ensures
        scan_string(cs, i) matches Some(j) ==> i < j <= cs.len(),
    decreases cs.len() - i,
{
    if 0 <= i < cs.len() {
        if cs[i] == '\\' {
            if i + 1 < cs.len() {
                lemma_scan_string(cs, i + 2);
            }
        } else if cs[i] != '"' {
            lemma_scan_string(cs, i + 1);
        }
    }
}

pub proof fn lemma_scan_code(cs: Seq<char>, i: int)
    requires
        0 <= i,
    ensures
        scan_code(cs, i) matches Some(j) ==> i < j <= cs.len(),
    decreases cs.len() - i,
{
    if 0 <= i < cs.len() {
        if cs[i] != '-' {
            lemma_scan_code(cs, i + 1);
        } else if i + 1 < cs.len() {
            if cs[i + 1] != '-' {
                lemma_scan_code(cs, i + 2);
            } else if i + 2 < cs.len() && cs[i + 2] != '-' {
                lemma_scan_code(cs, i + 3);
            }
        }
    }
}

/// Every step of the lexer moves forward and stays within the input.
pub proof fn lemma_step_progress(cs: Seq<char>, i: int)
    requires
        0 <= i < cs.len(),
    ensures
        match spec_step(cs, i) {
            Step::Stop => true,
            Step::Skip(j) => i < j <= cs.len(),
            Step::SkipBad(j) => i < j <= cs.len(),
            Step::Emit(_, j) => i < j <= cs.len(),
        },
{
    lemma_scan_line(cs, i + 1);
    lemma_scan_ident(cs, i + 1);
    lemma_scan_digits(cs, i + 1);
    lemma_scan_string(cs, i + 1);
    lemma_scan_code(cs, i + 3);
    let j = scan_digits(cs, i + 1);
    if j + 2 <= cs.len() {
        lemma_scan_digits(cs, j + 2);
        let k = scan_digits(cs, j + 2);
        if k + 1 <= cs.len() {
            lemma_scan_ident(cs, k + 1);
        }
    }
    if j + 1 <= cs.len() {
        lemma_scan_ident(cs, j + 1);
    }
}

/// Lexing from `i` moves forward: a token found lies between `i` and the stopping index,
/// which never passes the end of the input, and every reported character lies between them.
pub proof fn lemma_lex_progress(cs: Seq<char>, i: int)
    requires
        0 <= i <= cs.len(),
    ensures
        i <= spec_lex(cs, i).1 <= cs.len(),
        spec_lex(cs, i).0 matches Some((t, a, b)) ==> i <= a < b && b == spec_lex(cs, i).1,
        forall|k: int|
            0 <= k < spec_lex(cs, i).2.len() ==> i < #[trigger] spec_lex(cs, i).2[k] <= spec_lex(
                cs,
                i,
            ).1,
    decreases cs.len() - i,
{
    if i < cs.len() {
        lemma_step_progress(cs, i);
        match spec_step(cs, i) {
            Step::Skip(j) => {
                lemma_lex_progress(cs, j);
            },
            Step::SkipBad(j) => {
                lemma_lex_progress(cs, j);
                let r = spec_lex(cs, j);
                assert forall|k: int| 0 <= k < (seq![j] + r.2).len() implies i < #[trigger] (
                seq![j] + r.2)[k] <= r.1 by {
                    if k > 0 {
                        assert((seq![j] + r.2)[k] == r.2[k - 1]);
                    }
                }
            },
            _ => {},
        }
    }
}

/// What lexing passes over at `i` without a token, and where it resumes: a blank, a `#`
/// comment up to its line break, or a character literal that is not closed after one
/// character.
pub open spec fn skipped_piece(cs: Seq<char>, i: int) -> Option<int> {
    if i < 0 || i >= cs.len() {
        None
    } else if cs[i] == ' ' || cs[i] == '\n' || cs[i] == '\t' {
        Some(i + 1)
    } else if cs[i] == '#' {
        Some(scan_line(cs, i + 1))
    } else if cs[i] == '\'' {
        match spec_char_lit(cs, i) {
            Step::SkipBad(j) => Some(j),
            _ => None,
        }
    } else {
        None
    }
}

/// `cs[i..a]` is made of skipped pieces only, one after another.
pub open spec fn only_skipped(cs: Seq<char>, i: int, a: int) -> bool
    decreases a - i,
{
    if i >= a {
        i == a
    } else {
        match skipped_piece(cs, i) {
            Some(j) => i < j <= a && only_skipped(cs, j, a),
            None => false,
        }
    }
}

/// Where lexing from `i` finds a token, it starts at or after `i`, ends where lexing stops,
/// within the input, and only blanks, comments and rejected character literals lie between
/// `i` and its start. Where it finds none, lexing stopped at the end of the input.
pub proof fn lemma_lex_range(cs: Seq<char>, i: int)
    requires
        0 <= i <= cs.len(),
    ensures
        spec_lex(cs, i).0 matches Some((t, a, b)) ==> {
            &&& i <= a < b
            &&& b == spec_lex(cs, i).1
            &&& b <= cs.len()
            &&& only_skipped(cs, i, a)
        },
        spec_lex(cs, i).0 is None ==> spec_lex(cs, i).1 == cs.len(),
    decreases cs.len() - i,
{
    lemma_lex_progress(cs, i);
    if i < cs.len() {
        lemma_step_progress(cs, i);
        match spec_step(cs, i) {
            Step::Skip(j) => {
                lemma_lex_range(cs, j);
                assert(skipped_piece(cs, i) == Some(j));
            },
            Step::SkipBad(j) => {
                lemma_lex_range(cs, j);
                assert(skipped_piece(cs, i) == Some(j));
            },
            _ => {},
        }
    }
}

/// Exec forms of the character classes.
pub fn is_digit_char(c: char) -> (b: bool)
    ensures
        b == is_digit(c),
{
    '0' <= c && c <= '9'
}

pub fn is_ident_start_char(c: char) -> (b: bool)
    ensures
        b == is_ident_start(c),
{
    ('a' <= c && c <= 'z') || ('A' <= c && c <= 'Z') || c == '_'
}

pub fn is_ident_continue_char(c: char) -> (b: bool)
    ensures
        b == is_ident_continue(c),
{
    is_ident_start_char(c) || is_digit_char(c)
}

/// The number of bytes of the UTF-8 encoding of `c`.
pub fn char_width(c: char) -> (w: usize)
    ensures
        w == spec_width(c),
        w == encode_utf8(seq![c]).len(),
{
    proof {
        lemma_width(c);
    }
    let u = c as u32;
    if u <= 0x7F {
        1
    } else if u <= 0x7FF {
        2
    } else if u <= 0xFFFF {
        3
    } else {
        4
    }
}

fn scan_ident_exec(cs: &Vec<char>, i: usize) -> (j: usize)
    requires
        i <= cs@.len(),
    ensures
        j == scan_ident(cs@, i as int),
{
    let mut j = i;
    while j < cs.len() && is_ident_continue_char(cs[j])
        invariant
            i <= j <= cs@.len(),
            scan_ident(cs@, i as int) == scan_ident(cs@, j as int),
        decreases cs@.len() - j,
    {
        j = j + 1;
    }
    j
}

fn scan_digits_exec(cs: &Vec<char>, i: usize) -> (j: usize)
    requires
        i <= cs@.len(),
    ensures
        j == scan_digits(cs@, i as int),
{
    let mut j = i;
    while j < cs.len() && is_digit_char(cs[j])
        invariant
            i <= j <= cs@.len(),
            scan_digits(cs@, i as int) == scan_digits(cs@, j as int),
        decreases cs@.len() - j,
    {
        j = j + 1;
    }
    j
}

fn scan_line_exec(cs: &Vec<char>, i: usize) -> (j: usize)
    requires
        i <= cs@.len(),
    ensures
        j == scan_line(cs@, i as int),
{
    let mut j = i;
    while j < cs.len() && cs[j] != '\n'
        invariant
            i <= j <= cs@.len(),
            scan_line(cs@, i as int) == scan_line(cs@, j as int),
        decreases cs@.len() - j,
    {
        j = j + 1;
    }
    j
}

fn scan_string_exec(cs: &Vec<char>, i: usize) -> (r: Option<usize>)
    requires
        i <= cs@.len(),
    ensures
        r matches Some(j) ==> scan_string(cs@, i as int) == Some(j as int),
        r is None ==> scan_string(cs@, i as int) is None,
{
    let n = cs.len();
    let mut j = i;
    while j < n
        invariant
            i <= j <= cs@.len(),
            n == cs@.len(),
            scan_string(cs@, i as int) == scan_string(cs@, j as int),
        decreases cs@.len() - j,
    {
        if cs[j] == '\\' {
            if j + 1 < cs.len() {
                j = j + 2;
            } else {
                return None;
            }
        } else if cs[j] == '"' {
            return Some(j + 1);
        } else {
            j = j + 1;
        }
    }
    None
}

fn scan_code_exec(cs: &Vec<char>, i: usize) -> (r: Option<usize>)
    requires
        i <= cs@.len(),
    ensures
        r matches Some(j) ==> scan_code(cs@, i as int) == Some(j as int),
        r is None ==> scan_code(cs@, i as int) is None,
{
    let n = cs.len();
    let mut j = i;
    while j < n
        invariant
            i <= j <= cs@.len(),
            n == cs@.len(),
            scan_code(cs@, i as int) == scan_code(cs@, j as int),
        decreases cs@.len() - j,
    {
        if cs[j] != '-' {
            j = j + 1;
        } else if j + 1 >= cs.len() {
            return None;
        } else if cs[j + 1] != '-' {
            j = j + 2;
        } else if j + 2 >= cs.len() {
            return None;
        } else if cs[j + 2] == '-' {
            return Some(j + 3);
        } else {
            j = j + 3;
        }
    }
    None
}

fn single_token(c: char) -> (t: Token)
    ensures
        t == spec_single(c),
{
    if c == '(' {
        Token::LParen
    } else if c == ')' {
        Token::RParen
    } else if c == '{' {
        Token::LBrace
    } else if c == '}' {
        Token::RBrace
    } else if c == '[' {
        Token::LBrack
    } else if c == ']' {
        Token::RBrack
    } else if c == ';' {
        Token::SemiColon
    } else if c == ',' {
        Token::Comma
    } else if c == '+' {
        Token::Plus
    } else if c == '|' {
        Token::Bar
    } else if c == '*' {
        Token::Star
    } else if c == '/' {
        Token::Slash
    } else if c == '?' {
        Token::Question
    } else {
        Token::Error
    }
}

/// The exec form of a step: see `Step`.
pub enum StepExec {
    Stop,
    Skip(usize),
    SkipBad(usize),
    Emit(Token, usize),
}

pub open spec fn step_view(s: StepExec) -> Step {
    match s {
        StepExec::Stop => Step::Stop,
        StepExec::Skip(j) => Step::Skip(j as int),
        StepExec::SkipBad(j) => Step::SkipBad(j as int),
        StepExec::Emit(t, j) => Step::Emit(t, j as int),
    }
}

fn pair_exec(cs: &Vec<char>, i: usize, next: char, two: Token, one: Token) -> (s: StepExec)
    requires
        i < cs@.len(),
    ensures
        step_view(s) == spec_pair(cs@, i as int, next, two, one),
{
    let n = cs.len();
    if i + 1 < n && cs[i + 1] == next {
        StepExec::Emit(two, i + 2)
    } else {
        StepExec::Emit(one, i + 1)
    }
}

fn number_exec(cs: &Vec<char>, i: usize) -> (s: StepExec)
    requires
        i < cs@.len(),
    ensures
        step_view(s) == spec_number(cs@, i as int),
{
    let n = cs.len();
    let j = scan_digits_exec(cs, i + 1);
    proof {
        lemma_scan_digits(cs@, i + 1);
    }
    if j < cs.len() && cs[j] == '.' {
        if j + 1 < cs.len() && is_digit_char(cs[j + 1]) {
            let k = scan_digits_exec(cs, j + 2);
            proof {
                lemma_scan_digits(cs@, j + 2);
            }
            if k < cs.len() && is_ident_start_char(cs[k]) {
                StepExec::Emit(Token::FloatSuffix, scan_ident_exec(cs, k + 1))
            } else {
                StepExec::Emit(Token::Float, k)
            }
        } else {
            StepExec::Emit(Token::Int, j)
        }
    } else if j < cs.len() && is_ident_start_char(cs[j]) {
        StepExec::Emit(Token::IntSuffix, scan_ident_exec(cs, j + 1))
    } else {
        StepExec::Emit(Token::Int, j)
    }
}

fn char_lit_exec(cs: &Vec<char>, i: usize) -> (s: StepExec)
    requires
        i < cs@.len(),
    ensures
        step_view(s) == spec_char_lit(cs@, i as int),
{
    let n = cs.len();
    let a = i + 1;
    if a >= n {
        StepExec::Stop
    } else if cs[a] == '\\' && a + 1 >= n {
        StepExec::Stop
    } else {
        let b = if cs[a] == '\\' {
            a + 2
        } else {
            a + 1
        };
        if b >= n {
            StepExec::Stop
        } else if cs[b] == '\'' {
            StepExec::Emit(Token::Char, b + 1)
        } else {
            StepExec::SkipBad(b + 1)
        }
    }
}

/// The lexer's step at index `i`.
fn step_exec(cs: &Vec<char>, i: usize) -> (s: StepExec)
    requires
        i < cs@.len(),
    ensures
        step_view(s) == spec_step(cs@, i as int),
{
    let n = cs.len();
    let c = cs[i];
    if c == '#' {
        StepExec::Skip(scan_line_exec(cs, i + 1))
    } else if c == ' ' || c == '\n' || c == '\t' {
        StepExec::Skip(i + 1)
    } else if is_ident_start_char(c) {
        let j = scan_ident_exec(cs, i + 1);
        proof {
            lemma_scan_ident(cs@, i + 1);
        }
        let t = if j == i + 1 && c == '_' {
            Token::Underscore
        } else {
            keyword(cs, i, j)
        };
        StepExec::Emit(t, j)
    } else if is_digit_char(c) {
        number_exec(cs, i)
    } else if c == '"' {
        match scan_string_exec(cs, i + 1) {
            Some(j) => StepExec::Emit(Token::String, j),
            None => StepExec::Stop,
        }
    } else if c == '\'' {
        char_lit_exec(cs, i)
    } else if c == '=' {
        if i + 1 < cs.len() && cs[i + 1] == '=' {
            StepExec::Emit(Token::EqEq, i + 2)
        } else if i + 1 < cs.len() && cs[i + 1] == '>' {
            StepExec::Emit(Token::FatArrow, i + 2)
        } else {
            StepExec::Emit(Token::Eq, i + 1)
        }
    } else if c == ':' {
        pair_exec(cs, i, ':', Token::ColonColon, Token::Colon)
    } else if c == '!' {
        pair_exec(cs, i, '=', Token::NotEq, Token::Not)
    } else if c == '<' {
        pair_exec(cs, i, '=', Token::Le, Token::Lt)
    } else if c == '>' {
        pair_exec(cs, i, '=', Token::Ge, Token::Gt)
    } else if c == '.' {
        pair_exec(cs, i, '.', Token::DotDot, Token::Dot)
    } else if c == '-' {
        if i + 1 < n && i + 2 < n && cs[i + 1] == '-' && cs[i + 2] == '-' {
            match scan_code_exec(cs, i + 3) {
                Some(j) => StepExec::Emit(Token::Code, j),
                None => StepExec::Stop,
            }
        } else {
            StepExec::Emit(Token::Minus, i + 1)
        }
    } else {
        StepExec::Emit(single_token(c), i + 1)
    }
}

/// The lexer of the surface language. It reads the characters of its input from left to
/// right and hands out one token at a time; spans are byte offsets into the input.
pub struct Lexer {
    pub chars: Vec<char>,
    pub idx: usize,
    pub pos: usize,
    pub eof: bool,
    pub file: u16,
    pub report: Report,
}

impl Lexer {
    /// The characters of the input.
    pub open spec fn input(&self) -> Seq<char> {
        self.chars@
    }

    /// The index of the next character to read.
    pub open spec fn index(&self) -> int {
        self.idx as int
    }

    /// Whether the end-of-file token has been handed out.
    pub open spec fn at_eof(&self) -> bool {
        self.eof
    }

    /// The number of the file being lexed.
    pub open spec fn file_id(&self) -> u16 {
        self.file
    }

    /// The diagnostics reported so far.
    pub open spec fn diags(&self) -> Seq<((Span, Seq<char>), Seq<(Span, Seq<char>)>)> {
        self.report@
    }

    pub open spec fn wf(&self) -> bool {
        &&& self.idx <= self.chars@.len()
        &&& self.pos == offset(self.chars@, self.idx as int)
        &&& byte_len(self.chars@) <= usize::MAX
    }

    /// A well-formed lexer reads within its input.
    pub proof fn lemma_index_in_input(&self)
        requires
            self.wf(),
        ensures
            0 <= self.index() <= self.input().len(),
    {
    }

    /// What the next call of `lex` on this lexer finds: a token that starts at or after the
    /// current index and ends where lexing stops, within the input, with only blanks,
    /// comments and rejected character literals before it; or, when there is none, lexing
    /// stops at the end of the input.
    pub proof fn lemma_next_token_range(&self)
        requires
            self.wf(),
        ensures
            spec_lex(self.input(), self.index()).0 matches Some((t, a, b)) ==> {
                &&& self.index() <= a < b
                &&& b == spec_lex(self.input(), self.index()).1
                &&& b <= self.input().len()
                &&& only_skipped(self.input(), self.index(), a)
            },
            spec_lex(self.input(), self.index()).0 is None ==> spec_lex(
                self.input(),
                self.index(),
            ).1 == self.input().len(),
    {
        lemma_lex_range(self.input(), self.index());
    }

    pub fn new(file: u16, input: &str) -> (l: Lexer)
        ensures
            l.wf(),
            l.input() == input@,
            l.index() == 0,
            !l.at_eof(),
            l.file_id() == file,
            l.diags() == Seq::<((Span, Seq<char>), Seq<(Span, Seq<char>)>)>::empty(),
    {
        let chars = chars_of(input);
        let bytes = input.as_bytes();
        let n = bytes.len();
        assert(n == byte_len(chars@));
        proof {
            assert(chars@.take(0) =~= Seq::<char>::empty());
        }
        Lexer { chars, idx: 0, pos: 0, eof: false, file, report: Report::new() }
    }

    /// Moves the cursor forward to index `j`, counting bytes on the way.
    fn advance_to(&mut self, j: usize)
        requires
            old(self).wf(),
            old(self).idx <= j <= old(self).chars@.len(),
        ensures
            final(self).wf(),
            final(self).idx == j,
            final(self).chars == old(self).chars,
            final(self).eof == old(self).eof,
            final(self).file == old(self).file,
            final(self).report == old(self).report,
    {
        while self.idx < j
            invariant
                self.wf(),
                self.idx <= j <= self.chars@.len(),
                self.chars == old(self).chars,
                self.eof == old(self).eof,
                self.file == old(self).file,
                self.report == old(self).report,
            decreases j - self.idx,
        {
            proof {
                lemma_offset_step(self.chars@, self.idx as int);
                lemma_offset_mono(self.chars@, self.idx + 1, self.chars@.len() as int);
            }
            let w = char_width(self.chars[self.idx]);
            self.pos = self.pos + w;
            self.idx = self.idx + 1;
        }
    }

    /// Reports the character `c`, which ends at the current position, as unexpected.
    fn unexpected_char(&mut self, c: char)
        requires
            old(self).wf(),
            old(self).idx > 0,
            c == old(self).chars@[old(self).idx - 1],
        ensures
            final(self).wf(),
            final(self).idx == old(self).idx,
            final(self).chars == old(self).chars,
            final(self).eof == old(self).eof,
            final(self).file == old(self).file,
            final(self).report@ == old(self).report@.push(
                unexpected_diag(old(self).file, old(self).chars@, old(self).idx as int),
            ),
    {
        proof {
            lemma_offset_mono(self.chars@, self.idx - 1, self.idx as int);
        }
        let mut text = String::from_str("Unexpected character '");
        push_char(&mut text, c);
        text.append("'");
        assert(text@ =~= "Unexpected character '"@ + seq![c] + "'"@);
        let span = Span::new(self.file, (self.pos - 1) as u32, self.pos as u32);
        self.report.err(span, "Unexpected character", text.as_str());
    }

    /// Lexes the next token, skipping blanks and comments. `None` when the input is used up,
    /// or ends inside a string literal, character literal or code block.
    pub fn lex(&mut self) -> (r: Option<Spanned<Token>>)
        requires
            old(self).wf(),
        ensures
            final(self).wf(),
            final(self).input() == old(self).input(),
            final(self).at_eof() == old(self).at_eof(),
            final(self).file_id() == old(self).file_id(),
            final(self).index() == spec_lex(old(self).input(), old(self).index()).1,
            final(self).diags() == old(self).diags() + error_diags(
                old(self).file_id(),
                old(self).input(),
                spec_lex(old(self).input(), old(self).index()).2,
            ),
            r == spanned_token(
                old(self).file_id(),
                old(self).input(),
                spec_lex(old(self).input(), old(self).index()).0,
            ),
    {
        let ghost cs = self.chars@;
        let ghost i0 = self.idx as int;
        let ghost file = self.file;
        let ghost mut errs: Seq<int> = Seq::empty();
        proof {
            assert(errs + spec_lex(cs, i0).2 =~= spec_lex(cs, i0).2);
            assert(old(self).report@ + error_diags(file, cs, errs) =~= old(self).report@);
        }
        loop
            invariant
                self.wf(),
                self.chars@ == cs,
                cs == old(self).chars@,
                file == old(self).file,
                i0 == old(self).idx,
                self.file == file,
                self.eof == old(self).eof,
                i0 <= self.idx,
                spec_lex(cs, i0).0 == spec_lex(cs, self.idx as int).0,
                spec_lex(cs, i0).1 == spec_lex(cs, self.idx as int).1,
                spec_lex(cs, i0).2 == errs + spec_lex(cs, self.idx as int).2,
                self.report@ == old(self).report@ + error_diags(file, cs, errs),
            decreases cs.len() - self.idx,
        {
            if self.idx >= self.chars.len() {
                proof {
                    assert(errs + Seq::<int>::empty() =~= errs);
                }
                return None;
            }
            let i = self.idx;
            let start = self.pos;
            let s = step_exec(&self.chars, i);
            proof {
                lemma_step_progress(cs, i as int);
            }
            match s {
                StepExec::Stop => {
                    let n = self.chars.len();
                    self.advance_to(n);
                    proof {
                        assert(errs + Seq::<int>::empty() =~= errs);
                    }
                    return None;
                },
                StepExec::Skip(j) => {
                    self.advance_to(j);
                },
                StepExec::SkipBad(j) => {
                    self.advance_to(j);
                    let c = self.chars[j - 1];
                    self.unexpected_char(c);
                    proof {
                        let r = spec_lex(cs, j as int);
                        assert(errs + (seq![j as int] + r.2) =~= errs.push(j as int) + r.2);
                        assert(error_diags(file, cs, errs.push(j as int)) =~= error_diags(
                            file,
                            cs,
                            errs,
                        ).push(unexpected_diag(file, cs, j as int)));
                        errs = errs.push(j as int);
                    }
                },
                StepExec::Emit(t, j) => {
                    self.advance_to(j);
                    let is_error = match t {
                        Token::Error => true,
                        _ => false,
                    };
                    if is_error {
                        let c = self.chars[j - 1];
                        self.unexpected_char(c);
                        proof {
                            assert(error_diags(file, cs, errs + seq![j as int]) =~= error_diags(
                                file,
                                cs,
                                errs,
                            ).push(unexpected_diag(file, cs, j as int)));
                        }
                    } else {
                        proof {
                            assert(errs + Seq::<int>::empty() =~= errs);
                        }
                    }
                    let span = Span::new(self.file, start as u32, self.pos as u32);
                    return Some(Spanned::new(span, t));
                },
            }
        }
    }

    /// The next token: the next one `lex` finds, or else, once, the end-of-file token
    /// with an empty span at the end of the input.
    pub fn next(&mut self) -> (r: Option<Spanned<Token>>)
        requires
            old(self).wf(),
        ensures
            final(self).wf(),
            final(self).input() == old(self).input(),
            final(self).file_id() == old(self).file_id(),
            final(self).index() == spec_lex(old(self).input(), old(self).index()).1,
            final(self).diags() == old(self).diags() + error_diags(
                old(self).file_id(),
                old(self).input(),
                spec_lex(old(self).input(), old(self).index()).2,
            ),
            spec_lex(old(self).input(), old(self).index()).0 is Some ==> {
                &&& r == spanned_token(
                    old(self).file_id(),
                    old(self).input(),
                    spec_lex(old(self).input(), old(self).index()).0,
                )
                &&& final(self).at_eof() == old(self).at_eof()
            },
            spec_lex(old(self).input(), old(self).index()).0 is None ==> {
                &&& final(self).at_eof()
                &&& old(self).at_eof() ==> r is None
                &&& !old(self).at_eof() ==> r == Some(
                    Spanned {
                        s: char_span(
                            old(self).file_id(),
                            old(self).input(),
                            final(self).index(),
                            final(self).index(),
                        ),
                        v: Token::Eof,
                    },
                )
            },
    {
        match self.lex() {
            Some(t) => Some(t),
            None => {
                if self.eof {
                    None
                } else {
                    self.eof = true;
                    let span = Span::new(self.file, self.pos as u32, self.pos as u32);
                    Some(Spanned::new(span, Token::Eof))
                }
            },
        }
    }

    /// The characters of the input whose byte offsets lie in the span of `t`.
    pub fn text(&self, t: Spanned<Token>) -> (s: String)
        requires
            self.wf(),
        ensures
            s@ == text_upto(
                self.input(),
                self.input().len() as int,
                t.s.start as int,
                t.s.end as int,
            ),
    {
        let mut s = String::new();
        let mut k: usize = 0;
        let mut off: usize = 0;
        proof {
            assert(self.chars@.take(0) =~= Seq::<char>::empty());
        }
        while k < self.chars.len()
            invariant
                self.wf(),
                k <= self.chars@.len(),
                off == offset(self.chars@, k as int),
                s@ == text_upto(self.chars@, k as int, t.s.start as int, t.s.end as int),
            decreases self.chars@.len() - k,
        {
            proof {
                lemma_offset_step(self.chars@, k as int);
                lemma_offset_mono(self.chars@, k + 1, self.chars@.len() as int);
            }
            if (t.s.start as usize) <= off && off < (t.s.end as usize) {
                push_char(&mut s, self.chars[k]);
            }
            off = off + char_width(self.chars[k]);
            k = k + 1;
            proof {
                assert(s@ =~= text_upto(self.chars@, k as int, t.s.start as int, t.s.end as int));
            }
        }
        s
    }
}

} // verus!
