//! A lexer for the textual form of MIR.
use vstd::prelude::*;

use crate::text::chars_of;

verus! {

#[derive(Debug, Clone, Copy, PartialEq, Eq, Structural)]
pub enum Token {
    Label,
    Slash,
    Equal,
    Number,
    String,
    Colon,
    SemiColon,
    LeftBrace,
    RightBrace,
    Ampersand,
    Dot,
    Plus,
    Minus,
    Star,
    LeftParen,
    RightParen,
    Ident,
    Error,
}

/// What one call of the lexer gives: a token with its start and end, or the end of the
/// input, after which reading stopped at the given position; or it fails, on a label
/// without a name or on an unterminated block comment.
pub enum Lexed {
    Tok(Token, nat, nat),
    End(nat),
    Fail,
}

pub open spec fn is_alnum(c: char) -> bool {
    ('a' <= c && c <= 'z') || ('A' <= c && c <= 'Z') || ('0' <= c && c <= '9')
}

pub open spec fn is_ident_char(c: char) -> bool {
    is_alnum(c) || c == '_'
}

pub open spec fn is_digit(c: char) -> bool {
    '0' <= c && c <= '9'
}

/// Text made of ASCII characters only.
pub open spec fn ascii(s: Seq<char>) -> bool {
    forall|i: int| 0 <= i < s.len() ==> (#[trigger] s[i] as u32) < 128
}

// The scans below read characters at `ci` and count the characters taken into the token at
// `pos`. Reading can run one character ahead of counting: a scan that stops at a character
// has read it without taking it.
/// Reads letters and digits, taking each; stops after reading the first other character.
pub open spec fn scan_alnum(s: Seq<char>, ci: nat, pos: nat) -> (nat, nat)
    decreases s.len() - ci,
{
    if ci >= s.len() {
        (ci, pos)
    } else if is_alnum(s[ci as int]) {
        scan_alnum(s, ci + 1, pos + 1)
    } else {
        (ci + 1, pos)
    }
}

/// Reads to the end of the line, taking each character but the line break.
pub open spec fn scan_line(s: Seq<char>, ci: nat, pos: nat) -> (nat, nat)
    decreases s.len() - ci,
{
    if ci >= s.len() {
        (ci, pos)
    } else if s[ci as int] == '\n' {
        (ci + 1, pos)
    } else {
        scan_line(s, ci + 1, pos + 1)
    }
}

/// Reads to the end of a block comment, taking each character, and returns where reading
/// and counting stand after the closing `*/`; `None` when the input ends first. After a `*`
/// that is not followed by `/`, reading goes back to the counted position.
pub open spec fn scan_block(s: Seq<char>, ci: nat, pos: nat) -> Option<(nat, nat)>
    decreases s.len() - pos,
{
    if ci >= s.len() || pos >= s.len() {
        None
    } else if s[ci as int] == '*' {
        if ci + 1 >= s.len() {
            None
        } else if s[(ci + 1) as int] == '/' {
            Some((ci + 2, pos + 2))
        } else {
            scan_block(s, pos + 1, pos + 1)
        }
    } else {
        scan_block(s, ci + 1, pos + 1)
    }
}

/// The end of a run of characters that `ok` accepts, counted from `pos`.
pub open spec fn scan_digits(s: Seq<char>, ci: nat, pos: nat) -> nat
    decreases s.len() - ci,
{
    if ci >= s.len() {
        pos
    } else if is_digit(s[ci as int]) {
        scan_digits(s, ci + 1, pos + 1)
    } else {
        pos
    }
}

pub open spec fn scan_ident(s: Seq<char>, ci: nat, pos: nat) -> nat
    decreases s.len() - ci,
{
    if ci >= s.len() {
        pos
    } else if is_ident_char(s[ci as int]) {
        scan_ident(s, ci + 1, pos + 1)
    } else {
        pos
    }
}

/// The end of a string literal: just after the closing quote, or the end of the input.
pub open spec fn scan_string(s: Seq<char>, ci: nat, pos: nat) -> nat
    decreases s.len() - ci,
{
    if ci >= s.len() {
        pos
    } else if s[ci as int] == '"' {
        pos + 1
    } else {
        scan_string(s, ci + 1, pos + 1)
    }
}

/// The token that a single character stands for.
pub open spec fn single(c: char) -> Option<Token> {
    if c == '=' {
        Some(Token::Equal)
    } else if c == ':' {
        Some(Token::Colon)
    } else if c == ';' {
        Some(Token::SemiColon)
    } else if c == '.' {
        Some(Token::Dot)
    } else if c == '+' {
        Some(Token::Plus)
    } else if c == '-' {
        Some(Token::Minus)
    } else if c == '*' {
        Some(Token::Star)
    } else if c == '(' {
        Some(Token::LeftParen)
    } else if c == ')' {
        Some(Token::RightParen)
    } else if c == '{' {
        Some(Token::LeftBrace)
    } else if c == '}' {
        Some(Token::RightBrace)
    } else if c == '&' {
        Some(Token::Ampersand)
    } else {
        None
    }
}

pub proof fn lemma_scan_alnum(s: Seq<char>, ci: nat, pos: nat)
    requires
        pos <= ci <= s.len(),
    ensures
        pos <= scan_alnum(s, ci, pos).1 <= scan_alnum(s, ci, pos).0 <= s.len(),
    decreases s.len() - ci,
{
    if ci < s.len() && is_alnum(s[ci as int]) {
        lemma_scan_alnum(s, ci + 1, pos + 1);
    }
}

pub proof fn lemma_scan_line(s: Seq<char>, ci: nat, pos: nat)
    requires
        pos <= ci <= s.len(),
    ensures
        pos <= scan_line(s, ci, pos).1 <= scan_line(s, ci, pos).0 <= s.len(),
    decreases s.len() - ci,
{
    if ci < s.len() && s[ci as int] != '\n' {
        lemma_scan_line(s, ci + 1, pos + 1);
    }
}

pub proof fn lemma_scan_block(s: Seq<char>, ci: nat, pos: nat)
    requires
        pos <= ci <= s.len(),
    ensures
        scan_block(s, ci, pos) matches Some((c2, p2)) ==> pos < p2 <= c2 <= s.len(),
    decreases s.len() - pos,
{
    if ci < s.len() && pos < s.len() {
        if s[ci as int] == '*' {
            if ci + 1 < s.len() && s[(ci + 1) as int] != '/' {
                lemma_scan_block(s, pos + 1, pos + 1);
            }
        } else {
            lemma_scan_block(s, ci + 1, pos + 1);
        }
    }
}

/// One call of the lexer, from reading position `ci`, counted position `pos` and token start
/// `start`. Blanks and comments are skipped and restart the token; a label is a quote
/// followed by letters and digits; a character that starts no token is an error token of
/// its own.
pub open spec fn lex(s: Seq<char>, ci: nat, pos: nat, start: nat) -> Lexed
    decreases s.len() - pos,
    when pos <= ci <= s.len()
{
    if ci >= s.len() {
        Lexed::End(pos)
    } else {
        let c = s[ci as int];
        if c == '\'' {
            if ci + 1 >= s.len() {
                Lexed::End(pos + 1)
            } else if !is_alnum(s[(ci + 1) as int]) {
                Lexed::Fail
            } else {
                proof {
                    lemma_scan_alnum(s, ci + 2, pos + 2);
                }
                Lexed::Tok(Token::Label, start, scan_alnum(s, ci + 2, pos + 2).1)
            }
        } else if c == '/' {
            if ci + 1 >= s.len() {
                Lexed::End(pos + 1)
            } else if s[(ci + 1) as int] == '/' {
                proof {
                    lemma_scan_line(s, ci + 2, pos + 2);
                }
                let (c2, p2) = scan_line(s, ci + 2, pos + 2);
                lex(s, c2, p2, p2)
            } else if s[(ci + 1) as int] == '*' {
                proof {
                    lemma_scan_block(s, ci + 2, pos + 2);
                }
                match scan_block(s, ci + 2, pos + 2) {
                    Some((c2, p2)) => lex(s, c2, p2, p2),
                    None => Lexed::Fail,
                }
            } else {
                Lexed::Tok(Token::Slash, start, pos + 1)
            }
        } else if c == '\n' || c == ' ' || c == '\t' {
            lex(s, ci + 1, pos + 1, pos + 1)
        } else if is_digit(c) {
            Lexed::Tok(Token::Number, start, scan_digits(s, ci + 1, pos + 1))
        } else if c == '"' {
            Lexed::Tok(Token::String, start, scan_string(s, ci + 1, pos + 1))
        } else if ('a' <= c && c <= 'z') || ('A' <= c && c <= 'Z') {
            Lexed::Tok(Token::Ident, start, scan_ident(s, ci + 1, pos + 1))
        } else if single(c) is Some {
            Lexed::Tok(single(c)->0, start, pos + 1)
        } else {
            Lexed::Tok(Token::Error, start, pos + 1)
        }
    }
}

/// A lexer over ASCII text that tracks its position by characters.
#[derive(Debug)]
pub struct Lexer {
    chars: Vec<char>,
    pos: usize,
}

impl Lexer {
    pub closed spec fn input(&self) -> Seq<char> {
        self.chars@
    }

    pub closed spec fn position(&self) -> nat {
        self.pos as nat
    }

    pub closed spec fn wf(&self) -> bool {
        self.pos <= self.chars@.len()
    }

    pub fn new(input: &str) -> (l: Lexer)
        ensures
            l.wf(),
            l.input() == input@,
            l.position() == 0,
    {
        Lexer { chars: chars_of(input), pos: 0 }
    }

    /// The next token with its start and end, or `None` at the end of the input.
    pub fn next(&mut self) -> (r: Option<(Token, usize, usize)>)
        requires
            old(self).wf(),
            ascii(old(self).input()),
            !(lex(old(self).input(), old(self).position(), old(self).position(), old(self).position()) is Fail),
        ensures
            final(self).wf(),
            final(self).input() == old(self).input(),
            match lex(old(self).input(), old(self).position(), old(self).position(), old(self).position()) {
                Lexed::Tok(t, st, e) => r == Some((t, st as usize, e as usize)) && final(self).position() == e,
                Lexed::End(p) => r is None && final(self).position() == p,
                Lexed::Fail => false,
            },
    {
        let ghost s = self.chars@;
        let ghost goal = lex(s, self.pos as nat, self.pos as nat, self.pos as nat);
        let n = self.chars.len();
        let mut ci = self.pos;
        let mut start = self.pos;
        loop
            invariant
                s == self.chars@,
                s == old(self).chars@,
                goal == lex(s, old(self).pos as nat, old(self).pos as nat, old(self).pos as nat),
                n == s.len(),
                start <= self.pos <= ci <= n,
                lex(s, ci as nat, self.pos as nat, start as nat) == goal,
                !(goal is Fail),
            decreases n - self.pos,
        {
            if ci >= n {
                return None;
            }
            let c = self.chars[ci];
            if c == '\'' {
                if ci + 1 >= n {
                    self.pos = self.pos + 1;
                    return None;
                }
                proof {
                    lemma_scan_alnum(s, (ci + 2) as nat, (self.pos + 2) as nat);
                }
                let (_c2, p2) = scan_alnum_at(&self.chars, ci + 2, self.pos + 2);
                self.pos = p2;
                return Some((Token::Label, start, self.pos));
            } else if c == '/' {
                if ci + 1 >= n {
                    self.pos = self.pos + 1;
                    return None;
                }
                let c2 = self.chars[ci + 1];
                if c2 == '/' {
                    proof {
                        lemma_scan_line(s, (ci + 2) as nat, (self.pos + 2) as nat);
                    }
                    let (c3, p3) = scan_line_at(&self.chars, ci + 2, self.pos + 2);
                    ci = c3;
                    self.pos = p3;
                    start = p3;
                } else if c2 == '*' {
                    proof {
                        lemma_scan_block(s, (ci + 2) as nat, (self.pos + 2) as nat);
                    }
                    let (c3, p3) = scan_block_at(&self.chars, ci + 2, self.pos + 2);
                    ci = c3;
                    self.pos = p3;
                    start = p3;
                } else {
                    self.pos = self.pos + 1;
                    return Some((Token::Slash, start, self.pos));
                }
            } else if c == '\n' || c == ' ' || c == '\t' {
                ci = ci + 1;
                self.pos = self.pos + 1;
                start = self.pos;
            } else if '0' <= c && c <= '9' {
                self.pos = scan_digits_at(&self.chars, ci + 1, self.pos + 1);
                return Some((Token::Number, start, self.pos));
            } else if c == '"' {
                self.pos = scan_string_at(&self.chars, ci + 1, self.pos + 1);
                return Some((Token::String, start, self.pos));
            } else if ('a' <= c && c <= 'z') || ('A' <= c && c <= 'Z') {
                self.pos = scan_ident_at(&self.chars, ci + 1, self.pos + 1);
                return Some((Token::Ident, start, self.pos));
            } else {
                self.pos = self.pos + 1;
                match single_token(c) {
                    Some(t) => {
                        return Some((t, start, self.pos));
                    },
                    None => {
                        return Some((Token::Error, start, self.pos));
                    },
                }
            }
        }
    }
}

fn scan_alnum_at(chars: &Vec<char>, ci0: usize, pos0: usize) -> (r: (usize, usize))
    requires
        pos0 <= ci0 <= chars@.len(),
    ensures
        r.0 as nat == scan_alnum(chars@, ci0 as nat, pos0 as nat).0,
        r.1 as nat == scan_alnum(chars@, ci0 as nat, pos0 as nat).1,
{
    let n = chars.len();
    let mut ci = ci0;
    let mut pos = pos0;
    let ghost goal = scan_alnum(chars@, ci0 as nat, pos0 as nat);
    while ci < n
        invariant
            n == chars@.len(),
            pos0 <= pos <= ci <= n,
            scan_alnum(chars@, ci as nat, pos as nat) == goal,
            goal == scan_alnum(chars@, ci0 as nat, pos0 as nat),
        decreases n - ci,
    {
        if is_alnum_char(chars[ci]) {
            ci = ci + 1;
            pos = pos + 1;
        } else {
            return (ci + 1, pos);
        }
    }
    (ci, pos)
}

fn scan_line_at(chars: &Vec<char>, ci0: usize, pos0: usize) -> (r: (usize, usize))
    requires
        pos0 <= ci0 <= chars@.len(),
    ensures
        r.0 as nat == scan_line(chars@, ci0 as nat, pos0 as nat).0,
        r.1 as nat == scan_line(chars@, ci0 as nat, pos0 as nat).1,
{
    let n = chars.len();
    let mut ci = ci0;
    let mut pos = pos0;
    let ghost goal = scan_line(chars@, ci0 as nat, pos0 as nat);
    while ci < n
        invariant
            n == chars@.len(),
            pos0 <= pos <= ci <= n,
            scan_line(chars@, ci as nat, pos as nat) == goal,
            goal == scan_line(chars@, ci0 as nat, pos0 as nat),
        decreases n - ci,
    {
        if chars[ci] == '\n' {
            return (ci + 1, pos);
        }
        ci = ci + 1;
        pos = pos + 1;
    }
    (ci, pos)
}

fn scan_block_at(chars: &Vec<char>, ci0: usize, pos0: usize) -> (r: (usize, usize))
    requires
        pos0 <= ci0 <= chars@.len(),
        scan_block(chars@, ci0 as nat, pos0 as nat) is Some,
    ensures
        scan_block(chars@, ci0 as nat, pos0 as nat) == Some((r.0 as nat, r.1 as nat)),
{
    let n = chars.len();
    let mut ci = ci0;
    let mut pos = pos0;
    let ghost goal = scan_block(chars@, ci0 as nat, pos0 as nat);
    loop
        invariant
            n == chars@.len(),
            pos0 <= pos <= ci <= n,
            scan_block(chars@, ci as nat, pos as nat) == goal,
            goal == scan_block(chars@, ci0 as nat, pos0 as nat),
            goal is Some,
        decreases n - pos,
    {
        let c = chars[ci];
        if c == '*' {
            if chars[ci + 1] == '/' {
                return (ci + 2, pos + 2);
            }
            ci = pos + 1;
            pos = pos + 1;
        } else {
            ci = ci + 1;
            pos = pos + 1;
        }
    }
}

fn scan_digits_at(chars: &Vec<char>, ci0: usize, pos0: usize) -> (r: usize)
    requires
        pos0 <= ci0 <= chars@.len(),
    ensures
        r as nat == scan_digits(chars@, ci0 as nat, pos0 as nat),
        pos0 <= r <= chars@.len(),
{
    let n = chars.len();
    let mut ci = ci0;
    let mut pos = pos0;
    let ghost goal = scan_digits(chars@, ci0 as nat, pos0 as nat);
    while ci < n
        invariant
            n == chars@.len(),
            pos0 <= pos <= ci <= n,
            scan_digits(chars@, ci as nat, pos as nat) == goal,
            goal == scan_digits(chars@, ci0 as nat, pos0 as nat),
        decreases n - ci,
    {
        let c = chars[ci];
        if '0' <= c && c <= '9' {
            ci = ci + 1;
            pos = pos + 1;
        } else {
            return pos;
        }
    }
    pos
}

fn scan_ident_at(chars: &Vec<char>, ci0: usize, pos0: usize) -> (r: usize)
    requires
        pos0 <= ci0 <= chars@.len(),
    ensures
        r as nat == scan_ident(chars@, ci0 as nat, pos0 as nat),
        pos0 <= r <= chars@.len(),
{
    let n = chars.len();
    let mut ci = ci0;
    let mut pos = pos0;
    let ghost goal = scan_ident(chars@, ci0 as nat, pos0 as nat);
    while ci < n
        invariant
            n == chars@.len(),
            pos0 <= pos <= ci <= n,
            scan_ident(chars@, ci as nat, pos as nat) == goal,
            goal == scan_ident(chars@, ci0 as nat, pos0 as nat),
        decreases n - ci,
    {
        let c = chars[ci];
        if is_alnum_char(c) || c == '_' {
            ci = ci + 1;
            pos = pos + 1;
        } else {
            return pos;
        }
    }
    pos
}

fn scan_string_at(chars: &Vec<char>, ci0: usize, pos0: usize) -> (r: usize)
    requires
        pos0 <= ci0 <= chars@.len(),
    ensures
        r as nat == scan_string(chars@, ci0 as nat, pos0 as nat),
        pos0 <= r <= chars@.len(),
{
    let n = chars.len();
    let mut ci = ci0;
    let mut pos = pos0;
    let ghost goal = scan_string(chars@, ci0 as nat, pos0 as nat);
    while ci < n
        invariant
            n == chars@.len(),
            pos0 <= pos <= ci <= n,
            scan_string(chars@, ci as nat, pos as nat) == goal,
            goal == scan_string(chars@, ci0 as nat, pos0 as nat),
        decreases n - ci,
    {
        if chars[ci] == '"' {
            return pos + 1;
        }
        ci = ci + 1;
        pos = pos + 1;
    }
    pos
}

fn is_alnum_char(c: char) -> (b: bool)
    ensures
        b == is_alnum(c),
{
    ('a' <= c && c <= 'z') || ('A' <= c && c <= 'Z') || ('0' <= c && c <= '9')
}

fn single_token(c: char) -> (t: Option<Token>)
    ensures
        t == single(c),
{
    match c {
        '=' => Some(Token::Equal),
        ':' => Some(Token::Colon),
        ';' => Some(Token::SemiColon),
        '.' => Some(Token::Dot),
        '+' => Some(Token::Plus),
        '-' => Some(Token::Minus),
        '*' => Some(Token::Star),
        '(' => Some(Token::LeftParen),
        ')' => Some(Token::RightParen),
        '{' => Some(Token::LeftBrace),
        '}' => Some(Token::RightBrace),
        '&' => Some(Token::Ampersand),
        _ => None,
    }
}

} // verus!
