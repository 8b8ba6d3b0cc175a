//! Writing program text: keywords, punctuation, names and numbers, with indentation after
//! each line break.
use vstd::prelude::*;

use crate::ast::Index;
use crate::name::Name;
use crate::text::push_char;

verus! {

/// The text written so far, and the indentation that follows each line break.
pub struct Print {
    pub out: String,
    pub indent: String,
}

/// The decimal digit for `d`.
pub open spec fn digit(d: nat) -> char {
    (48 + d) as char
}

/// The decimal numeral of `n`, without leading zeros.
pub open spec fn decimal(n: nat) -> Seq<char>
    decreases n,
{
    if n < 10 {
        seq![digit(n)]
    } else {
        decimal(n / 10).push(digit(n % 10))
    }
}

/// The text of a line break: a newline, then the indentation.
pub open spec fn nl(ind: Seq<char>) -> Seq<char> {
    seq!['\n'] + ind
}

/// One level of indentation deeper.
pub open spec fn deeper(ind: Seq<char>) -> Seq<char> {
    ind + "    "@
}

/// The decimal numeral of `n`.
pub fn decimal_string(n: usize) -> (s: String)
    ensures
        s@ == decimal(n as nat),
{
    let mut digits: Vec<char> = Vec::new();
    let mut m: usize = n;
    proof {
        reveal_with_fuel(decimal, 2);
    }
    loop
        invariant_except_break
            digits@.len() > 0 ==> m > 0,
        invariant
            digits@.len() == 0 ==> m == n,
            decimal(n as nat) == (if m == 0 && digits@.len() > 0 {
                Seq::empty()
            } else {
                decimal(m as nat)
            }) + digits@.reverse(),
        ensures
            m == 0,
            digits@.len() > 0,
        decreases m,
    {
        let d = m % 10;
        let c = ((d as u8) + 48u8) as char;
        assert(c == digit(d as nat));
        digits.push(c);
        let ghost old_m = m;
        m = m / 10;
        proof {
            let rest = if m == 0 {
                Seq::<char>::empty()
            } else {
                decimal(m as nat)
            };
            assert(decimal(old_m as nat) == rest.push(c));

            assert(digits@.reverse() =~= seq![c] + digits@.drop_last().reverse());
            assert(rest.push(c) + digits@.drop_last().reverse() =~= rest + digits@.reverse());
        }
        if m == 0 {
            break;
        }
    }
    let mut s = String::new();
    let mut i: usize = digits.len();
    proof {
        assert(s@ =~= digits@.reverse().take(0));
    }
    while i > 0
        invariant
            i <= digits@.len(),
            s@ == digits@.reverse().take(digits@.len() - i),
        decreases i,
    {
        i = i - 1;
        let ghost before = s@;
        push_char(&mut s, digits[i]);
        proof {
            let r = digits@.reverse();
            assert(r[digits@.len() - 1 - i] == digits@[i as int]);
            assert(s@ =~= r.take(digits@.len() - i));
        }
    }
    proof {
        assert(digits@.reverse().take(digits@.len() as int) =~= digits@.reverse());
    }
    s
}

impl Print {
    /// Nothing written yet, and no indentation.
    pub fn new() -> (p: Print)
        ensures
            p.out@.len() == 0,
            p.indent@.len() == 0,
    {
        Print { out: String::new(), indent: String::new() }
    }

    /// Writes the indentation.
    pub fn tab(&mut self)
        ensures
            final(self).out@ == old(self).out@ + old(self).indent@,
            final(self).indent == old(self).indent,
    {
        self.out.append(self.indent.as_str());
    }

    /// Writes a keyword.
    pub fn kw(&mut self, s: &str)
        ensures
            final(self).out@ == old(self).out@ + s@,
            final(self).indent == old(self).indent,
    {
        self.out.append(s);
    }

    /// Writes punctuation.
    pub fn punct(&mut self, s: &str)
        ensures
            final(self).out@ == old(self).out@ + s@,
            final(self).indent == old(self).indent,
    {
        self.out.append(s);
    }

    /// Writes the text of a literal as it stands.
    pub fn lit(&mut self, s: &str)
        ensures
            final(self).out@ == old(self).out@ + s@,
            final(self).indent == old(self).indent,
    {
        self.out.append(s);
    }

    pub fn space(&mut self)
        ensures
            final(self).out@ == old(self).out@ + " "@,
            final(self).indent == old(self).indent,
    {
        self.out.append(" ");
    }

    /// Starts a new line at the current indentation.
    pub fn newline(&mut self)
        ensures
            final(self).out@ == old(self).out@ + nl(old(self).indent@),
            final(self).indent == old(self).indent,
    {
        push_char(&mut self.out, '\n');
        self.tab();
    }

    pub fn name(&mut self, x: &Name)
        ensures
            final(self).out@ == old(self).out@ + x@,
            final(self).indent == old(self).indent,
    {
        self.out.append(x.as_str());
    }

    /// Writes a field index as a decimal numeral.
    pub fn index(&mut self, i: &Index)
        ensures
            final(self).out@ == old(self).out@ + decimal(i.data as nat),
            final(self).indent == old(self).indent,
    {
        self.number(i.data);
    }

    pub fn number(&mut self, n: usize)
        ensures
            final(self).out@ == old(self).out@ + decimal(n as nat),
            final(self).indent == old(self).indent,
    {
        let s = decimal_string(n);
        self.out.append(s.as_str());
    }

    /// Writes a string literal: its text between double quotes.
    pub fn str(&mut self, s: &str)
        ensures
            final(self).out@ == old(self).out@ + seq!['"'] + s@ + seq!['"'],
            final(self).indent == old(self).indent,
    {
        push_char(&mut self.out, '"');
        self.out.append(s);
        push_char(&mut self.out, '"');
    }

    /// Writes a character literal between single quotes.
    pub fn char(&mut self, c: char)
        ensures
            final(self).out@ == old(self).out@ + seq!['\'', c, '\''],
            final(self).indent == old(self).indent,
    {
        push_char(&mut self.out, '\'');
        push_char(&mut self.out, c);
        push_char(&mut self.out, '\'');
        assert(final(self).out@ =~= old(self).out@ + seq!['\'', c, '\'']);
    }

    /// Indents the following lines one level deeper, and returns the indentation to go
    /// back to.
    pub fn indent_more(&mut self) -> (saved: String)
        ensures
            saved@ == old(self).indent@,
            final(self).indent@ == deeper(old(self).indent@),
            final(self).out == old(self).out,
    {
        let saved = self.indent.clone();
        self.indent.append("    ");
        saved
    }

    /// Goes back to an indentation that `indent_more` returned.
    pub fn indent_back(&mut self, saved: String)
        ensures
            final(self).indent@ == saved@,
            final(self).out == old(self).out,
    {
        self.indent = saved;
    }
}

} // verus!
