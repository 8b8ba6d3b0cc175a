use vstd::prelude::*;

verus! {

/// Appends one character to a string.
/// Trusted: calls `String::push`, whose documentation says it appends the given
/// `char` to the end of the string; the contract says exactly that.
#[verifier::external_body]
pub(crate) fn push_char(s: &mut String, c: char)
    ensures
        final(s)@ == old(s)@.push(c),
{
    s.push(c);
}

/// A new string holding the characters of `cs`.
pub fn string_of_chars(cs: &Vec<char>) -> (s: String)
    ensures
        s@ == cs@,
{
    let mut s = String::new();
    let mut i: usize = 0;
    while i < cs.len()
        invariant
            i <= cs@.len(),
            s@ == cs@.take(i as int),
        decreases cs@.len() - i,
    {
        push_char(&mut s, cs[i]);
        i = i + 1;
        assert(s@ =~= cs@.take(i as int));
    }
    assert(cs@.take(cs@.len() as int) =~= cs@);
    s
}

/// The characters of a string slice, in order.
pub fn chars_of(input: &str) -> (v: Vec<char>)
    ensures
        v@ == input@,
{
    let mut v: Vec<char> = Vec::new();
    for c in it: input.chars()
        invariant
            v@ == it.seq().take(it.index() as int),
    {
        v.push(c);
    }
    assert(v@ =~= input@);
    v
}

} // verus!

verus! {

/// Whether `c` has the Unicode `White_Space` property, as `char::is_whitespace` decides.
pub open spec fn spec_is_whitespace(c: char) -> bool {
    ||| c == ' ' || c == '\t' || c == '\n' || c == '\r'
    ||| c == '\u{0B}' || c == '\u{0C}' || c == '\u{85}' || c == '\u{A0}' || c == '\u{1680}'
    ||| ('\u{2000}' <= c && c <= '\u{200A}')
    ||| c == '\u{2028}' || c == '\u{2029}' || c == '\u{202F}' || c == '\u{205F}' || c == '\u{3000}'
}

pub fn is_whitespace(c: char) -> (b: bool)
    ensures
        b == spec_is_whitespace(c),
{
    c == ' ' || c == '\t' || c == '\n' || c == '\r' || c == '\u{0B}' || c == '\u{0C}' || c
        == '\u{85}' || c == '\u{A0}' || c == '\u{1680}' || ('\u{2000}' <= c && c <= '\u{200A}')
        || c == '\u{2028}' || c == '\u{2029}' || c == '\u{202F}' || c == '\u{205F}' || c
        == '\u{3000}'
}

/// `s` without the whitespace at its end.
pub open spec fn spec_trim_end(s: Seq<char>) -> Seq<char>
    decreases s.len(),
{
    if s.len() > 0 && spec_is_whitespace(s.last()) {
        spec_trim_end(s.drop_last())
    } else {
        s
    }
}

/// Reading the first `k` characters of `t` line by line: the finished lines, each without
/// its trailing whitespace and followed by a newline, and the unfinished last line.
pub open spec fn lines_state(t: Seq<char>, k: int) -> (Seq<char>, Seq<char>)
    decreases k,
{
    if k <= 0 {
        (Seq::empty(), Seq::empty())
    } else {
        let (done, line) = lines_state(t, k - 1);
        if t[k - 1] == '\n' {
            (done + spec_trim_end(line) + seq!['\n'], Seq::empty())
        } else {
            (done, line.push(t[k - 1]))
        }
    }
}

/// `s` without trailing whitespace, and with each of its lines without trailing whitespace.
pub open spec fn spec_trim_lines(s: Seq<char>) -> Seq<char> {
    let t = spec_trim_end(s);
    let (done, line) = lines_state(t, t.len() as int);
    done + spec_trim_end(line)
}

/// Drops the whitespace at the end of `v`.
pub fn trim_end_vec(v: &mut Vec<char>)
    ensures
        final(v)@ == spec_trim_end(old(v)@),
{
    while v.len() > 0 && is_whitespace(v[v.len() - 1])
        invariant
            spec_trim_end(v@) == spec_trim_end(old(v)@),
        decreases v@.len(),
    {
        v.pop();
    }
}

pub fn trim_lines(s: &str) -> (r: String)
    ensures
        r@ == spec_trim_lines(s@),
{
    let mut t = chars_of(s);
    trim_end_vec(&mut t);
    let mut done: Vec<char> = Vec::new();
    let mut line: Vec<char> = Vec::new();
    let mut k: usize = 0;
    while k < t.len()
        invariant
            k <= t@.len(),
            t@ == spec_trim_end(s@),
            (done@, line@) == lines_state(t@, k as int),
        decreases t@.len() - k,
    {
        let c = t[k];
        if c == '\n' {
            trim_end_vec(&mut line);
            done.append(&mut line);
            done.push('\n');
        } else {
            line.push(c);
        }
        k = k + 1;
        proof {
            assert(lines_state(t@, k as int).0 =~= done@);
            assert(lines_state(t@, k as int).1 =~= line@);
        }
    }
    trim_end_vec(&mut line);
    done.append(&mut line);
    string_of_chars(&done)
}

/// Whether `s` is a number in decimal, with an optional leading `+`, as `usize::from_str` reads.
pub open spec fn spec_is_decimal(s: Seq<char>) -> bool {
    let d = spec_unsigned_digits(s);
    d.len() > 0 && forall|i: int| 0 <= i < d.len() ==> '0' <= #[trigger] d[i] && d[i] <= '9'
}

/// The digits of `s`: `s` without a leading `+`.
pub open spec fn spec_unsigned_digits(s: Seq<char>) -> Seq<char> {
    if s.len() > 0 && s[0] == '+' {
        s.drop_first()
    } else {
        s
    }
}

/// The value of a string of decimal digits.
pub open spec fn spec_digits_value(d: Seq<char>) -> nat
    decreases d.len(),
{
    if d.len() == 0 {
        0
    } else {
        spec_digits_value(d.drop_last()) * 10 + ((d.last() as u32) - ('0' as u32)) as nat
    }
}

pub open spec fn spec_decimal(s: Seq<char>) -> nat {
    spec_digits_value(spec_unsigned_digits(s))
}

/// The number that `s` writes in decimal, when it is one and fits a `usize`.
pub fn parse_usize(s: &str) -> (r: Option<usize>)
    ensures
        r matches Some(v) ==> spec_is_decimal(s@) && v == spec_decimal(s@),
        r is None ==> !spec_is_decimal(s@) || spec_decimal(s@) > usize::MAX,
{
    let cs = chars_of(s);
    let ghost d = spec_unsigned_digits(s@);
    let start: usize = if cs.len() > 0 && cs[0] == '+' {
        1
    } else {
        0
    };
    if start >= cs.len() {
        return None;
    }
    let mut v: usize = 0;
    let mut i: usize = start;
    assert(d =~= cs@.skip(start as int));
    assert(cs@.subrange(start as int, start as int) =~= Seq::<char>::empty());
    while i < cs.len()
        invariant
            d == spec_unsigned_digits(s@),
            start <= i <= cs@.len(),
            cs@ == s@,
            d == cs@.skip(start as int),
            start < cs@.len(),
            forall|j: int| start <= j < i ==> '0' <= #[trigger] cs@[j] && cs@[j] <= '9',
            v == spec_digits_value(cs@.subrange(start as int, i as int)),
        decreases cs@.len() - i,
    {
        let c = cs[i];
        if !('0' <= c && c <= '9') {
            assert(!spec_is_decimal(s@)) by {
                assert(d[i - start] == c);
            }
            return None;
        }
        assert(cs@.subrange(start as int, i + 1).drop_last() =~= cs@.subrange(
            start as int,
            i as int,
        ));
        let digit = (c as u32 - '0' as u32) as usize;
        assert(spec_digits_value(cs@.subrange(start as int, i + 1)) == v * 10 + digit);
        match v.checked_mul(10) {
            Some(m) => match m.checked_add(digit) {
                Some(n) => {
                    v = n;
                },
                None => {
                    proof {
                        lemma_digits_value_prefix(d, i + 1 - start);
                    }
                    assert(cs@.subrange(start as int, i + 1) =~= d.take(i + 1 - start));
                    assert(spec_decimal(s@) > usize::MAX);
                    return None;
                },
            },
            None => {
                proof {
                    lemma_digits_value_prefix(d, i + 1 - start);
                }
                assert(cs@.subrange(start as int, i + 1) =~= d.take(i + 1 - start));
                assert(v * 10 > usize::MAX);
                assert(spec_decimal(s@) > usize::MAX);
                return None;
            },
        }
        i = i + 1;
    }
    assert(cs@.subrange(start as int, cs@.len() as int) =~= d);
    Some(v)
}

/// The value of a prefix of a string of digits is at most the value of the whole.
pub proof fn lemma_digits_value_prefix(d: Seq<char>, k: int)
    requires
        0 <= k <= d.len(),
    ensures
        spec_digits_value(d.take(k)) <= spec_digits_value(d),
    decreases d.len(),
{
    if k < d.len() {
        lemma_digits_value_prefix(d.drop_last(), k);
        assert(d.drop_last().take(k) =~= d.take(k));
    } else {
        assert(d.take(k) =~= d);
    }
}

} // verus!
