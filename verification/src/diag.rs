use vstd::prelude::*;

use crate::span::Span;

verus! {

/// A piece of text attached to a span of source.
#[derive(Debug)]
pub struct Message {
    pub span: Span,
    pub text: String,
}

/// One error: a headline label and the messages that explain it.
#[derive(Debug)]
pub struct Diagnostic {
    pub label: Message,
    pub messages: Vec<Message>,
}

/// The diagnostics gathered by a compiler phase, in the order they were raised.
#[derive(Debug)]
pub struct Report {
    pub diags: Vec<Diagnostic>,
}

impl View for Message {
    type V = (Span, Seq<char>);

    open spec fn view(&self) -> (Span, Seq<char>) {
        (self.span, self.text@)
    }
}

impl View for Diagnostic {
    type V = ((Span, Seq<char>), Seq<(Span, Seq<char>)>);

    open spec fn view(&self) -> ((Span, Seq<char>), Seq<(Span, Seq<char>)>) {
        (self.label@, self.messages@.map_values(|m: Message| m@))
    }
}

impl View for Report {
    type V = Seq<((Span, Seq<char>), Seq<(Span, Seq<char>)>)>;

    open spec fn view(&self) -> Seq<((Span, Seq<char>), Seq<(Span, Seq<char>)>)> {
        self.diags@.map_values(|d: Diagnostic| d@)
    }
}

/// The diagnostic that `Report::err` adds.
pub open spec fn spec_err(span: Span, label: Seq<char>, msg: Seq<char>) -> (
    (Span, Seq<char>),
    Seq<(Span, Seq<char>)>,
) {
    ((span, label), seq![(span, msg)])
}

/// The diagnostic that `Report::err2` adds.
pub open spec fn spec_err2(
    span0: Span,
    span1: Span,
    label: Seq<char>,
    msg0: Seq<char>,
    msg1: Seq<char>,
) -> ((Span, Seq<char>), Seq<(Span, Seq<char>)>) {
    ((span0, label), seq![(span0, msg0), (span1, msg1)])
}

/// Copies a string slice into a new `String` with the same characters.
pub fn to_owned_string(s: &str) -> (r: String)
    ensures
        r@ == s@,
{
    s.to_owned()
}

impl Message {
    pub fn new(span: Span, text: String) -> (m: Message)
        ensures
            m.span == span,
            m.text == text,
    {
        Message { span, text }
    }
}

impl Report {
    pub fn new() -> (r: Report)
        ensures
            r@ == Seq::<((Span, Seq<char>), Seq<(Span, Seq<char>)>)>::empty(),
    {
        let r = Report { diags: Vec::new() };
        assert(r@ =~= Seq::<((Span, Seq<char>), Seq<(Span, Seq<char>)>)>::empty());
        r
    }

    /// Moves all diagnostics of `other` to the end of `self`.
    pub fn append(&mut self, other: &mut Report)
        ensures
            final(self)@ == old(self)@ + old(other)@,
            final(other)@ == Seq::<((Span, Seq<char>), Seq<(Span, Seq<char>)>)>::empty(),
    {
        self.diags.append(&mut other.diags);
        assert(self@ =~= old(self)@ + old(other)@);
        assert(other@ =~= Seq::<((Span, Seq<char>), Seq<(Span, Seq<char>)>)>::empty());
    }

    pub fn is_empty(&self) -> (b: bool)
        ensures
            b == (self@.len() == 0),
    {
        self.diags.len() == 0
    }

    pub fn len(&self) -> (n: usize)
        ensures
            n == self@.len(),
    {
        self.diags.len()
    }

    /// Adds one diagnostic whose label and single message both point at `span`.
    pub fn err(&mut self, span: Span, label: &str, msg: &str)
        ensures
            final(self)@ == old(self)@.push(spec_err(span, label@, msg@)),
    {
        let diagnostic = Diagnostic {
            label: Message::new(span, to_owned_string(label)),
            messages: vec![Message::new(span, to_owned_string(msg))],
        };
        self.diags.push(diagnostic);
        assert(self.diags@.last()@.1 =~= seq![(span, msg@)]);
        assert(self@ =~= old(self)@.push(spec_err(span, label@, msg@)));
    }

    /// Adds one diagnostic with a label at `span0` and two messages.
    pub fn err2(&mut self, span0: Span, span1: Span, label: &str, msg0: &str, msg1: &str)
        ensures
            final(self)@ == old(self)@.push(spec_err2(span0, span1, label@, msg0@, msg1@)),
    {
        let diagnostic = Diagnostic {
            label: Message::new(span0, to_owned_string(label)),
            messages: vec![
                Message::new(span0, to_owned_string(msg0)),
                Message::new(span1, to_owned_string(msg1)),
            ],
        };
        self.diags.push(diagnostic);
        assert(self.diags@.last()@.1 =~= seq![(span0, msg0@), (span1, msg1@)]);
        assert(self@ =~= old(self)@.push(spec_err2(span0, span1, label@, msg0@, msg1@)));
    }
}

impl Default for Report {
    fn default() -> (r: Report)
        ensures
            r@ == Seq::<((Span, Seq<char>), Seq<(Span, Seq<char>)>)>::empty(),
    {
        Report::new()
    }
}

} // verus!
