//! Pretty printing of programs, statements, expressions, patterns and types.
use vstd::prelude::*;

use crate::ast::Bound;
use crate::ast::Path;
use crate::ast::Segment;
use crate::ast::TraitBound;
use crate::ast::Type;
use crate::map::lemma_view_decreases;
use crate::map::VecMap;
use crate::name::Name;
use crate::print::decimal;
use crate::print::Print;

pub mod expr;
pub mod pat;
pub mod verbose;

verus! {

/// The text of a type.
pub open spec fn show_ty(t: Type) -> Seq<char>
    decreases t, 0int,
{
    match t {
        Type::Unresolved(p) => show_path(p),
        Type::Cons(x, ts) => x@ + show_targs(ts@),
        Type::Alias(x, ts) => x@ + show_targs(ts@),
        Type::Assoc(b, x, ts) => show_trait(b) + "::"@ + x@ + show_targs(ts@),
        Type::Var(x) => "'"@ + x@,
        Type::Generic(x) => x@,
        Type::Fun(ts, t) => "fun("@ + show_tys(ts@) + "): "@ + show_ty(*t),
        Type::Tuple(ts) => "("@ + show_tys_trailing(ts@) + ")"@,
        Type::Record(m) => {
            proof {
                lemma_view_decreases(m);
            }
            "record"@ + show_annots(m@)
        },
        Type::Array(t, n) => "["@ + show_ty(*t) + match n {
            Some(k) => ";"@ + decimal(k as nat),
            None => Seq::empty(),
        } + "]"@,
        Type::Never => "!"@,
        Type::Hole => "_"@,
        Type::Error => "<err>"@,
    }
}

/// The types, separated by commas.
pub open spec fn show_tys(ts: Seq<Type>) -> Seq<char>
    decreases ts, 0int,
{
    if ts.len() == 0 {
        Seq::empty()
    } else if ts.len() == 1 {
        show_ty(ts[0])
    } else {
        show_tys(ts.drop_last()) + ", "@ + show_ty(ts.last())
    }
}

/// The types of a tuple: a single one is followed by a comma.
pub open spec fn show_tys_trailing(ts: Seq<Type>) -> Seq<char>
    decreases ts, 1int,
{
    if ts.len() == 1 {
        show_ty(ts[0]) + ","@
    } else {
        show_tys(ts)
    }
}

/// Type arguments: the types in brackets, or nothing when there are none.
pub open spec fn show_targs(ts: Seq<Type>) -> Seq<char>
    decreases ts, 1int,
{
    if ts.len() == 0 {
        Seq::empty()
    } else {
        "["@ + show_tys(ts) + "]"@
    }
}

/// Bindings `x=t`, separated by commas.
pub open spec fn show_named(xts: Seq<(Name, Type)>) -> Seq<char>
    decreases xts, 0int,
{
    if xts.len() == 0 {
        Seq::empty()
    } else if xts.len() == 1 {
        xts[0].0@ + "="@ + show_ty(xts[0].1)
    } else {
        show_named(xts.drop_last()) + ", "@ + xts.last().0@ + "="@ + show_ty(xts.last().1)
    }
}

/// Annotations `x:t`, separated by commas.
pub open spec fn show_annot_list(xts: Seq<(Name, Type)>) -> Seq<char>
    decreases xts, 0int,
{
    if xts.len() == 0 {
        Seq::empty()
    } else if xts.len() == 1 {
        xts[0].0@ + ":"@ + show_ty(xts[0].1)
    } else {
        show_annot_list(xts.drop_last()) + ", "@ + xts.last().0@ + ":"@ + show_ty(xts.last().1)
    }
}

/// Annotated fields in parentheses, or nothing when there are none.
pub open spec fn show_annots(xts: Seq<(Name, Type)>) -> Seq<char>
    decreases xts, 1int,
{
    if xts.len() == 0 {
        Seq::empty()
    } else {
        "("@ + show_annot_list(xts) + ")"@
    }
}

/// A name applied to types and associated type bindings, as a trait or a path segment, given
/// the text of the types, whether there are any, the text of the bindings and whether there
/// are any.
pub open spec fn applied(x: Seq<char>, ts: Seq<char>, some_ts: bool, xts: Seq<char>, some_xts: bool) -> Seq<char> {
    if !some_ts && !some_xts {
        x
    } else {
        x + "["@ + ts + (if some_ts && some_xts {
            ", "@
        } else {
            Seq::empty()
        }) + xts + "]"@
    }
}

pub open spec fn show_trait(b: TraitBound) -> Seq<char>
    decreases b, 0int,
{
    proof {
        lemma_view_decreases(b.assoc_types);
    }
    applied(
        b.name@,
        show_tys(b.types@),
        b.types@.len() > 0,
        show_named(b.assoc_types@),
        b.assoc_types@.len() > 0,
    )
}

pub open spec fn show_segment(s: Segment) -> Seq<char>
    decreases s, 0int,
{
    proof {
        lemma_view_decreases(s.named_types);
    }
    applied(
        s.name@,
        show_tys(s.types@),
        s.types@.len() > 0,
        show_named(s.named_types@),
        s.named_types@.len() > 0,
    )
}

/// Segments separated by `::`.
pub open spec fn show_segments(ss: Seq<Segment>) -> Seq<char>
    decreases ss, 0int,
{
    if ss.len() == 0 {
        Seq::empty()
    } else if ss.len() == 1 {
        show_segment(ss[0])
    } else {
        show_segments(ss.drop_last()) + "::"@ + show_segment(ss.last())
    }
}

pub open spec fn show_path(p: Path) -> Seq<char>
    decreases p, 0int,
{
    show_segments(p.segments@)
}

pub open spec fn show_bound(b: Bound) -> Seq<char> {
    match b {
        Bound::Unresolved(_, p) => show_path(p),
        Bound::Trait(_, tb) => show_trait(tb),
        Bound::Error(_) => "<err>"@,
    }
}

/// A printer of program text. In verbose mode expressions and patterns carry their types.
pub struct Pretty {
    pub print: Print,
    pub verbose: bool,
}

impl Pretty {
    pub open spec fn out(&self) -> Seq<char> {
        self.print.out@
    }

    pub open spec fn ind(&self) -> Seq<char> {
        self.print.indent@
    }

    /// The printer has only written `s` after what `old` had written.
    pub open spec fn wrote(&self, old: Pretty, s: Seq<char>) -> bool {
        &&& self.out() == old.out() + s
        &&& self.ind() == old.ind()
        &&& self.verbose == old.verbose
    }

    pub fn new() -> (p: Pretty)
        ensures
            p.out().len() == 0,
            p.ind().len() == 0,
            !p.verbose,
    {
        Pretty { print: Print::new(), verbose: false }
    }

    /// Switches to verbose mode.
    pub fn verbose(&mut self)
        ensures
            final(self).print == old(self).print,
            final(self).verbose,
    {
        self.verbose = true;
    }

    pub fn punct(&mut self, s: &str)
        ensures
            final(self).wrote(*old(self), s@),
    {
        self.print.punct(s);
    }

    pub fn kw(&mut self, s: &str)
        ensures
            final(self).wrote(*old(self), s@),
    {
        self.print.kw(s);
    }

    pub fn name(&mut self, x: &Name)
        ensures
            final(self).wrote(*old(self), x@),
    {
        self.print.name(x);
    }

    pub fn ty(&mut self, t: &Type)
        ensures
            final(self).wrote(*old(self), show_ty(*t)),
        decreases t, 0int,
    {
        let ghost s0 = *self;
        match t {
            Type::Unresolved(p) => {
                self.path(p);
            },
            Type::Cons(x, ts) => {
                self.name(x);
                self.type_args(ts);
            },
            Type::Alias(x, ts) => {
                self.name(x);
                self.type_args(ts);
            },
            Type::Assoc(b, x, ts) => {
                self.trait_bound(b);
                self.punct("::");
                self.name(x);
                self.type_args(ts);
            },
            Type::Var(x) => {
                self.punct("'");
                self.name(x);
            },
            Type::Generic(x) => {
                self.name(x);
            },
            Type::Fun(ts, t1) => {
                self.kw("fun(");
                self.tys(ts);
                self.punct("): ");
                self.ty(t1);
            },
            Type::Tuple(ts) => {
                self.punct("(");
                self.tys_trailing(ts);
                self.punct(")");
            },
            Type::Record(m) => {
                proof {
                    lemma_view_decreases(*m);
                }
                self.kw("record");
                self.annots(m);
            },
            Type::Array(t1, n) => {
                self.punct("[");
                self.ty(t1);
                match n {
                    Some(k) => {
                        self.punct(";");
                        self.print.number(*k);
                    },
                    None => {},
                }
                self.punct("]");
            },
            Type::Never => {
                self.punct("!");
            },
            Type::Hole => {
                self.punct("_");
            },
            Type::Error => {
                self.kw("<err>");
            },
        }
        assert(self.out() =~= s0.out() + show_ty(*t));
    }

    pub fn tys(&mut self, ts: &Vec<Type>)
        ensures
            final(self).wrote(*old(self), show_tys(ts@)),
        decreases ts, 0int,
    {
        let ghost s0 = *self;
        let mut i: usize = 0;
        while i < ts.len()
            invariant
                i <= ts@.len(),
                self.wrote(s0, show_tys(ts@.take(i as int))),
            decreases ts@.len() - i,
        {
            if i > 0 {
                self.punct(", ");
            }
            self.ty(&ts[i]);
            proof {
                let t = ts@.take(i + 1);
                assert(t.drop_last() =~= ts@.take(i as int));
                if i == 0 {
                    assert(t =~= seq![ts@[0]]);
                }
                assert(self.out() =~= s0.out() + show_tys(t));
            }
            i = i + 1;
        }
        assert(ts@.take(ts@.len() as int) =~= ts@);
    }

    fn tys_trailing(&mut self, ts: &Vec<Type>)
        ensures
            final(self).wrote(*old(self), show_tys_trailing(ts@)),
        decreases ts, 1int,
    {
        let ghost s0 = *self;
        if ts.len() == 1 {
            self.ty(&ts[0]);
            self.punct(",");
        } else {
            self.tys(ts);
        }
        assert(self.out() =~= s0.out() + show_tys_trailing(ts@));
    }

    pub fn type_args(&mut self, ts: &Vec<Type>)
        ensures
            final(self).wrote(*old(self), show_targs(ts@)),
        decreases ts, 1int,
    {
        let ghost s0 = *self;
        if ts.len() > 0 {
            self.punct("[");
            self.tys(ts);
            self.punct("]");
        }
        assert(self.out() =~= s0.out() + show_targs(ts@));
    }

    fn named(&mut self, m: &VecMap<Name, Type>)
        ensures
            final(self).wrote(*old(self), show_named(m@)),
        decreases m, 0int,
    {
        let ghost s0 = *self;
        let xts = m.iter();
        let mut i: usize = 0;
        while i < xts.len()
            invariant
                xts@ == m@,
                i <= xts@.len(),
                self.wrote(s0, show_named(xts@.take(i as int))),
            decreases xts@.len() - i,
        {
            if i > 0 {
                self.punct(", ");
            }
            self.name(&xts[i].0);
            self.punct("=");
            proof {
                lemma_view_decreases(*m);
                assert(decreases_to!(*m => m@[i as int]));
            }
            self.ty(&xts[i].1);
            proof {
                let t = xts@.take(i + 1);
                assert(t.drop_last() =~= xts@.take(i as int));
                if i == 0 {
                    assert(t =~= seq![xts@[0]]);
                }
                assert(self.out() =~= s0.out() + show_named(t));
            }
            i = i + 1;
        }
        assert(xts@.take(xts@.len() as int) =~= xts@);
    }

    pub fn annots(&mut self, m: &VecMap<Name, Type>)
        ensures
            final(self).wrote(*old(self), show_annots(m@)),
        decreases m, 0int,
    {
        let ghost s0 = *self;
        let xts = m.iter();
        if xts.len() == 0 {
            return;
        }
        self.punct("(");
        let ghost s1 = *self;
        let mut i: usize = 0;
        while i < xts.len()
            invariant
                xts@ == m@,
                i <= xts@.len(),
                s1.wrote(s0, "("@),
                self.wrote(s1, show_annot_list(xts@.take(i as int))),
            decreases xts@.len() - i,
        {
            if i > 0 {
                self.punct(", ");
            }
            self.name(&xts[i].0);
            self.punct(":");
            proof {
                lemma_view_decreases(*m);
                assert(decreases_to!(*m => m@[i as int]));
            }
            self.ty(&xts[i].1);
            proof {
                let t = xts@.take(i + 1);
                assert(t.drop_last() =~= xts@.take(i as int));
                if i == 0 {
                    assert(t =~= seq![xts@[0]]);
                }
                assert(self.out() =~= s1.out() + show_annot_list(t));
            }
            i = i + 1;
        }
        assert(xts@.take(xts@.len() as int) =~= xts@);
        self.punct(")");
        assert(self.out() =~= s0.out() + show_annots(m@));
    }

    pub fn trait_bound(&mut self, b: &TraitBound)
        ensures
            final(self).wrote(*old(self), show_trait(*b)),
        decreases b, 0int,
    {
        let ghost s0 = *self;
        proof {
            lemma_view_decreases(b.assoc_types);
        }
        self.name(&b.name);
        let nt = b.types.len();
        let nx = b.assoc_types.len();
        if nt > 0 || nx > 0 {
            self.punct("[");
            self.tys(&b.types);
            if nt > 0 && nx > 0 {
                self.punct(", ");
            }
            self.named(&b.assoc_types);
            self.punct("]");
        }
        assert(self.out() =~= s0.out() + show_trait(*b));
    }

    pub fn segment(&mut self, s: &Segment)
        ensures
            final(self).wrote(*old(self), show_segment(*s)),
        decreases s, 0int,
    {
        let ghost s0 = *self;
        proof {
            lemma_view_decreases(s.named_types);
        }
        self.name(&s.name);
        let nt = s.types.len();
        let nx = s.named_types.len();
        if nt > 0 || nx > 0 {
            self.punct("[");
            self.tys(&s.types);
            if nt > 0 && nx > 0 {
                self.punct(", ");
            }
            self.named(&s.named_types);
            self.punct("]");
        }
        assert(self.out() =~= s0.out() + show_segment(*s));
    }

    pub fn path(&mut self, p: &Path)
        ensures
            final(self).wrote(*old(self), show_path(*p)),
        decreases p, 0int,
    {
        let ghost s0 = *self;
        let ss = &p.segments;
        let mut i: usize = 0;
        while i < ss.len()
            invariant
                ss@ == p.segments@,
                i <= ss@.len(),
                self.wrote(s0, show_segments(ss@.take(i as int))),
            decreases ss@.len() - i,
        {
            if i > 0 {
                self.punct("::");
            }
            self.segment(&ss[i]);
            proof {
                let t = ss@.take(i + 1);
                assert(t.drop_last() =~= ss@.take(i as int));
                if i == 0 {
                    assert(t =~= seq![ss@[0]]);
                }
                assert(self.out() =~= s0.out() + show_segments(t));
            }
            i = i + 1;
        }
        assert(ss@.take(ss@.len() as int) =~= ss@);
    }

    pub fn bound(&mut self, b: &Bound)
        ensures
            final(self).wrote(*old(self), show_bound(*b)),
    {
        match b {
            Bound::Unresolved(_, p) => self.path(p),
            Bound::Trait(_, tb) => self.trait_bound(tb),
            Bound::Error(_) => self.kw("<err>"),
        }
    }
}

} // verus!
