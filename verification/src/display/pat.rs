//! Pretty printing of patterns.
use vstd::prelude::*;

use super::show_path;
use super::show_targs;
use super::show_ty;
use super::Pretty;
use crate::ast::pat_ty;
use crate::ast::Pat;
use crate::ast::UnresolvedPatField;
use crate::map::lemma_view_decreases;
use crate::map::VecMap;
use crate::name::Name;

verus! {

pub open spec fn text_bool(b: bool) -> Seq<char> {
    if b {
        "true"@
    } else {
        "false"@
    }
}

/// The text of a pattern; in verbose mode in parentheses with its type.
pub open spec fn show_pat(p: Pat, v: bool) -> Seq<char>
    decreases p, 1int,
{
    if v {
        "("@ + show_pat_plain(p, v) + ":"@ + show_ty(pat_ty(p)) + ")"@
    } else {
        show_pat_plain(p, v)
    }
}

pub open spec fn show_pat_plain(p: Pat, v: bool) -> Seq<char>
    decreases p, 0int,
{
    match p {
        Pat::Unresolved(_, _, path, args) => show_path(path) + match args {
            Some(a) => "("@ + show_pfields(a@, v) + ")"@,
            None => Seq::empty(),
        },
        Pat::Var(_, _, x) => x@,
        Pat::Tuple(_, _, ps) => "("@ + show_pats_trailing(ps@, v) + ")"@,
        Pat::Struct(_, _, x, ts, m) => {
            proof {
                lemma_view_decreases(m);
            }
            x@ + show_targs(ts@) + show_binds(m@, v)
        },
        Pat::Record(_, _, m) => {
            proof {
                lemma_view_decreases(m);
            }
            "record"@ + show_binds(m@, v)
        },
        Pat::Enum(_, _, x, ts, y, q) => x@ + show_targs(ts@) + "::"@ + y@ + "("@ + show_pat(*q, v)
            + ")"@,
        Pat::Int(_, _, s) => s@,
        Pat::String(_, _, s) => seq!['"'] + s@ + seq!['"'],
        Pat::Char(_, _, c) => seq!['\'', c, '\''],
        Pat::Bool(_, _, b) => text_bool(b),
        Pat::Wildcard(..) => "_"@,
        Pat::Error(..) => "<err>"@,
    }
}

/// Patterns separated by commas.
pub open spec fn show_pats(ps: Seq<Pat>, v: bool) -> Seq<char>
    decreases ps, 0int,
{
    if ps.len() == 0 {
        Seq::empty()
    } else if ps.len() == 1 {
        show_pat(ps[0], v)
    } else {
        show_pats(ps.drop_last(), v) + ", "@ + show_pat(ps.last(), v)
    }
}

/// The patterns of a tuple: a single one is followed by a comma.
pub open spec fn show_pats_trailing(ps: Seq<Pat>, v: bool) -> Seq<char>
    decreases ps, 2int,
{
    if ps.len() == 1 {
        show_pat(ps[0], v) + ","@
    } else {
        show_pats(ps, v)
    }
}

pub open spec fn show_pfield(f: UnresolvedPatField, v: bool) -> Seq<char>
    decreases f, 2int,
{
    match f {
        UnresolvedPatField::Named(x, p) => x@ + "="@ + show_pat(p, v),
        UnresolvedPatField::Unnamed(p) => show_pat(p, v),
    }
}

/// The arguments of a pattern, separated by commas.
pub open spec fn show_pfields(fs: Seq<UnresolvedPatField>, v: bool) -> Seq<char>
    decreases fs, 0int,
{
    if fs.len() == 0 {
        Seq::empty()
    } else if fs.len() == 1 {
        show_pfield(fs[0], v)
    } else {
        show_pfields(fs.drop_last(), v) + ", "@ + show_pfield(fs.last(), v)
    }
}

/// Bindings `x=p`, separated by commas.
pub open spec fn show_bind_list(xps: Seq<(Name, Pat)>, v: bool) -> Seq<char>
    decreases xps, 0int,
{
    if xps.len() == 0 {
        Seq::empty()
    } else if xps.len() == 1 {
        xps[0].0@ + "="@ + show_pat(xps[0].1, v)
    } else {
        show_bind_list(xps.drop_last(), v) + ", "@ + xps.last().0@ + "="@ + show_pat(
            xps.last().1,
            v,
        )
    }
}

/// Bound fields in parentheses, or nothing when there are none.
pub open spec fn show_binds(xps: Seq<(Name, Pat)>, v: bool) -> Seq<char>
    decreases xps, 2int,
{
    if xps.len() == 0 {
        Seq::empty()
    } else {
        "("@ + show_bind_list(xps, v) + ")"@
    }
}

impl Pretty {
    pub fn pat(&mut self, p: &Pat)
        ensures
            final(self).wrote(*old(self), show_pat(*p, old(self).verbose)),
        decreases p, 1int,
    {
        let ghost s0 = *self;
        if self.verbose {
            self.print.punct("(");
            self.pat_plain(p);
            self.print.punct(":");
            self.ty(p.type_of());
            self.print.punct(")");
        } else {
            self.pat_plain(p);
        }
        assert(self.out() =~= s0.out() + show_pat(*p, s0.verbose));
    }

    fn pat_plain(&mut self, p: &Pat)
        ensures
            final(self).wrote(*old(self), show_pat_plain(*p, old(self).verbose)),
        decreases p, 0int,
    {
        let ghost s0 = *self;
        match p {
            Pat::Unresolved(_, _, path, args) => {
                self.path(path);
                match args {
                    Some(a) => {
                        self.print.punct("(");
                        self.pfields(a);
                        self.print.punct(")");
                    },
                    None => {},
                }
            },
            Pat::Var(_, _, x) => {
                self.print.name(x);
            },
            Pat::Tuple(_, _, ps) => {
                self.print.punct("(");
                self.pats_trailing(ps);
                self.print.punct(")");
            },
            Pat::Struct(_, _, x, ts, m) => {
                proof {
                    lemma_view_decreases(*m);
                }
                self.print.name(x);
                self.type_args(ts);
                self.binds(m);
            },
            Pat::Record(_, _, m) => {
                proof {
                    lemma_view_decreases(*m);
                }
                self.print.kw("record");
                self.binds(m);
            },
            Pat::Enum(_, _, x, ts, y, q) => {
                self.print.name(x);
                self.type_args(ts);
                self.print.punct("::");
                self.print.name(y);
                self.print.punct("(");
                self.pat(q);
                self.print.punct(")");
            },
            Pat::Int(_, _, s) => {
                self.print.lit(s.as_str());
            },
            Pat::String(_, _, s) => {
                self.print.str(s.as_str());
            },
            Pat::Char(_, _, c) => {
                self.print.char(*c);
            },
            Pat::Bool(_, _, b) => {
                if *b {
                    self.print.lit("true");
                } else {
                    self.print.lit("false");
                }
            },
            Pat::Wildcard(..) => {
                self.print.punct("_");
            },
            Pat::Error(..) => {
                self.print.kw("<err>");
            },
        }
        assert(self.out() =~= s0.out() + show_pat_plain(*p, s0.verbose));
    }

    fn pats(&mut self, ps: &Vec<Pat>)
        ensures
            final(self).wrote(*old(self), show_pats(ps@, old(self).verbose)),
        decreases ps, 0int,
    {
        let ghost s0 = *self;
        let mut i: usize = 0;
        while i < ps.len()
            invariant
                i <= ps@.len(),
                self.wrote(s0, show_pats(ps@.take(i as int), s0.verbose)),
            decreases ps@.len() - i,
        {
            if i > 0 {
                self.print.punct(", ");
            }
            self.pat(&ps[i]);
            proof {
                let t = ps@.take(i + 1);
                assert(t.drop_last() =~= ps@.take(i as int));
                if i == 0 {
                    assert(t =~= seq![ps@[0]]);
                }
                assert(self.out() =~= s0.out() + show_pats(t, s0.verbose));
            }
            i = i + 1;
        }
        assert(ps@.take(ps@.len() as int) =~= ps@);
    }

    fn pats_trailing(&mut self, ps: &Vec<Pat>)
        ensures
            final(self).wrote(*old(self), show_pats_trailing(ps@, old(self).verbose)),
        decreases ps, 2int,
    {
        let ghost s0 = *self;
        if ps.len() == 1 {
            self.pat(&ps[0]);
            self.print.punct(",");
        } else {
            self.pats(ps);
        }
        assert(self.out() =~= s0.out() + show_pats_trailing(ps@, s0.verbose));
    }

    fn pfield(&mut self, f: &UnresolvedPatField)
        ensures
            final(self).wrote(*old(self), show_pfield(*f, old(self).verbose)),
        decreases f, 2int,
    {
        let ghost s0 = *self;
        match f {
            UnresolvedPatField::Named(x, p) => {
                self.print.name(x);
                self.print.punct("=");
                self.pat(p);
            },
            UnresolvedPatField::Unnamed(p) => {
                self.pat(p);
            },
        }
        assert(self.out() =~= s0.out() + show_pfield(*f, s0.verbose));
    }

    fn pfields(&mut self, fs: &Vec<UnresolvedPatField>)
        ensures
            final(self).wrote(*old(self), show_pfields(fs@, old(self).verbose)),
        decreases fs, 0int,
    {
        let ghost s0 = *self;
        let mut i: usize = 0;
        while i < fs.len()
            invariant
                i <= fs@.len(),
                self.wrote(s0, show_pfields(fs@.take(i as int), s0.verbose)),
            decreases fs@.len() - i,
        {
            if i > 0 {
                self.print.punct(", ");
            }
            self.pfield(&fs[i]);
            proof {
                let t = fs@.take(i + 1);
                assert(t.drop_last() =~= fs@.take(i as int));
                if i == 0 {
                    assert(t =~= seq![fs@[0]]);
                }
                assert(self.out() =~= s0.out() + show_pfields(t, s0.verbose));
            }
            i = i + 1;
        }
        assert(fs@.take(fs@.len() as int) =~= fs@);
    }

    fn binds(&mut self, m: &VecMap<Name, Pat>)
        ensures
            final(self).wrote(*old(self), show_binds(m@, old(self).verbose)),
        decreases m, 2int,
    {
        let ghost s0 = *self;
        let xps = m.iter();
        if xps.len() == 0 {
            return;
        }
        self.print.punct("(");
        let ghost s1 = *self;
        let mut i: usize = 0;
        while i < xps.len()
            invariant
                xps@ == m@,
                i <= xps@.len(),
                s1.wrote(s0, "("@),
                self.wrote(s1, show_bind_list(xps@.take(i as int), s0.verbose)),
            decreases xps@.len() - i,
        {
            if i > 0 {
                self.print.punct(", ");
            }
            self.print.name(&xps[i].0);
            self.print.punct("=");
            proof {
                lemma_view_decreases(*m);
                assert(decreases_to!(*m => m@[i as int]));
            }
            self.pat(&xps[i].1);
            proof {
                let t = xps@.take(i + 1);
                assert(t.drop_last() =~= xps@.take(i as int));
                if i == 0 {
                    assert(t =~= seq![xps@[0]]);
                }
                assert(self.out() =~= s1.out() + show_bind_list(t, s0.verbose));
            }
            i = i + 1;
        }
        assert(xps@.take(xps@.len() as int) =~= xps@);
        self.print.punct(")");
        assert(self.out() =~= s0.out() + show_binds(m@, s0.verbose));
    }
}

} // verus!
