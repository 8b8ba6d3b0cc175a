//! Pretty printing of expressions, blocks, queries and statements.
use std::rc::Rc;

use vstd::prelude::*;

use super::pat::show_pat;
use super::pat::text_bool;
use super::show_bound;
use super::show_path;
use super::show_targs;
use super::show_trait;
use super::show_ty;
use super::show_annots;
use super::Pretty;
use crate::ast::expr_ty;
use crate::ast::Arm;
use crate::ast::Block;
use crate::ast::Bound;
use crate::ast::Expr;
use crate::ast::Param;
use crate::ast::Program;
use crate::ast::Query;
use crate::ast::Stmt;
use crate::ast::StmtDef;
use crate::ast::StmtDefBody;
use crate::ast::StmtEnum;
use crate::ast::StmtImpl;
use crate::ast::StmtStruct;
use crate::ast::StmtTrait;
use crate::ast::StmtType;
use crate::ast::StmtTypeBody;
use crate::ast::StmtVar;
use crate::ast::TraitDef;
use crate::ast::TraitType;
use crate::ast::Type;
use crate::map::lemma_view_decreases;
use crate::map::VecMap;
use crate::name::Name;
use crate::print::decimal;
use crate::print::deeper;
use crate::print::nl;

verus! {

/// The text of an expression at indentation `ind`; in verbose mode in parentheses with its
/// type.
pub open spec fn show_expr(e: Expr, v: bool, ind: Seq<char>) -> Seq<char>
    decreases e, 1int,
{
    if v {
        "("@ + show_expr_plain(e, v, ind) + ":"@ + show_ty(expr_ty(e)) + ")"@
    } else {
        show_expr_plain(e, v, ind)
    }
}

pub open spec fn show_expr_plain(e: Expr, v: bool, ind: Seq<char>) -> Seq<char>
    decreases e, 0int,
{
    match e {
        Expr::Unresolved(_, _, p) => show_path(p),
        Expr::Int(_, _, s) => s@,
        Expr::Float(_, _, s) => s@,
        Expr::Bool(_, _, b) => text_bool(b),
        Expr::String(_, _, s) => seq!['"'] + s@ + seq!['"'],
        Expr::Char(_, _, c) => seq!['\'', c, '\''],
        Expr::Struct(_, _, x, ts, m) => {
            proof {
                lemma_view_decreases(m);
            }
            x@ + show_targs(ts@) + show_assigns(m@, v, ind)
        },
        Expr::Tuple(_, _, es) => "("@ + show_exprs_trailing(es@, v, ind) + ")"@,
        Expr::Record(_, _, m) => {
            proof {
                lemma_view_decreases(m);
            }
            "record"@ + show_assigns(m@, v, ind)
        },
        Expr::Enum(_, _, x, ts, y, e1) => x@ + show_targs(ts@) + "::"@ + y@ + "("@ + show_expr(
            *e1,
            v,
            ind,
        ) + ")"@,
        Expr::Field(_, _, e1, x) => show_expr(*e1, v, ind) + "."@ + x@,
        Expr::Index(_, _, e1, i) => show_expr(*e1, v, ind) + "."@ + decimal(i.data as nat),
        Expr::Var(_, _, x) => x@,
        Expr::Def(_, _, x, ts) => x@ + show_targs(ts@),
        Expr::Call(_, _, e1, es) => show_expr(*e1, v, ind) + "("@ + show_exprs(es@, v, ind)
            + ")"@,
        Expr::Block(_, _, b) => show_block(b, v, ind),
        Expr::Query(_, _, qs) => show_queries(qs@, v, ind),
        Expr::Assoc(_, _, b, x, ts) => show_trait(b) + "::"@ + x@ + show_targs(ts@),
        Expr::Match(_, _, e1, arms) => "match "@ + show_expr(*e1, v, ind) + " "@ + show_arms(
            arms@,
            v,
            ind,
        ),
        Expr::Array(_, _, es) => "["@ + show_exprs(es@, v, ind) + "]"@,
        Expr::Assign(_, _, e0, e1) => show_expr(*e0, v, ind) + " = "@ + show_expr(*e1, v, ind),
        Expr::Return(_, _, e1) => "return "@ + show_expr(*e1, v, ind),
        Expr::Continue(..) => "continue"@,
        Expr::Break(..) => "break"@,
        Expr::Fun(_, _, ps, t, e1) => "fun("@ + show_params(ps@) + "): "@ + show_ty(t) + " = "@
            + show_expr(*e1, v, ind),
        Expr::While(_, _, e1, b) => "while "@ + show_expr(*e1, v, ind) + " "@ + show_block(
            b,
            v,
            ind,
        ),
        Expr::Error(..) => "<err>"@,
    }
}

/// Expressions separated by commas.
pub open spec fn show_exprs(es: Seq<Expr>, v: bool, ind: Seq<char>) -> Seq<char>
    decreases es, 0int,
{
    if es.len() == 0 {
        Seq::empty()
    } else if es.len() == 1 {
        show_expr(es[0], v, ind)
    } else {
        show_exprs(es.drop_last(), v, ind) + ", "@ + show_expr(es.last(), v, ind)
    }
}

/// The expressions of a tuple: a single one is followed by a comma.
pub open spec fn show_exprs_trailing(es: Seq<Expr>, v: bool, ind: Seq<char>) -> Seq<char>
    decreases es, 2int,
{
    if es.len() == 1 {
        show_expr(es[0], v, ind) + ","@
    } else {
        show_exprs(es, v, ind)
    }
}

/// Assignments `x = e`, separated by commas.
pub open spec fn show_assign_list(m: Seq<(Name, Expr)>, v: bool, ind: Seq<char>) -> Seq<char>
    decreases m, 0int,
{
    if m.len() == 0 {
        Seq::empty()
    } else if m.len() == 1 {
        m[0].0@ + " = "@ + show_expr(m[0].1, v, ind)
    } else {
        show_assign_list(m.drop_last(), v, ind) + ", "@ + m.last().0@ + " = "@ + show_expr(
            m.last().1,
            v,
            ind,
        )
    }
}

/// Assigned fields in parentheses, or nothing when there are none.
pub open spec fn show_assigns(m: Seq<(Name, Expr)>, v: bool, ind: Seq<char>) -> Seq<char>
    decreases m, 2int,
{
    if m.len() == 0 {
        Seq::empty()
    } else {
        "("@ + show_assign_list(m, v, ind) + ")"@
    }
}

/// Assignments one per line, each followed by a comma, at indentation `ind`.
pub open spec fn show_assign_lines(m: Seq<(Name, Expr)>, v: bool, ind: Seq<char>) -> Seq<char>
    decreases m, 0int,
{
    if m.len() == 0 {
        Seq::empty()
    } else {
        show_assign_lines(m.drop_last(), v, ind) + nl(ind) + m.last().0@ + " = "@ + show_expr(
            m.last().1,
            v,
            ind,
        ) + ","@
    }
}

/// Assignments in braces, one per line one level deeper.
pub open spec fn show_assign_scope(m: Seq<(Name, Expr)>, v: bool, ind: Seq<char>) -> Seq<char>
    decreases m, 2int,
{
    "{"@ + if m.len() == 0 {
        Seq::empty()
    } else {
        show_assign_lines(m, v, deeper(ind)) + nl(ind)
    } + "}"@
}

pub open spec fn show_arm(a: Arm, v: bool, ind: Seq<char>) -> Seq<char>
    decreases a, 0int,
{
    show_pat(a.p, v) + " => "@ + show_expr(a.e, v, ind)
}

/// Match arms one per line, each followed by a comma, at indentation `ind`.
pub open spec fn show_arm_lines(arms: Seq<Arm>, v: bool, ind: Seq<char>) -> Seq<char>
    decreases arms, 0int,
{
    if arms.len() == 0 {
        Seq::empty()
    } else {
        show_arm_lines(arms.drop_last(), v, ind) + nl(ind) + show_arm(arms.last(), v, ind) + ","@
    }
}

/// Match arms in braces, one per line one level deeper.
pub open spec fn show_arms(arms: Seq<Arm>, v: bool, ind: Seq<char>) -> Seq<char>
    decreases arms, 2int,
{
    "{"@ + if arms.len() == 0 {
        Seq::empty()
    } else {
        show_arm_lines(arms, v, deeper(ind)) + nl(ind)
    } + "}"@
}

/// A block: its statements and its final expression each on a line of its own one level
/// deeper, the expression left out when it is the empty tuple and not in verbose mode.
pub open spec fn show_block(b: Block, v: bool, ind: Seq<char>) -> Seq<char>
    decreases b, 0int,
{
    "{"@ + (if b.stmts@.len() > 0 {
        nl(deeper(ind)) + show_stmts(b.stmts@, v, deeper(ind))
    } else {
        Seq::empty()
    }) + (if v || !(*b.expr matches Expr::Tuple(_, _, es) && es@.len() == 0) {
        nl(deeper(ind)) + show_expr(*b.expr, v, deeper(ind))
    } else {
        Seq::empty()
    }) + nl(ind) + "}"@
}

/// Statements separated by line breaks.
pub open spec fn show_stmts(ss: Seq<Stmt>, v: bool, ind: Seq<char>) -> Seq<char>
    decreases ss, 0int,
{
    if ss.len() == 0 {
        Seq::empty()
    } else if ss.len() == 1 {
        show_stmt(ss[0], v, ind)
    } else {
        show_stmts(ss.drop_last(), v, ind) + nl(ind) + show_stmt(ss.last(), v, ind)
    }
}

/// Query clauses separated by line breaks.
pub open spec fn show_queries(qs: Seq<Query>, v: bool, ind: Seq<char>) -> Seq<char>
    decreases qs, 0int,
{
    if qs.len() == 0 {
        Seq::empty()
    } else if qs.len() == 1 {
        show_query(qs[0], v, ind)
    } else {
        show_queries(qs.drop_last(), v, ind) + nl(ind) + show_query(qs.last(), v, ind)
    }
}

/// Query clauses in braces: the first right after the brace, the others each on a line one
/// level deeper, and the closing brace on a line of its own.
pub open spec fn show_query_scope(qs: Seq<Query>, v: bool, ind: Seq<char>) -> Seq<char>
    decreases qs, 2int,
{
    "{"@ + if qs.len() == 0 {
        Seq::empty()
    } else {
        show_queries(qs, v, deeper(ind)) + nl(ind)
    } + "}"@
}

pub open spec fn show_query(q: Query, v: bool, ind: Seq<char>) -> Seq<char>
    decreases q, 0int,
{
    match q {
        Query::From(_, _, x, e) => "from "@ + x@ + " in "@ + show_expr(*e, v, ind),
        Query::Where(_, _, e) => "where "@ + show_expr(*e, v, ind),
        Query::Select(_, _, m) => {
            proof {
                lemma_view_decreases(m);
            }
            "select "@ + show_assign_scope(m@, v, ind)
        },
        Query::Into(_, _, x, ts, es) => "into "@ + x@ + show_targs(ts@) + "("@ + show_exprs(
            es@,
            v,
            ind,
        ) + ")"@,
        Query::Var(_, _, x, e) => "var "@ + x@ + " = "@ + show_expr(*e, v, ind),
        Query::Join(_, _, x, e0, e1) => "join "@ + x@ + " in "@ + show_expr(*e0, v, ind)
            + " on "@ + show_expr(*e1, v, ind),
        Query::Group(_, _, e, qs) => "group "@ + show_expr(*e, v, ind) + " "@ + show_query_scope(
            qs@,
            v,
            ind,
        ),
        Query::Over(_, _, e, qs) => "over "@ + show_expr(*e, v, ind) + " "@ + show_query_scope(
            qs@,
            v,
            ind,
        ),
        Query::Compute(_, _, x, e0, e1) => "compute "@ + x@ + " = "@ + show_expr(*e0, v, ind)
            + " of "@ + show_expr(*e1, v, ind),
    }
}

/// Parameters `x: t`, separated by commas.
pub open spec fn show_params(ps: Seq<Param>) -> Seq<char>
    decreases ps,
{
    if ps.len() == 0 {
        Seq::empty()
    } else if ps.len() == 1 {
        ps[0].name@ + ": "@ + show_ty(ps[0].ty)
    } else {
        show_params(ps.drop_last()) + ", "@ + ps.last().name@ + ": "@ + show_ty(ps.last().ty)
    }
}

/// Names separated by commas.
pub open spec fn show_names(xs: Seq<Name>) -> Seq<char>
    decreases xs,
{
    if xs.len() == 0 {
        Seq::empty()
    } else if xs.len() == 1 {
        xs[0]@
    } else {
        show_names(xs.drop_last()) + ", "@ + xs.last()@
    }
}

/// Generic parameters in brackets, or nothing when there are none.
pub open spec fn show_generics(xs: Seq<Name>) -> Seq<char> {
    if xs.len() == 0 {
        Seq::empty()
    } else {
        "["@ + show_names(xs) + "]"@
    }
}

/// Bounds separated by commas.
pub open spec fn show_bounds(bs: Seq<Bound>) -> Seq<char>
    decreases bs,
{
    if bs.len() == 0 {
        Seq::empty()
    } else if bs.len() == 1 {
        show_bound(bs[0])
    } else {
        show_bounds(bs.drop_last()) + ", "@ + show_bound(bs.last())
    }
}

/// A where clause, or nothing when there are no bounds.
pub open spec fn show_where(bs: Seq<Bound>) -> Seq<char> {
    if bs.len() == 0 {
        Seq::empty()
    } else {
        " where "@ + show_bounds(bs)
    }
}

pub open spec fn show_def(d: StmtDef, v: bool, ind: Seq<char>) -> Seq<char>
    decreases d, 0int,
{
    "def "@ + d.name@ + show_generics(d.generics@) + "("@ + show_params(d.params@) + "): "@
        + show_ty(d.ty) + show_where(d.where_clause@) + match d.body {
        StmtDefBody::UserDefined(e) => " = "@ + show_expr(e, v, ind) + if e is Block || e is Match
            || e is While {
            Seq::empty()
        } else {
            ";"@
        },
        StmtDefBody::Builtin => ";"@,
    }
}

/// Definitions separated by line breaks.
pub open spec fn show_defs(ds: Seq<Rc<StmtDef>>, v: bool, ind: Seq<char>) -> Seq<char>
    decreases ds, 0int,
{
    if ds.len() == 0 {
        Seq::empty()
    } else if ds.len() == 1 {
        show_def(*ds[0], v, ind)
    } else {
        show_defs(ds.drop_last(), v, ind) + nl(ind) + show_def(*ds.last(), v, ind)
    }
}

pub open spec fn show_type_stmt(t: StmtType) -> Seq<char> {
    "type "@ + t.name@ + show_generics(t.generics@) + " = "@ + match t.body {
        StmtTypeBody::UserDefined(ty) => show_ty(ty),
        StmtTypeBody::Builtin => "<builtin>"@,
    } + ";"@
}

/// Type statements separated by line breaks.
pub open spec fn show_type_stmts(ts: Seq<Rc<StmtType>>, ind: Seq<char>) -> Seq<char>
    decreases ts,
{
    if ts.len() == 0 {
        Seq::empty()
    } else if ts.len() == 1 {
        show_type_stmt(*ts[0])
    } else {
        show_type_stmts(ts.drop_last(), ind) + nl(ind) + show_type_stmt(*ts.last())
    }
}

/// The body of an impl or a trait: its types, then its definitions, each group starting on
/// a new line one level deeper, and the closing brace on a line of its own when the body is
/// not empty.
pub open spec fn show_members(tys: Seq<char>, some_tys: bool, defs: Seq<char>, some_defs: bool, ind: Seq<char>) -> Seq<char> {
    "{"@ + (if some_tys {
        nl(deeper(ind)) + tys
    } else {
        Seq::empty()
    }) + (if some_defs {
        nl(deeper(ind)) + defs
    } else {
        Seq::empty()
    }) + (if some_tys || some_defs {
        nl(ind)
    } else {
        Seq::empty()
    }) + "}"@
}

pub open spec fn show_impl(i: StmtImpl, v: bool, ind: Seq<char>) -> Seq<char>
    decreases i, 0int,
{
    "impl"@ + show_generics(i.generics@) + " "@ + show_bound(i.head) + show_where(
        i.where_clause@,
    ) + " "@ + show_members(
        show_type_stmts(i.types@, deeper(ind)),
        i.types@.len() > 0,
        show_defs(i.defs@, v, deeper(ind)),
        i.defs@.len() > 0,
        ind,
    )
}

pub open spec fn show_trait_def(d: TraitDef) -> Seq<char> {
    "def "@ + d.name@ + show_generics(d.generics@) + "("@ + show_params(d.params@) + "): "@
        + show_ty(d.ty) + ";"@
}

pub open spec fn show_trait_defs(ds: Seq<TraitDef>, ind: Seq<char>) -> Seq<char>
    decreases ds,
{
    if ds.len() == 0 {
        Seq::empty()
    } else if ds.len() == 1 {
        show_trait_def(ds[0])
    } else {
        show_trait_defs(ds.drop_last(), ind) + nl(ind) + show_trait_def(ds.last())
    }
}

pub open spec fn show_trait_type(t: TraitType) -> Seq<char> {
    "type "@ + t.name@ + show_generics(t.generics@) + ";"@
}

pub open spec fn show_trait_types(ts: Seq<TraitType>, ind: Seq<char>) -> Seq<char>
    decreases ts,
{
    if ts.len() == 0 {
        Seq::empty()
    } else if ts.len() == 1 {
        show_trait_type(ts[0])
    } else {
        show_trait_types(ts.drop_last(), ind) + nl(ind) + show_trait_type(ts.last())
    }
}

/// Enum variants `x(t)`, separated by line breaks.
pub open spec fn show_variants(xts: Seq<(Name, Type)>, ind: Seq<char>) -> Seq<char>
    decreases xts,
{
    if xts.len() == 0 {
        Seq::empty()
    } else if xts.len() == 1 {
        xts[0].0@ + "("@ + show_ty(xts[0].1) + ")"@
    } else {
        show_variants(xts.drop_last(), ind) + nl(ind) + xts.last().0@ + "("@ + show_ty(
            xts.last().1,
        ) + ")"@
    }
}

pub open spec fn show_stmt_var(sv: StmtVar, v: bool, ind: Seq<char>) -> Seq<char>
    decreases sv, 0int,
{
    "var "@ + sv.name@ + (if sv.ty is Hole {
        Seq::empty()
    } else {
        ": "@ + show_ty(sv.ty)
    }) + " = "@ + show_expr(sv.expr, v, ind) + ";"@
}

pub open spec fn show_stmt_struct(st: StmtStruct) -> Seq<char> {
    "struct "@ + st.name@ + show_generics(st.generics@) + show_annots(st.fields@) + ";"@
}

pub open spec fn show_stmt_enum(en: StmtEnum, ind: Seq<char>) -> Seq<char> {
    "enum "@ + en.name@ + show_generics(en.generics@) + " "@ + "{"@ + if en.variants@.len() == 0 {
        Seq::empty()
    } else {
        nl(deeper(ind)) + show_variants(en.variants@, deeper(ind)) + nl(ind)
    } + "}"@
}

pub open spec fn show_stmt_trait(tr: StmtTrait, ind: Seq<char>) -> Seq<char> {
    "trait "@ + tr.name@ + show_generics(tr.generics@) + show_where(tr.bounds@) + " "@
        + show_members(
        show_trait_types(tr.types@, deeper(ind)),
        tr.types@.len() > 0,
        show_trait_defs(tr.defs@, deeper(ind)),
        tr.defs@.len() > 0,
        ind,
    )
}

pub open spec fn show_stmt(s: Stmt, v: bool, ind: Seq<char>) -> Seq<char>
    decreases s, 1int,
{
    match s {
        Stmt::Var(sv) => show_stmt_var(sv, v, ind),
        Stmt::Def(d) => show_def(*d, v, ind),
        Stmt::Impl(i) => show_impl(*i, v, ind),
        Stmt::Expr(e) => show_expr(e, v, ind) + ";"@,
        Stmt::Struct(st) => show_stmt_struct(st),
        Stmt::Enum(en) => show_stmt_enum(en, ind),
        Stmt::Type(t) => show_type_stmt(*t),
        Stmt::Trait(tr) => show_stmt_trait(tr, ind),
        Stmt::Error(_) => "<err>"@,
    }
}

/// The text of a program: its statements separated by line breaks.
pub open spec fn show_program(p: Program, v: bool, ind: Seq<char>) -> Seq<char> {
    show_stmts(p.stmts@, v, ind)
}

impl Pretty {
    pub fn expr(&mut self, e: &Expr)
        ensures
            final(self).wrote(*old(self), show_expr(*e, old(self).verbose, old(self).ind())),
        decreases e, 1int,
    {
        let ghost s0 = *self;
        if self.verbose {
            self.print.punct("(");
            self.expr_plain(e);
            self.print.punct(":");
            self.ty(e.type_of());
            self.print.punct(")");
        } else {
            self.expr_plain(e);
        }
        assert(self.out() =~= s0.out() + show_expr(*e, s0.verbose, s0.ind()));
    }

    #[verifier::spinoff_prover]
    #[verifier::rlimit(80)]
    fn expr_plain(&mut self, e: &Expr)
        ensures
            final(self).wrote(*old(self), show_expr_plain(*e, old(self).verbose, old(self).ind())),
        decreases e, 0int,
    {
        let ghost s0 = *self;
        match e {
            Expr::Unresolved(_, _, p) => {
                self.path(p);
                assert(self.out() =~= s0.out() + show_expr_plain(*e, s0.verbose, s0.ind()));
            },
            Expr::Int(_, _, s) => {
                self.print.lit(s.as_str());
                assert(self.out() =~= s0.out() + show_expr_plain(*e, s0.verbose, s0.ind()));
            },
            Expr::Float(_, _, s) => {
                self.print.lit(s.as_str());
                assert(self.out() =~= s0.out() + show_expr_plain(*e, s0.verbose, s0.ind()));
            },
            Expr::Bool(_, _, b) => {
                if *b {
                    self.print.lit("true");
                } else {
                    self.print.lit("false");
                }
                assert(self.out() =~= s0.out() + show_expr_plain(*e, s0.verbose, s0.ind()));
            },
            Expr::String(_, _, s) => {
                self.print.str(s.as_str());
                assert(self.out() =~= s0.out() + show_expr_plain(*e, s0.verbose, s0.ind()));
            },
            Expr::Char(_, _, c) => {
                self.print.char(*c);
                assert(self.out() =~= s0.out() + show_expr_plain(*e, s0.verbose, s0.ind()));
            },
            Expr::Struct(_, _, x, ts, m) => {
                proof {
                    lemma_view_decreases(*m);
                }
                self.print.name(x);
                self.type_args(ts);
                self.assigns(m);
                assert(self.out() =~= s0.out() + show_expr_plain(*e, s0.verbose, s0.ind()));
            },
            Expr::Tuple(_, _, es) => {
                self.print.punct("(");
                self.exprs_trailing(es);
                self.print.punct(")");
                assert(self.out() =~= s0.out() + show_expr_plain(*e, s0.verbose, s0.ind()));
            },
            Expr::Record(_, _, m) => {
                proof {
                    lemma_view_decreases(*m);
                }
                self.print.kw("record");
                self.assigns(m);
                assert(self.out() =~= s0.out() + show_expr_plain(*e, s0.verbose, s0.ind()));
            },
            Expr::Enum(_, _, x, ts, y, e1) => {
                self.print.name(x);
                self.type_args(ts);
                self.print.punct("::");
                self.print.name(y);
                self.print.punct("(");
                self.expr(e1);
                self.print.punct(")");
                assert(self.out() =~= s0.out() + show_expr_plain(*e, s0.verbose, s0.ind()));
            },
            Expr::Field(_, _, e1, x) => {
                self.expr(e1);
                self.print.punct(".");
                self.print.name(x);
                assert(self.out() =~= s0.out() + show_expr_plain(*e, s0.verbose, s0.ind()));
            },
            Expr::Index(_, _, e1, i) => {
                self.expr(e1);
                self.print.punct(".");
                self.print.index(i);
                assert(self.out() =~= s0.out() + show_expr_plain(*e, s0.verbose, s0.ind()));
            },
            Expr::Var(_, _, x) => {
                self.print.name(x);
                assert(self.out() =~= s0.out() + show_expr_plain(*e, s0.verbose, s0.ind()));
            },
            Expr::Def(_, _, x, ts) => {
                self.print.name(x);
                self.type_args(ts);
                assert(self.out() =~= s0.out() + show_expr_plain(*e, s0.verbose, s0.ind()));
            },
            Expr::Call(_, _, e1, es) => {
                self.expr(e1);
                self.print.punct("(");
                self.exprs(es);
                self.print.punct(")");
                assert(self.out() =~= s0.out() + show_expr_plain(*e, s0.verbose, s0.ind()));
            },
            Expr::Block(_, _, b) => {
                self.block(b);
                assert(self.out() =~= s0.out() + show_expr_plain(*e, s0.verbose, s0.ind()));
            },
            Expr::Query(_, _, qs) => {
                self.queries(qs);
                assert(self.out() =~= s0.out() + show_expr_plain(*e, s0.verbose, s0.ind()));
            },
            Expr::Assoc(_, _, b, x, ts) => {
                self.trait_bound(b);
                self.print.punct("::");
                self.print.name(x);
                self.type_args(ts);
                assert(self.out() =~= s0.out() + show_expr_plain(*e, s0.verbose, s0.ind()));
            },
            Expr::Match(_, _, e1, arms) => {
                self.print.kw("match ");
                self.expr(e1);
                self.print.space();
                self.arms(arms);
                assert(self.out() =~= s0.out() + show_expr_plain(*e, s0.verbose, s0.ind()));
            },
            Expr::Array(_, _, es) => {
                self.print.punct("[");
                self.exprs(es);
                self.print.punct("]");
                assert(self.out() =~= s0.out() + show_expr_plain(*e, s0.verbose, s0.ind()));
            },
            Expr::Assign(_, _, e0, e1) => {
                self.expr(e0);
                self.print.punct(" = ");
                self.expr(e1);
                assert(self.out() =~= s0.out() + show_expr_plain(*e, s0.verbose, s0.ind()));
            },
            Expr::Return(_, _, e1) => {
                self.print.kw("return ");
                self.expr(e1);
                assert(self.out() =~= s0.out() + show_expr_plain(*e, s0.verbose, s0.ind()));
            },
            Expr::Continue(..) => {
                self.print.kw("continue");
                assert(self.out() =~= s0.out() + show_expr_plain(*e, s0.verbose, s0.ind()));
            },
            Expr::Break(..) => {
                self.print.kw("break");
                assert(self.out() =~= s0.out() + show_expr_plain(*e, s0.verbose, s0.ind()));
            },
            Expr::Fun(_, _, ps, t, e1) => {
                self.print.kw("fun(");
                self.params(ps);
                self.print.punct("): ");
                self.ty(t);
                self.print.punct(" = ");
                self.expr(e1);
                assert(self.out() =~= s0.out() + show_expr_plain(*e, s0.verbose, s0.ind()));
            },
            Expr::While(_, _, e1, b) => {
                self.print.kw("while ");
                self.expr(e1);
                self.print.space();
                self.block(b);
                assert(self.out() =~= s0.out() + show_expr_plain(*e, s0.verbose, s0.ind()));
            },
            Expr::Error(..) => {
                self.print.kw("<err>");
                assert(self.out() =~= s0.out() + show_expr_plain(*e, s0.verbose, s0.ind()));
            },
        }
    }

    pub(crate) fn exprs(&mut self, es: &Vec<Expr>)
        ensures
            final(self).wrote(*old(self), show_exprs(es@, old(self).verbose, old(self).ind())),
        decreases es, 0int,
    {
        let ghost s0 = *self;
        let mut i: usize = 0;
        while i < es.len()
            invariant
                i <= es@.len(),
                self.wrote(s0, show_exprs(es@.take(i as int), s0.verbose, s0.ind())),
            decreases es@.len() - i,
        {
            if i > 0 {
                self.print.punct(", ");
            }
            self.expr(&es[i]);
            proof {
                let t = es@.take(i + 1);
                assert(t.drop_last() =~= es@.take(i as int));
                if i == 0 {
                    assert(t =~= seq![es@[0]]);
                }
                assert(self.out() =~= s0.out() + show_exprs(t, s0.verbose, s0.ind()));
            }
            i = i + 1;
        }
        assert(es@.take(es@.len() as int) =~= es@);
    }

    fn exprs_trailing(&mut self, es: &Vec<Expr>)
        ensures
            final(self).wrote(
                *old(self),
                show_exprs_trailing(es@, old(self).verbose, old(self).ind()),
            ),
        decreases es, 2int,
    {
        let ghost s0 = *self;
        if es.len() == 1 {
            self.expr(&es[0]);
            self.print.punct(",");
        } else {
            self.exprs(es);
        }
        assert(self.out() =~= s0.out() + show_exprs_trailing(es@, s0.verbose, s0.ind()));
    }

    fn assigns(&mut self, m: &VecMap<Name, Expr>)
        ensures
            final(self).wrote(*old(self), show_assigns(m@, old(self).verbose, old(self).ind())),
        decreases m, 2int,
    {
        let ghost s0 = *self;
        let xes = m.iter();
        if xes.len() == 0 {
            return;
        }
        self.print.punct("(");
        let ghost s1 = *self;
        let mut i: usize = 0;
        while i < xes.len()
            invariant
                xes@ == m@,
                i <= xes@.len(),
                s1.wrote(s0, "("@),
                self.wrote(s1, show_assign_list(xes@.take(i as int), s0.verbose, s0.ind())),
            decreases xes@.len() - i,
        {
            if i > 0 {
                self.print.punct(", ");
            }
            self.print.name(&xes[i].0);
            self.print.punct(" = ");
            proof {
                lemma_view_decreases(*m);
                assert(decreases_to!(*m => m@[i as int]));
            }
            self.expr(&xes[i].1);
            proof {
                let t = xes@.take(i + 1);
                assert(t.drop_last() =~= xes@.take(i as int));
                if i == 0 {
                    assert(t =~= seq![xes@[0]]);
                }
                assert(self.out() =~= s1.out() + show_assign_list(t, s0.verbose, s0.ind()));
            }
            i = i + 1;
        }
        assert(xes@.take(xes@.len() as int) =~= xes@);
        self.print.punct(")");
        assert(self.out() =~= s0.out() + show_assigns(m@, s0.verbose, s0.ind()));
    }

    #[verifier::spinoff_prover]
    #[verifier::rlimit(60)]
    fn assign_scope(&mut self, m: &VecMap<Name, Expr>)
        ensures
            final(self).wrote(
                *old(self),
                show_assign_scope(m@, old(self).verbose, old(self).ind()),
            ),
        decreases m, 2int,
    {
        let ghost s0 = *self;
        let xes = m.iter();
        self.print.punct("{");
        if xes.len() > 0 {
            let saved = self.print.indent_more();
            let ghost s1 = *self;
            let mut i: usize = 0;
            while i < xes.len()
                invariant
                    xes@ == m@,
                    i <= xes@.len(),
                    s1.ind() == deeper(s0.ind()),
                    s1.verbose == s0.verbose,
                    self.wrote(s1, show_assign_lines(xes@.take(i as int), s0.verbose, s1.ind())),
                decreases xes@.len() - i,
            {
                self.print.newline();
                self.print.name(&xes[i].0);
                self.print.punct(" = ");
                proof {
                    lemma_view_decreases(*m);
                    assert(decreases_to!(*m => m@[i as int]));
                }
                self.expr(&xes[i].1);
                self.print.punct(",");
                proof {
                    let t = xes@.take(i + 1);
                    assert(t.drop_last() =~= xes@.take(i as int));
                    assert(self.out() =~= s1.out() + show_assign_lines(t, s0.verbose, s1.ind()));
                }
                i = i + 1;
            }
            assert(xes@.take(xes@.len() as int) =~= xes@);
            self.print.indent_back(saved);
            self.print.newline();
        }
        self.print.punct("}");
        assert(self.out() =~= s0.out() + show_assign_scope(m@, s0.verbose, s0.ind()));
    }

    fn arm(&mut self, a: &Arm)
        ensures
            final(self).wrote(*old(self), show_arm(*a, old(self).verbose, old(self).ind())),
        decreases a, 0int,
    {
        let ghost s0 = *self;
        self.pat(&a.p);
        self.print.punct(" => ");
        self.expr(&a.e);
        assert(self.out() =~= s0.out() + show_arm(*a, s0.verbose, s0.ind()));
    }

    #[verifier::spinoff_prover]
    #[verifier::rlimit(60)]
    fn arms(&mut self, arms: &Vec<Arm>)
        ensures
            final(self).wrote(*old(self), show_arms(arms@, old(self).verbose, old(self).ind())),
        decreases arms, 2int,
    {
        let ghost s0 = *self;
        self.print.punct("{");
        if arms.len() > 0 {
            let saved = self.print.indent_more();
            let ghost s1 = *self;
            let mut i: usize = 0;
            while i < arms.len()
                invariant
                    i <= arms@.len(),
                    s1.ind() == deeper(s0.ind()),
                    s1.verbose == s0.verbose,
                    self.wrote(s1, show_arm_lines(arms@.take(i as int), s0.verbose, s1.ind())),
                decreases arms@.len() - i,
            {
                self.print.newline();
                self.arm(&arms[i]);
                self.print.punct(",");
                proof {
                    let t = arms@.take(i + 1);
                    assert(t.drop_last() =~= arms@.take(i as int));
                    assert(self.out() =~= s1.out() + show_arm_lines(t, s0.verbose, s1.ind()));
                }
                i = i + 1;
            }
            assert(arms@.take(arms@.len() as int) =~= arms@);
            self.print.indent_back(saved);
            self.print.newline();
        }
        self.print.punct("}");
        assert(self.out() =~= s0.out() + show_arms(arms@, s0.verbose, s0.ind()));
    }

    #[verifier::spinoff_prover]
    #[verifier::rlimit(60)]
    pub fn block(&mut self, b: &Block)
        ensures
            final(self).wrote(*old(self), show_block(*b, old(self).verbose, old(self).ind())),
        decreases b, 0int,
    {
        let ghost s0 = *self;
        self.print.punct("{");
        let saved = self.print.indent_more();
        if b.stmts.len() > 0 {
            self.print.newline();
            self.stmts(&b.stmts);
        }
        if self.verbose || !b.expr.is_unit() {
            self.print.newline();
            self.expr(&b.expr);
        }
        self.print.indent_back(saved);
        self.print.newline();
        self.print.punct("}");
        assert(self.out() =~= s0.out() + show_block(*b, s0.verbose, s0.ind()));
    }

    pub fn stmts(&mut self, ss: &Vec<Stmt>)
        ensures
            final(self).wrote(*old(self), show_stmts(ss@, old(self).verbose, old(self).ind())),
        decreases ss, 0int,
    {
        let ghost s0 = *self;
        let mut i: usize = 0;
        while i < ss.len()
            invariant
                i <= ss@.len(),
                self.wrote(s0, show_stmts(ss@.take(i as int), s0.verbose, s0.ind())),
            decreases ss@.len() - i,
        {
            if i > 0 {
                self.print.newline();
            }
            self.stmt(&ss[i]);
            proof {
                let t = ss@.take(i + 1);
                assert(t.drop_last() =~= ss@.take(i as int));
                if i == 0 {
                    assert(t =~= seq![ss@[0]]);
                }
                assert(self.out() =~= s0.out() + show_stmts(t, s0.verbose, s0.ind()));
            }
            i = i + 1;
        }
        assert(ss@.take(ss@.len() as int) =~= ss@);
    }

    fn queries(&mut self, qs: &Vec<Query>)
        ensures
            final(self).wrote(*old(self), show_queries(qs@, old(self).verbose, old(self).ind())),
        decreases qs, 0int,
    {
        let ghost s0 = *self;
        let mut i: usize = 0;
        while i < qs.len()
            invariant
                i <= qs@.len(),
                self.wrote(s0, show_queries(qs@.take(i as int), s0.verbose, s0.ind())),
            decreases qs@.len() - i,
        {
            if i > 0 {
                self.print.newline();
            }
            self.query_clause(&qs[i]);
            proof {
                let t = qs@.take(i + 1);
                assert(t.drop_last() =~= qs@.take(i as int));
                if i == 0 {
                    assert(t =~= seq![qs@[0]]);
                }
                assert(self.out() =~= s0.out() + show_queries(t, s0.verbose, s0.ind()));
            }
            i = i + 1;
        }
        assert(qs@.take(qs@.len() as int) =~= qs@);
    }

    fn query_scope(&mut self, qs: &Vec<Query>)
        ensures
            final(self).wrote(
                *old(self),
                show_query_scope(qs@, old(self).verbose, old(self).ind()),
            ),
        decreases qs, 2int,
    {
        let ghost s0 = *self;
        self.print.punct("{");
        if qs.len() > 0 {
            let saved = self.print.indent_more();
            self.queries(qs);
            self.print.indent_back(saved);
            self.print.newline();
        }
        self.print.punct("}");
        assert(self.out() =~= s0.out() + show_query_scope(qs@, s0.verbose, s0.ind()));
    }

    #[verifier::spinoff_prover]
    #[verifier::rlimit(80)]
    pub fn query_clause(&mut self, q: &Query)
        ensures
            final(self).wrote(*old(self), show_query(*q, old(self).verbose, old(self).ind())),
        decreases q, 0int,
    {
        let ghost s0 = *self;
        match q {
            Query::From(_, _, x, e) => {
                self.print.kw("from ");
                self.print.name(x);
                self.print.kw(" in ");
                self.expr(e);
                assert(self.out() =~= s0.out() + show_query(*q, s0.verbose, s0.ind()));
            },
            Query::Where(_, _, e) => {
                self.print.kw("where ");
                self.expr(e);
                assert(self.out() =~= s0.out() + show_query(*q, s0.verbose, s0.ind()));
            },
            Query::Select(_, _, m) => {
                proof {
                    lemma_view_decreases(*m);
                }
                self.print.kw("select ");
                self.assign_scope(m);
                assert(self.out() =~= s0.out() + show_query(*q, s0.verbose, s0.ind()));
            },
            Query::Into(_, _, x, ts, es) => {
                self.print.kw("into ");
                self.print.name(x);
                self.type_args(ts);
                self.print.punct("(");
                self.exprs(es);
                self.print.punct(")");
                assert(self.out() =~= s0.out() + show_query(*q, s0.verbose, s0.ind()));
            },
            Query::Var(_, _, x, e) => {
                self.print.kw("var ");
                self.print.name(x);
                self.print.punct(" = ");
                self.expr(e);
                assert(self.out() =~= s0.out() + show_query(*q, s0.verbose, s0.ind()));
            },
            Query::Join(_, _, x, e0, e1) => {
                self.print.kw("join ");
                self.print.name(x);
                self.print.kw(" in ");
                self.expr(e0);
                self.print.kw(" on ");
                self.expr(e1);
                assert(self.out() =~= s0.out() + show_query(*q, s0.verbose, s0.ind()));
            },
            Query::Group(_, _, e, qs) => {
                self.print.kw("group ");
                self.expr(e);
                self.print.space();
                self.query_scope(qs);
                assert(self.out() =~= s0.out() + show_query(*q, s0.verbose, s0.ind()));
            },
            Query::Over(_, _, e, qs) => {
                self.print.kw("over ");
                self.expr(e);
                self.print.space();
                self.query_scope(qs);
                assert(self.out() =~= s0.out() + show_query(*q, s0.verbose, s0.ind()));
            },
            Query::Compute(_, _, x, e0, e1) => {
                self.print.kw("compute ");
                self.print.name(x);
                self.print.punct(" = ");
                self.expr(e0);
                self.print.kw(" of ");
                self.expr(e1);
                assert(self.out() =~= s0.out() + show_query(*q, s0.verbose, s0.ind()));
            },
        }
    }

    pub fn params(&mut self, ps: &Vec<Param>)
        ensures
            final(self).wrote(*old(self), show_params(ps@)),
    {
        let ghost s0 = *self;
        let mut i: usize = 0;
        while i < ps.len()
            invariant
                i <= ps@.len(),
                self.wrote(s0, show_params(ps@.take(i as int))),
            decreases ps@.len() - i,
        {
            if i > 0 {
                self.print.punct(", ");
            }
            self.print.name(&ps[i].name);
            self.print.punct(": ");
            self.ty(&ps[i].ty);
            proof {
                let t = ps@.take(i + 1);
                assert(t.drop_last() =~= ps@.take(i as int));
                if i == 0 {
                    assert(t =~= seq![ps@[0]]);
                }
                assert(self.out() =~= s0.out() + show_params(t));
            }
            i = i + 1;
        }
        assert(ps@.take(ps@.len() as int) =~= ps@);
    }

    pub fn generics(&mut self, xs: &Vec<Name>)
        ensures
            final(self).wrote(*old(self), show_generics(xs@)),
    {
        let ghost s0 = *self;
        if xs.len() == 0 {
            return;
        }
        self.print.punct("[");
        let ghost s1 = *self;
        let mut i: usize = 0;
        while i < xs.len()
            invariant
                i <= xs@.len(),
                s1.wrote(s0, "["@),
                self.wrote(s1, show_names(xs@.take(i as int))),
            decreases xs@.len() - i,
        {
            if i > 0 {
                self.print.punct(", ");
            }
            self.print.name(&xs[i]);
            proof {
                let t = xs@.take(i + 1);
                assert(t.drop_last() =~= xs@.take(i as int));
                if i == 0 {
                    assert(t =~= seq![xs@[0]]);
                }
                assert(self.out() =~= s1.out() + show_names(t));
            }
            i = i + 1;
        }
        assert(xs@.take(xs@.len() as int) =~= xs@);
        self.print.punct("]");
        assert(self.out() =~= s0.out() + show_generics(xs@));
    }

    pub fn where_clause(&mut self, bs: &Vec<Bound>)
        ensures
            final(self).wrote(*old(self), show_where(bs@)),
    {
        let ghost s0 = *self;
        if bs.len() == 0 {
            return;
        }
        self.print.kw(" where ");
        let ghost s1 = *self;
        let mut i: usize = 0;
        while i < bs.len()
            invariant
                i <= bs@.len(),
                s1.wrote(s0, " where "@),
                self.wrote(s1, show_bounds(bs@.take(i as int))),
            decreases bs@.len() - i,
        {
            if i > 0 {
                self.print.punct(", ");
            }
            self.bound(&bs[i]);
            proof {
                let t = bs@.take(i + 1);
                assert(t.drop_last() =~= bs@.take(i as int));
                if i == 0 {
                    assert(t =~= seq![bs@[0]]);
                }
                assert(self.out() =~= s1.out() + show_bounds(t));
            }
            i = i + 1;
        }
        assert(bs@.take(bs@.len() as int) =~= bs@);
        assert(self.out() =~= s0.out() + show_where(bs@));
    }
}

impl Pretty {
    #[verifier::spinoff_prover]
    #[verifier::rlimit(80)]
    pub fn stmt_def(&mut self, d: &StmtDef)
        ensures
            final(self).wrote(*old(self), show_def(*d, old(self).verbose, old(self).ind())),
        decreases d, 0int,
    {
        let ghost s0 = *self;
        self.print.kw("def ");
        self.print.name(&d.name);
        self.generics(&d.generics);
        self.print.punct("(");
        self.params(&d.params);
        self.print.punct("): ");
        self.ty(&d.ty);
        self.where_clause(&d.where_clause);
        match &d.body {
            StmtDefBody::UserDefined(e) => {
                self.print.punct(" = ");
                self.expr(e);
                if !e.is_braced() {
                    self.print.punct(";");
                }
            },
            StmtDefBody::Builtin => {
                self.print.punct(";");
            },
        }
        assert(self.out() =~= s0.out() + show_def(*d, s0.verbose, s0.ind()));
    }

    fn defs(&mut self, ds: &Vec<Rc<StmtDef>>)
        ensures
            final(self).wrote(*old(self), show_defs(ds@, old(self).verbose, old(self).ind())),
        decreases ds, 0int,
    {
        let ghost s0 = *self;
        let mut i: usize = 0;
        while i < ds.len()
            invariant
                i <= ds@.len(),
                self.wrote(s0, show_defs(ds@.take(i as int), s0.verbose, s0.ind())),
            decreases ds@.len() - i,
        {
            if i > 0 {
                self.print.newline();
            }
            self.stmt_def(&ds[i]);
            proof {
                let t = ds@.take(i + 1);
                assert(t.drop_last() =~= ds@.take(i as int));
                if i == 0 {
                    assert(t =~= seq![ds@[0]]);
                }
                assert(self.out() =~= s0.out() + show_defs(t, s0.verbose, s0.ind()));
            }
            i = i + 1;
        }
        assert(ds@.take(ds@.len() as int) =~= ds@);
    }

    pub fn stmt_type(&mut self, t: &StmtType)
        ensures
            final(self).wrote(*old(self), show_type_stmt(*t)),
    {
        let ghost s0 = *self;
        self.print.kw("type ");
        self.print.name(&t.name);
        self.generics(&t.generics);
        self.print.punct(" = ");
        match &t.body {
            StmtTypeBody::UserDefined(ty) => {
                self.ty(ty);
            },
            StmtTypeBody::Builtin => {
                self.print.kw("<builtin>");
            },
        }
        self.print.punct(";");
        assert(self.out() =~= s0.out() + show_type_stmt(*t));
    }

    fn type_stmts(&mut self, ts: &Vec<Rc<StmtType>>)
        ensures
            final(self).wrote(*old(self), show_type_stmts(ts@, old(self).ind())),
    {
        let ghost s0 = *self;
        let mut i: usize = 0;
        while i < ts.len()
            invariant
                i <= ts@.len(),
                self.wrote(s0, show_type_stmts(ts@.take(i as int), s0.ind())),
            decreases ts@.len() - i,
        {
            if i > 0 {
                self.print.newline();
            }
            self.stmt_type(&ts[i]);
            proof {
                let t = ts@.take(i + 1);
                assert(t.drop_last() =~= ts@.take(i as int));
                if i == 0 {
                    assert(t =~= seq![ts@[0]]);
                }
                assert(self.out() =~= s0.out() + show_type_stmts(t, s0.ind()));
            }
            i = i + 1;
        }
        assert(ts@.take(ts@.len() as int) =~= ts@);
    }

    #[verifier::spinoff_prover]
    #[verifier::rlimit(60)]
    pub fn stmt_impl(&mut self, s: &StmtImpl)
        ensures
            final(self).wrote(*old(self), show_impl(*s, old(self).verbose, old(self).ind())),
        decreases s, 1int,
    {
        let ghost s0 = *self;
        self.print.kw("impl");
        self.generics(&s.generics);
        self.print.space();
        self.bound(&s.head);
        self.where_clause(&s.where_clause);
        self.print.space();
        let ghost s1 = *self;
        assert(s1.out() =~= s0.out() + "impl"@ + show_generics(s.generics@) + " "@ + show_bound(
            s.head,
        ) + show_where(s.where_clause@) + " "@);
        self.impl_members(s);
        assert(self.out() =~= s0.out() + show_impl(*s, s0.verbose, s0.ind()));
    }

    #[verifier::spinoff_prover]
    #[verifier::rlimit(60)]
    fn impl_members(&mut self, s: &StmtImpl)
        ensures
            final(self).wrote(
                *old(self),
                show_members(
                    show_type_stmts(s.types@, deeper(old(self).ind())),
                    s.types@.len() > 0,
                    show_defs(s.defs@, old(self).verbose, deeper(old(self).ind())),
                    s.defs@.len() > 0,
                    old(self).ind(),
                ),
            ),
        decreases s, 0int,
    {
        let ghost s0 = *self;
        let ghost tys = show_type_stmts(s.types@, deeper(s0.ind()));
        let ghost dfs = show_defs(s.defs@, s0.verbose, deeper(s0.ind()));
        self.print.punct("{");
        let ghost s1 = *self;
        if s.types.len() > 0 {
            let saved = self.print.indent_more();
            self.print.newline();
            self.type_stmts(&s.types);
            self.print.indent_back(saved);
        }
        let ghost s2 = *self;
        assert(s2.out() =~= s1.out() + if s.types@.len() > 0 {
            nl(deeper(s0.ind())) + tys
        } else {
            Seq::empty()
        });
        if s.defs.len() > 0 {
            let saved = self.print.indent_more();
            self.print.newline();
            self.defs(&s.defs);
            self.print.indent_back(saved);
        }
        let ghost s3 = *self;
        assert(s3.out() =~= s2.out() + if s.defs@.len() > 0 {
            nl(deeper(s0.ind())) + dfs
        } else {
            Seq::empty()
        });
        if s.defs.len() > 0 || s.types.len() > 0 {
            self.print.newline();
        }
        self.print.punct("}");
        assert(self.out() =~= s0.out() + show_members(
            tys,
            s.types@.len() > 0,
            dfs,
            s.defs@.len() > 0,
            s0.ind(),
        ));
    }

    pub fn stmt_def_decl(&mut self, d: &TraitDef)
        ensures
            final(self).wrote(*old(self), show_trait_def(*d)),
    {
        let ghost s0 = *self;
        self.print.kw("def ");
        self.print.name(&d.name);
        self.generics(&d.generics);
        self.print.punct("(");
        self.params(&d.params);
        self.print.punct("): ");
        self.ty(&d.ty);
        self.print.punct(";");
        assert(self.out() =~= s0.out() + show_trait_def(*d));
    }

    fn trait_defs(&mut self, ds: &Vec<TraitDef>)
        ensures
            final(self).wrote(*old(self), show_trait_defs(ds@, old(self).ind())),
    {
        let ghost s0 = *self;
        let mut i: usize = 0;
        while i < ds.len()
            invariant
                i <= ds@.len(),
                self.wrote(s0, show_trait_defs(ds@.take(i as int), s0.ind())),
            decreases ds@.len() - i,
        {
            if i > 0 {
                self.print.newline();
            }
            self.stmt_def_decl(&ds[i]);
            proof {
                let t = ds@.take(i + 1);
                assert(t.drop_last() =~= ds@.take(i as int));
                if i == 0 {
                    assert(t =~= seq![ds@[0]]);
                }
                assert(self.out() =~= s0.out() + show_trait_defs(t, s0.ind()));
            }
            i = i + 1;
        }
        assert(ds@.take(ds@.len() as int) =~= ds@);
    }

    pub fn stmt_type_decl(&mut self, t: &TraitType)
        ensures
            final(self).wrote(*old(self), show_trait_type(*t)),
    {
        let ghost s0 = *self;
        self.print.kw("type ");
        self.print.name(&t.name);
        self.generics(&t.generics);
        self.print.punct(";");
        assert(self.out() =~= s0.out() + show_trait_type(*t));
    }

    fn trait_types(&mut self, ts: &Vec<TraitType>)
        ensures
            final(self).wrote(*old(self), show_trait_types(ts@, old(self).ind())),
    {
        let ghost s0 = *self;
        let mut i: usize = 0;
        while i < ts.len()
            invariant
                i <= ts@.len(),
                self.wrote(s0, show_trait_types(ts@.take(i as int), s0.ind())),
            decreases ts@.len() - i,
        {
            if i > 0 {
                self.print.newline();
            }
            self.stmt_type_decl(&ts[i]);
            proof {
                let t = ts@.take(i + 1);
                assert(t.drop_last() =~= ts@.take(i as int));
                if i == 0 {
                    assert(t =~= seq![ts@[0]]);
                }
                assert(self.out() =~= s0.out() + show_trait_types(t, s0.ind()));
            }
            i = i + 1;
        }
        assert(ts@.take(ts@.len() as int) =~= ts@);
    }

    fn variants(&mut self, m: &VecMap<Name, Type>)
        ensures
            final(self).wrote(*old(self), show_variants(m@, old(self).ind())),
    {
        let ghost s0 = *self;
        let xts = m.iter();
        let mut i: usize = 0;
        while i < xts.len()
            invariant
                xts@ == m@,
                i <= xts@.len(),
                self.wrote(s0, show_variants(xts@.take(i as int), s0.ind())),
            decreases xts@.len() - i,
        {
            if i > 0 {
                self.print.newline();
            }
            self.print.name(&xts[i].0);
            self.print.punct("(");
            self.ty(&xts[i].1);
            self.print.punct(")");
            proof {
                let t = xts@.take(i + 1);
                assert(t.drop_last() =~= xts@.take(i as int));
                if i == 0 {
                    assert(t =~= seq![xts@[0]]);
                }
                assert(self.out() =~= s0.out() + show_variants(t, s0.ind()));
            }
            i = i + 1;
        }
        assert(xts@.take(xts@.len() as int) =~= xts@);
    }

    #[verifier::spinoff_prover]
    #[verifier::rlimit(60)]
    pub fn stmt_var(&mut self, sv: &StmtVar)
        ensures
            final(self).wrote(*old(self), show_stmt_var(*sv, old(self).verbose, old(self).ind())),
        decreases sv, 0int,
    {
        let ghost s0 = *self;
        self.print.kw("var ");
        self.print.name(&sv.name);
        match &sv.ty {
            Type::Hole => {},
            t => {
                self.print.punct(": ");
                self.ty(t);
            },
        }
        self.print.punct(" = ");
        self.expr(&sv.expr);
        self.print.punct(";");
        assert(self.out() =~= s0.out() + show_stmt_var(*sv, s0.verbose, s0.ind()));
    }

    pub fn stmt_struct(&mut self, st: &StmtStruct)
        ensures
            final(self).wrote(*old(self), show_stmt_struct(*st)),
    {
        let ghost s0 = *self;
        self.print.kw("struct ");
        self.print.name(&st.name);
        self.generics(&st.generics);
        self.annots(&st.fields);
        self.print.punct(";");
        assert(self.out() =~= s0.out() + show_stmt_struct(*st));
    }

    #[verifier::spinoff_prover]
    #[verifier::rlimit(60)]
    pub fn stmt_enum(&mut self, en: &StmtEnum)
        ensures
            final(self).wrote(*old(self), show_stmt_enum(*en, old(self).ind())),
    {
        let ghost s0 = *self;
        self.print.kw("enum ");
        self.print.name(&en.name);
        self.generics(&en.generics);
        self.print.space();
        self.print.punct("{");
        if en.variants.len() > 0 {
            let saved = self.print.indent_more();
            self.print.newline();
            self.variants(&en.variants);
            self.print.indent_back(saved);
            self.print.newline();
        }
        self.print.punct("}");
        assert(self.out() =~= s0.out() + show_stmt_enum(*en, s0.ind()));
    }

    #[verifier::spinoff_prover]
    #[verifier::rlimit(60)]
    pub fn stmt_trait(&mut self, tr: &StmtTrait)
        ensures
            final(self).wrote(*old(self), show_stmt_trait(*tr, old(self).ind())),
    {
        let ghost s0 = *self;
        self.print.kw("trait ");
        self.print.name(&tr.name);
        self.generics(&tr.generics);
        self.where_clause(&tr.bounds);
        self.print.space();
        let ghost s1 = *self;
        let ghost tys = show_trait_types(tr.types@, deeper(s0.ind()));
        let ghost dfs = show_trait_defs(tr.defs@, deeper(s0.ind()));
        self.print.punct("{");
        if tr.types.len() > 0 {
            let saved = self.print.indent_more();
            self.print.newline();
            self.trait_types(&tr.types);
            self.print.indent_back(saved);
        }
        let ghost s2 = *self;
        assert(s2.out() =~= s1.out() + "{"@ + if tr.types@.len() > 0 {
            nl(deeper(s0.ind())) + tys
        } else {
            Seq::empty()
        });
        if tr.defs.len() > 0 {
            let saved = self.print.indent_more();
            self.print.newline();
            self.trait_defs(&tr.defs);
            self.print.indent_back(saved);
        }
        let ghost s3 = *self;
        assert(s3.out() =~= s2.out() + if tr.defs@.len() > 0 {
            nl(deeper(s0.ind())) + dfs
        } else {
            Seq::empty()
        });
        if tr.defs.len() > 0 || tr.types.len() > 0 {
            self.print.newline();
        }
        self.print.punct("}");
        assert(self.out() =~= s1.out() + show_members(
            tys,
            tr.types@.len() > 0,
            dfs,
            tr.defs@.len() > 0,
            s0.ind(),
        ));
        assert(self.out() =~= s0.out() + show_stmt_trait(*tr, s0.ind()));
    }

    #[verifier::spinoff_prover]
    #[verifier::rlimit(60)]
    pub fn stmt(&mut self, s: &Stmt)
        ensures
            final(self).wrote(*old(self), show_stmt(*s, old(self).verbose, old(self).ind())),
        decreases s, 1int,
    {
        let ghost s0 = *self;
        match s {
            Stmt::Var(sv) => {
                self.stmt_var(sv);
            },
            Stmt::Def(d) => {
                self.stmt_def(d);
            },
            Stmt::Impl(i) => {
                self.stmt_impl(i);
            },
            Stmt::Expr(e) => {
                self.expr(e);
                self.print.punct(";");
                assert(self.out() =~= s0.out() + show_stmt(*s, s0.verbose, s0.ind()));
            },
            Stmt::Struct(st) => {
                self.stmt_struct(st);
            },
            Stmt::Enum(en) => {
                self.stmt_enum(en);
            },
            Stmt::Type(t) => {
                self.stmt_type(t);
            },
            Stmt::Trait(tr) => {
                self.stmt_trait(tr);
            },
            Stmt::Error(_) => {
                self.print.kw("<err>");
            },
        }
    }

    pub fn program(&mut self, p: &Program)
        ensures
            final(self).wrote(*old(self), show_program(*p, old(self).verbose, old(self).ind())),
    {
        self.stmts(&p.stmts);
    }
}

} // verus!
