//! The text of syntax trees, plain or with the types of expressions and patterns.
use vstd::prelude::*;

use super::expr::show_expr;
use super::expr::show_exprs;
use super::expr::show_impl;
use super::expr::show_program;
use super::expr::show_stmt;
use super::expr::show_stmts;
use super::expr::show_stmt_trait;
use super::expr::show_trait_def;
use super::pat::show_pat;
use super::show_path;
use super::show_targs;
use super::show_trait;
use super::show_ty;
use super::Pretty;
use crate::ast::Expr;
use crate::ast::Pat;
use crate::ast::Path;
use crate::ast::Program;
use crate::ast::Stmt;
use crate::ast::StmtImpl;
use crate::ast::StmtTrait;
use crate::ast::TraitBound;
use crate::ast::TraitDef;
use crate::ast::Type;

verus! {

/// A syntax tree to be printed in verbose mode, with the type of each expression and
/// pattern.
pub struct Verbose<T>(pub T);

impl Program {
    pub fn verbose(&self) -> (v: Verbose<&Program>)
        ensures
            v.0 == self,
    {
        Verbose(self)
    }

    /// The text of the program.
    pub fn to_text(&self) -> (s: String)
        ensures
            s@ == show_program(*self, false, Seq::empty()),
    {
        let mut p = Pretty::new();
        assert(p.ind() =~= Seq::<char>::empty());
        assert(p.out() =~= Seq::<char>::empty());
        p.program(self);
        assert(p.out() =~= Seq::<char>::empty() + p.out());
        p.print.out
    }
}

impl<'a> Verbose<&'a Program> {
    /// The text of the program in verbose mode.
    pub fn to_text(&self) -> (s: String)
        ensures
            s@ == show_program(*self.0, true, Seq::empty()),
    {
        let mut p = Pretty::new();
        assert(p.ind() =~= Seq::<char>::empty());
        assert(p.out() =~= Seq::<char>::empty());
        p.verbose();
        p.program(self.0);
        assert(p.out() =~= Seq::<char>::empty() + p.out());
        p.print.out
    }
}

impl Expr {
    pub fn verbose(&self) -> (v: Verbose<&Expr>)
        ensures
            v.0 == self,
    {
        Verbose(self)
    }

    /// The text of the expr.
    pub fn to_text(&self) -> (s: String)
        ensures
            s@ == show_expr(*self, false, Seq::empty()),
    {
        let mut p = Pretty::new();
        assert(p.ind() =~= Seq::<char>::empty());
        assert(p.out() =~= Seq::<char>::empty());
        p.expr(self);
        assert(p.out() =~= Seq::<char>::empty() + p.out());
        p.print.out
    }
}

impl<'a> Verbose<&'a Expr> {
    /// The text of the expr in verbose mode.
    pub fn to_text(&self) -> (s: String)
        ensures
            s@ == show_expr(*self.0, true, Seq::empty()),
    {
        let mut p = Pretty::new();
        assert(p.ind() =~= Seq::<char>::empty());
        assert(p.out() =~= Seq::<char>::empty());
        p.verbose();
        p.expr(self.0);
        assert(p.out() =~= Seq::<char>::empty() + p.out());
        p.print.out
    }
}

impl Pat {
    pub fn verbose(&self) -> (v: Verbose<&Pat>)
        ensures
            v.0 == self,
    {
        Verbose(self)
    }

    /// The text of the pat.
    pub fn to_text(&self) -> (s: String)
        ensures
            s@ == show_pat(*self, false),
    {
        let mut p = Pretty::new();
        assert(p.ind() =~= Seq::<char>::empty());
        assert(p.out() =~= Seq::<char>::empty());
        p.pat(self);
        assert(p.out() =~= Seq::<char>::empty() + p.out());
        p.print.out
    }
}

impl<'a> Verbose<&'a Pat> {
    /// The text of the pat in verbose mode.
    pub fn to_text(&self) -> (s: String)
        ensures
            s@ == show_pat(*self.0, true),
    {
        let mut p = Pretty::new();
        assert(p.ind() =~= Seq::<char>::empty());
        assert(p.out() =~= Seq::<char>::empty());
        p.verbose();
        p.pat(self.0);
        assert(p.out() =~= Seq::<char>::empty() + p.out());
        p.print.out
    }
}

impl Stmt {
    pub fn verbose(&self) -> (v: Verbose<&Stmt>)
        ensures
            v.0 == self,
    {
        Verbose(self)
    }

    /// The text of the stmt.
    pub fn to_text(&self) -> (s: String)
        ensures
            s@ == show_stmt(*self, false, Seq::empty()),
    {
        let mut p = Pretty::new();
        assert(p.ind() =~= Seq::<char>::empty());
        assert(p.out() =~= Seq::<char>::empty());
        p.stmt(self);
        assert(p.out() =~= Seq::<char>::empty() + p.out());
        p.print.out
    }
}

impl<'a> Verbose<&'a Stmt> {
    /// The text of the stmt in verbose mode.
    pub fn to_text(&self) -> (s: String)
        ensures
            s@ == show_stmt(*self.0, true, Seq::empty()),
    {
        let mut p = Pretty::new();
        assert(p.ind() =~= Seq::<char>::empty());
        assert(p.out() =~= Seq::<char>::empty());
        p.verbose();
        p.stmt(self.0);
        assert(p.out() =~= Seq::<char>::empty() + p.out());
        p.print.out
    }
}

impl Type {
    pub fn verbose(&self) -> (v: Verbose<&Type>)
        ensures
            v.0 == self,
    {
        Verbose(self)
    }

    /// The text of the type.
    pub fn to_text(&self) -> (s: String)
        ensures
            s@ == show_ty(*self),
    {
        let mut p = Pretty::new();
        assert(p.ind() =~= Seq::<char>::empty());
        assert(p.out() =~= Seq::<char>::empty());
        p.ty(self);
        assert(p.out() =~= Seq::<char>::empty() + p.out());
        p.print.out
    }
}

impl<'a> Verbose<&'a Type> {
    /// The text of the type in verbose mode.
    pub fn to_text(&self) -> (s: String)
        ensures
            s@ == show_ty(*self.0),
    {
        let mut p = Pretty::new();
        assert(p.ind() =~= Seq::<char>::empty());
        assert(p.out() =~= Seq::<char>::empty());
        p.verbose();
        p.ty(self.0);
        assert(p.out() =~= Seq::<char>::empty() + p.out());
        p.print.out
    }
}

impl Path {
    pub fn verbose(&self) -> (v: Verbose<&Path>)
        ensures
            v.0 == self,
    {
        Verbose(self)
    }

    /// The text of the path.
    pub fn to_text(&self) -> (s: String)
        ensures
            s@ == show_path(*self),
    {
        let mut p = Pretty::new();
        assert(p.ind() =~= Seq::<char>::empty());
        assert(p.out() =~= Seq::<char>::empty());
        p.path(self);
        assert(p.out() =~= Seq::<char>::empty() + p.out());
        p.print.out
    }
}

impl<'a> Verbose<&'a Path> {
    /// The text of the path in verbose mode.
    pub fn to_text(&self) -> (s: String)
        ensures
            s@ == show_path(*self.0),
    {
        let mut p = Pretty::new();
        assert(p.ind() =~= Seq::<char>::empty());
        assert(p.out() =~= Seq::<char>::empty());
        p.verbose();
        p.path(self.0);
        assert(p.out() =~= Seq::<char>::empty() + p.out());
        p.print.out
    }
}

impl StmtImpl {
    pub fn verbose(&self) -> (v: Verbose<&StmtImpl>)
        ensures
            v.0 == self,
    {
        Verbose(self)
    }

    /// The text of the stmtimpl.
    pub fn to_text(&self) -> (s: String)
        ensures
            s@ == show_impl(*self, false, Seq::empty()),
    {
        let mut p = Pretty::new();
        assert(p.ind() =~= Seq::<char>::empty());
        assert(p.out() =~= Seq::<char>::empty());
        p.stmt_impl(self);
        assert(p.out() =~= Seq::<char>::empty() + p.out());
        p.print.out
    }
}

impl<'a> Verbose<&'a StmtImpl> {
    /// The text of the stmtimpl in verbose mode.
    pub fn to_text(&self) -> (s: String)
        ensures
            s@ == show_impl(*self.0, true, Seq::empty()),
    {
        let mut p = Pretty::new();
        assert(p.ind() =~= Seq::<char>::empty());
        assert(p.out() =~= Seq::<char>::empty());
        p.verbose();
        p.stmt_impl(self.0);
        assert(p.out() =~= Seq::<char>::empty() + p.out());
        p.print.out
    }
}

impl StmtTrait {
    pub fn verbose(&self) -> (v: Verbose<&StmtTrait>)
        ensures
            v.0 == self,
    {
        Verbose(self)
    }

    /// The text of the stmttrait.
    pub fn to_text(&self) -> (s: String)
        ensures
            s@ == show_stmt_trait(*self, Seq::empty()),
    {
        let mut p = Pretty::new();
        assert(p.ind() =~= Seq::<char>::empty());
        assert(p.out() =~= Seq::<char>::empty());
        p.stmt_trait(self);
        assert(p.out() =~= Seq::<char>::empty() + p.out());
        p.print.out
    }
}

impl<'a> Verbose<&'a StmtTrait> {
    /// The text of the stmttrait in verbose mode.
    pub fn to_text(&self) -> (s: String)
        ensures
            s@ == show_stmt_trait(*self.0, Seq::empty()),
    {
        let mut p = Pretty::new();
        assert(p.ind() =~= Seq::<char>::empty());
        assert(p.out() =~= Seq::<char>::empty());
        p.verbose();
        p.stmt_trait(self.0);
        assert(p.out() =~= Seq::<char>::empty() + p.out());
        p.print.out
    }
}

impl TraitDef {
    pub fn verbose(&self) -> (v: Verbose<&TraitDef>)
        ensures
            v.0 == self,
    {
        Verbose(self)
    }

    /// The text of the traitdef.
    pub fn to_text(&self) -> (s: String)
        ensures
            s@ == show_trait_def(*self),
    {
        let mut p = Pretty::new();
        assert(p.ind() =~= Seq::<char>::empty());
        assert(p.out() =~= Seq::<char>::empty());
        p.stmt_def_decl(self);
        assert(p.out() =~= Seq::<char>::empty() + p.out());
        p.print.out
    }
}

impl<'a> Verbose<&'a TraitDef> {
    /// The text of the traitdef in verbose mode.
    pub fn to_text(&self) -> (s: String)
        ensures
            s@ == show_trait_def(*self.0),
    {
        let mut p = Pretty::new();
        assert(p.ind() =~= Seq::<char>::empty());
        assert(p.out() =~= Seq::<char>::empty());
        p.verbose();
        p.stmt_def_decl(self.0);
        assert(p.out() =~= Seq::<char>::empty() + p.out());
        p.print.out
    }
}

impl TraitBound {
    pub fn verbose(&self) -> (v: Verbose<&TraitBound>)
        ensures
            v.0 == self,
    {
        Verbose(self)
    }

    /// The text of the traitbound.
    pub fn to_text(&self) -> (s: String)
        ensures
            s@ == show_trait(*self),
    {
        let mut p = Pretty::new();
        assert(p.ind() =~= Seq::<char>::empty());
        assert(p.out() =~= Seq::<char>::empty());
        p.trait_bound(self);
        assert(p.out() =~= Seq::<char>::empty() + p.out());
        p.print.out
    }
}

impl<'a> Verbose<&'a TraitBound> {
    /// The text of the traitbound in verbose mode.
    pub fn to_text(&self) -> (s: String)
        ensures
            s@ == show_trait(*self.0),
    {
        let mut p = Pretty::new();
        assert(p.ind() =~= Seq::<char>::empty());
        assert(p.out() =~= Seq::<char>::empty());
        p.verbose();
        p.trait_bound(self.0);
        assert(p.out() =~= Seq::<char>::empty() + p.out());
        p.print.out
    }
}

/// Lists of statements, expressions and types that can be printed in verbose mode.
pub trait IntoVerbose {
    fn verbose(&self) -> Verbose<&Self>;
}

impl IntoVerbose for Vec<Stmt> {
    fn verbose(&self) -> (v: Verbose<&Self>)
        ensures
            v.0 == self,
    {
        Verbose(self)
    }
}

impl IntoVerbose for Vec<Expr> {
    fn verbose(&self) -> (v: Verbose<&Self>)
        ensures
            v.0 == self,
    {
        Verbose(self)
    }
}

impl IntoVerbose for Vec<Type> {
    fn verbose(&self) -> (v: Verbose<&Self>)
        ensures
            v.0 == self,
    {
        Verbose(self)
    }
}

impl<'a> Verbose<&'a Vec<Stmt>> {
    /// The statements in verbose mode, one per line.
    pub fn to_text(&self) -> (s: String)
        ensures
            s@ == show_stmts(self.0@, true, Seq::empty()),
    {
        let mut p = Pretty::new();
        assert(p.ind() =~= Seq::<char>::empty());
        assert(p.out() =~= Seq::<char>::empty());
        p.verbose();
        p.stmts(self.0);
        assert(p.out() =~= Seq::<char>::empty() + p.out());
        p.print.out
    }
}

impl<'a> Verbose<&'a Vec<Expr>> {
    /// The expressions in verbose mode, as the arguments of a call.
    pub fn to_text(&self) -> (s: String)
        ensures
            s@ == "("@ + show_exprs(self.0@, true, Seq::empty()) + ")"@,
    {
        let mut p = Pretty::new();
        assert(p.ind() =~= Seq::<char>::empty());
        assert(p.out() =~= Seq::<char>::empty());
        p.verbose();
        p.print.punct("(");
        let ghost mid = p;
        p.exprs(self.0);
        p.print.punct(")");
        assert(p.out() =~= "("@ + show_exprs(self.0@, true, Seq::empty()) + ")"@);
        p.print.out
    }
}

impl<'a> Verbose<&'a Vec<Type>> {
    /// The types in verbose mode, as type arguments.
    pub fn to_text(&self) -> (s: String)
        ensures
            s@ == show_targs(self.0@),
    {
        let mut p = Pretty::new();
        assert(p.out() =~= Seq::<char>::empty());
        p.verbose();
        p.type_args(self.0);
        assert(p.out() =~= Seq::<char>::empty() + p.out());
        p.print.out
    }
}

} // verus!
