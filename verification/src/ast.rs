use std::rc::Rc;

use vstd::prelude::*;

use crate::map::VecMap;
use crate::name::Name;
use crate::span::Span;

verus! {

/// A numeric field index such as the `0` of `x.0`.
#[derive(Debug)]
pub struct Index {
    pub span: Span,
    pub data: usize,
}

/// One segment of a path: a name with type arguments and named type arguments.
#[derive(Debug)]
pub struct Segment {
    pub span: Span,
    pub name: Name,
    pub types: Vec<Type>,
    pub named_types: VecMap<Name, Type>,
}

/// A path `x0[..]::x1[..]::...`, not yet resolved to what it names.
#[derive(Debug)]
pub struct Path {
    pub segments: Vec<Segment>,
}

/// A trait applied to types, with bindings for its associated types.
#[derive(Debug)]
pub struct TraitBound {
    pub name: Name,
    pub types: Vec<Type>,
    pub assoc_types: VecMap<Name, Type>,
}

#[derive(Debug)]
pub enum Bound {
    Unresolved(Span, Path),
    Trait(Span, TraitBound),
    Error(Span),
}

#[derive(Debug)]
pub enum Type {
    Unresolved(Path),
    Cons(Name, Vec<Type>),
    Alias(Name, Vec<Type>),
    Assoc(TraitBound, Name, Vec<Type>),
    Var(Name),
    Generic(Name),
    Fun(Vec<Type>, Rc<Type>),
    Tuple(Vec<Type>),
    Record(VecMap<Name, Type>),
    Array(Rc<Type>, Option<usize>),
    Never,
    Hole,
    Error,
}

#[derive(Debug)]
pub enum UnresolvedPatField {
    Named(Name, Pat),
    Unnamed(Pat),
}

#[derive(Debug)]
pub enum Pat {
    Unresolved(Span, Type, Path, Option<Vec<UnresolvedPatField>>),
    Var(Span, Type, Name),
    Tuple(Span, Type, Vec<Pat>),
    Struct(Span, Type, Name, Vec<Type>, VecMap<Name, Pat>),
    Record(Span, Type, VecMap<Name, Pat>),
    Enum(Span, Type, Name, Vec<Type>, Name, Rc<Pat>),
    Int(Span, Type, String),
    String(Span, Type, String),
    Char(Span, Type, char),
    Bool(Span, Type, bool),
    Wildcard(Span, Type),
    Error(Span, Type),
}

#[derive(Debug)]
pub struct Param {
    pub span: Span,
    pub name: Name,
    pub ty: Type,
}

#[derive(Debug)]
pub struct Arm {
    pub span: Span,
    pub p: Pat,
    pub e: Expr,
}

#[derive(Debug)]
pub struct Block {
    pub span: Span,
    pub stmts: Vec<Stmt>,
    pub expr: Rc<Expr>,
}

#[derive(Debug)]
pub enum Query {
    From(Span, Type, Name, Rc<Expr>),
    Where(Span, Type, Rc<Expr>),
    Select(Span, Type, VecMap<Name, Expr>),
    Into(Span, Type, Name, Vec<Type>, Vec<Expr>),
    Var(Span, Type, Name, Rc<Expr>),
    Join(Span, Type, Name, Rc<Expr>, Rc<Expr>),
    Group(Span, Type, Rc<Expr>, Vec<Query>),
    Over(Span, Type, Rc<Expr>, Vec<Query>),
    Compute(Span, Type, Name, Rc<Expr>, Rc<Expr>),
}

#[derive(Debug)]
pub enum Expr {
    Unresolved(Span, Type, Path),
    Int(Span, Type, String),
    Float(Span, Type, String),
    Bool(Span, Type, bool),
    String(Span, Type, String),
    Char(Span, Type, char),
    Struct(Span, Type, Name, Vec<Type>, VecMap<Name, Expr>),
    Tuple(Span, Type, Vec<Expr>),
    Record(Span, Type, VecMap<Name, Expr>),
    Enum(Span, Type, Name, Vec<Type>, Name, Rc<Expr>),
    Field(Span, Type, Rc<Expr>, Name),
    Index(Span, Type, Rc<Expr>, Index),
    Var(Span, Type, Name),
    Def(Span, Type, Name, Vec<Type>),
    Call(Span, Type, Rc<Expr>, Vec<Expr>),
    Block(Span, Type, Block),
    Query(Span, Type, Vec<Query>),
    Assoc(Span, Type, TraitBound, Name, Vec<Type>),
    Match(Span, Type, Rc<Expr>, Vec<Arm>),
    Array(Span, Type, Vec<Expr>),
    Assign(Span, Type, Rc<Expr>, Rc<Expr>),
    Return(Span, Type, Rc<Expr>),
    Continue(Span, Type),
    Break(Span, Type),
    Fun(Span, Type, Vec<Param>, Type, Rc<Expr>),
    While(Span, Type, Rc<Expr>, Block),
    Error(Span, Type),
}

/// The body of a definition: user code, or provided by the compiler.
#[derive(Debug)]
pub enum StmtDefBody {
    UserDefined(Expr),
    Builtin,
}

/// The body of a type alias: a user type, or provided by the compiler.
#[derive(Debug)]
pub enum StmtTypeBody {
    UserDefined(Type),
    Builtin,
}

#[derive(Debug)]
pub struct StmtVar {
    pub span: Span,
    pub name: Name,
    pub ty: Type,
    pub expr: Expr,
}

#[derive(Debug)]
pub struct StmtDef {
    pub span: Span,
    pub name: Name,
    pub generics: Vec<Name>,
    pub params: Vec<Param>,
    pub ty: Type,
    pub where_clause: Vec<Bound>,
    pub body: StmtDefBody,
}

#[derive(Debug)]
pub struct StmtImpl {
    pub span: Span,
    pub generics: Vec<Name>,
    pub head: Bound,
    pub where_clause: Vec<Bound>,
    pub defs: Vec<Rc<StmtDef>>,
    pub types: Vec<Rc<StmtType>>,
}

#[derive(Debug)]
pub struct StmtType {
    pub span: Span,
    pub name: Name,
    pub generics: Vec<Name>,
    pub body: StmtTypeBody,
}

#[derive(Debug)]
pub struct StmtStruct {
    pub span: Span,
    pub name: Name,
    pub generics: Vec<Name>,
    pub fields: VecMap<Name, Type>,
}

#[derive(Debug)]
pub struct StmtEnum {
    pub span: Span,
    pub name: Name,
    pub generics: Vec<Name>,
    pub variants: VecMap<Name, Type>,
}

/// The declaration of a method inside a trait.
#[derive(Debug)]
pub struct TraitDef {
    pub span: Span,
    pub name: Name,
    pub generics: Vec<Name>,
    pub params: Vec<Param>,
    pub ty: Type,
    pub where_clause: Vec<Bound>,
}

/// The declaration of an associated type inside a trait.
#[derive(Debug)]
pub struct TraitType {
    pub span: Span,
    pub name: Name,
    pub generics: Vec<Name>,
}

#[derive(Debug)]
pub struct StmtTrait {
    pub span: Span,
    pub name: Name,
    pub generics: Vec<Name>,
    pub bounds: Vec<Bound>,
    pub defs: Vec<TraitDef>,
    pub types: Vec<TraitType>,
}

#[derive(Debug)]
pub enum Stmt {
    Var(StmtVar),
    Def(Rc<StmtDef>),
    Impl(Rc<StmtImpl>),
    Expr(Expr),
    Struct(StmtStruct),
    Enum(StmtEnum),
    Type(Rc<StmtType>),
    Trait(StmtTrait),
    Error(Span),
}

#[derive(Debug)]
pub struct Program {
    pub stmts: Vec<Stmt>,
}

impl Index {
    pub fn new(span: Span, data: usize) -> (i: Index)
        ensures
            i.span == span,
            i.data == data,
    {
        Index { span, data }
    }
}

impl Segment {
    pub fn new(span: Span, name: Name, types: Vec<Type>, named_types: VecMap<Name, Type>) -> (s:
        Segment)
        ensures
            s.span == span,
            s.name == name,
            s.types == types,
            s.named_types == named_types,
    {
        Segment { span, name, types, named_types }
    }
}

impl Path {
    pub fn new(segments: Vec<Segment>) -> (p: Path)
        ensures
            p.segments == segments,
    {
        Path { segments }
    }
}

impl TraitBound {
    pub fn new(name: Name, types: Vec<Type>, assoc_types: VecMap<Name, Type>) -> (b: TraitBound)
        ensures
            b.name == name,
            b.types == types,
            b.assoc_types == assoc_types,
    {
        TraitBound { name, types, assoc_types }
    }
}

impl Param {
    pub fn new(span: Span, name: Name, ty: Type) -> (p: Param)
        ensures
            p.span == span,
            p.name == name,
            p.ty == ty,
    {
        Param { span, name, ty }
    }
}

impl Arm {
    pub fn new(span: Span, p: Pat, e: Expr) -> (a: Arm)
        ensures
            a.span == span,
            a.p == p,
            a.e == e,
    {
        Arm { span, p, e }
    }
}

impl Block {
    pub fn new(span: Span, stmts: Vec<Stmt>, expr: Expr) -> (b: Block)
        ensures
            b.span == span,
            b.stmts == stmts,
            *b.expr == expr,
    {
        Block { span, stmts, expr: Rc::new(expr) }
    }
}

impl StmtVar {
    pub fn new(span: Span, name: Name, ty: Type, expr: Expr) -> (s: StmtVar)
        ensures
            s == (StmtVar { span, name, ty, expr }),
    {
        StmtVar { span, name, ty, expr }
    }
}

impl StmtDef {
    pub fn new(
        span: Span,
        name: Name,
        generics: Vec<Name>,
        params: Vec<Param>,
        ty: Type,
        where_clause: Vec<Bound>,
        body: StmtDefBody,
    ) -> (s: StmtDef)
        ensures
            s == (StmtDef { span, name, generics, params, ty, where_clause, body }),
    {
        StmtDef { span, name, generics, params, ty, where_clause, body }
    }
}

impl StmtImpl {
    pub fn new(
        span: Span,
        generics: Vec<Name>,
        head: Bound,
        where_clause: Vec<Bound>,
        defs: Vec<Rc<StmtDef>>,
        types: Vec<Rc<StmtType>>,
    ) -> (s: StmtImpl)
        ensures
            s == (StmtImpl { span, generics, head, where_clause, defs, types }),
    {
        StmtImpl { span, generics, head, where_clause, defs, types }
    }
}

impl StmtType {
    pub fn new(span: Span, name: Name, generics: Vec<Name>, body: StmtTypeBody) -> (s: StmtType)
        ensures
            s == (StmtType { span, name, generics, body }),
    {
        StmtType { span, name, generics, body }
    }
}

impl StmtStruct {
    pub fn new(span: Span, name: Name, generics: Vec<Name>, fields: VecMap<Name, Type>) -> (s:
        StmtStruct)
        ensures
            s == (StmtStruct { span, name, generics, fields }),
    {
        StmtStruct { span, name, generics, fields }
    }
}

impl StmtEnum {
    pub fn new(span: Span, name: Name, generics: Vec<Name>, variants: VecMap<Name, Type>) -> (s:
        StmtEnum)
        ensures
            s == (StmtEnum { span, name, generics, variants }),
    {
        StmtEnum { span, name, generics, variants }
    }
}

impl TraitDef {
    pub fn new(
        span: Span,
        name: Name,
        generics: Vec<Name>,
        params: Vec<Param>,
        ty: Type,
        where_clause: Vec<Bound>,
    ) -> (d: TraitDef)
        ensures
            d == (TraitDef { span, name, generics, params, ty, where_clause }),
    {
        TraitDef { span, name, generics, params, ty, where_clause }
    }
}

impl TraitType {
    pub fn new(span: Span, name: Name, generics: Vec<Name>) -> (t: TraitType)
        ensures
            t == (TraitType { span, name, generics }),
    {
        TraitType { span, name, generics }
    }
}

impl StmtTrait {
    pub fn new(
        span: Span,
        name: Name,
        generics: Vec<Name>,
        bounds: Vec<Bound>,
        defs: Vec<TraitDef>,
        types: Vec<TraitType>,
    ) -> (s: StmtTrait)
        ensures
            s == (StmtTrait { span, name, generics, bounds, defs, types }),
    {
        StmtTrait { span, name, generics, bounds, defs, types }
    }
}

impl Program {
    pub fn new(stmts: Vec<Stmt>) -> (p: Program)
        ensures
            p.stmts == stmts,
    {
        Program { stmts }
    }
}

/// A second handle to the value behind `r`.
/// Trusted: calls `Rc::clone`, documented to make a new pointer to the same allocation,
/// so the value seen through the result is the value seen through `r`.
#[verifier::external_body]
pub(crate) fn rc_clone<T>(r: &Rc<T>) -> (c: Rc<T>)
    ensures
        c == *r,
{
    Rc::clone(r)
}

impl Stmt {
    /// The definition held by a definition statement.
    pub fn as_def(&self) -> (d: &Rc<StmtDef>)
        requires
            self is Def,
        ensures
            *d == self->Def_0,
    {
        match self {
            Stmt::Def(d) => d,
            _ => vstd::pervasive::unreached(),
        }
    }

    /// The type alias held by a type statement.
    pub fn as_type(&self) -> (t: &Rc<StmtType>)
        requires
            self is Type,
        ensures
            *t == self->Type_0,
    {
        match self {
            Stmt::Type(t) => t,
            _ => vstd::pervasive::unreached(),
        }
    }
}

/// The pattern `p` with its type annotation replaced by `t`.
pub open spec fn spec_with_ty(p: Pat, t: Type) -> Pat {
    match p {
        Pat::Unresolved(s, _, path, fs) => Pat::Unresolved(s, t, path, fs),
        Pat::Var(s, _, x) => Pat::Var(s, t, x),
        Pat::Tuple(s, _, ps) => Pat::Tuple(s, t, ps),
        Pat::Struct(s, _, x, ts, xps) => Pat::Struct(s, t, x, ts, xps),
        Pat::Record(s, _, xps) => Pat::Record(s, t, xps),
        Pat::Enum(s, _, x0, ts, x1, q) => Pat::Enum(s, t, x0, ts, x1, q),
        Pat::Int(s, _, v) => Pat::Int(s, t, v),
        Pat::String(s, _, v) => Pat::String(s, t, v),
        Pat::Char(s, _, v) => Pat::Char(s, t, v),
        Pat::Bool(s, _, v) => Pat::Bool(s, t, v),
        Pat::Wildcard(s, _) => Pat::Wildcard(s, t),
        Pat::Error(s, _) => Pat::Error(s, t),
    }
}

impl Pat {
    /// The same pattern annotated with the type `t`.
    pub fn with_ty(self, t: Type) -> (p: Pat)
        ensures
            p == spec_with_ty(self, t),
    {
        match self {
            Pat::Unresolved(s, _, path, fs) => Pat::Unresolved(s, t, path, fs),
            Pat::Var(s, _, x) => Pat::Var(s, t, x),
            Pat::Tuple(s, _, ps) => Pat::Tuple(s, t, ps),
            Pat::Struct(s, _, x, ts, xps) => Pat::Struct(s, t, x, ts, xps),
            Pat::Record(s, _, xps) => Pat::Record(s, t, xps),
            Pat::Enum(s, _, x0, ts, x1, q) => Pat::Enum(s, t, x0, ts, x1, q),
            Pat::Int(s, _, v) => Pat::Int(s, t, v),
            Pat::String(s, _, v) => Pat::String(s, t, v),
            Pat::Char(s, _, v) => Pat::Char(s, t, v),
            Pat::Bool(s, _, v) => Pat::Bool(s, t, v),
            Pat::Wildcard(s, _) => Pat::Wildcard(s, t),
            Pat::Error(s, _) => Pat::Error(s, t),
        }
    }
}

impl Expr {
    /// Whether the expression ends in a closing brace, so that as a statement it needs no `;`.
    pub fn is_braced(&self) -> (b: bool)
        ensures
            b == (self is Block || self is Match || self is While),
    {
        match self {
            Expr::Block(..) | Expr::Match(..) | Expr::While(..) => true,
            _ => false,
        }
    }
}

/// The type annotation of a pattern.
pub open spec fn pat_ty(p: Pat) -> Type {
    match p {
        Pat::Unresolved(_, t, ..) => t,
        Pat::Var(_, t, _) => t,
        Pat::Tuple(_, t, _) => t,
        Pat::Struct(_, t, ..) => t,
        Pat::Record(_, t, _) => t,
        Pat::Enum(_, t, ..) => t,
        Pat::Int(_, t, _) => t,
        Pat::String(_, t, _) => t,
        Pat::Char(_, t, _) => t,
        Pat::Bool(_, t, _) => t,
        Pat::Wildcard(_, t) => t,
        Pat::Error(_, t) => t,
    }
}

/// The type annotation of an expression.
pub open spec fn expr_ty(e: Expr) -> Type {
    match e {
        Expr::Unresolved(_, t, _) => t,
        Expr::Int(_, t, _) => t,
        Expr::Float(_, t, _) => t,
        Expr::Bool(_, t, _) => t,
        Expr::String(_, t, _) => t,
        Expr::Char(_, t, _) => t,
        Expr::Struct(_, t, ..) => t,
        Expr::Tuple(_, t, _) => t,
        Expr::Record(_, t, _) => t,
        Expr::Enum(_, t, ..) => t,
        Expr::Field(_, t, ..) => t,
        Expr::Index(_, t, ..) => t,
        Expr::Var(_, t, _) => t,
        Expr::Def(_, t, ..) => t,
        Expr::Call(_, t, ..) => t,
        Expr::Block(_, t, _) => t,
        Expr::Query(_, t, _) => t,
        Expr::Assoc(_, t, ..) => t,
        Expr::Match(_, t, ..) => t,
        Expr::Array(_, t, _) => t,
        Expr::Assign(_, t, ..) => t,
        Expr::Return(_, t, _) => t,
        Expr::Continue(_, t) => t,
        Expr::Break(_, t) => t,
        Expr::Fun(_, t, ..) => t,
        Expr::While(_, t, ..) => t,
        Expr::Error(_, t) => t,
    }
}

impl Pat {
    pub fn type_of(&self) -> (t: &Type)
        ensures
            *t == pat_ty(*self),
    {
        match self {
            Pat::Unresolved(_, t, ..) => t,
            Pat::Var(_, t, _) => t,
            Pat::Tuple(_, t, _) => t,
            Pat::Struct(_, t, ..) => t,
            Pat::Record(_, t, _) => t,
            Pat::Enum(_, t, ..) => t,
            Pat::Int(_, t, _) => t,
            Pat::String(_, t, _) => t,
            Pat::Char(_, t, _) => t,
            Pat::Bool(_, t, _) => t,
            Pat::Wildcard(_, t) => t,
            Pat::Error(_, t) => t,
        }
    }
}

impl Expr {
    pub fn type_of(&self) -> (t: &Type)
        ensures
            *t == expr_ty(*self),
    {
        match self {
            Expr::Unresolved(_, t, _) => t,
            Expr::Int(_, t, _) => t,
            Expr::Float(_, t, _) => t,
            Expr::Bool(_, t, _) => t,
            Expr::String(_, t, _) => t,
            Expr::Char(_, t, _) => t,
            Expr::Struct(_, t, ..) => t,
            Expr::Tuple(_, t, _) => t,
            Expr::Record(_, t, _) => t,
            Expr::Enum(_, t, ..) => t,
            Expr::Field(_, t, ..) => t,
            Expr::Index(_, t, ..) => t,
            Expr::Var(_, t, _) => t,
            Expr::Def(_, t, ..) => t,
            Expr::Call(_, t, ..) => t,
            Expr::Block(_, t, _) => t,
            Expr::Query(_, t, _) => t,
            Expr::Assoc(_, t, ..) => t,
            Expr::Match(_, t, ..) => t,
            Expr::Array(_, t, _) => t,
            Expr::Assign(_, t, ..) => t,
            Expr::Return(_, t, _) => t,
            Expr::Continue(_, t) => t,
            Expr::Break(_, t) => t,
            Expr::Fun(_, t, ..) => t,
            Expr::While(_, t, ..) => t,
            Expr::Error(_, t) => t,
        }
    }

    /// Whether the expression is the empty tuple.
    pub fn is_unit(&self) -> (b: bool)
        ensures
            b == (*self matches Expr::Tuple(_, _, es) && es@.len() == 0),
    {
        match self {
            Expr::Tuple(_, _, es) => es.len() == 0,
            _ => false,
        }
    }
}

} // verus!
