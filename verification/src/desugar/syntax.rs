//! The syntax tree as the parser builds it, with the sugar that desugaring removes, and its
//! mathematical model.
use std::rc::Rc;

use vstd::prelude::*;

use crate::name::Name;
use crate::span::Span;
use crate::token::Token;

verus! {

/// A type as written: a name applied to types, a parenthesised type, or one left to
/// inference.
#[derive(Debug)]
pub enum Type {
    Unknown,
    Named(Name, Vec<Type>),
    Paren(Rc<Type>),
}

/// One segment of a path, with its type arguments.
#[derive(Debug)]
pub struct Segment {
    pub span: Span,
    pub name: Name,
    pub types: Vec<Type>,
}

/// A path `x0[..]::x1[..]::...`.
#[derive(Debug)]
pub struct Path {
    pub segments: Vec<Segment>,
}

#[derive(Debug)]
pub enum Pat {
    Wildcard(Span, Type),
    Bool(Span, Type, bool),
    Var(Span, Type, Name),
    Paren(Span, Type, Rc<Pat>),
    Annotate(Span, Type, Rc<Pat>),
    Error(Span, Type),
}

/// An expression; each carries its span and its type.
#[derive(Debug)]
pub enum Expr {
    Int(Span, Type, String),
    String(Span, Type, String),
    Tuple(Span, Type, Vec<Expr>),
    Array(Span, Type, Vec<Expr>),
    Field(Span, Type, Rc<Expr>, Name),
    Return(Span, Type, Rc<Expr>),
    Break(Span, Type),
    Continue(Span, Type),
    Block(Span, Type, Vec<Expr>, Rc<Expr>),
    IfElse(Span, Type, Rc<Expr>, Rc<Expr>, Rc<Expr>),
    While(Span, Type, Rc<Expr>, Rc<Expr>),
    Float(Span, Type, String),
    Bool(Span, Type, bool),
    Path(Span, Type, Path),
    Call(Span, Type, Rc<Expr>, Vec<Expr>),
    Dot(Span, Type, Rc<Expr>, Name, Vec<Type>, Vec<Expr>),
    InfixBinaryOp(Span, Type, Token, Rc<Expr>, Rc<Expr>),
    PrefixUnaryOp(Span, Type, Token, Rc<Expr>),
    Anonymous(Span, Type),
    IntSuffix(Span, Type, String, Name),
    FloatSuffix(Span, Type, String, Name),
    Paren(Span, Type, Rc<Expr>),
    Annotate(Span, Type, Rc<Expr>),
    Match(Span, Type, Rc<Expr>, Vec<(Pat, Expr)>),
    Fun(Span, Type, Vec<(Name, Type)>, Type, Rc<Expr>),
    Error(Span, Type),
}

/// The model of a type: names by their characters, lists as sequences.
pub enum TypeM {
    Unknown,
    Named(Seq<char>, Seq<TypeM>),
    Paren(Box<TypeM>),
}

pub struct SegmentM {
    pub span: Span,
    pub name: Seq<char>,
    pub types: Seq<TypeM>,
}

pub enum PatM {
    Wildcard(Span, TypeM),
    Bool(Span, TypeM, bool),
    Var(Span, TypeM, Seq<char>),
    Paren(Span, TypeM, Box<PatM>),
    Annotate(Span, TypeM, Box<PatM>),
    Error(Span, TypeM),
}

pub enum ExprM {
    Int(Span, TypeM, Seq<char>),
    String(Span, TypeM, Seq<char>),
    Tuple(Span, TypeM, Seq<ExprM>),
    Array(Span, TypeM, Seq<ExprM>),
    Field(Span, TypeM, Box<ExprM>, Seq<char>),
    Return(Span, TypeM, Box<ExprM>),
    Break(Span, TypeM),
    Continue(Span, TypeM),
    Block(Span, TypeM, Seq<ExprM>, Box<ExprM>),
    IfElse(Span, TypeM, Box<ExprM>, Box<ExprM>, Box<ExprM>),
    While(Span, TypeM, Box<ExprM>, Box<ExprM>),
    Float(Span, TypeM, Seq<char>),
    Bool(Span, TypeM, bool),
    Path(Span, TypeM, Seq<SegmentM>),
    Call(Span, TypeM, Box<ExprM>, Seq<ExprM>),
    Dot(Span, TypeM, Box<ExprM>, Seq<char>, Seq<TypeM>, Seq<ExprM>),
    InfixBinaryOp(Span, TypeM, Token, Box<ExprM>, Box<ExprM>),
    PrefixUnaryOp(Span, TypeM, Token, Box<ExprM>),
    Anonymous(Span, TypeM),
    IntSuffix(Span, TypeM, Seq<char>, Seq<char>),
    FloatSuffix(Span, TypeM, Seq<char>, Seq<char>),
    Paren(Span, TypeM, Box<ExprM>),
    Annotate(Span, TypeM, Box<ExprM>),
    Match(Span, TypeM, Box<ExprM>, Seq<(PatM, ExprM)>),
    Fun(Span, TypeM, Seq<(Seq<char>, TypeM)>, TypeM, Box<ExprM>),
    Error(Span, TypeM),
}

pub open spec fn type_m(t: Type) -> TypeM
    decreases t,
{
    match t {
        Type::Unknown => TypeM::Unknown,
        Type::Named(x, ts) => TypeM::Named(x@, types_m(ts@)),
        Type::Paren(u) => TypeM::Paren(Box::new(type_m(*u))),
    }
}

pub open spec fn types_m(ts: Seq<Type>) -> Seq<TypeM>
    decreases ts,
{
    if ts.len() == 0 {
        Seq::empty()
    } else {
        types_m(ts.drop_last()).push(type_m(ts.last()))
    }
}

pub open spec fn segment_m(s: Segment) -> SegmentM {
    SegmentM { span: s.span, name: s.name@, types: types_m(s.types@) }
}

pub open spec fn segments_m(ss: Seq<Segment>) -> Seq<SegmentM>
    decreases ss.len(),
{
    if ss.len() == 0 {
        Seq::empty()
    } else {
        segments_m(ss.drop_last()).push(segment_m(ss.last()))
    }
}

pub open spec fn pat_m(p: Pat) -> PatM
    decreases p,
{
    match p {
        Pat::Wildcard(s, t) => PatM::Wildcard(s, type_m(t)),
        Pat::Bool(s, t, b) => PatM::Bool(s, type_m(t), b),
        Pat::Var(s, t, x) => PatM::Var(s, type_m(t), x@),
        Pat::Paren(s, t, q) => PatM::Paren(s, type_m(t), Box::new(pat_m(*q))),
        Pat::Annotate(s, t, q) => PatM::Annotate(s, type_m(t), Box::new(pat_m(*q))),
        Pat::Error(s, t) => PatM::Error(s, type_m(t)),
    }
}

pub open spec fn params_m(ps: Seq<(Name, Type)>) -> Seq<(Seq<char>, TypeM)>
    decreases ps.len(),
{
    if ps.len() == 0 {
        Seq::empty()
    } else {
        params_m(ps.drop_last()).push((ps.last().0@, type_m(ps.last().1)))
    }
}

pub open spec fn expr_m(e: Expr) -> ExprM
    decreases e,
{
    match e {
        Expr::Int(s, t, l) => ExprM::Int(s, type_m(t), l@),
        Expr::String(s, t, l) => ExprM::String(s, type_m(t), l@),
        Expr::Tuple(s, t, es) => ExprM::Tuple(s, type_m(t), exprs_m(es@)),
        Expr::Array(s, t, es) => ExprM::Array(s, type_m(t), exprs_m(es@)),
        Expr::Field(s, t, e0, x) => ExprM::Field(s, type_m(t), Box::new(expr_m(*e0)), x@),
        Expr::Return(s, t, e0) => ExprM::Return(s, type_m(t), Box::new(expr_m(*e0))),
        Expr::Break(s, t) => ExprM::Break(s, type_m(t)),
        Expr::Continue(s, t) => ExprM::Continue(s, type_m(t)),
        Expr::Block(s, t, es, e0) => ExprM::Block(s, type_m(t), exprs_m(es@), Box::new(expr_m(*e0))),
        Expr::IfElse(s, t, c, b0, b1) => ExprM::IfElse(
            s,
            type_m(t),
            Box::new(expr_m(*c)),
            Box::new(expr_m(*b0)),
            Box::new(expr_m(*b1)),
        ),
        Expr::While(s, t, c, b) => ExprM::While(s, type_m(t), Box::new(expr_m(*c)), Box::new(expr_m(*b))),
        Expr::Float(s, t, l) => ExprM::Float(s, type_m(t), l@),
        Expr::Bool(s, t, b) => ExprM::Bool(s, type_m(t), b),
        Expr::Path(s, t, p) => ExprM::Path(s, type_m(t), segments_m(p.segments@)),
        Expr::Call(s, t, f, es) => ExprM::Call(s, type_m(t), Box::new(expr_m(*f)), exprs_m(es@)),
        Expr::Dot(s, t, e0, x, ts, es) => ExprM::Dot(
            s,
            type_m(t),
            Box::new(expr_m(*e0)),
            x@,
            types_m(ts@),
            exprs_m(es@),
        ),
        Expr::InfixBinaryOp(s, t, op, e0, e1) => ExprM::InfixBinaryOp(
            s,
            type_m(t),
            op,
            Box::new(expr_m(*e0)),
            Box::new(expr_m(*e1)),
        ),
        Expr::PrefixUnaryOp(s, t, op, e0) => ExprM::PrefixUnaryOp(
            s,
            type_m(t),
            op,
            Box::new(expr_m(*e0)),
        ),
        Expr::Anonymous(s, t) => ExprM::Anonymous(s, type_m(t)),
        Expr::IntSuffix(s, t, l, r) => ExprM::IntSuffix(s, type_m(t), l@, r@),
        Expr::FloatSuffix(s, t, l, r) => ExprM::FloatSuffix(s, type_m(t), l@, r@),
        Expr::Paren(s, t, e0) => ExprM::Paren(s, type_m(t), Box::new(expr_m(*e0))),
        Expr::Annotate(s, t, e0) => ExprM::Annotate(s, type_m(t), Box::new(expr_m(*e0))),
        Expr::Match(s, t, e0, arms) => ExprM::Match(
            s,
            type_m(t),
            Box::new(expr_m(*e0)),
            arms_m(arms@),
        ),
        Expr::Fun(s, t, ps, t1, e0) => ExprM::Fun(
            s,
            type_m(t),
            params_m(ps@),
            type_m(t1),
            Box::new(expr_m(*e0)),
        ),
        Expr::Error(s, t) => ExprM::Error(s, type_m(t)),
    }
}

pub open spec fn exprs_m(es: Seq<Expr>) -> Seq<ExprM>
    decreases es,
{
    if es.len() == 0 {
        Seq::empty()
    } else {
        exprs_m(es.drop_last()).push(expr_m(es.last()))
    }
}

pub open spec fn arms_m(arms: Seq<(Pat, Expr)>) -> Seq<(PatM, ExprM)>
    decreases arms,
{
    if arms.len() == 0 {
        Seq::empty()
    } else {
        arms_m(arms.drop_last()).push((pat_m(arms.last().0), expr_m(arms.last().1)))
    }
}

impl View for Type {
    type V = TypeM;

    open spec fn view(&self) -> TypeM {
        type_m(*self)
    }
}

impl View for Pat {
    type V = PatM;

    open spec fn view(&self) -> PatM {
        pat_m(*self)
    }
}

impl View for Expr {
    type V = ExprM;

    open spec fn view(&self) -> ExprM {
        expr_m(*self)
    }
}

} // verus!
