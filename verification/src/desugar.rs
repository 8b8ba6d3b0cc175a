//! Desugaring: operators become calls of trait methods (`a + b` becomes `Add::add(a, b)`),
//! `and` and `or` become matches, a method call `a.b(c)` becomes `b(a, c)`, a numeric
//! suffix becomes a call of its `postfix_` function, an argument holding `_` becomes a
//! function of it, and parentheses and annotations go.
use std::rc::Rc;

use vstd::prelude::*;

use crate::diag::to_owned_string;
use crate::name::Name;
use crate::print::decimal;
use crate::print::decimal_string;
use crate::span::Span;
use crate::token::Token;

pub mod syntax;

use self::syntax::arms_m;
use self::syntax::exprs_m;
use self::syntax::params_m;
use self::syntax::segments_m;
use self::syntax::types_m;
use self::syntax::Expr;
use self::syntax::ExprM;
use self::syntax::Pat;
use self::syntax::PatM;
use self::syntax::Path;
use self::syntax::Segment;
use self::syntax::SegmentM;
use self::syntax::Type;
use self::syntax::TypeM;

verus! {

/// The names of the placeholders met so far, one list for each argument being desugared,
/// innermost last.
pub type Scopes = Seq<Seq<Seq<char>>>;

/// The name given to the placeholder numbered `n` within its argument.
pub open spec fn anon_name(n: nat) -> Seq<char> {
    "_"@ + decimal(n)
}

/// The name of the function that a numeric suffix `r` stands for.
pub open spec fn postfix_name(r: Seq<char>) -> Seq<char> {
    "postfix_"@ + r
}

/// A segment at `s` with no type arguments.
pub open spec fn plain_segment(s: Span, x: Seq<char>) -> SegmentM {
    SegmentM { span: s, name: x, types: Seq::empty() }
}

/// A call, at `s` and of type `t`, of the method `x0::x1` on `args`.
pub open spec fn method_call(s: Span, t: TypeM, x0: Seq<char>, x1: Seq<char>, args: Seq<ExprM>) -> ExprM {
    ExprM::Call(
        s,
        t,
        Box::new(ExprM::Path(s, TypeM::Unknown, seq![plain_segment(s, x0), plain_segment(s, x1)])),
        args,
    )
}

/// A type with its parentheses removed, everywhere inside it.
pub open spec fn d_type(t: TypeM) -> TypeM
    decreases t,
{
    match t {
        TypeM::Unknown => TypeM::Unknown,
        TypeM::Named(x, ts) => TypeM::Named(x, d_types(ts)),
        TypeM::Paren(u) => d_type(*u),
    }
}

pub open spec fn d_types(ts: Seq<TypeM>) -> Seq<TypeM>
    decreases ts,
{
    if ts.len() == 0 {
        Seq::empty()
    } else {
        d_types(ts.drop_last()).push(d_type(ts.last()))
    }
}

pub open spec fn d_segments(ss: Seq<SegmentM>) -> Seq<SegmentM>
    decreases ss.len(),
{
    if ss.len() == 0 {
        Seq::empty()
    } else {
        let s = ss.last();
        d_segments(ss.drop_last()).push(SegmentM { span: s.span, name: s.name, types: d_types(s.types) })
    }
}

/// A pattern with another type.
pub open spec fn pat_with_type(p: PatM, t: TypeM) -> PatM {
    match p {
        PatM::Wildcard(s, _) => PatM::Wildcard(s, t),
        PatM::Bool(s, _, b) => PatM::Bool(s, t, b),
        PatM::Var(s, _, x) => PatM::Var(s, t, x),
        PatM::Paren(s, _, q) => PatM::Paren(s, t, q),
        PatM::Annotate(s, _, q) => PatM::Annotate(s, t, q),
        PatM::Error(s, _) => PatM::Error(s, t),
    }
}

/// A pattern without parentheses and annotations; an annotation's type becomes the type of
/// the pattern inside it.
pub open spec fn d_pat(p: PatM) -> PatM
    decreases p,
{
    match p {
        PatM::Wildcard(s, t) => PatM::Wildcard(s, d_type(t)),
        PatM::Bool(s, t, b) => PatM::Bool(s, d_type(t), b),
        PatM::Var(s, t, x) => PatM::Var(s, d_type(t), x),
        PatM::Paren(_, _, q) => d_pat(*q),
        PatM::Annotate(_, t, q) => pat_with_type(d_pat(*q), d_type(t)),
        PatM::Error(s, t) => PatM::Error(s, d_type(t)),
    }
}

pub open spec fn d_params(ps: Seq<(Seq<char>, TypeM)>) -> Seq<(Seq<char>, TypeM)>
    decreases ps.len(),
{
    if ps.len() == 0 {
        Seq::empty()
    } else {
        d_params(ps.drop_last()).push((ps.last().0, d_type(ps.last().1)))
    }
}

/// An expression with another type.
pub open spec fn with_type(e: ExprM, t: TypeM) -> ExprM {
    match e {
        ExprM::Int(s, _, l) => ExprM::Int(s, t, l),
        ExprM::String(s, _, l) => ExprM::String(s, t, l),
        ExprM::Tuple(s, _, es) => ExprM::Tuple(s, t, es),
        ExprM::Array(s, _, es) => ExprM::Array(s, t, es),
        ExprM::Field(s, _, e0, x) => ExprM::Field(s, t, e0, x),
        ExprM::Return(s, _, e0) => ExprM::Return(s, t, e0),
        ExprM::Break(s, _) => ExprM::Break(s, t),
        ExprM::Continue(s, _) => ExprM::Continue(s, t),
        ExprM::Block(s, _, es, e0) => ExprM::Block(s, t, es, e0),
        ExprM::IfElse(s, _, c, b0, b1) => ExprM::IfElse(s, t, c, b0, b1),
        ExprM::While(s, _, c, b) => ExprM::While(s, t, c, b),
        ExprM::Float(s, _, l) => ExprM::Float(s, t, l),
        ExprM::Bool(s, _, b) => ExprM::Bool(s, t, b),
        ExprM::Path(s, _, p) => ExprM::Path(s, t, p),
        ExprM::Call(s, _, f, es) => ExprM::Call(s, t, f, es),
        ExprM::Dot(s, _, e0, x, ts, es) => ExprM::Dot(s, t, e0, x, ts, es),
        ExprM::InfixBinaryOp(s, _, op, e0, e1) => ExprM::InfixBinaryOp(s, t, op, e0, e1),
        ExprM::PrefixUnaryOp(s, _, op, e0) => ExprM::PrefixUnaryOp(s, t, op, e0),
        ExprM::Anonymous(s, _) => ExprM::Anonymous(s, t),
        ExprM::IntSuffix(s, _, l, r) => ExprM::IntSuffix(s, t, l, r),
        ExprM::FloatSuffix(s, _, l, r) => ExprM::FloatSuffix(s, t, l, r),
        ExprM::Paren(s, _, e0) => ExprM::Paren(s, t, e0),
        ExprM::Annotate(s, _, e0) => ExprM::Annotate(s, t, e0),
        ExprM::Match(s, _, e0, arms) => ExprM::Match(s, t, e0, arms),
        ExprM::Fun(s, _, ps, t1, e0) => ExprM::Fun(s, t, ps, t1, e0),
        ExprM::Error(s, _) => ExprM::Error(s, t),
    }
}

/// The span of an expression.
pub open spec fn span_of(e: ExprM) -> Span {
    match e {
        ExprM::Int(s, ..) => s,
        ExprM::String(s, ..) => s,
        ExprM::Tuple(s, ..) => s,
        ExprM::Array(s, ..) => s,
        ExprM::Field(s, ..) => s,
        ExprM::Return(s, ..) => s,
        ExprM::Break(s, ..) => s,
        ExprM::Continue(s, ..) => s,
        ExprM::Block(s, ..) => s,
        ExprM::IfElse(s, ..) => s,
        ExprM::While(s, ..) => s,
        ExprM::Float(s, ..) => s,
        ExprM::Bool(s, ..) => s,
        ExprM::Path(s, ..) => s,
        ExprM::Call(s, ..) => s,
        ExprM::Dot(s, ..) => s,
        ExprM::InfixBinaryOp(s, ..) => s,
        ExprM::PrefixUnaryOp(s, ..) => s,
        ExprM::Anonymous(s, ..) => s,
        ExprM::IntSuffix(s, ..) => s,
        ExprM::FloatSuffix(s, ..) => s,
        ExprM::Paren(s, ..) => s,
        ExprM::Annotate(s, ..) => s,
        ExprM::Match(s, ..) => s,
        ExprM::Fun(s, ..) => s,
        ExprM::Error(s, ..) => s,
    }
}

/// The type that an expression carries.
pub open spec fn type_of_m(e: ExprM) -> TypeM {
    match e {
        ExprM::Int(_, t, ..) => t,
        ExprM::String(_, t, ..) => t,
        ExprM::Tuple(_, t, ..) => t,
        ExprM::Array(_, t, ..) => t,
        ExprM::Field(_, t, ..) => t,
        ExprM::Return(_, t, ..) => t,
        ExprM::Break(_, t) => t,
        ExprM::Continue(_, t) => t,
        ExprM::Block(_, t, ..) => t,
        ExprM::IfElse(_, t, ..) => t,
        ExprM::While(_, t, ..) => t,
        ExprM::Float(_, t, ..) => t,
        ExprM::Bool(_, t, ..) => t,
        ExprM::Path(_, t, ..) => t,
        ExprM::Call(_, t, ..) => t,
        ExprM::Dot(_, t, ..) => t,
        ExprM::InfixBinaryOp(_, t, ..) => t,
        ExprM::PrefixUnaryOp(_, t, ..) => t,
        ExprM::Anonymous(_, t) => t,
        ExprM::IntSuffix(_, t, ..) => t,
        ExprM::FloatSuffix(_, t, ..) => t,
        ExprM::Paren(_, t, ..) => t,
        ExprM::Annotate(_, t, ..) => t,
        ExprM::Match(_, t, ..) => t,
        ExprM::Fun(_, t, ..) => t,
        ExprM::Error(_, t) => t,
    }
}

/// The infix operators that desugar to a trait method, with the trait and the method.
pub open spec fn infix_method(op: Token) -> Option<(Seq<char>, Seq<char>)> {
    match op {
        Token::Plus => Some(("Add"@, "add"@)),
        Token::Minus => Some(("Sub"@, "sub"@)),
        Token::Star => Some(("Mul"@, "mul"@)),
        Token::Slash => Some(("Div"@, "div"@)),
        Token::Gt => Some(("PartialOrd"@, "gt"@)),
        Token::Ge => Some(("PartialOrd"@, "ge"@)),
        Token::Lt => Some(("PartialOrd"@, "lt"@)),
        Token::Le => Some(("PartialOrd"@, "le"@)),
        Token::EqEq => Some(("PartialEq"@, "eq"@)),
        Token::NotEq => Some(("PartialEq"@, "ne"@)),
        Token::DotDot => Some(("Range"@, "range"@)),
        _ => None,
    }
}

/// The prefix operators, with their trait and method.
pub open spec fn prefix_method(op: Token) -> Option<(Seq<char>, Seq<char>)> {
    match op {
        Token::Minus => Some(("Neg"@, "neg"@)),
        Token::Not => Some(("Not"@, "not"@)),
        _ => None,
    }
}

/// Every operator in `e` is one that desugaring knows.
pub open spec fn ops_known(e: ExprM) -> bool
    decreases e,
{
    match e {
        ExprM::Call(_, _, f, es) => ops_known(*f) && ops_known_all(es),
        ExprM::Dot(_, _, e0, _, _, es) => ops_known(*e0) && ops_known_all(es),
        ExprM::InfixBinaryOp(_, _, op, e0, e1) => (infix_method(op) is Some || op == Token::And
            || op == Token::Or) && ops_known(*e0) && ops_known(*e1),
        ExprM::PrefixUnaryOp(_, _, op, e0) => prefix_method(op) is Some && ops_known(*e0),
        ExprM::Paren(_, _, e0) => ops_known(*e0),
        ExprM::Annotate(_, _, e0) => ops_known(*e0),
        ExprM::Match(_, _, e0, arms) => ops_known(*e0) && ops_known_arms(arms),
        ExprM::Fun(_, _, _, _, e0) => ops_known(*e0),
        ExprM::Tuple(_, _, es) => ops_known_all(es),
        ExprM::Array(_, _, es) => ops_known_all(es),
        ExprM::Field(_, _, e0, _) => ops_known(*e0),
        ExprM::Return(_, _, e0) => ops_known(*e0),
        ExprM::Block(_, _, es, e0) => ops_known_all(es) && ops_known(*e0),
        ExprM::IfElse(_, _, c, b0, b1) => ops_known(*c) && ops_known(*b0) && ops_known(*b1),
        ExprM::While(_, _, c, b) => ops_known(*c) && ops_known(*b),
        _ => true,
    }
}

pub open spec fn ops_known_all(es: Seq<ExprM>) -> bool
    decreases es,
{
    if es.len() == 0 {
        true
    } else {
        ops_known_all(es.drop_last()) && ops_known(es.last())
    }
}

pub open spec fn ops_known_arms(arms: Seq<(PatM, ExprM)>) -> bool
    decreases arms,
{
    if arms.len() == 0 {
        true
    } else {
        ops_known_arms(arms.drop_last()) && ops_known(arms.last().1)
    }
}

/// Desugaring `e` with the placeholder lists `st`: the result, and the lists after it. A
/// placeholder `_` is named after the count of those already in the innermost list and
/// added to it; outside any argument it is an error.
pub open spec fn d_expr(e: ExprM, st: Scopes) -> (ExprM, Scopes)
    decreases e, 0nat,
{
    let t = d_type(type_of_m(e));
    match e {
        ExprM::Int(s, _, l) => (ExprM::Int(s, t, l), st),
        ExprM::String(s, _, l) => (ExprM::String(s, t, l), st),
        ExprM::Tuple(s, _, es) => {
            let (rs, st1) = d_exprs(es, st);
            (ExprM::Tuple(s, t, rs), st1)
        },
        ExprM::Array(s, _, es) => {
            let (rs, st1) = d_exprs(es, st);
            (ExprM::Array(s, t, rs), st1)
        },
        ExprM::Field(s, _, e0, x) => {
            let (r0, st1) = d_expr(*e0, st);
            (ExprM::Field(s, t, Box::new(r0), x), st1)
        },
        ExprM::Return(s, _, e0) => {
            let (r0, st1) = d_expr(*e0, st);
            (ExprM::Return(s, t, Box::new(r0)), st1)
        },
        ExprM::Break(s, _) => (ExprM::Break(s, t), st),
        ExprM::Continue(s, _) => (ExprM::Continue(s, t), st),
        ExprM::Block(s, _, es, e0) => {
            let (rs, st1) = d_exprs(es, st);
            let (r0, st2) = d_expr(*e0, st1);
            (ExprM::Block(s, t, rs, Box::new(r0)), st2)
        },
        ExprM::IfElse(s, _, c, b0, b1) => {
            let (rc, st1) = d_expr(*c, st);
            let (r0, st2) = d_expr(*b0, st1);
            let (r1, st3) = d_expr(*b1, st2);
            (ExprM::IfElse(s, t, Box::new(rc), Box::new(r0), Box::new(r1)), st3)
        },
        ExprM::While(s, _, c, b) => {
            let (rc, st1) = d_expr(*c, st);
            let (rb, st2) = d_expr(*b, st1);
            (ExprM::While(s, t, Box::new(rc), Box::new(rb)), st2)
        },
        ExprM::Float(s, _, l) => (ExprM::Float(s, t, l), st),
        ExprM::Bool(s, _, b) => (ExprM::Bool(s, t, b), st),
        ExprM::Path(s, _, p) => (ExprM::Path(s, t, d_segments(p)), st),
        ExprM::Call(s, _, f, es) => {
            let (rf, st1) = d_expr(*f, st);
            let (rs, st2) = d_args(es, st1);
            (ExprM::Call(s, t, Box::new(rf), rs), st2)
        },
        ExprM::Dot(s, _, e0, x, ts, es) => {
            let (r0, st1) = d_expr(*e0, st);
            let (rs, st2) = d_args(es, st1);
            let f = ExprM::Path(s, TypeM::Unknown, seq![SegmentM { span: s, name: x, types: ts }]);
            (ExprM::Call(s, t, Box::new(f), seq![r0] + rs), st2)
        },
        ExprM::InfixBinaryOp(s, _, op, e0, e1) => {
            let (r0, st1) = d_expr(*e0, st);
            let (r1, st2) = d_expr(*e1, st1);
            let r = if op == Token::And {
                ExprM::Match(
                    s,
                    TypeM::Unknown,
                    Box::new(r0),
                    seq![
                        (PatM::Bool(s, TypeM::Unknown, true), r1),
                        (PatM::Wildcard(s, TypeM::Unknown), ExprM::Bool(s, TypeM::Unknown, false)),
                    ],
                )
            } else if op == Token::Or {
                ExprM::Match(
                    s,
                    TypeM::Unknown,
                    Box::new(r0),
                    seq![
                        (PatM::Bool(s, TypeM::Unknown, true), ExprM::Bool(s, TypeM::Unknown, true)),
                        (PatM::Wildcard(s, TypeM::Unknown), r1),
                    ],
                )
            } else {
                match infix_method(op) {
                    Some((x0, x1)) => method_call(s, t, x0, x1, seq![r0, r1]),
                    None => ExprM::Error(s, t),
                }
            };
            (r, st2)
        },
        ExprM::PrefixUnaryOp(s, _, op, e0) => {
            let (r0, st1) = d_expr(*e0, st);
            let r = match prefix_method(op) {
                Some((x0, x1)) => method_call(s, t, x0, x1, seq![r0]),
                None => ExprM::Error(s, t),
            };
            (r, st1)
        },
        ExprM::Anonymous(s, t0) => {
            if st.len() > 0 {
                let top = st.last();
                let x = anon_name(top.len());
                (ExprM::Path(s, t0, seq![plain_segment(s, x)]), st.drop_last().push(top.push(x)))
            } else {
                (ExprM::Error(s, t0), st)
            }
        },
        ExprM::IntSuffix(s, _, l, r) => {
            let f = ExprM::Path(s, TypeM::Unknown, seq![plain_segment(s, postfix_name(r))]);
            (ExprM::Call(s, TypeM::Unknown, Box::new(f), seq![ExprM::Int(s, TypeM::Unknown, l)]), st)
        },
        ExprM::FloatSuffix(s, _, l, r) => {
            let f = ExprM::Path(s, TypeM::Unknown, seq![plain_segment(s, postfix_name(r))]);
            (ExprM::Call(s, TypeM::Unknown, Box::new(f), seq![ExprM::Float(s, TypeM::Unknown, l)]), st)
        },
        ExprM::Paren(_, _, e0) => d_expr(*e0, st),
        ExprM::Annotate(_, _, e0) => {
            let (r0, st1) = d_expr(*e0, st);
            (with_type(r0, t), st1)
        },
        ExprM::Match(s, _, e0, arms) => {
            let (r0, st1) = d_expr(*e0, st);
            let (ra, st2) = d_arms(arms, st1);
            (ExprM::Match(s, t, Box::new(r0), ra), st2)
        },
        ExprM::Fun(s, _, ps, t1, e0) => {
            let (r0, st1) = d_expr(*e0, st);
            (ExprM::Fun(s, t, d_params(ps), d_type(t1), Box::new(r0)), st1)
        },
        ExprM::Error(s, _) => (ExprM::Error(s, t), st),
    }
}

/// Desugaring an argument of a call. A bare placeholder stays one of the enclosing
/// argument; any other argument opens its own list, and where placeholders were met in it,
/// it becomes a function of them, in order.
pub open spec fn d_arg(e: ExprM, st: Scopes) -> (ExprM, Scopes)
    decreases e, 1nat,
{
    if e is Anonymous {
        d_expr(e, st)
    } else {
        let (r, st1) = d_expr(e, st.push(Seq::empty()));
        let xs = st1.last();
        if xs.len() == 0 {
            (r, st1.drop_last())
        } else {
            (
                ExprM::Fun(
                    span_of(r),
                    TypeM::Unknown,
                    xs.map_values(|x: Seq<char>| (x, TypeM::Unknown)),
                    TypeM::Unknown,
                    Box::new(r),
                ),
                st1.drop_last(),
            )
        }
    }
}

pub open spec fn d_args(es: Seq<ExprM>, st: Scopes) -> (Seq<ExprM>, Scopes)
    decreases es, 0nat,
{
    if es.len() == 0 {
        (Seq::empty(), st)
    } else {
        let (rs, st1) = d_args(es.drop_last(), st);
        let (r, st2) = d_arg(es.last(), st1);
        (rs.push(r), st2)
    }
}

/// Desugaring the elements of a tuple in order.
pub open spec fn d_exprs(es: Seq<ExprM>, st: Scopes) -> (Seq<ExprM>, Scopes)
    decreases es, 0nat,
{
    if es.len() == 0 {
        (Seq::empty(), st)
    } else {
        let (rs, st1) = d_exprs(es.drop_last(), st);
        let (r, st2) = d_expr(es.last(), st1);
        (rs.push(r), st2)
    }
}

pub open spec fn d_arms(arms: Seq<(PatM, ExprM)>, st: Scopes) -> (Seq<(PatM, ExprM)>, Scopes)
    decreases arms, 0nat,
{
    if arms.len() == 0 {
        (Seq::empty(), st)
    } else {
        let (rs, st1) = d_arms(arms.drop_last(), st);
        let (r, st2) = d_expr(arms.last().1, st1);
        (rs.push((d_pat(arms.last().0), r)), st2)
    }
}

/// The names of the placeholders met so far, one list for each argument being desugared.
#[derive(Debug)]
pub struct Stack {
    pub scopes: Vec<Vec<Name>>,
}

/// The characters of each name of a list.
pub open spec fn names_m(v: Vec<Name>) -> Seq<Seq<char>> {
    v@.map_values(|n: Name| n@)
}

impl View for Stack {
    type V = Scopes;

    open spec fn view(&self) -> Scopes {
        self.scopes@.map_values(|v: Vec<Name>| names_m(v))
    }
}

/// The state of desugaring.
#[derive(Debug)]
pub struct Context {
    pub anons: Stack,
}

impl View for Context {
    type V = Scopes;

    open spec fn view(&self) -> Scopes {
        self.anons@
    }
}

/// A copy of a type.
pub fn clone_type(t: &Type) -> (r: Type)
    ensures
        r@ == t@,
    decreases t,
{
    match t {
        Type::Unknown => Type::Unknown,
        Type::Named(x, ts) => Type::Named(x.clone(), clone_types(ts)),
        Type::Paren(u) => Type::Paren(Rc::new(clone_type(&**u))),
    }
}

pub fn clone_types(ts: &Vec<Type>) -> (r: Vec<Type>)
    ensures
        types_m(r@) == types_m(ts@),
    decreases ts,
{
    let mut out: Vec<Type> = Vec::new();
    let mut i: usize = 0;
    assert(ts@.take(0) =~= Seq::<Type>::empty());
    while i < ts.len()
        invariant
            i <= ts@.len(),
            types_m(out@) == types_m(ts@.take(i as int)),
        decreases ts@.len() - i,
    {
        let u = clone_type(&ts[i]);
        let ghost prev = out@;
        out.push(u);
        assert(out@.drop_last() =~= prev);
        assert(ts@.take(i + 1).drop_last() =~= ts@.take(i as int));
        i = i + 1;
    }
    assert(ts@.take(ts@.len() as int) =~= ts@);
    out
}

/// The type that an expression carries.
pub fn type_of(e: &Expr) -> (t: &Type)
    ensures
        t@ == type_of_m(e@),
{
    match e {
        Expr::Int(_, t, ..) => t,
        Expr::String(_, t, ..) => t,
        Expr::Tuple(_, t, ..) => t,
        Expr::Array(_, t, ..) => t,
        Expr::Field(_, t, ..) => t,
        Expr::Return(_, t, ..) => t,
        Expr::Break(_, t) => t,
        Expr::Continue(_, t) => t,
        Expr::Block(_, t, ..) => t,
        Expr::IfElse(_, t, ..) => t,
        Expr::While(_, t, ..) => t,
        Expr::Float(_, t, ..) => t,
        Expr::Bool(_, t, ..) => t,
        Expr::Path(_, t, ..) => t,
        Expr::Call(_, t, ..) => t,
        Expr::Dot(_, t, ..) => t,
        Expr::InfixBinaryOp(_, t, ..) => t,
        Expr::PrefixUnaryOp(_, t, ..) => t,
        Expr::Anonymous(_, t) => t,
        Expr::IntSuffix(_, t, ..) => t,
        Expr::FloatSuffix(_, t, ..) => t,
        Expr::Paren(_, t, ..) => t,
        Expr::Annotate(_, t, ..) => t,
        Expr::Match(_, t, ..) => t,
        Expr::Fun(_, t, ..) => t,
        Expr::Error(_, t) => t,
    }
}

/// The span of an expression.
pub fn span(e: &Expr) -> (s: Span)
    ensures
        s == span_of(e@),
{
    match e {
        Expr::Int(s, ..) => *s,
        Expr::String(s, ..) => *s,
        Expr::Tuple(s, ..) => *s,
        Expr::Array(s, ..) => *s,
        Expr::Field(s, ..) => *s,
        Expr::Return(s, ..) => *s,
        Expr::Break(s, ..) => *s,
        Expr::Continue(s, ..) => *s,
        Expr::Block(s, ..) => *s,
        Expr::IfElse(s, ..) => *s,
        Expr::While(s, ..) => *s,
        Expr::Float(s, ..) => *s,
        Expr::Bool(s, ..) => *s,
        Expr::Path(s, ..) => *s,
        Expr::Call(s, ..) => *s,
        Expr::Dot(s, ..) => *s,
        Expr::InfixBinaryOp(s, ..) => *s,
        Expr::PrefixUnaryOp(s, ..) => *s,
        Expr::Anonymous(s, ..) => *s,
        Expr::IntSuffix(s, ..) => *s,
        Expr::FloatSuffix(s, ..) => *s,
        Expr::Paren(s, ..) => *s,
        Expr::Annotate(s, ..) => *s,
        Expr::Match(s, ..) => *s,
        Expr::Fun(s, ..) => *s,
        Expr::Error(s, ..) => *s,
    }
}

impl Expr {
    /// The same expression with the type `t`.
    pub fn with_type(self, t: Type) -> (r: Expr)
        ensures
            r@ == with_type(self@, t@),
    {
        match self {
            Expr::Int(s, _, l) => Expr::Int(s, t, l),
            Expr::String(s, _, l) => Expr::String(s, t, l),
            Expr::Tuple(s, _, es) => Expr::Tuple(s, t, es),
            Expr::Array(s, _, es) => Expr::Array(s, t, es),
            Expr::Field(s, _, e0, x) => Expr::Field(s, t, e0, x),
            Expr::Return(s, _, e0) => Expr::Return(s, t, e0),
            Expr::Break(s, _) => Expr::Break(s, t),
            Expr::Continue(s, _) => Expr::Continue(s, t),
            Expr::Block(s, _, es, e0) => Expr::Block(s, t, es, e0),
            Expr::IfElse(s, _, c, b0, b1) => Expr::IfElse(s, t, c, b0, b1),
            Expr::While(s, _, c, b) => Expr::While(s, t, c, b),
            Expr::Float(s, _, l) => Expr::Float(s, t, l),
            Expr::Bool(s, _, b) => Expr::Bool(s, t, b),
            Expr::Path(s, _, p) => Expr::Path(s, t, p),
            Expr::Call(s, _, f, es) => Expr::Call(s, t, f, es),
            Expr::Dot(s, _, e0, x, ts, es) => Expr::Dot(s, t, e0, x, ts, es),
            Expr::InfixBinaryOp(s, _, op, e0, e1) => Expr::InfixBinaryOp(s, t, op, e0, e1),
            Expr::PrefixUnaryOp(s, _, op, e0) => Expr::PrefixUnaryOp(s, t, op, e0),
            Expr::Anonymous(s, _) => Expr::Anonymous(s, t),
            Expr::IntSuffix(s, _, l, r) => Expr::IntSuffix(s, t, l, r),
            Expr::FloatSuffix(s, _, l, r) => Expr::FloatSuffix(s, t, l, r),
            Expr::Paren(s, _, e0) => Expr::Paren(s, t, e0),
            Expr::Annotate(s, _, e0) => Expr::Annotate(s, t, e0),
            Expr::Match(s, _, e0, arms) => Expr::Match(s, t, e0, arms),
            Expr::Fun(s, _, ps, t1, e0) => Expr::Fun(s, t, ps, t1, e0),
            Expr::Error(s, _) => Expr::Error(s, t),
        }
    }
}

impl Pat {
    /// The same pattern with the type `t`.
    pub fn with_type(self, t: Type) -> (r: Pat)
        ensures
            r@ == pat_with_type(self@, t@),
    {
        match self {
            Pat::Wildcard(s, _) => Pat::Wildcard(s, t),
            Pat::Bool(s, _, b) => Pat::Bool(s, t, b),
            Pat::Var(s, _, x) => Pat::Var(s, t, x),
            Pat::Paren(s, _, q) => Pat::Paren(s, t, q),
            Pat::Annotate(s, _, q) => Pat::Annotate(s, t, q),
            Pat::Error(s, _) => Pat::Error(s, t),
        }
    }
}

/// A pattern without parentheses and annotations.
pub open spec fn pat_plain(p: PatM) -> bool {
    !(p is Paren) && !(p is Annotate)
}

/// An expression without sugar: no operator, method call, placeholder, suffix, parentheses
/// or annotation, at any depth.
pub open spec fn sugar_free(e: ExprM) -> bool
    decreases e,
{
    match e {
        ExprM::Int(..) => true,
        ExprM::String(..) => true,
        ExprM::Tuple(_, _, es) => sugar_free_all(es),
        ExprM::Array(_, _, es) => sugar_free_all(es),
        ExprM::Field(_, _, e0, _) => sugar_free(*e0),
        ExprM::Return(_, _, e0) => sugar_free(*e0),
        ExprM::Break(..) => true,
        ExprM::Continue(..) => true,
        ExprM::Block(_, _, es, e0) => sugar_free_all(es) && sugar_free(*e0),
        ExprM::IfElse(_, _, c, b0, b1) => sugar_free(*c) && sugar_free(*b0) && sugar_free(*b1),
        ExprM::While(_, _, c, b) => sugar_free(*c) && sugar_free(*b),
        ExprM::Float(..) => true,
        ExprM::Bool(..) => true,
        ExprM::Path(..) => true,
        ExprM::Error(..) => true,
        ExprM::Call(_, _, f, es) => sugar_free(*f) && sugar_free_all(es),
        ExprM::Match(_, _, e0, arms) => sugar_free(*e0) && sugar_free_arms(arms),
        ExprM::Fun(_, _, _, _, e0) => sugar_free(*e0),
        _ => false,
    }
}

pub open spec fn sugar_free_all(es: Seq<ExprM>) -> bool
    decreases es,
{
    if es.len() == 0 {
        true
    } else {
        sugar_free_all(es.drop_last()) && sugar_free(es.last())
    }
}

pub open spec fn sugar_free_arms(arms: Seq<(PatM, ExprM)>) -> bool
    decreases arms,
{
    if arms.len() == 0 {
        true
    } else {
        sugar_free_arms(arms.drop_last()) && pat_plain(arms.last().0) && sugar_free(arms.last().1)
    }
}

proof fn lemma_pat_plain(p: PatM)
    ensures
        pat_plain(d_pat(p)),
    decreases p,
{
    match p {
        PatM::Paren(_, _, q) => lemma_pat_plain(*q),
        PatM::Annotate(_, _, q) => lemma_pat_plain(*q),
        _ => {},
    }
}

proof fn lemma_prepend_free(r: ExprM, rs: Seq<ExprM>)
    requires
        sugar_free(r),
        sugar_free_all(rs),
    ensures
        sugar_free_all(seq![r] + rs),
    decreases rs.len(),
{
    assert(sugar_free_all(Seq::<ExprM>::empty()));
    if rs.len() == 0 {
        assert(seq![r] + rs =~= seq![r]);
        assert(seq![r].drop_last() =~= Seq::<ExprM>::empty());
    } else {
        lemma_prepend_free(r, rs.drop_last());
        assert((seq![r] + rs).drop_last() =~= seq![r] + rs.drop_last());
        assert((seq![r] + rs).last() == rs.last());
    }
}

/// Desugaring leaves no sugar, and leaves as many placeholder lists as it found.
pub proof fn lemma_desugar_removes_sugar(e: ExprM, st: Scopes)
    ensures
        sugar_free(d_expr(e, st).0),
        d_expr(e, st).1.len() == st.len(),
    decreases e, 0nat,
{
    match e {
        ExprM::Call(_, _, f, es) => {
            lemma_desugar_removes_sugar(*f, st);
            lemma_args_free(es, d_expr(*f, st).1);
        },
        ExprM::Dot(s, _, e0, x, ts, es) => {
            lemma_desugar_removes_sugar(*e0, st);
            lemma_args_free(es, d_expr(*e0, st).1);
            lemma_prepend_free(d_expr(*e0, st).0, d_args(es, d_expr(*e0, st).1).0);
            let (r0, st1) = d_expr(*e0, st);
            let (rs, st2) = d_args(es, st1);
            let t = d_type(type_of_m(e));
            let f = ExprM::Path(s, TypeM::Unknown, seq![SegmentM { span: s, name: x, types: ts }]);
            assert(sugar_free(f));
            assert(d_expr(e, st).0 == ExprM::Call(s, t, Box::new(f), seq![r0] + rs));
            assert(sugar_free(d_expr(e, st).0));
        },
        ExprM::InfixBinaryOp(s, _, op, e0, e1) => {
            lemma_desugar_removes_sugar(*e0, st);
            lemma_desugar_removes_sugar(*e1, d_expr(*e0, st).1);
            let r0 = d_expr(*e0, st).0;
            let r1 = d_expr(*e1, d_expr(*e0, st).1).0;
            let u = TypeM::Unknown;
            let a = seq![(PatM::Bool(s, u, true), r1), (PatM::Wildcard(s, u), ExprM::Bool(s, u, false))];
            let b = seq![(PatM::Bool(s, u, true), ExprM::Bool(s, u, true)), (PatM::Wildcard(s, u), r1)];
            assert(sugar_free_arms(Seq::<(PatM, ExprM)>::empty()));
            assert(sugar_free_all(Seq::<ExprM>::empty()));
            assert(sugar_free(ExprM::Bool(s, u, true)));
            assert(sugar_free(ExprM::Bool(s, u, false)));
            assert(a.drop_last().drop_last() =~= Seq::<(PatM, ExprM)>::empty());
            assert(b.drop_last().drop_last() =~= Seq::<(PatM, ExprM)>::empty());
            assert(sugar_free_arms(a.drop_last()));
            assert(sugar_free_arms(b.drop_last()));
            let two = seq![r0, r1];
            assert(two.drop_last().drop_last() =~= Seq::<ExprM>::empty());
            assert(sugar_free_all(two.drop_last()));
            assert(sugar_free_all(two));
            let t = d_type(type_of_m(e));
            if op == Token::And {
                assert(d_expr(e, st).0 == ExprM::Match(s, u, Box::new(r0), a));
                assert(sugar_free_arms(a));
            } else if op == Token::Or {
                assert(d_expr(e, st).0 == ExprM::Match(s, u, Box::new(r0), b));
                assert(sugar_free_arms(b));
            } else {
                match infix_method(op) {
                    Some((x0, x1)) => {
                        let f = ExprM::Path(s, u, seq![plain_segment(s, x0), plain_segment(s, x1)]);
                        assert(sugar_free(f));
                        assert(d_expr(e, st).0 == method_call(s, t, x0, x1, two));
                    },
                    None => {
                        assert(sugar_free(ExprM::Error(s, t)));
                    },
                }
            }
            assert(sugar_free(d_expr(e, st).0));
        },
        ExprM::PrefixUnaryOp(s, _, op, e0) => {
            lemma_desugar_removes_sugar(*e0, st);
            let one = seq![d_expr(*e0, st).0];
            assert(one.drop_last() =~= Seq::<ExprM>::empty());
            assert(sugar_free_all(Seq::<ExprM>::empty()));
            assert(sugar_free_all(one));
            let t = d_type(type_of_m(e));
            match prefix_method(op) {
                Some((x0, x1)) => {
                    let f = ExprM::Path(s, TypeM::Unknown, seq![plain_segment(s, x0), plain_segment(s, x1)]);
                    assert(sugar_free(f));
                    assert(d_expr(e, st).0 == method_call(s, t, x0, x1, one));
                },
                None => {
                    assert(sugar_free(ExprM::Error(s, t)));
                },
            }
            assert(sugar_free(d_expr(e, st).0));
        },
        ExprM::IntSuffix(s, _, l, r) => {
            let one = seq![ExprM::Int(s, TypeM::Unknown, l)];
            assert(one.drop_last() =~= Seq::<ExprM>::empty());
            assert(sugar_free_all(Seq::<ExprM>::empty()));
            assert(sugar_free(ExprM::Int(s, TypeM::Unknown, l)));
            assert(sugar_free_all(one));
            let f = ExprM::Path(s, TypeM::Unknown, seq![plain_segment(s, postfix_name(r))]);
            assert(sugar_free(f));
            assert(d_expr(e, st).0 == ExprM::Call(s, TypeM::Unknown, Box::new(f), one));
            assert(sugar_free(d_expr(e, st).0));
        },
        ExprM::FloatSuffix(s, _, l, r) => {
            let one = seq![ExprM::Float(s, TypeM::Unknown, l)];
            assert(one.drop_last() =~= Seq::<ExprM>::empty());
            assert(sugar_free_all(Seq::<ExprM>::empty()));
            assert(sugar_free(ExprM::Float(s, TypeM::Unknown, l)));
            assert(sugar_free_all(one));
            let f = ExprM::Path(s, TypeM::Unknown, seq![plain_segment(s, postfix_name(r))]);
            assert(sugar_free(f));
            assert(d_expr(e, st).0 == ExprM::Call(s, TypeM::Unknown, Box::new(f), one));
            assert(sugar_free(d_expr(e, st).0));
        },
        ExprM::Paren(_, _, e0) => {
            lemma_desugar_removes_sugar(*e0, st);
        },
        ExprM::Annotate(_, _, e0) => {
            lemma_desugar_removes_sugar(*e0, st);
        },
        ExprM::Match(_, _, e0, arms) => {
            lemma_desugar_removes_sugar(*e0, st);
            lemma_arms_free(arms, d_expr(*e0, st).1);
        },
        ExprM::Fun(_, _, _, _, e0) => {
            lemma_desugar_removes_sugar(*e0, st);
        },
        ExprM::Tuple(_, _, es) => {
            lemma_exprs_free(es, st);
        },
        ExprM::Array(_, _, es) => {
            lemma_exprs_free(es, st);
        },
        ExprM::Field(_, _, e0, _) => {
            lemma_desugar_removes_sugar(*e0, st);
        },
        ExprM::Return(_, _, e0) => {
            lemma_desugar_removes_sugar(*e0, st);
        },
        ExprM::Block(_, _, es, e0) => {
            lemma_exprs_free(es, st);
            lemma_desugar_removes_sugar(*e0, d_exprs(es, st).1);
        },
        ExprM::IfElse(_, _, c, b0, b1) => {
            lemma_desugar_removes_sugar(*c, st);
            let st1 = d_expr(*c, st).1;
            lemma_desugar_removes_sugar(*b0, st1);
            lemma_desugar_removes_sugar(*b1, d_expr(*b0, st1).1);
        },
        ExprM::While(_, _, c, b) => {
            lemma_desugar_removes_sugar(*c, st);
            lemma_desugar_removes_sugar(*b, d_expr(*c, st).1);
        },
        _ => {},
    }
}

proof fn lemma_arg_free(e: ExprM, st: Scopes)
    ensures
        sugar_free(d_arg(e, st).0),
        d_arg(e, st).1.len() == st.len(),
    decreases e, 1nat,
{
    if e is Anonymous {
        lemma_desugar_removes_sugar(e, st);
    } else {
        lemma_desugar_removes_sugar(e, st.push(Seq::empty()));
    }
}

proof fn lemma_args_free(es: Seq<ExprM>, st: Scopes)
    ensures
        sugar_free_all(d_args(es, st).0),
        d_args(es, st).1.len() == st.len(),
    decreases es, 0nat,
{
    if es.len() > 0 {
        lemma_args_free(es.drop_last(), st);
        let (rs, st1) = d_args(es.drop_last(), st);
        lemma_arg_free(es.last(), st1);
        let r = d_arg(es.last(), st1).0;
        assert(rs.push(r).drop_last() =~= rs);
    }
}

proof fn lemma_exprs_free(es: Seq<ExprM>, st: Scopes)
    ensures
        sugar_free_all(d_exprs(es, st).0),
        d_exprs(es, st).1.len() == st.len(),
    decreases es, 0nat,
{
    if es.len() > 0 {
        lemma_exprs_free(es.drop_last(), st);
        let (rs, st1) = d_exprs(es.drop_last(), st);
        lemma_desugar_removes_sugar(es.last(), st1);
        let r = d_expr(es.last(), st1).0;
        assert(rs.push(r).drop_last() =~= rs);
    }
}

proof fn lemma_arms_free(arms: Seq<(PatM, ExprM)>, st: Scopes)
    ensures
        sugar_free_arms(d_arms(arms, st).0),
        d_arms(arms, st).1.len() == st.len(),
    decreases arms, 0nat,
{
    if arms.len() > 0 {
        lemma_arms_free(arms.drop_last(), st);
        let (rs, st1) = d_arms(arms.drop_last(), st);
        lemma_desugar_removes_sugar(arms.last().1, st1);
        lemma_pat_plain(arms.last().0);
        let r = (d_pat(arms.last().0), d_expr(arms.last().1, st1).0);
        assert(rs.push(r).drop_last() =~= rs);
    }
}

/// A type without parentheses, at any depth.
pub open spec fn type_plain(t: TypeM) -> bool
    decreases t,
{
    match t {
        TypeM::Unknown => true,
        TypeM::Named(_, ts) => types_plain(ts),
        TypeM::Paren(_) => false,
    }
}

pub open spec fn types_plain(ts: Seq<TypeM>) -> bool
    decreases ts,
{
    if ts.len() == 0 {
        true
    } else {
        types_plain(ts.drop_last()) && type_plain(ts.last())
    }
}

/// Path segments whose type arguments have no parentheses.
pub open spec fn segments_plain(ss: Seq<SegmentM>) -> bool
    decreases ss.len(),
{
    if ss.len() == 0 {
        true
    } else {
        segments_plain(ss.drop_last()) && types_plain(ss.last().types)
    }
}

/// Parameters whose types have no parentheses.
pub open spec fn params_plain(ps: Seq<(Seq<char>, TypeM)>) -> bool
    decreases ps.len(),
{
    if ps.len() == 0 {
        true
    } else {
        params_plain(ps.drop_last()) && type_plain(ps.last().1)
    }
}

/// A pattern without parentheses or annotation, whose type has no parentheses.
pub open spec fn pat_clean(p: PatM) -> bool {
    match p {
        PatM::Wildcard(_, t) => type_plain(t),
        PatM::Bool(_, t, _) => type_plain(t),
        PatM::Var(_, t, _) => type_plain(t),
        PatM::Error(_, t) => type_plain(t),
        _ => false,
    }
}

/// An expression that desugaring has nothing to do to: no sugar at any depth (see
/// `sugar_free`), and no parentheses in any type, pattern or path inside it.
pub open spec fn plain_expr(e: ExprM) -> bool
    decreases e,
{
    type_plain(type_of_m(e)) && match e {
        ExprM::Int(..) => true,
        ExprM::String(..) => true,
        ExprM::Tuple(_, _, es) => plain_all(es),
        ExprM::Array(_, _, es) => plain_all(es),
        ExprM::Field(_, _, e0, _) => plain_expr(*e0),
        ExprM::Return(_, _, e0) => plain_expr(*e0),
        ExprM::Break(..) => true,
        ExprM::Continue(..) => true,
        ExprM::Block(_, _, es, e0) => plain_all(es) && plain_expr(*e0),
        ExprM::IfElse(_, _, c, b0, b1) => plain_expr(*c) && plain_expr(*b0) && plain_expr(*b1),
        ExprM::While(_, _, c, b) => plain_expr(*c) && plain_expr(*b),
        ExprM::Float(..) => true,
        ExprM::Bool(..) => true,
        ExprM::Path(_, _, p) => segments_plain(p),
        ExprM::Error(..) => true,
        ExprM::Call(_, _, f, es) => plain_expr(*f) && plain_all(es),
        ExprM::Match(_, _, e0, arms) => plain_expr(*e0) && plain_arms(arms),
        ExprM::Fun(_, _, ps, t1, e0) => params_plain(ps) && type_plain(t1) && plain_expr(*e0),
        _ => false,
    }
}

pub open spec fn plain_all(es: Seq<ExprM>) -> bool
    decreases es,
{
    if es.len() == 0 {
        true
    } else {
        plain_all(es.drop_last()) && plain_expr(es.last())
    }
}

pub open spec fn plain_arms(arms: Seq<(PatM, ExprM)>) -> bool
    decreases arms,
{
    if arms.len() == 0 {
        true
    } else {
        plain_arms(arms.drop_last()) && pat_clean(arms.last().0) && plain_expr(arms.last().1)
    }
}

proof fn lemma_type_plain_id(t: TypeM)
    requires
        type_plain(t),
    ensures
        d_type(t) == t,
    decreases t, 1nat,
{
    if let TypeM::Named(_, ts) = t {
        lemma_types_plain_id(ts);
    }
}

proof fn lemma_types_plain_id(ts: Seq<TypeM>)
    requires
        types_plain(ts),
    ensures
        d_types(ts) == ts,
    decreases ts, 0nat,
{
    if ts.len() > 0 {
        lemma_types_plain_id(ts.drop_last());
        lemma_type_plain_id(ts.last());
        assert(ts.drop_last().push(ts.last()) =~= ts);
    } else {
        assert(ts =~= Seq::<TypeM>::empty());
    }
}

proof fn lemma_segments_plain_id(ss: Seq<SegmentM>)
    requires
        segments_plain(ss),
    ensures
        d_segments(ss) == ss,
    decreases ss.len(),
{
    if ss.len() > 0 {
        lemma_segments_plain_id(ss.drop_last());
        lemma_types_plain_id(ss.last().types);
        assert(ss.drop_last().push(ss.last()) =~= ss);
    } else {
        assert(ss =~= Seq::<SegmentM>::empty());
    }
}

proof fn lemma_params_plain_id(ps: Seq<(Seq<char>, TypeM)>)
    requires
        params_plain(ps),
    ensures
        d_params(ps) == ps,
    decreases ps.len(),
{
    if ps.len() > 0 {
        lemma_params_plain_id(ps.drop_last());
        lemma_type_plain_id(ps.last().1);
        assert(ps.drop_last().push(ps.last()) =~= ps);
    } else {
        assert(ps =~= Seq::<(Seq<char>, TypeM)>::empty());
    }
}

/// Desugaring is the identity on code with nothing to desugar: every part of such an
/// expression is kept in place (the condition, the then-branch and the else-branch of an
/// `if`, the callee and the arguments of a call, the arms of a match, ...), and the
/// placeholder lists are left as they were.
pub proof fn lemma_desugar_keeps_plain(e: ExprM, st: Scopes)
    requires
        plain_expr(e),
    ensures
        d_expr(e, st) == (e, st),
    decreases e, 0nat,
{
    lemma_type_plain_id(type_of_m(e));
    match e {
        ExprM::Tuple(_, _, es) => {
            lemma_exprs_plain_id(es, st);
        },
        ExprM::Array(_, _, es) => {
            lemma_exprs_plain_id(es, st);
        },
        ExprM::Field(_, _, e0, _) => {
            lemma_desugar_keeps_plain(*e0, st);
        },
        ExprM::Return(_, _, e0) => {
            lemma_desugar_keeps_plain(*e0, st);
        },
        ExprM::Block(_, _, es, e0) => {
            lemma_exprs_plain_id(es, st);
            lemma_desugar_keeps_plain(*e0, st);
        },
        ExprM::IfElse(_, _, c, b0, b1) => {
            lemma_desugar_keeps_plain(*c, st);
            lemma_desugar_keeps_plain(*b0, st);
            lemma_desugar_keeps_plain(*b1, st);
        },
        ExprM::While(_, _, c, b) => {
            lemma_desugar_keeps_plain(*c, st);
            lemma_desugar_keeps_plain(*b, st);
        },
        ExprM::Path(_, _, p) => {
            lemma_segments_plain_id(p);
        },
        ExprM::Call(_, _, f, es) => {
            lemma_desugar_keeps_plain(*f, st);
            lemma_args_plain_id(es, st);
        },
        ExprM::Match(_, _, e0, arms) => {
            lemma_desugar_keeps_plain(*e0, st);
            lemma_arms_plain_id(arms, st);
        },
        ExprM::Fun(_, _, ps, t1, e0) => {
            lemma_params_plain_id(ps);
            lemma_type_plain_id(t1);
            lemma_desugar_keeps_plain(*e0, st);
        },
        _ => {},
    }
}

proof fn lemma_arg_plain_id(e: ExprM, st: Scopes)
    requires
        plain_expr(e),
    ensures
        d_arg(e, st) == (e, st),
    decreases e, 1nat,
{
    lemma_desugar_keeps_plain(e, st.push(Seq::empty()));
    assert(st.push(Seq::empty()).drop_last() =~= st);
}

proof fn lemma_args_plain_id(es: Seq<ExprM>, st: Scopes)
    requires
        plain_all(es),
    ensures
        d_args(es, st) == (es, st),
    decreases es, 0nat,
{
    if es.len() > 0 {
        lemma_args_plain_id(es.drop_last(), st);
        lemma_arg_plain_id(es.last(), st);
        assert(es.drop_last().push(es.last()) =~= es);
    } else {
        assert(es =~= Seq::<ExprM>::empty());
    }
}

proof fn lemma_exprs_plain_id(es: Seq<ExprM>, st: Scopes)
    requires
        plain_all(es),
    ensures
        d_exprs(es, st) == (es, st),
    decreases es, 0nat,
{
    if es.len() > 0 {
        lemma_exprs_plain_id(es.drop_last(), st);
        lemma_desugar_keeps_plain(es.last(), st);
        assert(es.drop_last().push(es.last()) =~= es);
    } else {
        assert(es =~= Seq::<ExprM>::empty());
    }
}

proof fn lemma_arms_plain_id(arms: Seq<(PatM, ExprM)>, st: Scopes)
    requires
        plain_arms(arms),
    ensures
        d_arms(arms, st) == (arms, st),
    decreases arms, 0nat,
{
    if arms.len() > 0 {
        lemma_arms_plain_id(arms.drop_last(), st);
        lemma_desugar_keeps_plain(arms.last().1, st);
        let p = arms.last().0;
        match p {
            PatM::Wildcard(_, t) => lemma_type_plain_id(t),
            PatM::Bool(_, t, _) => lemma_type_plain_id(t),
            PatM::Var(_, t, _) => lemma_type_plain_id(t),
            PatM::Error(_, t) => lemma_type_plain_id(t),
            _ => {},
        }
        assert(d_pat(p) == p);
        assert(arms.drop_last().push(arms.last()) =~= arms);
    } else {
        assert(arms =~= Seq::<(PatM, ExprM)>::empty());
    }
}

/// Desugaring an `if` keeps its parts in place: the result is an `if` whose condition,
/// then-branch and else-branch are the desugared condition, then-branch and else-branch of
/// the input, each desugared with the placeholder lists left by the part before it.
pub proof fn lemma_desugar_if_in_place(
    s: Span,
    t: TypeM,
    c: ExprM,
    b0: ExprM,
    b1: ExprM,
    st: Scopes,
)
    ensures
        ({
            let (rc, st1) = d_expr(c, st);
            let (r0, st2) = d_expr(b0, st1);
            let (r1, st3) = d_expr(b1, st2);
            d_expr(ExprM::IfElse(s, t, Box::new(c), Box::new(b0), Box::new(b1)), st) == (
                ExprM::IfElse(s, d_type(t), Box::new(rc), Box::new(r0), Box::new(r1)),
                st3,
            )
        }),
{
}

/// Desugaring an operator keeps its operands in order, the left one desugared first: `a and b`
/// becomes `match a { true => b, _ => false }`, `a or b` becomes
/// `match a { true => true, _ => b }`, and any other operator with a trait method becomes a
/// call of that method on the left operand and then the right one.
pub proof fn lemma_desugar_infix(s: Span, t: TypeM, op: Token, e0: ExprM, e1: ExprM, st: Scopes)
    ensures
        ({
            let (r0, st1) = d_expr(e0, st);
            let (r1, st2) = d_expr(e1, st1);
            let u = TypeM::Unknown;
            let out = d_expr(ExprM::InfixBinaryOp(s, t, op, Box::new(e0), Box::new(e1)), st);
            &&& out.1 == st2
            &&& op == Token::And ==> out.0 == ExprM::Match(
                s,
                u,
                Box::new(r0),
                seq![
                    (PatM::Bool(s, u, true), r1),
                    (PatM::Wildcard(s, u), ExprM::Bool(s, u, false)),
                ],
            )
            &&& op == Token::Or ==> out.0 == ExprM::Match(
                s,
                u,
                Box::new(r0),
                seq![
                    (PatM::Bool(s, u, true), ExprM::Bool(s, u, true)),
                    (PatM::Wildcard(s, u), r1),
                ],
            )
            &&& op != Token::And && op != Token::Or && infix_method(op) is Some ==> out.0
                == method_call(
                s,
                d_type(t),
                infix_method(op).unwrap().0,
                infix_method(op).unwrap().1,
                seq![r0, r1],
            )
        }),
{
}

/// A method call `e0.x::<ts>(es)` becomes a call of `x::<ts>` with the receiver as its first
/// argument, followed by the arguments in order.
pub proof fn lemma_desugar_method_call(
    s: Span,
    t: TypeM,
    e0: ExprM,
    x: Seq<char>,
    ts: Seq<TypeM>,
    es: Seq<ExprM>,
    st: Scopes,
)
    ensures
        ({
            let (r0, st1) = d_expr(e0, st);
            let (rs, st2) = d_args(es, st1);
            d_expr(ExprM::Dot(s, t, Box::new(e0), x, ts, es), st) == (
                ExprM::Call(
                    s,
                    d_type(t),
                    Box::new(ExprM::Path(s, TypeM::Unknown, seq![SegmentM { span: s, name: x, types: ts }])),
                    seq![r0] + rs,
                ),
                st2,
            )
        }),
{
}

proof fn lemma_exprs_m_empty()
    ensures
        exprs_m(Seq::<Expr>::empty()) == Seq::<ExprM>::empty(),
{
}

proof fn lemma_exprs_m_push(s: Seq<Expr>, e: Expr)
    ensures
        exprs_m(s.push(e)) == exprs_m(s).push(e@),
{
    assert(s.push(e).drop_last() =~= s);
}

proof fn lemma_d_args_push(ms: Seq<ExprM>, m: ExprM, st: Scopes)
    ensures
        d_args(ms.push(m), st) == ({
            let (rs, st1) = d_args(ms, st);
            let (r, st2) = d_arg(m, st1);
            (rs.push(r), st2)
        }),
{
    assert(ms.push(m).drop_last() =~= ms);
}

proof fn lemma_d_exprs_push(ms: Seq<ExprM>, m: ExprM, st: Scopes)
    ensures
        d_exprs(ms.push(m), st) == ({
            let (rs, st1) = d_exprs(ms, st);
            let (r, st2) = d_expr(m, st1);
            (rs.push(r), st2)
        }),
{
    assert(ms.push(m).drop_last() =~= ms);
}

proof fn lemma_ops_known_index(s: Seq<Expr>, i: int)
    requires
        ops_known_all(exprs_m(s)),
        0 <= i < s.len(),
    ensures
        ops_known(s[i]@),
    decreases s.len(),
{
    let d = s.drop_last();
    assert(s =~= d.push(s.last()));
    lemma_exprs_m_push(d, s.last());
    assert(exprs_m(d).push(s.last()@).drop_last() =~= exprs_m(d));
    if i < s.len() - 1 {
        lemma_ops_known_index(d, i);
    }
}

proof fn lemma_ops_known_arm(s: Seq<(Pat, Expr)>, i: int)
    requires
        ops_known_arms(arms_m(s)),
        0 <= i < s.len(),
    ensures
        ops_known(s[i].1@),
    decreases s.len(),
{
    let d = s.drop_last();
    assert(s.drop_last() =~= d);
    let y = (s.last().0@, s.last().1@);
    assert(arms_m(d).push(y).drop_last() =~= arms_m(d));
    if i < s.len() - 1 {
        lemma_ops_known_arm(d, i);
    }
}

/// The name of the placeholder numbered `n`.
fn anon_name_of(n: usize) -> (x: Name)
    ensures
        x@ == anon_name(n as nat),
{
    let mut d = to_owned_string("_");
    let k = decimal_string(n);
    d.append(k.as_str());
    Name::from_string(d)
}

/// The name of the function for the suffix `r`.
fn postfix_name_of(r: &Name) -> (x: Name)
    ensures
        x@ == postfix_name(r@),
{
    let mut d = to_owned_string("postfix_");
    d.append(r.as_str());
    Name::from_string(d)
}

/// The path of one segment `x` at `s` with the type arguments `ts`.
fn named_path(s: Span, x: Name, ts: Vec<Type>) -> (p: Path)
    ensures
        segments_m(p.segments@) == seq![SegmentM { span: s, name: x@, types: types_m(ts@) }],
{
    let ghost g = SegmentM { span: s, name: x@, types: types_m(ts@) };
    let mut v: Vec<Segment> = Vec::new();
    v.push(Segment { span: s, name: x, types: ts });
    proof {
        assert(v@.drop_last() =~= Seq::<Segment>::empty());
        assert(segments_m(Seq::<Segment>::empty()) == Seq::<SegmentM>::empty());
        assert(segments_m(v@) =~= seq![g]);
    }
    Path { segments: v }
}

/// The path `x0::x1`, both segments at `s` with no type arguments.
fn method_path(s: Span, x0: &str, x1: &str) -> (p: Path)
    ensures
        segments_m(p.segments@) == seq![plain_segment(s, x0@), plain_segment(s, x1@)],
{
    let mut v: Vec<Segment> = Vec::new();
    v.push(Segment { span: s, name: Name::from_str(x0), types: Vec::new() });
    let ghost v1 = v@;
    v.push(Segment { span: s, name: Name::from_str(x1), types: Vec::new() });
    proof {
        assert(v1.drop_last() =~= Seq::<Segment>::empty());
        assert(segments_m(Seq::<Segment>::empty()) == Seq::<SegmentM>::empty());
        assert(v@.drop_last() =~= v1);
        assert(types_m(Seq::<Type>::empty()) == Seq::<TypeM>::empty());
        assert(segments_m(v1) =~= seq![plain_segment(s, x0@)]);
        assert(segments_m(v@) =~= seq![plain_segment(s, x0@), plain_segment(s, x1@)]);
    }
    Path { segments: v }
}

/// A list holding the single expression `e`.
fn one_expr(e: Expr) -> (v: Vec<Expr>)
    ensures
        exprs_m(v@) == seq![e@],
{
    let mut v: Vec<Expr> = Vec::new();
    v.push(e);
    proof {
        lemma_exprs_m_empty();
        lemma_exprs_m_push(Seq::empty(), e);
        assert(v@ =~= Seq::<Expr>::empty().push(e));
        assert(Seq::<ExprM>::empty().push(e@) =~= seq![e@]);
    }
    v
}

/// The two arms `p0 => e0` and `p1 => e1`.
fn two_arms(p0: Pat, e0: Expr, p1: Pat, e1: Expr) -> (v: Vec<(Pat, Expr)>)
    ensures
        arms_m(v@) == seq![(p0@, e0@), (p1@, e1@)],
{
    let ghost a = (p0@, e0@);
    let ghost b = (p1@, e1@);
    let mut v: Vec<(Pat, Expr)> = Vec::new();
    v.push((p0, e0));
    let ghost v1 = v@;
    v.push((p1, e1));
    proof {
        assert(v1.drop_last() =~= Seq::<(Pat, Expr)>::empty());
        assert(arms_m(Seq::<(Pat, Expr)>::empty()) == Seq::<(PatM, ExprM)>::empty());
        assert(v@.drop_last() =~= v1);
        assert(arms_m(v1) =~= seq![a]);
        assert(arms_m(v@) =~= seq![a, b]);
    }
    v
}

/// A prefix operator applied to `e`, as a call of the method `x0::x1`.
pub fn unop(s: Span, t: Type, x0: &str, x1: &str, e: Expr) -> (r: Expr)
    ensures
        r@ == method_call(s, t@, x0@, x1@, seq![e@]),
{
    let fun = Expr::Path(s, Type::Unknown, method_path(s, x0, x1));
    assert(fun@ == ExprM::Path(s, TypeM::Unknown, seq![plain_segment(s, x0@), plain_segment(s, x1@)]));
    let es = one_expr(e);
    let r = Expr::Call(s, t, Rc::new(fun), es);
    assert(r@ =~= method_call(s, t@, x0@, x1@, seq![e@]));
    r
}

/// An infix operator applied to `e0` and `e1`, as a call of the method `x0::x1`.
pub fn infix(s: Span, t: Type, x0: &str, x1: &str, e0: Expr, e1: Expr) -> (r: Expr)
    ensures
        r@ == method_call(s, t@, x0@, x1@, seq![e0@, e1@]),
{
    let fun = Expr::Path(s, Type::Unknown, method_path(s, x0, x1));
    let mut es: Vec<Expr> = Vec::new();
    es.push(e0);
    let ghost v1 = es@;
    es.push(e1);
    proof {
        lemma_exprs_m_empty();
        lemma_exprs_m_push(Seq::empty(), e0);
        assert(v1 =~= Seq::<Expr>::empty().push(e0));
        assert(es@ =~= v1.push(e1));
        lemma_exprs_m_push(v1, e1);
        assert(exprs_m(es@) =~= seq![e0@, e1@]);
    }
    assert(fun@ == ExprM::Path(s, TypeM::Unknown, seq![plain_segment(s, x0@), plain_segment(s, x1@)]));
    let r = Expr::Call(s, t, Rc::new(fun), es);
    assert(r@ =~= method_call(s, t@, x0@, x1@, seq![e0@, e1@]));
    r
}

impl Context {
    pub fn new() -> (c: Context)
        ensures
            c@ == Seq::<Seq<Seq<char>>>::empty(),
    {
        let c = Context { anons: Stack { scopes: Vec::new() } };
        assert(c@ =~= Seq::<Seq<Seq<char>>>::empty());
        c
    }

    /// A type without parentheses.
    pub fn map_type(&self, t: &Type) -> (r: Type)
        ensures
            r@ == d_type(t@),
        decreases t,
    {
        match t {
            Type::Unknown => Type::Unknown,
            Type::Named(x, ts) => Type::Named(x.clone(), self.map_types(ts)),
            Type::Paren(u) => self.map_type(&**u),
        }
    }

    pub fn map_types(&self, ts: &Vec<Type>) -> (r: Vec<Type>)
        ensures
            types_m(r@) == d_types(types_m(ts@)),
        decreases ts,
    {
        let mut out: Vec<Type> = Vec::new();
        let mut i: usize = 0;
        assert(ts@.take(0) =~= Seq::<Type>::empty());
        while i < ts.len()
            invariant
                i <= ts@.len(),
                types_m(out@) == d_types(types_m(ts@.take(i as int))),
            decreases ts@.len() - i,
        {
            let u = self.map_type(&ts[i]);
            let ghost prev = out@;
            out.push(u);
            assert(out@.drop_last() =~= prev);
            assert(ts@.take(i + 1).drop_last() =~= ts@.take(i as int));
            let ghost m = types_m(ts@.take(i as int));
            assert(types_m(ts@.take(i + 1)) == m.push(ts@[i as int]@));
            assert(m.push(ts@[i as int]@).drop_last() =~= m);
            i = i + 1;
        }
        assert(ts@.take(ts@.len() as int) =~= ts@);
        out
    }

    /// A path with the types of its segments desugared.
    pub fn map_path(&self, p: &Path) -> (r: Path)
        ensures
            segments_m(r.segments@) == d_segments(segments_m(p.segments@)),
    {
        let ss = &p.segments;
        let mut out: Vec<Segment> = Vec::new();
        let mut i: usize = 0;
        assert(ss@.take(0) =~= Seq::<Segment>::empty());
        while i < ss.len()
            invariant
                i <= ss@.len(),
                segments_m(out@) == d_segments(segments_m(ss@.take(i as int))),
            decreases ss@.len() - i,
        {
            let g = &ss[i];
            let u = Segment { span: g.span, name: g.name.clone(), types: self.map_types(&g.types) };
            let ghost prev = out@;
            out.push(u);
            assert(out@.drop_last() =~= prev);
            assert(ss@.take(i + 1).drop_last() =~= ss@.take(i as int));
            let ghost m = segments_m(ss@.take(i as int));
            let ghost y = syntax::segment_m(ss@[i as int]);
            assert(segments_m(ss@.take(i + 1)) == m.push(y));
            assert(m.push(y).drop_last() =~= m);
            i = i + 1;
        }
        assert(ss@.take(ss@.len() as int) =~= ss@);
        Path { segments: out }
    }

    /// A pattern without parentheses and annotations.
    pub fn map_pattern(&self, p: &Pat) -> (r: Pat)
        ensures
            r@ == d_pat(p@),
        decreases p,
    {
        match p {
            Pat::Wildcard(s, t) => Pat::Wildcard(*s, self.map_type(t)),
            Pat::Bool(s, t, b) => Pat::Bool(*s, self.map_type(t), *b),
            Pat::Var(s, t, x) => Pat::Var(*s, self.map_type(t), x.clone()),
            Pat::Paren(_, _, q) => self.map_pattern(&**q),
            Pat::Annotate(_, t, q) => {
                let t1 = self.map_type(t);
                let q1 = self.map_pattern(&**q);
                q1.with_type(t1)
            },
            Pat::Error(s, t) => Pat::Error(*s, self.map_type(t)),
        }
    }

    pub fn map_params(&self, ps: &Vec<(Name, Type)>) -> (r: Vec<(Name, Type)>)
        ensures
            params_m(r@) == d_params(params_m(ps@)),
    {
        let mut out: Vec<(Name, Type)> = Vec::new();
        let mut i: usize = 0;
        assert(ps@.take(0) =~= Seq::<(Name, Type)>::empty());
        while i < ps.len()
            invariant
                i <= ps@.len(),
                params_m(out@) == d_params(params_m(ps@.take(i as int))),
            decreases ps@.len() - i,
        {
            let u = (ps[i].0.clone(), self.map_type(&ps[i].1));
            let ghost prev = out@;
            out.push(u);
            assert(out@.drop_last() =~= prev);
            assert(ps@.take(i + 1).drop_last() =~= ps@.take(i as int));
            let ghost m = params_m(ps@.take(i as int));
            let ghost y = (ps@[i as int].0@, ps@[i as int].1@);
            assert(params_m(ps@.take(i + 1)) == m.push(y));
            assert(m.push(y).drop_last() =~= m);
            i = i + 1;
        }
        assert(ps@.take(ps@.len() as int) =~= ps@);
        out
    }



    /// Desugars an expression; see `d_expr`.
    pub fn map_expr(&mut self, e: &Expr) -> (r: Expr)
        requires
            ops_known(e@),
        ensures
            r@ == d_expr(e@, old(self)@).0,
            final(self)@ == d_expr(e@, old(self)@).1,
            final(self)@.len() == old(self)@.len(),
        decreases e, 0nat,
    {
        let t = self.map_type(type_of(e));
        match e {
            Expr::Int(s, _, l) => Expr::Int(*s, t, l.clone()),
            Expr::String(s, _, l) => Expr::String(*s, t, l.clone()),
            Expr::Tuple(s, _, es) => {
                proof {
                    lemma_exprs_m_empty();
                }
                let rs = self.map_exprs(es, Vec::new());
                proof {
                    assert(exprs_m(rs@) =~= d_exprs(exprs_m(es@), old(self)@).0);
                }
                Expr::Tuple(*s, t, rs)
            },
            Expr::Array(s, _, es) => {
                proof {
                    lemma_exprs_m_empty();
                }
                let rs = self.map_exprs(es, Vec::new());
                proof {
                    assert(exprs_m(rs@) =~= d_exprs(exprs_m(es@), old(self)@).0);
                }
                Expr::Array(*s, t, rs)
            },
            Expr::Field(s, _, e0, x) => {
                let r0 = self.map_expr(&**e0);
                Expr::Field(*s, t, Rc::new(r0), x.clone())
            },
            Expr::Return(s, _, e0) => {
                let r0 = self.map_expr(&**e0);
                Expr::Return(*s, t, Rc::new(r0))
            },
            Expr::Break(s, _) => Expr::Break(*s, t),
            Expr::Continue(s, _) => Expr::Continue(*s, t),
            Expr::Block(s, _, es, e0) => {
                proof {
                    lemma_exprs_m_empty();
                }
                let rs = self.map_exprs(es, Vec::new());
                proof {
                    assert(exprs_m(rs@) =~= d_exprs(exprs_m(es@), old(self)@).0);
                }
                let r0 = self.map_expr(&**e0);
                Expr::Block(*s, t, rs, Rc::new(r0))
            },
            Expr::IfElse(s, _, c, b0, b1) => {
                let rc = self.map_expr(&**c);
                let r0 = self.map_expr(&**b0);
                let r1 = self.map_expr(&**b1);
                Expr::IfElse(*s, t, Rc::new(rc), Rc::new(r0), Rc::new(r1))
            },
            Expr::While(s, _, c, b) => {
                let rc = self.map_expr(&**c);
                let rb = self.map_expr(&**b);
                Expr::While(*s, t, Rc::new(rc), Rc::new(rb))
            },
            Expr::Float(s, _, l) => Expr::Float(*s, t, l.clone()),
            Expr::Bool(s, _, b) => Expr::Bool(*s, t, *b),
            Expr::Path(s, _, p) => Expr::Path(*s, t, self.map_path(p)),
            Expr::Call(s, _, f, es) => {
                let rf = self.map_expr(&**f);
                proof {
                    lemma_exprs_m_empty();
                }
                let rs = self.map_args(es, Vec::new());
                proof {
                    assert(exprs_m(rs@) =~= d_args(exprs_m(es@), d_expr(f@, old(self)@).1).0);
                }
                Expr::Call(*s, t, Rc::new(rf), rs)
            },
            Expr::Dot(s, _, e0, x, ts, es) => {
                let r0 = self.map_expr(&**e0);
                let mut first: Vec<Expr> = Vec::new();
                first.push(r0);
                proof {
                    lemma_exprs_m_empty();
                    lemma_exprs_m_push(Seq::empty(), r0);
                    assert(first@ =~= Seq::<Expr>::empty().push(r0));
                }
                let rs = self.map_args(es, first);
                let f = Expr::Path(*s, Type::Unknown, named_path(*s, x.clone(), clone_types(ts)));
                assert(f@ == ExprM::Path(*s, TypeM::Unknown, seq![SegmentM { span: *s, name: x@, types: types_m(ts@) }]));
                Expr::Call(*s, t, Rc::new(f), rs)
            },
            Expr::InfixBinaryOp(s, _, op, e0, e1) => {
                let r0 = self.map_expr(&**e0);
                let r1 = self.map_expr(&**e1);
                match *op {
                    Token::And => {
                        let arms = two_arms(
                            Pat::Bool(*s, Type::Unknown, true),
                            r1,
                            Pat::Wildcard(*s, Type::Unknown),
                            Expr::Bool(*s, Type::Unknown, false),
                        );
                        Expr::Match(*s, Type::Unknown, Rc::new(r0), arms)
                    },
                    Token::Or => {
                        let arms = two_arms(
                            Pat::Bool(*s, Type::Unknown, true),
                            Expr::Bool(*s, Type::Unknown, true),
                            Pat::Wildcard(*s, Type::Unknown),
                            r1,
                        );
                        Expr::Match(*s, Type::Unknown, Rc::new(r0), arms)
                    },
                    Token::Plus => infix(*s, t, "Add", "add", r0, r1),
                    Token::Minus => infix(*s, t, "Sub", "sub", r0, r1),
                    Token::Star => infix(*s, t, "Mul", "mul", r0, r1),
                    Token::Slash => infix(*s, t, "Div", "div", r0, r1),
                    Token::Gt => infix(*s, t, "PartialOrd", "gt", r0, r1),
                    Token::Ge => infix(*s, t, "PartialOrd", "ge", r0, r1),
                    Token::Lt => infix(*s, t, "PartialOrd", "lt", r0, r1),
                    Token::Le => infix(*s, t, "PartialOrd", "le", r0, r1),
                    Token::EqEq => infix(*s, t, "PartialEq", "eq", r0, r1),
                    Token::NotEq => infix(*s, t, "PartialEq", "ne", r0, r1),
                    Token::DotDot => infix(*s, t, "Range", "range", r0, r1),
                    _ => vstd::pervasive::unreached(),
                }
            },
            Expr::PrefixUnaryOp(s, _, op, e0) => {
                let r0 = self.map_expr(&**e0);
                match *op {
                    Token::Minus => unop(*s, t, "Neg", "neg", r0),
                    Token::Not => unop(*s, t, "Not", "not", r0),
                    _ => vstd::pervasive::unreached(),
                }
            },
            Expr::Anonymous(s, t0) => {
                let n = self.anons.scopes.len();
                if n > 0 {
                    let ghost sc = self.anons.scopes@;
                    let mut top = self.anons.scopes.pop().unwrap();
                    let x = anon_name_of(top.len());
                    let ghost old_top = top;
                    top.push(x.clone());
                    self.anons.scopes.push(top);
                    proof {
                        assert(names_m(top) =~= names_m(old_top).push(x@));
                        assert(self@ =~= old(self)@.drop_last().push(old(self)@.last().push(x@)));
                    }
                    let p = named_path(*s, x, Vec::new());
                    assert(types_m(Seq::<Type>::empty()) == Seq::<TypeM>::empty());
                    Expr::Path(*s, clone_type(t0), p)
                } else {
                    Expr::Error(*s, clone_type(t0))
                }
            },
            Expr::IntSuffix(s, _, l, r) => {
                let f = Expr::Path(*s, Type::Unknown, named_path(*s, postfix_name_of(r), Vec::new()));
                assert(f@ == ExprM::Path(*s, TypeM::Unknown, seq![plain_segment(*s, postfix_name(r@))]));
                let a = Expr::Int(*s, Type::Unknown, l.clone());
                Expr::Call(*s, Type::Unknown, Rc::new(f), one_expr(a))
            },
            Expr::FloatSuffix(s, _, l, r) => {
                let f = Expr::Path(*s, Type::Unknown, named_path(*s, postfix_name_of(r), Vec::new()));
                assert(f@ == ExprM::Path(*s, TypeM::Unknown, seq![plain_segment(*s, postfix_name(r@))]));
                let a = Expr::Float(*s, Type::Unknown, l.clone());
                Expr::Call(*s, Type::Unknown, Rc::new(f), one_expr(a))
            },
            Expr::Paren(_, _, e0) => self.map_expr(&**e0),
            Expr::Annotate(_, _, e0) => {
                let r0 = self.map_expr(&**e0);
                r0.with_type(t)
            },
            Expr::Match(s, _, e0, arms) => {
                let r0 = self.map_expr(&**e0);
                let ra = self.map_arms(arms);
                Expr::Match(*s, t, Rc::new(r0), ra)
            },
            Expr::Fun(s, _, ps, t1, e0) => {
                let ps1 = self.map_params(ps);
                let t2 = self.map_type(t1);
                let r0 = self.map_expr(&**e0);
                Expr::Fun(*s, t, ps1, t2, Rc::new(r0))
            },
            Expr::Error(s, _) => Expr::Error(*s, t),
        }
    }

    /// Desugars an argument of a call; see `d_arg`.
    pub fn arg(&mut self, e: &Expr) -> (r: Expr)
        requires
            ops_known(e@),
        ensures
            (r@, final(self)@) == d_arg(e@, old(self)@),
            final(self)@.len() == old(self)@.len(),
        decreases e, 1nat,
    {
        if let Expr::Anonymous(..) = e {
            return self.map_expr(e);
        }
        let ghost st0 = self@;
        let fresh: Vec<Name> = Vec::new();
        proof {
            assert(names_m(fresh) =~= Seq::<Seq<char>>::empty());
        }
        self.anons.scopes.push(fresh);
        proof {
            assert(self@ =~= st0.push(Seq::<Seq<char>>::empty()));
        }
        let r = self.map_expr(e);
        let ghost sc = self.anons.scopes@;
        let ghost st1 = self@;
        let xs = self.anons.scopes.pop().unwrap();
        proof {
            assert(self@ =~= st1.drop_last());
            assert(names_m(xs) == st1.last());
        }
        if xs.len() == 0 {
            r
        } else {
            let mut ps: Vec<(Name, Type)> = Vec::new();
            let mut j: usize = 0;
            let ghost xv = names_m(xs);
            while j < xs.len()
                invariant
                    j <= xs@.len(),
                    xv == names_m(xs),
                    params_m(ps@) =~= xv.take(j as int).map_values(|x: Seq<char>| (x, TypeM::Unknown)),
                decreases xs@.len() - j,
            {
                let ghost prev = ps@;
                ps.push((xs[j].clone(), Type::Unknown));
                proof {
                    assert(ps@.drop_last() =~= prev);
                    assert(xv.take(j + 1).map_values(|x: Seq<char>| (x, TypeM::Unknown)) =~= xv.take(
                        j as int,
                    ).map_values(|x: Seq<char>| (x, TypeM::Unknown)).push((xv[j as int], TypeM::Unknown)));
                }
                j = j + 1;
            }
            proof {
                assert(xv.take(xv.len() as int) =~= xv);
            }
            let sp = span(&r);
            Expr::Fun(sp, Type::Unknown, ps, Type::Unknown, Rc::new(r))
        }
    }

    /// Desugars the arguments `es` in order, after those already in `out`.
    pub fn map_args(&mut self, es: &Vec<Expr>, out: Vec<Expr>) -> (r: Vec<Expr>)
        requires
            ops_known_all(exprs_m(es@)),
        ensures
            exprs_m(r@) == exprs_m(out@) + d_args(exprs_m(es@), old(self)@).0,
            final(self)@ == d_args(exprs_m(es@), old(self)@).1,
            final(self)@.len() == old(self)@.len(),
        decreases es, 0nat,
    {
        let ghost st0 = self@;
        let ghost out0 = out@;
        let mut out = out;
        let mut i: usize = 0;
        proof {
            assert(es@.take(0) =~= Seq::<Expr>::empty());
            lemma_exprs_m_empty();
            assert(exprs_m(out0) + Seq::<ExprM>::empty() =~= exprs_m(out0));
        }
        while i < es.len()
            invariant
                i <= es@.len(),
                ops_known_all(exprs_m(es@)),
                exprs_m(out@) == exprs_m(out0) + d_args(exprs_m(es@.take(i as int)), st0).0,
                self@ == d_args(exprs_m(es@.take(i as int)), st0).1,
                self@.len() == st0.len(),
            decreases es@.len() - i,
        {
            proof {
                lemma_ops_known_index(es@, i as int);
            }
            let r = self.arg(&es[i]);
            let ghost prev = out@;
            out.push(r);
            proof {
                let x = exprs_m(es@.take(i as int));
                assert(es@.take(i + 1) =~= es@.take(i as int).push(es@[i as int]));
                lemma_exprs_m_push(es@.take(i as int), es@[i as int]);
                lemma_d_args_push(x, es@[i as int]@, st0);
                assert(out@ =~= prev.push(r));
                lemma_exprs_m_push(prev, r);
                let d = d_args(x, st0).0;
                assert((exprs_m(out0) + d).push(r@) =~= exprs_m(out0) + d.push(r@));
            }
            i = i + 1;
        }
        proof {
            assert(es@.take(es@.len() as int) =~= es@);
        }
        out
    }

    /// Desugars the elements `es` in order, after those already in `out`.
    pub fn map_exprs(&mut self, es: &Vec<Expr>, out: Vec<Expr>) -> (r: Vec<Expr>)
        requires
            ops_known_all(exprs_m(es@)),
        ensures
            exprs_m(r@) == exprs_m(out@) + d_exprs(exprs_m(es@), old(self)@).0,
            final(self)@ == d_exprs(exprs_m(es@), old(self)@).1,
            final(self)@.len() == old(self)@.len(),
        decreases es, 0nat,
    {
        let ghost st0 = self@;
        let ghost out0 = out@;
        let mut out = out;
        let mut i: usize = 0;
        proof {
            assert(es@.take(0) =~= Seq::<Expr>::empty());
            lemma_exprs_m_empty();
            assert(exprs_m(out0) + Seq::<ExprM>::empty() =~= exprs_m(out0));
        }
        while i < es.len()
            invariant
                i <= es@.len(),
                ops_known_all(exprs_m(es@)),
                exprs_m(out@) == exprs_m(out0) + d_exprs(exprs_m(es@.take(i as int)), st0).0,
                self@ == d_exprs(exprs_m(es@.take(i as int)), st0).1,
                self@.len() == st0.len(),
            decreases es@.len() - i,
        {
            proof {
                lemma_ops_known_index(es@, i as int);
            }
            let r = self.map_expr(&es[i]);
            let ghost prev = out@;
            out.push(r);
            proof {
                let x = exprs_m(es@.take(i as int));
                assert(es@.take(i + 1) =~= es@.take(i as int).push(es@[i as int]));
                lemma_exprs_m_push(es@.take(i as int), es@[i as int]);
                lemma_d_exprs_push(x, es@[i as int]@, st0);
                assert(out@ =~= prev.push(r));
                lemma_exprs_m_push(prev, r);
                let d = d_exprs(x, st0).0;
                assert((exprs_m(out0) + d).push(r@) =~= exprs_m(out0) + d.push(r@));
            }
            i = i + 1;
        }
        proof {
            assert(es@.take(es@.len() as int) =~= es@);
        }
        out
    }

    /// Desugars the arms of a match in order.
    pub fn map_arms(&mut self, arms: &Vec<(Pat, Expr)>) -> (r: Vec<(Pat, Expr)>)
        requires
            ops_known_arms(arms_m(arms@)),
        ensures
            arms_m(r@) == d_arms(arms_m(arms@), old(self)@).0,
            final(self)@ == d_arms(arms_m(arms@), old(self)@).1,
            final(self)@.len() == old(self)@.len(),
        decreases arms, 0nat,
    {
        let ghost st0 = self@;
        let mut out: Vec<(Pat, Expr)> = Vec::new();
        let mut i: usize = 0;
        proof {
            assert(arms@.take(0) =~= Seq::<(Pat, Expr)>::empty());
        }
        while i < arms.len()
            invariant
                i <= arms@.len(),
                ops_known_arms(arms_m(arms@)),
                arms_m(out@) == d_arms(arms_m(arms@.take(i as int)), st0).0,
                self@ == d_arms(arms_m(arms@.take(i as int)), st0).1,
                self@.len() == st0.len(),
            decreases arms@.len() - i,
        {
            proof {
                lemma_ops_known_arm(arms@, i as int);
            }
            let p = self.map_pattern(&arms[i].0);
            let x = self.map_expr(&arms[i].1);
            let ghost prev = out@;
            out.push((p, x));
            proof {
                let a = arms_m(arms@.take(i as int));
                let y = (arms@[i as int].0@, arms@[i as int].1@);
                assert(arms@.take(i + 1) =~= arms@.take(i as int).push(arms@[i as int]));
                assert(arms@.take(i + 1).drop_last() =~= arms@.take(i as int));
                assert(arms_m(arms@.take(i + 1)) == a.push(y));
                assert(a.push(y).drop_last() =~= a);
                assert(out@.drop_last() =~= prev);
            }
            i = i + 1;
        }
        proof {
            assert(arms@.take(arms@.len() as int) =~= arms@);
        }
        out
    }
}

} // verus!
