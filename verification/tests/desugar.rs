use std::rc::Rc;

use compiler::desugar::syntax::Expr;
use compiler::desugar::syntax::Pat;
use compiler::desugar::syntax::Path;
use compiler::desugar::syntax::Segment;
use compiler::desugar::syntax::Type;
use compiler::desugar::Context;
use compiler::name::Name;
use compiler::span::Span;
use compiler::token::Token;

fn sp() -> Span {
    Span::new(0, 1, 2)
}

fn ty(t: &Type) -> String {
    match t {
        Type::Unknown => "?".to_string(),
        Type::Named(x, ts) => {
            if ts.is_empty() {
                x.as_str().to_string()
            } else {
                let a: Vec<String> = ts.iter().map(ty).collect();
                format!("{}[{}]", x.as_str(), a.join(", "))
            }
        }
        Type::Paren(t) => format!("({})", ty(t)),
    }
}

fn path(p: &Path) -> String {
    let a: Vec<String> = p
        .segments
        .iter()
        .map(|s| {
            if s.types.is_empty() {
                s.name.as_str().to_string()
            } else {
                let ts: Vec<String> = s.types.iter().map(ty).collect();
                format!("{}[{}]", s.name.as_str(), ts.join(", "))
            }
        })
        .collect();
    a.join("::")
}

fn pat(p: &Pat) -> String {
    match p {
        Pat::Wildcard(_, _) => "_".to_string(),
        Pat::Bool(_, _, b) => b.to_string(),
        Pat::Var(_, t, x) => format!("{}: {}", x.as_str(), ty(t)),
        Pat::Paren(_, _, q) => format!("({})", pat(q)),
        Pat::Annotate(_, t, q) => format!("{}: {}", pat(q), ty(t)),
        Pat::Error(_, _) => "<err>".to_string(),
    }
}

fn list(es: &[Expr]) -> String {
    let a: Vec<String> = es.iter().map(show).collect();
    a.join(", ")
}

fn show(e: &Expr) -> String {
    match e {
        Expr::Int(_, _, l) => l.clone(),
        Expr::Float(_, _, l) => l.clone(),
        Expr::Bool(_, _, b) => b.to_string(),
        Expr::Path(_, _, p) => path(p),
        Expr::Call(_, _, f, es) => format!("{}({})", show(f), list(es)),
        Expr::Dot(_, _, e, x, _, es) => format!("{}.{}({})", show(e), x.as_str(), list(es)),
        Expr::InfixBinaryOp(_, _, op, a, b) => format!("{} {:?} {}", show(a), op, show(b)),
        Expr::PrefixUnaryOp(_, _, op, a) => format!("{:?} {}", op, show(a)),
        Expr::Anonymous(_, _) => "_".to_string(),
        Expr::IntSuffix(_, _, l, r) => format!("{}{}", l, r.as_str()),
        Expr::FloatSuffix(_, _, l, r) => format!("{}{}", l, r.as_str()),
        Expr::Paren(_, _, e) => format!("({})", show(e)),
        Expr::Annotate(_, t, e) => format!("{}: {}", show(e), ty(t)),
        Expr::Match(_, _, e, arms) => {
            let a: Vec<String> = arms.iter().map(|(p, e)| format!("{} => {}", pat(p), show(e))).collect();
            format!("match {} {{ {} }}", show(e), a.join(", "))
        }
        Expr::Fun(_, _, ps, _, e) => {
            let a: Vec<String> = ps.iter().map(|(x, _)| x.as_str().to_string()).collect();
            format!("fun({}) = {}", a.join(", "), show(e))
        }
        Expr::String(_, _, l) => l.clone(),
        Expr::Tuple(_, _, es) => format!("({})", list(es)),
        Expr::Array(_, _, es) => format!("[{}]", list(es)),
        Expr::Field(_, _, e, x) => format!("{}.{}", show(e), x.as_str()),
        Expr::Return(_, _, e) => format!("return {}", show(e)),
        Expr::Break(_, _) => "break".to_string(),
        Expr::Continue(_, _) => "continue".to_string(),
        Expr::Block(_, _, es, e) => format!("{{ {}; {} }}", list(es), show(e)),
        Expr::IfElse(_, _, c, a, b) => format!("if {} {} else {}", show(c), show(a), show(b)),
        Expr::While(_, _, c, b) => format!("while {} {}", show(c), show(b)),
        Expr::Error(_, _) => "<err>".to_string(),
    }
}

fn lit(l: &str) -> Expr {
    Expr::Int(sp(), Type::Unknown, l.to_string())
}

fn var(x: &str) -> Expr {
    let seg = Segment { span: sp(), name: Name::from_str(x), types: vec![] };
    Expr::Path(sp(), Type::Unknown, Path { segments: vec![seg] })
}

fn bin(op: Token, a: Expr, b: Expr) -> Expr {
    Expr::InfixBinaryOp(sp(), Type::Unknown, op, Rc::new(a), Rc::new(b))
}

fn anon() -> Expr {
    Expr::Anonymous(sp(), Type::Unknown)
}

fn call(f: Expr, es: Vec<Expr>) -> Expr {
    Expr::Call(sp(), Type::Unknown, Rc::new(f), es)
}

fn desugared(e: &Expr) -> String {
    let mut cx = Context::new();
    show(&cx.map_expr(e))
}

#[test]
fn operators_become_trait_method_calls() {
    assert_eq!(desugared(&bin(Token::Plus, lit("1"), lit("2"))), "Add::add(1, 2)");
    assert_eq!(desugared(&bin(Token::Le, var("a"), var("b"))), "PartialOrd::le(a, b)");
    assert_eq!(desugared(&bin(Token::NotEq, var("a"), var("b"))), "PartialEq::ne(a, b)");
    assert_eq!(desugared(&bin(Token::DotDot, lit("0"), lit("9"))), "Range::range(0, 9)");
    let neg = Expr::PrefixUnaryOp(sp(), Type::Unknown, Token::Minus, Rc::new(var("a")));
    assert_eq!(desugared(&neg), "Neg::neg(a)");
    let not = Expr::PrefixUnaryOp(sp(), Type::Unknown, Token::Not, Rc::new(var("a")));
    assert_eq!(desugared(&not), "Not::not(a)");
}

#[test]
fn and_or_become_matches() {
    assert_eq!(
        desugared(&bin(Token::And, var("a"), var("b"))),
        "match a { true => b, _ => false }"
    );
    assert_eq!(
        desugared(&bin(Token::Or, var("a"), var("b"))),
        "match a { true => true, _ => b }"
    );
}

#[test]
fn method_call_becomes_call_with_receiver_first() {
    let dot = Expr::Dot(
        sp(),
        Type::Unknown,
        Rc::new(var("a")),
        Name::from_str("b"),
        vec![Type::Named(Name::from_str("i32"), vec![])],
        vec![var("c")],
    );
    assert_eq!(desugared(&dot), "b[i32](a, c)");
}

#[test]
fn parentheses_and_annotations_are_dropped() {
    let p = Expr::Paren(sp(), Type::Unknown, Rc::new(bin(Token::Star, lit("2"), lit("3"))));
    assert_eq!(desugared(&p), "Mul::mul(2, 3)");
    let t = Type::Paren(Rc::new(Type::Named(Name::from_str("i32"), vec![])));
    let a = Expr::Annotate(sp(), t, Rc::new(Expr::Paren(sp(), Type::Unknown, Rc::new(lit("1")))));
    let mut cx = Context::new();
    let r = cx.map_expr(&a);
    match r {
        Expr::Int(_, t, l) => {
            assert_eq!(l, "1");
            assert_eq!(ty(&t), "i32");
        }
        _ => panic!("expected an integer"),
    }
}

#[test]
fn suffixes_become_postfix_calls() {
    let e = Expr::IntSuffix(sp(), Type::Unknown, "1".to_string(), Name::from_str("s"));
    assert_eq!(desugared(&e), "postfix_s(1)");
    let e = Expr::FloatSuffix(sp(), Type::Unknown, "1.5".to_string(), Name::from_str("ms"));
    assert_eq!(desugared(&e), "postfix_ms(1.5)");
}

#[test]
fn placeholders_in_an_argument_make_a_function() {
    let e = call(var("f"), vec![bin(Token::Plus, anon(), anon()), lit("3")]);
    assert_eq!(desugared(&e), "f(fun(_0, _1) = Add::add(_0, _1), 3)");
    let e = call(var("g"), vec![anon()]);
    let mut cx = Context::new();
    let r = cx.map_expr(&e);
    assert!(matches!(&r, Expr::Call(_, _, _, es) if matches!(&es[0], Expr::Error(..))));
}

#[test]
fn a_placeholder_outside_any_argument_is_an_error() {
    assert_eq!(desugared(&anon()), "<err>");
}

#[test]
fn nested_arguments_number_their_own_placeholders() {
    let inner = call(var("h"), vec![bin(Token::Minus, anon(), lit("1"))]);
    let e = call(var("f"), vec![bin(Token::Plus, anon(), inner)]);
    assert_eq!(desugared(&e), "f(fun(_0) = Add::add(_0, h(fun(_0) = Sub::sub(_0, 1))))");
}

#[test]
fn patterns_lose_parentheses_and_take_annotated_types() {
    let cx = Context::new();
    let t = Type::Named(Name::from_str("bool"), vec![]);
    let p = Pat::Annotate(sp(), t, Rc::new(Pat::Paren(sp(), Type::Unknown, Rc::new(Pat::Var(sp(), Type::Unknown, Name::from_str("x"))))));
    assert_eq!(pat(&cx.map_pattern(&p)), "x: bool");
}
