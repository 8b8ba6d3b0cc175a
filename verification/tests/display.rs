use std::rc::Rc;

use compiler::ast::Block;
use compiler::ast::Expr;
use compiler::ast::Pat;
use compiler::ast::Stmt;
use compiler::ast::StmtVar;
use compiler::ast::Type;
use compiler::display::verbose::IntoVerbose;
use compiler::display::Pretty;
use compiler::map::VecMap;
use compiler::name::Name;
use compiler::span::Span;

fn sp() -> Span {
    Span::new(0, 0, 0)
}

fn n(x: &str) -> Name {
    Name::from_str(x)
}

fn i32_ty() -> Type {
    Type::Cons(n("i32"), vec![])
}

#[test]
fn types_print_as_written() {
    let t = Type::Cons(n("Vec"), vec![i32_ty()]);
    assert_eq!(t.to_text(), "Vec[i32]");
    assert_eq!(Type::Tuple(vec![i32_ty()]).to_text(), "(i32,)");
    assert_eq!(Type::Tuple(vec![i32_ty(), i32_ty()]).to_text(), "(i32, i32)");
    assert_eq!(Type::Fun(vec![i32_ty()], Rc::new(Type::Never)).to_text(), "fun(i32): !");
    let r = Type::Record(VecMap::from_vec(vec![(n("x"), i32_ty()), (n("y"), Type::Hole)]));
    assert_eq!(r.to_text(), "record(x:i32, y:_)");
    assert_eq!(Type::Array(Rc::new(i32_ty()), Some(3)).to_text(), "[i32;3]");
    assert_eq!(Type::Var(n("a")).to_text(), "'a");
    assert_eq!(Type::Error.to_text(), "<err>");
}

#[test]
fn expressions_print_as_written() {
    let call = Expr::Call(
        sp(),
        Type::Hole,
        Rc::new(Expr::Var(sp(), Type::Hole, n("f"))),
        vec![Expr::Int(sp(), Type::Hole, "1".to_string()), Expr::Bool(sp(), Type::Hole, true)],
    );
    assert_eq!(call.to_text(), "f(1, true)");
    let field = Expr::Field(sp(), Type::Hole, Rc::new(Expr::Var(sp(), Type::Hole, n("p"))), n("x"));
    assert_eq!(field.to_text(), "p.x");
    let s = Expr::String(sp(), Type::Hole, "hi".to_string());
    assert_eq!(s.to_text(), "\"hi\"");
    let c = Expr::Char(sp(), Type::Hole, 'c');
    assert_eq!(c.to_text(), "'c'");
}

#[test]
fn blocks_indent_their_contents() {
    let var = Stmt::Var(StmtVar {
        span: sp(),
        name: n("x"),
        ty: i32_ty(),
        expr: Expr::Int(sp(), Type::Hole, "1".to_string()),
    });
    let b = Block { span: sp(), stmts: vec![var], expr: Rc::new(Expr::Var(sp(), Type::Hole, n("x"))) };
    let e = Expr::Block(sp(), Type::Hole, b);
    assert_eq!(e.to_text(), "{\n    var x: i32 = 1;\n    x\n}");
    let empty = Block { span: sp(), stmts: vec![], expr: Rc::new(Expr::Tuple(sp(), Type::Hole, vec![])) };
    assert_eq!(Expr::Block(sp(), Type::Hole, empty).to_text(), "{\n}");
}

#[test]
fn verbose_mode_shows_types() {
    let e = Expr::Int(sp(), i32_ty(), "1".to_string());
    assert_eq!(e.verbose().to_text(), "(1:i32)");
    let p = Pat::Var(sp(), i32_ty(), n("x"));
    assert_eq!(p.verbose().to_text(), "(x:i32)");
    assert_eq!(p.to_text(), "x");
}

#[test]
fn patterns_print_as_written() {
    let p = Pat::Tuple(sp(), Type::Hole, vec![Pat::Wildcard(sp(), Type::Hole), Pat::Bool(sp(), Type::Hole, false)]);
    assert_eq!(p.to_text(), "(_, false)");
    let one = Pat::Tuple(sp(), Type::Hole, vec![Pat::Int(sp(), Type::Hole, "3".to_string())]);
    assert_eq!(one.to_text(), "(3,)");
}

#[test]
fn statements_end_with_semicolons() {
    let s = Stmt::Expr(Expr::Var(sp(), Type::Hole, n("x")));
    assert_eq!(s.to_text(), "x;");
    let v = Stmt::Var(StmtVar {
        span: sp(),
        name: n("y"),
        ty: Type::Hole,
        expr: Expr::Int(sp(), Type::Hole, "2".to_string()),
    });
    assert_eq!(v.to_text(), "var y = 2;");
}

#[test]
fn pretty_writes_after_what_it_wrote() {
    let mut p = Pretty::new();
    p.ty(&i32_ty());
    p.punct(" + ");
    p.ty(&Type::Never);
    assert_eq!(p.print.out, "i32 + !");
}

#[test]
fn verbose_lists_of_types_and_expressions() {
    let ts = vec![Type::Cons(Name::from_str("i32"), vec![]), Type::Tuple(vec![])];
    assert_eq!(ts.verbose().to_text(), "[i32, ()]");
    let none: Vec<Type> = vec![];
    assert_eq!(none.verbose().to_text(), "");
    let s = Span::new(0, 0, 0);
    let es = vec![Expr::Bool(s, Type::Cons(Name::from_str("bool"), vec![]), true)];
    assert_eq!(es.verbose().to_text(), "((true:bool))");
}
