use compiler::desugar::syntax::Expr;
use compiler::parser::recover::Parser;
use compiler::parser::TokenSet;
use compiler::span::Span;
use compiler::span::Spanned;
use compiler::token::Token;

fn show(e: &Expr) -> String {
    match e {
        Expr::Int(_, _, l) => l.clone(),
        Expr::Float(_, _, l) => l.clone(),
        Expr::String(_, _, l) => l.clone(),
        Expr::Bool(_, _, b) => b.to_string(),
        Expr::Path(_, _, p) => {
            let a: Vec<String> = p.segments.iter().map(|s| s.name.as_str().to_string()).collect();
            a.join("::")
        }
        Expr::Call(_, _, f, es) => {
            let a: Vec<String> = es.iter().map(show).collect();
            format!("{}({})", show(f), a.join(", "))
        }
        Expr::Tuple(_, _, es) => {
            let a: Vec<String> = es.iter().map(show).collect();
            format!("tuple({})", a.join(", "))
        }
        Expr::InfixBinaryOp(_, _, op, a, b) => format!("[{} {:?} {}]", show(a), op, show(b)),
        Expr::PrefixUnaryOp(_, _, op, a) => format!("[{:?} {}]", op, show(a)),
        Expr::IntSuffix(_, _, l, r) => format!("{}~{}", l, r.as_str()),
        Expr::FloatSuffix(_, _, l, r) => format!("{}~{}", l, r.as_str()),
        Expr::Paren(_, _, e) => format!("({})", show(e)),
        Expr::Error(_, _) => "<err>".to_string(),
        Expr::Array(_, _, es) => {
            let a: Vec<String> = es.iter().map(show).collect();
            format!("[{}]", a.join(", "))
        }
        Expr::Field(_, _, e, x) => format!("{}.{}", show(e), x.as_str()),
        Expr::Dot(_, _, e, x, _, es) => {
            let a: Vec<String> = es.iter().map(show).collect();
            format!("{}.{}({})", show(e), x.as_str(), a.join(", "))
        }
        Expr::Return(_, _, e) => format!("return {}", show(e)),
        Expr::Break(_, _) => "break".to_string(),
        Expr::Continue(_, _) => "continue".to_string(),
        Expr::Block(_, _, es, e) => {
            let a: Vec<String> = es.iter().map(|e| format!("{}; ", show(e))).collect();
            format!("{{ {}{} }}", a.join(""), show(e))
        }
        Expr::IfElse(_, _, c, a, b) => format!("if {} {} else {}", show(c), show(a), show(b)),
        Expr::While(_, _, c, b) => format!("while {} {}", show(c), show(b)),
        _ => "?".to_string(),
    }
}

/// A parser over the given tokens, each one character wide, and an end token.
fn parser(ts: &[(Token, &str)]) -> Parser {
    let mut tokens: Vec<Spanned<Token>> = Vec::new();
    let mut texts: Vec<String> = Vec::new();
    for (i, (t, x)) in ts.iter().enumerate() {
        tokens.push(Spanned::new(Span::new(0, i as u32, i as u32 + 1), *t));
        texts.push(x.to_string());
    }
    let n = ts.len() as u32;
    tokens.push(Spanned::new(Span::new(0, n, n), Token::Eof));
    texts.push(String::new());
    Parser::with_texts(tokens, texts)
}

fn parse(ts: &[(Token, &str)]) -> (String, usize, usize) {
    let mut p = parser(ts);
    let (_, e) = p.expr(TokenSet::single(Token::Eof));
    (show(&e), p.pos, p.report.len())
}

fn num(x: &str) -> (Token, &str) {
    (Token::Int, x)
}

fn name(x: &str) -> (Token, &str) {
    (Token::Name, x)
}

#[test]
fn products_bind_tighter_than_sums() {
    let r = parse(&[num("1"), (Token::Plus, "+"), num("2"), (Token::Star, "*"), num("3")]);
    assert_eq!(r, ("[1 Plus [2 Star 3]]".to_string(), 5, 0));
    let r = parse(&[num("1"), (Token::Star, "*"), num("2"), (Token::Plus, "+"), num("3")]);
    assert_eq!(r, ("[[1 Star 2] Plus 3]".to_string(), 5, 0));
}

#[test]
fn equal_levels_group_to_the_left() {
    let r = parse(&[num("1"), (Token::Minus, "-"), num("2"), (Token::Minus, "-"), num("3")]);
    assert_eq!(r.0, "[[1 Minus 2] Minus 3]");
    let r = parse(&[name("a"), (Token::EqEq, "=="), name("b"), (Token::And, "and"), name("c")]);
    assert_eq!(r.0, "[[a EqEq b] And c]");
}

#[test]
fn prefix_operators_bind_tighter_than_infix() {
    let r = parse(&[(Token::Minus, "-"), name("a"), (Token::Star, "*"), name("b")]);
    assert_eq!(r.0, "[[Minus a] Star b]");
}

#[test]
fn calls_paths_parentheses_and_tuples() {
    let r = parse(&[name("f"), (Token::LParen, "("), name("x"), (Token::Comma, ","), num("1"), (Token::RParen, ")")]);
    assert_eq!(r, ("f(x, 1)".to_string(), 6, 0));
    let r = parse(&[name("a"), (Token::ColonColon, "::"), name("b")]);
    assert_eq!(r.0, "a::b");
    let r = parse(&[(Token::LParen, "("), num("1"), (Token::RParen, ")")]);
    assert_eq!(r.0, "(1)");
    let r = parse(&[(Token::LParen, "("), (Token::RParen, ")")]);
    assert_eq!(r.0, "tuple()");
    let r = parse(&[(Token::LParen, "("), num("1"), (Token::Comma, ","), num("2"), (Token::RParen, ")")]);
    assert_eq!(r.0, "tuple(1, 2)");
}

#[test]
fn literals_keep_their_text_and_split_suffixes() {
    assert_eq!(parse(&[(Token::True, "true")]).0, "true");
    assert_eq!(parse(&[(Token::Float, "1.5")]).0, "1.5");
    assert_eq!(parse(&[(Token::String, "\"hi\"")]).0, "\"hi\"");
    assert_eq!(parse(&[(Token::IntSuffix, "10ms")]).0, "10~ms");
    assert_eq!(parse(&[(Token::FloatSuffix, "1.5s")]).0, "1.5~s");
}

#[test]
fn a_missing_operand_becomes_an_error_node() {
    let (e, pos, diags) = parse(&[num("1"), (Token::Plus, "+")]);
    assert_eq!(e, "[1 Plus <err>]");
    assert_eq!(pos, 2);
    assert_eq!(diags, 1);
    let mut p = parser(&[(Token::Plus, "+")]);
    let (s, e) = p.expr(TokenSet::single(Token::Eof));
    assert_eq!(show(&e), "[<err> Plus <err>]");
    assert_eq!(s, Span::new(0, 0, 1));
    assert_eq!(p.report.len(), 2);
}

#[test]
fn recovery_skips_to_a_follower() {
    // `1 ) 2`: the stray `)` is reported and skipped; parsing ends at the end token.
    let mut p = parser(&[num("1"), (Token::RParen, ")"), num("2")]);
    let (_, e) = p.expr(TokenSet::single(Token::Eof));
    assert_eq!(p.report.len(), 1);
    assert_eq!(show(&e), "1");
}

fn parse_text(input: &str) -> (Option<String>, usize) {
    let (e, report) = compiler::parser::expr::parse_expr(0, input);
    (e.map(|e| show(&e)), report.len())
}

#[test]
fn parse_expr_reads_text() {
    assert_eq!(parse_text("1 + 2 * 3"), (Some("[1 Plus [2 Star 3]]".to_string()), 0));
    assert_eq!(parse_text("f(x, y) - 1"), (Some("[f(x, y) Minus 1]".to_string()), 0));
    assert_eq!(parse_text("a::b == !c"), (Some("[a::b EqEq [Not c]]".to_string()), 0));
    assert_eq!(parse_text("10ms"), (Some("10~ms".to_string()), 0));
}

#[test]
fn parse_expr_reports_what_it_cannot_place() {
    assert_eq!(parse_text("1 +"), (Some("[1 Plus <err>]".to_string()), 1));
    assert_eq!(parse_text("1 2"), (Some("1".to_string()), 1));
    assert_eq!(parse_text("(1"), (Some("<err>".to_string()), 1));
}

#[test]
fn methods_fields_arrays_and_jumps() {
    assert_eq!(parse_text("a.b(1) * p.x"), (Some("[a.b(1) Star p.x]".to_string()), 0));
    assert_eq!(parse_text("[1, 2]"), (Some("[1, 2]".to_string()), 0));
    assert_eq!(parse_text("return 1 + 2"), (Some("return [1 Plus 2]".to_string()), 0));
    assert_eq!(parse_text("return"), (Some("return tuple()".to_string()), 0));
    assert_eq!(parse_text("break"), (Some("break".to_string()), 0));
    assert_eq!(parse_text("continue"), (Some("continue".to_string()), 0));
}

#[test]
fn blocks_in_their_four_shapes() {
    // { }
    assert_eq!(parse_text("{}"), (Some("{ tuple() }".to_string()), 0));
    // { e }
    assert_eq!(parse_text("{ 1 }"), (Some("{ 1 }".to_string()), 0));
    // { s; ... }
    assert_eq!(parse_text("{ 1; 2; }"), (Some("{ 1; 2; tuple() }".to_string()), 0));
    assert_eq!(parse_text("{ 1;; 2 }"), (Some("{ 1; 2 }".to_string()), 0));
    // { s ... }, where s ends with a block
    assert_eq!(parse_text("{ { 1 } 2 }"), (Some("{ { 1 }; 2 }".to_string()), 0));
}

#[test]
fn conditionals_and_loops() {
    assert_eq!(
        parse_text("if a { 1 } else { 2 }"),
        (Some("if a { 1 } else { 2 }".to_string()), 0)
    );
    assert_eq!(parse_text("if a { 1 }"), (Some("if a { 1 } else { tuple() }".to_string()), 0));
    assert_eq!(parse_text("while x < 3 { f(x) }"), (Some("while [x Lt 3] { f(x) }".to_string()), 0));
}
