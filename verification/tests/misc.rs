use compiler::ast::Param;
use compiler::ast::StmtStruct;
use compiler::ast::TraitBound;
use compiler::ast::TraitDef;
use compiler::ast::Type;
use compiler::diag::Report;
use compiler::infer::impl_var::ImplVarValue;
use compiler::infer::primitives::default_float;
use compiler::infer::primitives::default_int;
use compiler::infer::primitives::floats;
use compiler::infer::primitives::ints;
use compiler::infer::type_var::TypeVarKind;
use compiler::infer::type_var::TypeVarValue;
use compiler::lexer::Lexer;
use compiler::mangle::Mangler;
use compiler::map::VecMap;
use compiler::name::Name;
use compiler::ordmap::OrdMap;
use compiler::parser::expr_first;
use compiler::parser::pat_follow;
use compiler::parser::recover::Parser;
use compiler::parser::stmt_first;
use compiler::parser::TokenSet;
use compiler::print::decimal_string;
use compiler::span::Span;
use compiler::span::Spanned;
use compiler::style::Color;
use compiler::style::Style;
use compiler::text::parse_usize;
use compiler::text::trim_lines;
use compiler::token::Token;

fn n(x: &str) -> Name {
    Name::from_str(x)
}

#[test]
fn lexer_reads_a_definition() {
    let mut l = Lexer::new(0, "def f(x: i32): i32 = x;");
    let mut kinds = Vec::new();
    let mut texts = Vec::new();
    while let Some(t) = l.next() {
        kinds.push(t.v);
        texts.push(l.text(t));
    }
    assert_eq!(
        kinds,
        vec![
            Token::Def,
            Token::Name,
            Token::LParen,
            Token::Name,
            Token::Colon,
            Token::Name,
            Token::RParen,
            Token::Colon,
            Token::Name,
            Token::Eq,
            Token::Name,
            Token::SemiColon,
            Token::Eof
        ]
    );
    assert_eq!(texts[1], "f");
    assert_eq!(texts[5], "i32");
    assert!(l.report.is_empty());
}

#[test]
fn lexer_reports_unexpected_characters() {
    let mut l = Lexer::new(0, "x @ y");
    let mut kinds = Vec::new();
    while let Some(t) = l.next() {
        kinds.push(t.v);
    }
    assert_eq!(l.report.len(), 1);
    assert_eq!(kinds, vec![Token::Name, Token::Error, Token::Name, Token::Eof]);
}

#[test]
fn lexer_skips_line_comments() {
    let mut l = Lexer::new(0, "# note\nx");
    let t = l.next().unwrap();
    assert_eq!(t.v, Token::Name);
    assert_eq!(t.s, Span::new(0, 7, 8));
}

#[test]
fn lexer_gives_eof_once() {
    let mut l = Lexer::new(0, "");
    let t = l.next().unwrap();
    assert_eq!(t.v, Token::Eof);
    assert!(l.next().is_none());
}

#[test]
fn parse_usize_reads_decimals() {
    assert_eq!(parse_usize("42"), Some(42));
    assert_eq!(parse_usize("+7"), Some(7));
    assert_eq!(parse_usize(""), None);
    assert_eq!(parse_usize("4a"), None);
    assert_eq!(parse_usize("99999999999999999999999999"), None);
}

#[test]
fn trim_lines_drops_trailing_blanks() {
    assert_eq!(trim_lines("a  \nb \n\n"), "a\nb");
    assert_eq!(trim_lines("  x"), "  x");
}

#[test]
fn vec_map_lookup_after_insert() {
    let mut m: VecMap<Name, i32> = VecMap::new();
    m.insert(n("a"), 1);
    m.insert(n("b"), 2);
    assert_eq!(m.get(&n("a")), Some(&1));
    assert_eq!(m.get(&n("b")), Some(&2));
    assert_eq!(m.get(&n("c")), None);
    m.insert(n("a"), 3);
    assert_eq!(m.get(&n("a")), Some(&1));
}

#[test]
fn ord_map_keeps_the_last_value_and_all_values() {
    let mut m: OrdMap<Name, i32> = OrdMap::new();
    m.insert(n("a"), 1);
    m.insert(n("b"), 2);
    m.insert(n("a"), 3);
    assert_eq!(m.get(&n("a")), Some(&3));
    assert_eq!(m.get(&n("b")), Some(&2));
    assert_eq!(m.get(&n("c")), None);
    assert_eq!(m.values().to_vec(), vec![1, 2, 3]);
}

#[test]
fn kinds_merge() {
    assert!(TypeVarKind::General.is_mergeable(TypeVarKind::Int));
    assert!(!TypeVarKind::Int.is_mergeable(TypeVarKind::Float));
    assert_eq!(TypeVarKind::General.merge(TypeVarKind::Float), TypeVarKind::Float);
    assert_eq!(TypeVarKind::Int.merge(TypeVarKind::General), TypeVarKind::Int);
    assert_eq!(TypeVarKind::Int.merge(TypeVarKind::Int), TypeVarKind::Int);
    for a in [TypeVarKind::General, TypeVarKind::Int, TypeVarKind::Float] {
        for b in [TypeVarKind::General, TypeVarKind::Int, TypeVarKind::Float] {
            assert_eq!(a.is_mergeable(b), b.is_mergeable(a));
            if a.is_mergeable(b) {
                assert_eq!(a.merge(b), b.merge(a));
            }
        }
    }
}

#[test]
fn unify_values_keeps_the_known_type() {
    let k = TypeVarValue::Known(Type::Cons(n("i32"), vec![]));
    let u = TypeVarValue::Unknown(TypeVarKind::Int);
    match TypeVarValue::unify_values(&u, &k) {
        TypeVarValue::Known(Type::Cons(x, ts)) => {
            assert_eq!(x.as_str(), "i32");
            assert!(ts.is_empty());
        }
        _ => panic!("expected a known type"),
    }
    match TypeVarValue::unify_values(&TypeVarValue::Unknown(TypeVarKind::General), &u) {
        TypeVarValue::Unknown(k) => assert_eq!(k, TypeVarKind::Int),
        _ => panic!("expected an unknown type"),
    }
}

#[test]
fn impl_values_unify() {
    let b = TraitBound::new(n("Clone"), vec![], VecMap::new());
    let r = ImplVarValue::unify_values(&ImplVarValue::Unknown, &ImplVarValue::Known(b));
    match r.known() {
        Some(b) => assert_eq!(b.name.as_str(), "Clone"),
        None => panic!("expected a known bound"),
    }
    assert!(ImplVarValue::unify_values(&ImplVarValue::Unknown, &ImplVarValue::Unknown).is_unknown());
}

#[test]
fn primitive_type_names() {
    let is: Vec<String> = ints().iter().map(|x| x.as_str().to_string()).collect();
    assert_eq!(is, vec!["i8", "i32", "i64", "i128", "u8", "u32", "u64", "u128"]);
    let fs: Vec<String> = floats().iter().map(|x| x.as_str().to_string()).collect();
    assert_eq!(fs, vec!["f32", "f64"]);
    assert!(matches!(default_int(), Type::Cons(x, ts) if x.as_str() == "i32" && ts.is_empty()));
    assert!(matches!(default_float(), Type::Cons(x, ts) if x.as_str() == "f64" && ts.is_empty()));
}

#[test]
fn mangled_names_spell_out_types() {
    let i32_ty = Type::Cons(n("i32"), vec![]);
    let t = Type::Tuple(vec![Type::Cons(n("bool"), vec![])]);
    let r = Mangler::mangle_fun(n("f"), &vec![i32_ty.deep_clone(), t]);
    assert_eq!(r.as_str(), "fi32TupleboolEnd");
    let arr = Type::Array(std::rc::Rc::new(i32_ty), Some(4));
    let r = Mangler::mangle_type_impl_def(&arr, &n("len"), &vec![]);
    assert_eq!(r.as_str(), "Arrayi32Endlen");
}

#[test]
fn styles_write_escape_codes() {
    let s = Style::new("x", Color::Red).bold();
    assert_eq!(s.prefix(), "\x1b[1;31m");
    assert_eq!(s.suffix(), "\x1b[0m");
    let o = Style::new(1, Color::Orange).italic().underline();
    assert_eq!(o.prefix(), "\x1b[3;4;31;43m");
}

#[test]
fn token_sets() {
    assert!(expr_first().contains(Token::Int));
    assert!(expr_first().contains(Token::From));
    assert!(!expr_first().contains(Token::Def));
    assert!(stmt_first().contains(Token::Def));
    assert!(stmt_first().contains(Token::If));
    assert!(pat_follow().contains(Token::Or));
    let s = TokenSet::single(Token::Comma).or(TokenSet::single(Token::Eof));
    assert!(s.contains(Token::Comma) && s.contains(Token::Eof) && !s.contains(Token::Bar));
    assert!(!TokenSet::empty().contains(Token::Eof));
}

#[test]
fn binding_powers() {
    assert_eq!(Token::Plus.infix_bp(), Some((5, 6)));
    assert_eq!(Token::Star.infix_bp(), Some((6, 7)));
    assert_eq!(Token::Eq.infix_bp(), Some((1, 2)));
    assert_eq!(Token::Comma.infix_bp(), None);
    assert_eq!(Token::Minus.prefix_bp(), Some(((), 8)));
    assert_eq!(Token::Dot.postfix_bp(), Some((9, ())));
    assert_eq!(Token::Plus.postfix_bp(), None);
}

#[test]
fn decimal_numerals() {
    assert_eq!(decimal_string(0), "0");
    assert_eq!(decimal_string(1234), "1234");
    assert_eq!(decimal_string(usize::MAX), usize::MAX.to_string());
}

#[test]
fn reports_collect_errors_in_order() {
    let mut r = Report::new();
    assert!(r.is_empty());
    r.err(Span::new(0, 1, 2), "first", "here");
    let mut other = Report::new();
    other.err(Span::new(0, 3, 4), "second", "there");
    r.append(&mut other);
    assert_eq!(r.len(), 2);
    assert!(other.is_empty());
    assert_eq!(r.diags[1].label.text, "second");
}

#[test]
fn spans_join() {
    let a = Span::new(1, 5, 8);
    let b = Span::new(1, 2, 6);
    let j = a.join(b);
    assert_eq!(j, Span::new(1, 2, 8));
}

#[test]
fn vec_map_get_mut_changes_the_first_match() {
    let mut m: VecMap<Name, i32> = VecMap::new();
    m.insert(n("a"), 1);
    m.insert(n("b"), 2);
    m.insert(n("a"), 3);
    if let Some(v) = m.get_mut(&n("a")) {
        *v = 10;
    }
    assert_eq!(m.get(&n("a")), Some(&10));
    assert_eq!(m.values(), vec![&10, &2, &3]);
    assert!(m.get_mut(&n("c")).is_none());
}

#[test]
fn type_var_kinds_accept_their_types() {
    let i32_ty = Type::Cons(n("i32"), vec![]);
    let f64_ty = Type::Cons(n("f64"), vec![]);
    let tuple = Type::Tuple(vec![]);
    assert!(TypeVarKind::General.is_unifiable_with(&tuple));
    assert!(TypeVarKind::Int.is_unifiable_with(&i32_ty));
    assert!(!TypeVarKind::Int.is_unifiable_with(&f64_ty));
    assert!(TypeVarKind::Float.is_unifiable_with(&f64_ty));
    assert!(!TypeVarKind::Float.is_unifiable_with(&tuple));
    assert!(TypeVarKind::Int.is_int_var() && !TypeVarKind::Int.is_float_var());
    assert!(TypeVarKind::Float.is_float_var());
}

#[test]
fn instantiating_a_struct_replaces_its_generics() {
    let t = Type::Generic(n("T"));
    let fields = VecMap::from_vec(vec![
        (n("x"), t.deep_clone()),
        (n("y"), Type::Cons(n("Vec"), vec![t.deep_clone()])),
    ]);
    let s = StmtStruct::new(Span::new(0, 0, 0), n("Foo"), vec![n("T")], fields);
    let r = s.instantiate(&vec![Type::Cons(n("i32"), vec![])]);
    assert!(r.generics.is_empty());
    assert_eq!(r.name.as_str(), "Foo");
    let vs = r.fields.values();
    assert!(matches!(vs[0], Type::Cons(x, ts) if x.as_str() == "i32" && ts.is_empty()));
    assert!(matches!(vs[1], Type::Cons(x, ts) if x.as_str() == "Vec"
        && matches!(&ts[0], Type::Cons(y, _) if y.as_str() == "i32")));
}

#[test]
fn instantiating_a_trait_method_keeps_unlisted_generics() {
    let d = TraitDef::new(
        Span::new(0, 0, 0),
        n("f"),
        vec![n("A"), n("B")],
        vec![Param::new(Span::new(0, 0, 0), n("a"), Type::Generic(n("A")))],
        Type::Generic(n("B")),
        vec![],
    );
    // Only `A` gets a type argument; `B` stays a generic.
    let r = d.instantiate(&vec![Type::Tuple(vec![])]);
    assert!(r.generics.is_empty());
    assert!(matches!(&r.params[0].ty, Type::Tuple(ts) if ts.is_empty()));
    assert!(matches!(&r.ty, Type::Generic(x) if x.as_str() == "B"));
}

fn toks(ts: &[Token]) -> Vec<Spanned<Token>> {
    ts.iter().enumerate().map(|(i, t)| Spanned::new(Span::new(0, i as u32, i as u32 + 1), *t)).collect()
}

#[test]
fn recovery_skips_balanced_brackets_to_a_starting_token() {
    let mut p = Parser::new(toks(&[Token::Plus, Token::LParen, Token::Name, Token::RParen, Token::Name, Token::Eof]));
    let r = p.recover::<false>(TokenSet::single(Token::Name), TokenSet::single(Token::Eof));
    // The name inside the parentheses is skipped; the one after them is taken.
    match r {
        Ok(t) => assert_eq!(t.s.start, 4),
        Err(_) => panic!("expected a token"),
    }
    assert_eq!(p.pos, 5);
    assert!(p.report.is_empty());
    assert!(p.delims.is_empty());
}

#[test]
fn recovery_peeks_and_stops_at_a_following_token() {
    let mut p = Parser::new(toks(&[Token::Plus, Token::Name, Token::Eof]));
    let r = p.recover::<true>(TokenSet::single(Token::Name), TokenSet::single(Token::Eof));
    assert!(matches!(r, Ok(t) if t.s.start == 1));
    assert_eq!(p.pos, 1);
    let mut q = Parser::new(toks(&[Token::Plus, Token::SemiColon, Token::Name, Token::Eof]));
    let r = q.recover::<false>(TokenSet::single(Token::Name), TokenSet::single(Token::SemiColon));
    assert!(matches!(r, Err(s) if s.start == 1));
    assert_eq!(q.pos, 1);
}

#[test]
fn recovery_reports_brackets_left_open_at_the_end() {
    let mut p = Parser::new(toks(&[Token::LBrace, Token::LParen, Token::Name, Token::Eof]));
    let r = p.recover::<false>(TokenSet::single(Token::Name), TokenSet::empty());
    assert!(matches!(r, Err(s) if s.start == 3));
    assert_eq!(p.report.len(), 2);
    assert_eq!(p.report.diags[0].label.text, "Unmatched `{`");
    assert_eq!(p.report.diags[0].messages[0].text, "expected `}`");
    assert_eq!(p.report.diags[1].label.text, "Unmatched `(`");
    assert!(p.delims.is_empty());
}

#[test]
fn recovery_gives_up_after_its_fuel() {
    let mut ts = vec![Token::Plus; 1001];
    ts.push(Token::Eof);
    let mut p = Parser::new(toks(&ts));
    let r = p.recover::<false>(TokenSet::single(Token::Name), TokenSet::single(Token::Eof));
    assert!(matches!(r, Err(s) if s.start == 1000));
    assert_eq!(p.report.len(), 1);
    assert_eq!(p.report.diags[0].label.text, "Too many errors");
    assert_eq!(p.report.diags[0].messages[0].text, "stopping here");
}

#[test]
fn type_variable_texts() {
    assert_eq!(TypeVarKind::General.to_text(), "{general}");
    assert_eq!(TypeVarKind::Int.to_text(), "{int}");
    assert_eq!(TypeVarKind::Float.to_text(), "{float}");
    assert_eq!(TypeVarValue::Unknown(TypeVarKind::Int).to_text(), "<unknown>");
    assert_eq!(TypeVarValue::Known(Type::Cons(n("i32"), vec![])).to_text(), "i32");
    assert_eq!(ImplVarValue::Unknown.to_text(), "<unknown>");
}

fn cons(x: &str) -> Type {
    Type::Cons(n(x), vec![])
}

fn assoc_of(bound: &str, x: &str, binding: Option<Type>) -> Type {
    let mut m = VecMap::new();
    if let Some(t) = binding {
        m.insert(n(x), t);
    }
    Type::Assoc(TraitBound::new(n(bound), vec![], m), n(x), vec![])
}

#[test]
fn expand_replaces_bound_associated_types_all_the_way_down() {
    let inner = assoc_of("Get", "Out", Some(cons("i32")));
    let outer = assoc_of("Iterator", "Item", Some(inner));
    let r = outer.expand();
    assert!(compiler::ast_eq::same_type(&r, &cons("i32")));
    let t = Type::Tuple(vec![assoc_of("Iterator", "Item", Some(cons("bool"))), cons("i32")]);
    let r = t.expand();
    assert!(compiler::ast_eq::same_type(&r, &Type::Tuple(vec![cons("bool"), cons("i32")])));
}

#[test]
fn expand_keeps_an_unbound_associated_type_and_types_without_any() {
    let t = assoc_of("Iterator", "Item", None);
    assert!(compiler::ast_eq::same_type(&t.expand(), &t));
    let t = Type::Fun(vec![cons("i32")], std::rc::Rc::new(cons("bool")));
    assert!(compiler::ast_eq::same_type(&t.expand(), &t));
}
