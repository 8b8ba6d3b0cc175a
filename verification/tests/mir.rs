use compiler::ast::Type;
use compiler::mir::lexer::Lexer;
use compiler::mir::lexer::Token;
use compiler::mir::BasicBlock;
use compiler::mir::Constant;
use compiler::mir::Function;
use compiler::mir::Operand;
use compiler::mir::Operation;
use compiler::mir::Local;
use compiler::mir::Place;
use compiler::mir::Rvalue;
use compiler::mir::Stmt;
use compiler::mir::Terminator;
use compiler::name::Name;
use compiler::span::Span;

fn cond() -> Operand {
    Operand::Constant(Constant::Bool(true))
}

/// 0 -> 1; 1 -> 2 | 3; 2 -> 1; 3 returns; 4 -> 3 is unreachable.
fn sample() -> Function {
    let blocks = vec![
        BasicBlock::new(0, vec![], Some(Terminator::Goto(1))),
        BasicBlock::new(1, vec![], Some(Terminator::IfElse(cond(), 2, 3))),
        BasicBlock::new(2, vec![Stmt::new(Operation::Noop)], Some(Terminator::Goto(1))),
        BasicBlock::new(3, vec![], Some(Terminator::Return)),
        BasicBlock::new(4, vec![], Some(Terminator::Goto(3))),
    ];
    Function::new(
        Span::new(0, 0, 0),
        Name::from_str("f"),
        vec![],
        vec![],
        Type::Tuple(vec![]),
        blocks,
    )
}

#[test]
fn successors_follow_terminators() {
    let mut f = sample();
    f.compute_successors();
    assert_eq!(f.successors, vec![vec![1], vec![2, 3], vec![1], vec![], vec![3]]);
}

#[test]
fn predecessors_mirror_successors() {
    let mut f = sample();
    f.compute_predecessors();
    assert_eq!(f.predecessors, vec![vec![], vec![0, 2], vec![1], vec![1, 4], vec![]]);
    f.compute_successors();
    for a in 0..5 {
        for b in 0..5 {
            assert_eq!(f.predecessors[b].contains(&a), f.successors[a].contains(&b));
        }
    }
}

#[test]
fn predecessors_repeat_a_double_edge() {
    let blocks = vec![
        BasicBlock::new(0, vec![], Some(Terminator::IfElse(cond(), 1, 1))),
        BasicBlock::new(1, vec![], Some(Terminator::Return)),
    ];
    let mut f = Function::new(Span::new(0, 0, 0), Name::from_str("g"), vec![], vec![], Type::Never, blocks);
    f.compute_predecessors();
    assert_eq!(f.predecessors, vec![vec![], vec![0, 0]]);
}

#[test]
fn search_orders_cover_reachable_blocks() {
    let mut f = sample();
    f.compute_successors();
    f.compute_postorder();
    f.compute_preorder();
    assert_eq!(f.postorder, vec![2, 3, 1, 0]);
    assert_eq!(f.preorder, vec![0, 1, 2, 3]);
    f.compute_reverse_postorder_number();
    assert_eq!(f.reverse_postorder_number, vec![0, 1, 3, 2, 0]);
}

#[test]
fn dominators_and_tree() {
    let mut f = sample();
    f.compute_predecessors();
    f.compute_dominators();
    let doms: Vec<Vec<usize>> = f.blocks.iter().map(|b| b.dom.clone()).collect();
    assert_eq!(doms, vec![vec![0], vec![0, 1], vec![0, 1, 2], vec![3], vec![4]]);
    assert_eq!(f.domtree, vec![vec![1], vec![2], vec![], vec![], vec![]]);
    for (b, d) in doms.iter().enumerate() {
        assert!(d.contains(&b));
    }
}

#[test]
fn dominators_of_a_diamond() {
    let blocks = vec![
        BasicBlock::new(0, vec![], Some(Terminator::IfElse(cond(), 1, 2))),
        BasicBlock::new(1, vec![], Some(Terminator::Goto(3))),
        BasicBlock::new(2, vec![], Some(Terminator::Goto(3))),
        BasicBlock::new(3, vec![], Some(Terminator::Return)),
    ];
    let mut f = Function::new(Span::new(0, 0, 0), Name::from_str("d"), vec![], vec![], Type::Never, blocks);
    f.compute_predecessors();
    f.compute_dominators();
    let doms: Vec<Vec<usize>> = f.blocks.iter().map(|b| b.dom.clone()).collect();
    assert_eq!(doms, vec![vec![0], vec![0, 1], vec![0, 2], vec![0, 3]]);
    assert_eq!(f.domtree, vec![vec![1, 2, 3], vec![], vec![], vec![]]);
}

#[test]
fn unreachable_blocks_are_removed_and_renumbered() {
    let blocks = vec![
        BasicBlock::new(0, vec![], Some(Terminator::Goto(2))),
        BasicBlock::new(1, vec![], Some(Terminator::Goto(0))),
        BasicBlock::new(2, vec![Stmt::new(Operation::Noop)], Some(Terminator::IfElse(cond(), 0, 2))),
    ];
    let mut f = Function::new(Span::new(0, 0, 0), Name::from_str("u"), vec![], vec![], Type::Never, blocks);
    f.compute_successors();
    f.remove_unreachable();
    assert_eq!(f.blocks.len(), 2);
    assert_eq!(f.blocks[0].id, 0);
    assert_eq!(f.blocks[1].id, 1);
    assert!(matches!(f.blocks[0].terminator, Some(Terminator::Goto(1))));
    assert!(matches!(f.blocks[1].terminator, Some(Terminator::IfElse(_, 0, 1))));
    assert_eq!(f.blocks[1].stmts.len(), 1);
    assert!(f.successors.is_empty());
    assert!(f.predecessors.is_empty());
}

#[test]
fn function_text() {
    let blocks = vec![BasicBlock::new(0, vec![Stmt::new(Operation::Noop)], Some(Terminator::Return))];
    let f = Function::new(Span::new(0, 0, 0), Name::from_str("f"), vec![], vec![], Type::Tuple(vec![]), blocks);
    assert_eq!(f.to_text(), "fn f() -> () {\n    '0: {\n        ;\n        return;\n    }\n}");
}

#[test]
fn verbose_function_text_lists_dominators() {
    let mut f = sample();
    f.compute_predecessors();
    f.compute_dominators();
    let text = f.verbose().to_text();
    assert!(text.contains("// dom(0, 1, 2)"));
    assert!(text.contains("if const true goto '2 else goto '3;"));
}

#[test]
fn mir_lexer_tokens() {
    let mut l = Lexer::new("let x = 10;");
    assert_eq!(l.next(), Some((Token::Ident, 0, 3)));
    assert_eq!(l.next(), Some((Token::Ident, 4, 5)));
    assert_eq!(l.next(), Some((Token::Equal, 6, 7)));
    assert_eq!(l.next(), Some((Token::Number, 8, 10)));
    assert_eq!(l.next(), Some((Token::SemiColon, 10, 11)));
    assert_eq!(l.next(), None);
}

#[test]
fn mir_lexer_skips_comments() {
    let mut l = Lexer::new("// c\n/* a * b */x");
    assert_eq!(l.next(), Some((Token::Ident, 16, 17)));
    let mut l = Lexer::new("{ab");
    assert_eq!(l.next(), Some((Token::LeftBrace, 0, 1)));
    assert_eq!(l.next(), Some((Token::Ident, 1, 3)));
    let mut l = Lexer::new("\"hi\" / ");
    assert_eq!(l.next(), Some((Token::String, 0, 4)));
    assert_eq!(l.next(), Some((Token::Slash, 5, 6)));
    assert_eq!(l.next(), None);
}

#[test]
fn mir_lexer_braces() {
    let mut l = Lexer::new("{}");
    assert_eq!(l.next(), Some((Token::LeftBrace, 0, 1)));
    assert_eq!(l.next(), Some((Token::RightBrace, 1, 2)));
    assert_eq!(l.next(), None);
}

#[test]
fn mir_lexer_ampersand_label_and_error() {
    let mut l = Lexer::new("&");
    assert_eq!(l.next(), Some((Token::Ampersand, 0, 1)));
    assert_eq!(l.next(), None);
    let mut l = Lexer::new("'x");
    assert_eq!(l.next(), Some((Token::Label, 0, 2)));
    assert_eq!(l.next(), None);
    let mut l = Lexer::new("goto 'b12;");
    assert_eq!(l.next(), Some((Token::Ident, 0, 4)));
    assert_eq!(l.next(), Some((Token::Label, 5, 9)));
    assert_eq!(l.next(), Some((Token::SemiColon, 9, 10)));
    let mut l = Lexer::new("@x");
    assert_eq!(l.next(), Some((Token::Error, 0, 1)));
    assert_eq!(l.next(), Some((Token::Ident, 1, 2)));
    assert_eq!(l.next(), None);
}

fn noops(k: usize) -> Vec<Stmt> {
    (0..k).map(|_| Stmt::new(Operation::Noop)).collect()
}

fn total_stmts(f: &Function) -> usize {
    f.blocks.iter().map(|b| b.stmts.len()).sum()
}

/// 0 -> 1 -> 2 returns, with one, two and one statements.
fn straight_line() -> Function {
    let blocks = vec![
        BasicBlock::new(0, noops(1), Some(Terminator::Goto(1))),
        BasicBlock::new(1, noops(2), Some(Terminator::Goto(2))),
        BasicBlock::new(2, noops(1), Some(Terminator::Return)),
    ];
    Function::new(Span::new(0, 0, 0), Name::from_str("h"), vec![], vec![], Type::Never, blocks)
}

#[test]
fn merge_blocks_folds_a_straight_line_into_its_first_block() {
    let mut f = straight_line();
    f.compute_successors();
    f.compute_predecessors();
    f.merge_blocks();
    assert_eq!(f.blocks[0].stmts.len(), 4);
    assert!(matches!(f.blocks[0].terminator, Some(Terminator::Return)));
    assert_eq!(f.blocks[1].stmts.len(), 0);
    assert_eq!(f.blocks[2].stmts.len(), 0);
    assert!(matches!(f.blocks[1].terminator, Some(Terminator::Goto(2))));
    assert!(f.blocks[2].terminator.is_none());
    assert_eq!(f.successors, vec![vec![], vec![2], vec![]]);
    assert_eq!(f.predecessors, vec![vec![], vec![], vec![1]]);
    assert_eq!(total_stmts(&f), 4);
}

#[test]
fn merge_blocks_leaves_joins_alone() {
    let mut f = sample();
    f.compute_successors();
    f.compute_predecessors();
    let f = f.with_merge_blocks();
    assert!(matches!(f.blocks[0].terminator, Some(Terminator::Goto(1))));
    assert!(matches!(f.blocks[2].terminator, Some(Terminator::Goto(1))));
    assert!(matches!(f.blocks[4].terminator, Some(Terminator::Goto(3))));
    assert_eq!(f.blocks[2].stmts.len(), 1);
    assert_eq!(f.predecessors, vec![vec![], vec![0, 2], vec![1], vec![1, 4], vec![]]);
}

#[test]
fn merge_blocks_on_a_self_loop_clears_its_predecessors_only() {
    let blocks = vec![BasicBlock::new(0, noops(2), Some(Terminator::Goto(0)))];
    let mut f = Function::new(Span::new(0, 0, 0), Name::from_str("l"), vec![], vec![], Type::Never, blocks);
    f.compute_successors();
    f.compute_predecessors();
    f.merge_blocks();
    assert_eq!(f.blocks[0].stmts.len(), 2);
    assert!(matches!(f.blocks[0].terminator, Some(Terminator::Goto(0))));
    assert_eq!(f.successors, vec![vec![0]]);
    assert_eq!(f.predecessors, vec![Vec::<usize>::new()]);
}

#[test]
fn with_remove_unreachable_drops_dead_blocks() {
    let f = sample().with_remove_unreachable();
    assert_eq!(f.blocks.len(), 4);
    assert!(f.successors.is_empty());
}

fn place(x: &str) -> Place {
    Place::of_local(Local { name: Name::from_str(x), ty: Type::Tuple(vec![]) })
}

fn assign(x: &str, rv: Rvalue) -> Stmt {
    Stmt::new(Operation::Assign(place(x), rv))
}

#[test]
fn constant_propagation_replaces_copies_and_decides_branches() {
    let blocks = vec![
        BasicBlock::new(
            0,
            vec![
                assign("x", Rvalue::Use(Operand::Constant(Constant::Int("1".to_string())))),
                assign("y", Rvalue::Use(Operand::Copy(place("x")))),
                assign("c", Rvalue::Use(Operand::Constant(Constant::Bool(false)))),
            ],
            Some(Terminator::IfElse(Operand::Copy(place("c")), 1, 2)),
        ),
        BasicBlock::new(
            1,
            vec![
                assign("x", Rvalue::Use(Operand::Move(place("z")))),
                assign("w", Rvalue::Use(Operand::Copy(place("x")))),
                assign("v", Rvalue::Use(Operand::Copy(place("c")))),
            ],
            Some(Terminator::Return),
        ),
        BasicBlock::new(2, vec![], Some(Terminator::IfElse(Operand::Copy(place("x")), 0, 1))),
    ];
    let mut f = Function::new(Span::new(0, 0, 0), Name::from_str("k"), vec![], vec![], Type::Never, blocks);
    f.constant_propagation();
    let b0 = &f.blocks[0];
    assert!(matches!(&b0.stmts[1].op,
        Operation::Assign(p, Rvalue::Use(Operand::Constant(Constant::Int(s))))
            if p.local.name.as_str() == "y" && s == "1"));
    assert!(matches!(b0.terminator, Some(Terminator::Goto(2))));
    let b1 = &f.blocks[1];
    // `x` was overwritten by a move, so the copy of it stays.
    assert!(matches!(&b1.stmts[1].op, Operation::Assign(_, Rvalue::Use(Operand::Copy(_)))));
    // What block 0 learned about `c` carries over to block 1.
    assert!(matches!(&b1.stmts[2].op, Operation::Assign(_, Rvalue::Use(Operand::Constant(Constant::Bool(false))))));
    // `x` is not a known boolean, so the branch stays.
    assert!(matches!(f.blocks[2].terminator, Some(Terminator::IfElse(_, 0, 1))));
}

fn local(x: &str) -> Local {
    Local { name: Name::from_str(x), ty: Type::Tuple(vec![]) }
}

fn local_names(f: &Function) -> Vec<String> {
    f.locals.iter().map(|l| l.name.as_str().to_string()).collect()
}

#[test]
fn remove_unused_variables_keeps_what_the_result_reads() {
    let blocks = vec![BasicBlock::new(
        0,
        vec![
            assign("x", Rvalue::Use(Operand::Constant(Constant::Int("1".to_string())))),
            assign("y", Rvalue::Use(Operand::Constant(Constant::Int("2".to_string())))),
            assign("r", Rvalue::Use(Operand::Copy(place("x")))),
            Stmt::new(Operation::Live(local("y"))),
            Stmt::new(Operation::Noop),
        ],
        Some(Terminator::Return),
    )];
    let locals = vec![local("r"), local("x"), local("y")];
    let f = Function::new(Span::new(0, 0, 0), Name::from_str("u"), vec![], locals, Type::Never, blocks);
    let f = f.with_remove_unused_variables();
    assert_eq!(local_names(&f), vec!["r", "x"]);
    assert_eq!(f.blocks[0].stmts.len(), 3);
    assert!(matches!(&f.blocks[0].stmts[0].op, Operation::Assign(p, _) if p.local.name.as_str() == "x"));
    assert!(matches!(&f.blocks[0].stmts[1].op, Operation::Assign(p, _) if p.local.name.as_str() == "r"));
    assert!(matches!(&f.blocks[0].stmts[2].op, Operation::Noop));
}

#[test]
fn remove_unused_variables_stops_when_the_last_mark_of_a_sweep_is_old() {
    // The second sweep marks `b` but ends by marking `a` again, so no third sweep marks `c`.
    let blocks = vec![BasicBlock::new(
        0,
        vec![
            assign("b", Rvalue::Use(Operand::Copy(place("c")))),
            assign("a", Rvalue::Use(Operand::Copy(place("b")))),
            assign("r", Rvalue::Use(Operand::Copy(place("a")))),
        ],
        Some(Terminator::Return),
    )];
    let locals = vec![local("r"), local("a"), local("b"), local("c")];
    let mut f = Function::new(Span::new(0, 0, 0), Name::from_str("v"), vec![], locals, Type::Never, blocks);
    f.remove_unused_variables();
    assert_eq!(local_names(&f), vec!["r", "a", "b"]);
    assert_eq!(f.blocks[0].stmts.len(), 3);
}

#[test]
fn remove_unused_variables_keeps_calls_and_their_arguments() {
    let blocks = vec![BasicBlock::new(
        0,
        vec![Stmt::new(Operation::Call(
            place("t"),
            Operand::Function(Name::from_str("g"), vec![]),
            vec![Operand::Move(place("a")), Operand::Constant(Constant::Unit)],
        ))],
        Some(Terminator::Return),
    )];
    let locals = vec![local("r"), local("t"), local("a"), local("z")];
    let mut f = Function::new(Span::new(0, 0, 0), Name::from_str("w"), vec![], locals, Type::Never, blocks);
    f.remove_unused_variables();
    assert_eq!(local_names(&f), vec!["r", "t", "a"]);
    assert_eq!(f.blocks[0].stmts.len(), 1);
}

#[test]
fn dominance_is_transitive_and_starts_at_the_entry() {
    // 0 -> 1 -> 2 -> 3 -> 1, 2 -> 4: every block but the entry has a predecessor.
    let blocks = vec![
        BasicBlock::new(0, vec![], Some(Terminator::Goto(1))),
        BasicBlock::new(1, vec![], Some(Terminator::Goto(2))),
        BasicBlock::new(2, vec![], Some(Terminator::IfElse(cond(), 3, 4))),
        BasicBlock::new(3, vec![], Some(Terminator::Goto(1))),
        BasicBlock::new(4, vec![], Some(Terminator::Return)),
    ];
    let mut f = Function::new(Span::new(0, 0, 0), Name::from_str("t"), vec![], vec![], Type::Never, blocks);
    f.compute_predecessors();
    f.compute_dominators();
    let doms: Vec<Vec<usize>> = f.blocks.iter().map(|b| b.dom.clone()).collect();
    assert_eq!(doms, vec![vec![0], vec![0, 1], vec![0, 1, 2], vec![0, 1, 2, 3], vec![0, 1, 2, 4]]);
    // A path from the entry to block 4 passes through every dominator of block 4.
    let path = [0, 1, 2, 3, 1, 2, 4];
    for d in &doms[4] {
        assert!(path.contains(d));
    }
    for b in 0..5 {
        assert!(doms[b].contains(&0));
        for &c in &doms[b] {
            for &e in &doms[c] {
                assert!(doms[b].contains(&e));
            }
        }
    }
}
