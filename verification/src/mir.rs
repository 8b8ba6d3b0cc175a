//! The mid-level representation: functions as control-flow graphs of basic blocks, and the
//! analyses and rewrites that run on them.
use vstd::prelude::*;

use crate::ast::Index;
use crate::ast::Type;
use crate::name::Name;
use crate::span::Span;

pub mod cfg;
pub mod display;
pub mod dominators;
pub mod lexer;
pub mod merge;
pub mod order;
pub mod place;
pub mod propagate;
pub mod unreachable;
pub mod unused;

verus! {

/// The position of a basic block in its function.
pub type BlockId = usize;

/// A local variable of a MIR function.
#[derive(Debug)]
pub struct Local {
    pub name: Name,
    pub ty: Type,
}

/// A step from a place into part of it.
#[derive(Debug)]
pub enum PlaceElem {
    Field(Name),
    Index(Index),
}

/// A local variable, or a part of one reached through fields and indices.
#[derive(Debug)]
pub struct Place {
    pub local: Local,
    pub elems: Vec<PlaceElem>,
}

/// A MIR function. Its control flow is a graph of basic blocks; block 0 is the entry.
#[derive(Debug)]
pub struct Function {
    pub span: Span,
    pub name: Name,
    pub params: Vec<Local>,
    pub locals: Vec<Local>,
    pub ty: Type,
    pub blocks: Vec<BasicBlock>,
    /// The dominator tree: the blocks whose immediate dominator is each block.
    pub domtree: Vec<Vec<BlockId>>,
    /// For each block, the blocks its terminator jumps to.
    pub successors: Vec<Vec<BlockId>>,
    /// For each block, the blocks whose terminators jump to it.
    pub predecessors: Vec<Vec<BlockId>>,
    /// The blocks reachable from the entry, in the order a depth-first search leaves them.
    pub postorder: Vec<BlockId>,
    /// The blocks reachable from the entry, in the order a depth-first search enters them.
    pub preorder: Vec<BlockId>,
    /// For each block, its position in the reverse of the postorder.
    pub reverse_postorder_number: Vec<BlockId>,
}

/// A straight-line sequence of statements, ended by a terminator.
#[derive(Debug)]
pub struct BasicBlock {
    pub id: BlockId,
    pub stmts: Vec<Stmt>,
    pub terminator: Option<Terminator>,
    pub live_in: Vec<Place>,
    pub live_out: Vec<Place>,
    /// The blocks that dominate this one, in increasing order.
    pub dom: Vec<BlockId>,
}

#[derive(Debug)]
pub struct Stmt {
    pub op: Operation,
    pub live_in: Vec<Place>,
    pub live_out: Vec<Place>,
}

#[derive(Debug)]
pub enum Operation {
    Assign(Place, Rvalue),
    /// Marks a local as live, so that its first assignment can be told from a mutation.
    Live(Local),
    /// Marks a local as dead when it goes out of scope.
    Dead(Local),
    Call(Place, Operand, Vec<Operand>),
    Noop,
}

#[derive(Debug)]
pub enum Terminator {
    Return,
    Goto(BlockId),
    IfElse(Operand, BlockId, BlockId),
}

#[derive(Debug)]
pub enum Rvalue {
    Use(Operand),
    Ref(bool, Place),
}

#[derive(Debug)]
pub enum Operand {
    Constant(Constant),
    Copy(Place),
    Move(Place),
    Function(Name, Vec<Type>),
}

#[derive(Debug)]
pub enum Constant {
    Int(String),
    Bool(bool),
    String(String),
    Float(String),
    Char(char),
    Unit,
}

/// The blocks a terminator jumps to, in order.
pub open spec fn targets(t: Option<Terminator>) -> Seq<BlockId> {
    match t {
        Some(Terminator::Goto(b)) => seq![b],
        Some(Terminator::IfElse(_, b0, b1)) => seq![b0, b1],
        _ => Seq::empty(),
    }
}

/// The control-flow graph of a sequence of blocks: for each block, its targets.
pub open spec fn cfg_of(blocks: Seq<BasicBlock>) -> Seq<Seq<BlockId>> {
    Seq::new(blocks.len(), |i: int| targets(blocks[i].terminator))
}

/// Every adjacency list of a graph on `n` nodes names nodes below `n`.
pub open spec fn graph_wf(g: Seq<Seq<BlockId>>, n: nat) -> bool {
    forall|i: int, k: int| 0 <= i < g.len() && 0 <= k < g[i].len() ==> #[trigger] g[i][k] < n
}

/// The blocks are numbered by their positions and jump only to blocks of the function.
pub open spec fn blocks_wf(blocks: Seq<BasicBlock>) -> bool {
    &&& forall|i: int| 0 <= i < blocks.len() ==> #[trigger] blocks[i].id == i
    &&& graph_wf(cfg_of(blocks), blocks.len())
}

impl Stmt {
    pub fn new(op: Operation) -> (s: Stmt)
        ensures
            s.op == op,
            s.live_in@.len() == 0,
            s.live_out@.len() == 0,
    {
        Stmt { op, live_in: Vec::new(), live_out: Vec::new() }
    }
}

impl BasicBlock {
    pub fn new(id: BlockId, stmts: Vec<Stmt>, terminator: Option<Terminator>) -> (b: BasicBlock)
        ensures
            b.id == id,
            b.stmts == stmts,
            b.terminator == terminator,
            b.live_in@.len() == 0,
            b.live_out@.len() == 0,
            b.dom@.len() == 0,
    {
        BasicBlock {
            id,
            stmts,
            terminator,
            live_in: Vec::new(),
            live_out: Vec::new(),
            dom: Vec::new(),
        }
    }
}

impl Function {
    /// A function whose analyses have not run yet.
    pub fn new(
        span: Span,
        name: Name,
        params: Vec<Local>,
        locals: Vec<Local>,
        ty: Type,
        blocks: Vec<BasicBlock>,
    ) -> (f: Function)
        ensures
            f.span == span,
            f.name == name,
            f.params == params,
            f.locals == locals,
            f.ty == ty,
            f.blocks == blocks,
            f.domtree@.len() == 0,
            f.successors@.len() == 0,
            f.predecessors@.len() == 0,
            f.postorder@.len() == 0,
            f.preorder@.len() == 0,
            f.reverse_postorder_number@.len() == 0,
    {
        Function {
            span,
            name,
            params,
            locals,
            ty,
            blocks,
            domtree: Vec::new(),
            successors: Vec::new(),
            predecessors: Vec::new(),
            postorder: Vec::new(),
            preorder: Vec::new(),
            reverse_postorder_number: Vec::new(),
        }
    }
}

} // verus!
