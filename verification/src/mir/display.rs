//! Printing MIR functions as text.
use vstd::prelude::*;

use super::BasicBlock;
use super::BlockId;
use super::Constant;
use super::Function;
use super::Local;
use super::Operand;
use super::Operation;
use super::Place;
use super::PlaceElem;
use super::Rvalue;
use super::Stmt;
use super::Terminator;
use crate::display::pat::text_bool;
use crate::display::show_targs;
use crate::display::show_ty;
use crate::display::Pretty;
use crate::print::decimal;
use crate::print::deeper;
use crate::print::nl;

verus! {

/// A local with its type: `x: t`.
pub open spec fn show_local(l: Local) -> Seq<char> {
    l.name@ + ": "@ + show_ty(l.ty)
}

/// Locals separated by commas.
pub open spec fn show_locals(ls: Seq<Local>) -> Seq<char>
    decreases ls.len(),
{
    if ls.len() == 0 {
        Seq::empty()
    } else if ls.len() == 1 {
        show_local(ls[0])
    } else {
        show_locals(ls.drop_last()) + ", "@ + show_local(ls.last())
    }
}

pub open spec fn show_elem(e: PlaceElem) -> Seq<char> {
    match e {
        PlaceElem::Field(x) => "."@ + x@,
        PlaceElem::Index(i) => "."@ + decimal(i.data as nat),
    }
}

pub open spec fn show_elems(es: Seq<PlaceElem>) -> Seq<char>
    decreases es.len(),
{
    if es.len() == 0 {
        Seq::empty()
    } else {
        show_elems(es.drop_last()) + show_elem(es.last())
    }
}

/// A place: the name of its local, then each field or index after a dot.
pub open spec fn show_place(p: Place) -> Seq<char> {
    p.local.name@ + show_elems(p.elems@)
}

pub open spec fn show_places(ps: Seq<Place>) -> Seq<char>
    decreases ps.len(),
{
    if ps.len() == 0 {
        Seq::empty()
    } else if ps.len() == 1 {
        show_place(ps[0])
    } else {
        show_places(ps.drop_last()) + ", "@ + show_place(ps.last())
    }
}

pub open spec fn show_constant(c: Constant) -> Seq<char> {
    match c {
        Constant::Int(s) => s@,
        Constant::Bool(b) => text_bool(b),
        Constant::String(s) => seq!['"'] + s@ + seq!['"'],
        Constant::Unit => "()"@,
        Constant::Float(s) => s@,
        Constant::Char(c) => seq!['\'', c, '\''],
    }
}

pub open spec fn show_operand(o: Operand) -> Seq<char> {
    match o {
        Operand::Constant(c) => "const "@ + show_constant(c),
        Operand::Copy(p) => "copy "@ + show_place(p),
        Operand::Move(p) => "move "@ + show_place(p),
        Operand::Function(x, ts) => x@ + show_targs(ts@),
    }
}

pub open spec fn show_operands(os: Seq<Operand>) -> Seq<char>
    decreases os.len(),
{
    if os.len() == 0 {
        Seq::empty()
    } else if os.len() == 1 {
        show_operand(os[0])
    } else {
        show_operands(os.drop_last()) + ", "@ + show_operand(os.last())
    }
}

pub open spec fn show_rvalue(r: Rvalue) -> Seq<char> {
    match r {
        Rvalue::Use(o) => show_operand(o),
        Rvalue::Ref(m, p) => "&"@ + (if m {
            "mut "@
        } else {
            Seq::empty()
        }) + show_place(p),
    }
}

/// A statement and its `;`; in verbose mode followed by a comment with its live-out places.
pub open spec fn show_mir_stmt(s: Stmt, v: bool, ind: Seq<char>) -> Seq<char> {
    (match s.op {
        Operation::Assign(p, r) => show_place(p) + " = "@ + show_rvalue(r),
        Operation::Live(l) => "StorageLive("@ + l.name@ + ")"@,
        Operation::Dead(l) => "StorageDead("@ + l.name@ + ")"@,
        Operation::Call(d, f, args) => show_place(d) + " = "@ + show_operand(f) + "("@
            + show_operands(args@) + ")"@,
        Operation::Noop => Seq::empty(),
    }) + ";"@ + if v {
        nl(ind) + "// live_out = ["@ + show_places(s.live_out@) + "]"@ + nl(ind)
    } else {
        Seq::empty()
    }
}

pub open spec fn show_terminator(t: Terminator) -> Seq<char> {
    match t {
        Terminator::Return => "return"@,
        Terminator::Goto(b) => "goto '"@ + decimal(b as nat),
        Terminator::IfElse(c, b0, b1) => "if "@ + show_operand(c) + " goto '"@ + decimal(b0 as nat)
            + " else goto '"@ + decimal(b1 as nat),
    }
}

pub open spec fn show_ids(bs: Seq<BlockId>) -> Seq<char>
    decreases bs.len(),
{
    if bs.len() == 0 {
        Seq::empty()
    } else if bs.len() == 1 {
        decimal(bs[0] as nat)
    } else {
        show_ids(bs.drop_last()) + ", "@ + decimal(bs.last() as nat)
    }
}

/// In verbose mode, a comment that lists the dominators of the block.
pub open spec fn show_dom(b: BasicBlock, v: bool, ind: Seq<char>) -> Seq<char> {
    if v {
        "// dom("@ + show_ids(b.dom@) + ")"@ + nl(ind)
    } else {
        Seq::empty()
    }
}

/// Statements each on a new line.
pub open spec fn show_mir_stmt_lines(ss: Seq<Stmt>, v: bool, ind: Seq<char>) -> Seq<char>
    decreases ss.len(),
{
    if ss.len() == 0 {
        Seq::empty()
    } else {
        show_mir_stmt_lines(ss.drop_last(), v, ind) + nl(ind) + show_mir_stmt(ss.last(), v, ind)
    }
}

/// A block: its label, then its statements and its terminator each on a line one level
/// deeper.
pub open spec fn show_mir_block(b: BasicBlock, v: bool, ind: Seq<char>) -> Seq<char> {
    show_dom(b, v, ind) + "'"@ + decimal(b.id as nat) + ": {"@ + show_mir_stmt_lines(
        b.stmts@,
        v,
        deeper(ind),
    ) + show_term_line(b.terminator, deeper(ind)) + nl(ind) + "}"@
}

/// The terminator on a line of its own, followed by `;`, or nothing.
pub open spec fn show_term_line(t: Option<Terminator>, ind: Seq<char>) -> Seq<char> {
    match t {
        Some(t) => nl(ind) + show_terminator(t) + ";"@,
        None => Seq::empty(),
    }
}

pub open spec fn show_mir_blocks(bs: Seq<BasicBlock>, v: bool, ind: Seq<char>) -> Seq<char>
    decreases bs.len(),
{
    if bs.len() == 0 {
        Seq::empty()
    } else if bs.len() == 1 {
        show_mir_block(bs[0], v, ind)
    } else {
        show_mir_blocks(bs.drop_last(), v, ind) + nl(ind) + show_mir_block(bs.last(), v, ind)
    }
}

/// Declarations `let x: t;`, each on a new line.
pub open spec fn show_lets(ls: Seq<Local>, ind: Seq<char>) -> Seq<char>
    decreases ls.len(),
{
    if ls.len() == 0 {
        Seq::empty()
    } else {
        show_lets(ls.drop_last(), ind) + nl(ind) + "let "@ + show_local(ls.last()) + ";"@
    }
}

/// A function: its signature, then its locals and its blocks one level deeper.
pub open spec fn show_mir_function(f: Function, v: bool, ind: Seq<char>) -> Seq<char> {
    "fn "@ + f.name@ + "("@ + show_locals(f.params@) + ") -> "@ + show_ty(f.ty) + " {"@
        + show_lets(f.locals@, deeper(ind)) + nl(deeper(ind)) + show_mir_blocks(
        f.blocks@,
        v,
        deeper(ind),
    ) + nl(ind) + "}"@
}

impl Pretty {
    pub fn local(&mut self, l: &Local)
        ensures
            final(self).wrote(*old(self), show_local(*l)),
    {
        let ghost s0 = *self;
        self.print.name(&l.name);
        self.print.punct(": ");
        self.ty(&l.ty);
        assert(self.out() =~= s0.out() + show_local(*l));
    }

    pub fn locals(&mut self, ls: &Vec<Local>)
        ensures
            final(self).wrote(*old(self), show_locals(ls@)),
    {
        let ghost s0 = *self;
        let mut i: usize = 0;
        while i < ls.len()
            invariant
                i <= ls@.len(),
                self.wrote(s0, show_locals(ls@.take(i as int))),
            decreases ls@.len() - i,
        {
            if i > 0 {
                self.print.punct(", ");
            }
            self.local(&ls[i]);
            proof {
                let t = ls@.take(i + 1);
                assert(t.drop_last() =~= ls@.take(i as int));
                if i == 0 {
                    assert(t =~= seq![ls@[0]]);
                }
                assert(self.out() =~= s0.out() + show_locals(t));
            }
            i = i + 1;
        }
        assert(ls@.take(ls@.len() as int) =~= ls@);
    }

    pub fn place(&mut self, p: &Place)
        ensures
            final(self).wrote(*old(self), show_place(*p)),
    {
        let ghost s0 = *self;
        self.print.name(&p.local.name);
        let ghost s1 = *self;
        let mut i: usize = 0;
        while i < p.elems.len()
            invariant
                i <= p.elems@.len(),
                self.wrote(s1, show_elems(p.elems@.take(i as int))),
            decreases p.elems@.len() - i,
        {
            self.print.punct(".");
            match &p.elems[i] {
                PlaceElem::Field(x) => self.print.name(x),
                PlaceElem::Index(k) => self.print.index(k),
            }
            proof {
                let t = p.elems@.take(i + 1);
                assert(t.drop_last() =~= p.elems@.take(i as int));
                assert(self.out() =~= s1.out() + show_elems(t));
            }
            i = i + 1;
        }
        assert(p.elems@.take(p.elems@.len() as int) =~= p.elems@);
        assert(self.out() =~= s0.out() + show_place(*p));
    }

    pub fn places(&mut self, ps: &Vec<Place>)
        ensures
            final(self).wrote(*old(self), show_places(ps@)),
    {
        let ghost s0 = *self;
        let mut i: usize = 0;
        while i < ps.len()
            invariant
                i <= ps@.len(),
                self.wrote(s0, show_places(ps@.take(i as int))),
            decreases ps@.len() - i,
        {
            if i > 0 {
                self.print.punct(", ");
            }
            self.place(&ps[i]);
            proof {
                let t = ps@.take(i + 1);
                assert(t.drop_last() =~= ps@.take(i as int));
                if i == 0 {
                    assert(t =~= seq![ps@[0]]);
                }
                assert(self.out() =~= s0.out() + show_places(t));
            }
            i = i + 1;
        }
        assert(ps@.take(ps@.len() as int) =~= ps@);
    }

    pub fn constant(&mut self, c: &Constant)
        ensures
            final(self).wrote(*old(self), show_constant(*c)),
    {
        let ghost s0 = *self;
        match c {
            Constant::Int(x) => self.print.lit(x.as_str()),
            Constant::Bool(b) => {
                if *b {
                    self.print.lit("true");
                } else {
                    self.print.lit("false");
                }
            },
            Constant::String(x) => self.print.str(x.as_str()),
            Constant::Unit => self.print.lit("()"),
            Constant::Float(x) => self.print.lit(x.as_str()),
            Constant::Char(ch) => self.print.char(*ch),
        }
        assert(self.out() =~= s0.out() + show_constant(*c));
    }

    pub fn operand(&mut self, o: &Operand)
        ensures
            final(self).wrote(*old(self), show_operand(*o)),
    {
        let ghost s0 = *self;
        match o {
            Operand::Constant(c) => {
                self.print.lit("const ");
                self.constant(c);
            },
            Operand::Copy(p) => {
                self.print.lit("copy ");
                self.place(p);
            },
            Operand::Move(p) => {
                self.print.lit("move ");
                self.place(p);
            },
            Operand::Function(x, ts) => {
                self.print.name(x);
                self.type_args(ts);
            },
        }
        assert(self.out() =~= s0.out() + show_operand(*o));
    }

    fn operands(&mut self, os: &Vec<Operand>)
        ensures
            final(self).wrote(*old(self), show_operands(os@)),
    {
        let ghost s0 = *self;
        let mut i: usize = 0;
        while i < os.len()
            invariant
                i <= os@.len(),
                self.wrote(s0, show_operands(os@.take(i as int))),
            decreases os@.len() - i,
        {
            if i > 0 {
                self.print.punct(", ");
            }
            self.operand(&os[i]);
            proof {
                let t = os@.take(i + 1);
                assert(t.drop_last() =~= os@.take(i as int));
                if i == 0 {
                    assert(t =~= seq![os@[0]]);
                }
                assert(self.out() =~= s0.out() + show_operands(t));
            }
            i = i + 1;
        }
        assert(os@.take(os@.len() as int) =~= os@);
    }

    pub fn rvalue(&mut self, r: &Rvalue)
        ensures
            final(self).wrote(*old(self), show_rvalue(*r)),
    {
        let ghost s0 = *self;
        match r {
            Rvalue::Use(o) => self.operand(o),
            Rvalue::Ref(m, p) => {
                self.print.lit("&");
                if *m {
                    self.print.lit("mut ");
                }
                self.place(p);
            },
        }
        assert(self.out() =~= s0.out() + show_rvalue(*r));
    }

    #[verifier::spinoff_prover]
    #[verifier::rlimit(60)]
    pub fn mir_stmt(&mut self, s: &Stmt)
        ensures
            final(self).wrote(*old(self), show_mir_stmt(*s, old(self).verbose, old(self).ind())),
    {
        let ghost s0 = *self;
        match &s.op {
            Operation::Assign(p, r) => {
                self.place(p);
                self.print.lit(" = ");
                self.rvalue(r);
            },
            Operation::Live(l) => {
                self.print.lit("StorageLive(");
                self.print.name(&l.name);
                self.print.lit(")");
            },
            Operation::Dead(l) => {
                self.print.lit("StorageDead(");
                self.print.name(&l.name);
                self.print.lit(")");
            },
            Operation::Call(d, f, args) => {
                self.place(d);
                self.print.lit(" = ");
                self.operand(f);
                self.print.lit("(");
                self.operands(args);
                self.print.lit(")");
            },
            Operation::Noop => {},
        }
        self.print.lit(";");
        if self.verbose {
            self.print.newline();
            self.print.lit("// live_out = [");
            self.places(&s.live_out);
            self.print.lit("]");
            self.print.newline();
        }
        assert(self.out() =~= s0.out() + show_mir_stmt(*s, s0.verbose, s0.ind()));
    }

    pub fn terminator(&mut self, t: &Terminator)
        ensures
            final(self).wrote(*old(self), show_terminator(*t)),
    {
        let ghost s0 = *self;
        match t {
            Terminator::Return => self.print.lit("return"),
            Terminator::Goto(b) => {
                self.print.lit("goto '");
                self.print.number(*b);
            },
            Terminator::IfElse(c, b0, b1) => {
                self.print.lit("if ");
                self.operand(c);
                self.print.lit(" goto '");
                self.print.number(*b0);
                self.print.lit(" else goto '");
                self.print.number(*b1);
            },
        }
        assert(self.out() =~= s0.out() + show_terminator(*t));
    }

    pub fn dom(&mut self, b: &BasicBlock)
        ensures
            final(self).wrote(*old(self), show_dom(*b, old(self).verbose, old(self).ind())),
    {
        let ghost s0 = *self;
        if self.verbose {
            self.print.lit("// dom(");
            let ghost s1 = *self;
            let mut i: usize = 0;
            while i < b.dom.len()
                invariant
                    i <= b.dom@.len(),
                    self.wrote(s1, show_ids(b.dom@.take(i as int))),
                decreases b.dom@.len() - i,
            {
                if i > 0 {
                    self.print.punct(", ");
                }
                self.print.number(b.dom[i]);
                proof {
                    let t = b.dom@.take(i + 1);
                    assert(t.drop_last() =~= b.dom@.take(i as int));
                    if i == 0 {
                        assert(t =~= seq![b.dom@[0]]);
                    }
                    assert(self.out() =~= s1.out() + show_ids(t));
                }
                i = i + 1;
            }
            assert(b.dom@.take(b.dom@.len() as int) =~= b.dom@);
            self.print.lit(")");
            self.print.newline();
        }
        assert(self.out() =~= s0.out() + show_dom(*b, s0.verbose, s0.ind()));
    }

    fn mir_stmt_lines(&mut self, ss: &Vec<Stmt>)
        ensures
            final(self).wrote(
                *old(self),
                show_mir_stmt_lines(ss@, old(self).verbose, old(self).ind()),
            ),
    {
        let ghost s1 = *self;
        let mut i: usize = 0;
        while i < ss.len()
            invariant
                i <= ss@.len(),
                self.wrote(s1, show_mir_stmt_lines(ss@.take(i as int), s1.verbose, s1.ind())),
            decreases ss@.len() - i,
        {
            self.print.newline();
            self.mir_stmt(&ss[i]);
            proof {
                let t = ss@.take(i + 1);
                assert(t.drop_last() =~= ss@.take(i as int));
                assert(self.out() =~= s1.out() + show_mir_stmt_lines(t, s1.verbose, s1.ind()));
            }
            i = i + 1;
        }
        assert(ss@.take(ss@.len() as int) =~= ss@);
    }

    #[verifier::spinoff_prover]
    #[verifier::rlimit(60)]
    pub fn mir_block(&mut self, b: &BasicBlock)
        ensures
            final(self).wrote(*old(self), show_mir_block(*b, old(self).verbose, old(self).ind())),
    {
        let ghost s0 = *self;
        self.dom(b);
        self.print.punct("'");
        self.print.number(b.id);
        self.print.lit(": {");
        let ghost s1 = *self;
        assert(s1.out() =~= s0.out() + show_dom(*b, s0.verbose, s0.ind()) + "'"@ + decimal(
            b.id as nat,
        ) + ": {"@);
        let saved = self.print.indent_more();
        self.mir_stmt_lines(&b.stmts);
        let ghost s2 = *self;
        let ghost tail = show_term_line(b.terminator, deeper(s0.ind()));
        match &b.terminator {
            Some(t) => {
                self.print.newline();
                self.terminator(t);
                self.print.lit(";");
            },
            None => {},
        }
        assert(self.out() =~= s2.out() + tail);
        self.print.indent_back(saved);
        self.print.newline();
        self.print.lit("}");
        assert(self.out() =~= s1.out() + show_mir_stmt_lines(b.stmts@, s0.verbose, deeper(s0.ind()))
            + tail + nl(s0.ind()) + "}"@);
        assert(self.out() =~= s0.out() + show_mir_block(*b, s0.verbose, s0.ind()));
    }

    fn lets(&mut self, ls: &Vec<Local>)
        ensures
            final(self).wrote(*old(self), show_lets(ls@, old(self).ind())),
    {
        let ghost s1 = *self;
        let mut i: usize = 0;
        while i < ls.len()
            invariant
                i <= ls@.len(),
                self.wrote(s1, show_lets(ls@.take(i as int), s1.ind())),
            decreases ls@.len() - i,
        {
            self.print.newline();
            self.print.lit("let ");
            self.local(&ls[i]);
            self.print.lit(";");
            proof {
                let t = ls@.take(i + 1);
                assert(t.drop_last() =~= ls@.take(i as int));
                assert(self.out() =~= s1.out() + show_lets(t, s1.ind()));
            }
            i = i + 1;
        }
        assert(ls@.take(ls@.len() as int) =~= ls@);
    }

    fn mir_blocks(&mut self, bs: &Vec<BasicBlock>)
        ensures
            final(self).wrote(*old(self), show_mir_blocks(bs@, old(self).verbose, old(self).ind())),
    {
        let ghost s2 = *self;
        let mut i: usize = 0;
        while i < bs.len()
            invariant
                i <= bs@.len(),
                self.wrote(s2, show_mir_blocks(bs@.take(i as int), s2.verbose, s2.ind())),
            decreases bs@.len() - i,
        {
            if i > 0 {
                self.print.newline();
            }
            self.mir_block(&bs[i]);
            proof {
                let t = bs@.take(i + 1);
                assert(t.drop_last() =~= bs@.take(i as int));
                if i == 0 {
                    assert(t =~= seq![bs@[0]]);
                }
                assert(self.out() =~= s2.out() + show_mir_blocks(t, s2.verbose, s2.ind()));
            }
            i = i + 1;
        }
        assert(bs@.take(bs@.len() as int) =~= bs@);
    }

    #[verifier::spinoff_prover]
    #[verifier::rlimit(60)]
    pub fn mir_function(&mut self, f: &Function)
        ensures
            final(self).wrote(*old(self), show_mir_function(*f, old(self).verbose, old(self).ind())),
    {
        let ghost s0 = *self;
        self.print.lit("fn ");
        self.print.name(&f.name);
        self.print.lit("(");
        self.locals(&f.params);
        self.print.lit(") -> ");
        self.ty(&f.ty);
        self.print.lit(" {");
        let ghost s1 = *self;
        assert(s1.out() =~= s0.out() + "fn "@ + f.name@ + "("@ + show_locals(f.params@) + ") -> "@
            + show_ty(f.ty) + " {"@);
        let saved = self.print.indent_more();
        self.lets(&f.locals);
        self.print.newline();
        self.mir_blocks(&f.blocks);
        let ghost s2 = *self;
        assert(s2.out() =~= s1.out() + show_lets(f.locals@, deeper(s0.ind())) + nl(deeper(s0.ind()))
            + show_mir_blocks(f.blocks@, s0.verbose, deeper(s0.ind())));
        self.print.indent_back(saved);
        self.print.newline();
        self.print.lit("}");
        assert(self.out() =~= s0.out() + show_mir_function(*f, s0.verbose, s0.ind()));
    }
}

/// A function or statement to be printed with the analysis results of verbose mode.
pub struct Verbose<T>(pub T);

impl Function {
    pub fn verbose(&self) -> (v: Verbose<&Function>)
        ensures
            v.0 == self,
    {
        Verbose(self)
    }

    /// The text of the function.
    pub fn to_text(&self) -> (s: String)
        ensures
            s@ == show_mir_function(*self, false, Seq::empty()),
    {
        let mut p = Pretty::new();
        p.mir_function(self);
        p.print.out
    }
}

impl Stmt {
    pub fn verbose(&self) -> (v: Verbose<&Stmt>)
        ensures
            v.0 == self,
    {
        Verbose(self)
    }

    /// The text of the statement.
    pub fn to_text(&self) -> (s: String)
        ensures
            s@ == show_mir_stmt(*self, false, Seq::empty()),
    {
        let mut p = Pretty::new();
        p.mir_stmt(self);
        p.print.out
    }
}

impl<'a> Verbose<&'a Function> {
    /// The text of the function, with the dominators of each block and the places live after
    /// each statement.
    pub fn to_text(&self) -> (s: String)
        ensures
            s@ == show_mir_function(*self.0, true, Seq::empty()),
    {
        let mut p = Pretty::new();
        p.verbose();
        p.mir_function(self.0);
        p.print.out
    }
}

impl<'a> Verbose<&'a Stmt> {
    /// The text of the statement, with the places live after it.
    pub fn to_text(&self) -> (s: String)
        ensures
            s@ == show_mir_stmt(*self.0, true, Seq::empty()),
    {
        let mut p = Pretty::new();
        p.verbose();
        p.mir_stmt(self.0);
        p.print.out
    }
}

} // verus!
