//! Compiler passes over whole programs.
use vstd::prelude::*;

use crate::ast::Program;

verus! {

/// A transformation of a program into another.
pub trait Pass {
    fn run(&mut self, program: &Program) -> Program;
}

} // verus!
