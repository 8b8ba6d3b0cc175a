//! The constraints that type inference gathers and solves.
use vstd::prelude::*;

use crate::ast::TraitBound;
use crate::ast::Type;
use crate::name::Name;
use crate::span::Span;

verus! {

#[derive(Debug)]
pub enum Constraint {
    /// Raised by a call of a function that has a where clause.
    WhereClause(Span, TraitBound),
    /// Raised by a reference to an associated function.
    ExprAssoc(Span, Type, TraitBound, Name, Vec<Type>),
    /// Raised by a reference to an associated type.
    TypeAssoc(Span, Type, TraitBound, Name, Vec<Type>),
    /// Raised by a reference to a field.
    Field(Span, Type, Type, Name),
}

} // verus!
