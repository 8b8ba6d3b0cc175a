pub mod span;
pub mod desugar;
pub mod diag;
pub mod display;
pub mod token;
pub mod text;
pub mod lexer;
pub mod mangle;
pub mod hir;
pub mod map;
pub mod mir;
pub mod name;
pub mod ordmap;
pub mod parser;
pub mod pass;
pub mod print;
pub mod ast;
pub mod dsl;
pub mod ast_eq;
pub mod infer;
pub mod style;
