//! A minimal interpreter for a Lisp-like expression language: a symbolic
//! value representation with reference-counted cons cells, a textual
//! parser that turns one complete unit of source text into a value, and a
//! tree-walking evaluator over a mutable variable environment.
pub mod ast;
pub mod eval;
pub mod parser;
