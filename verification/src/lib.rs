//! A small Lisp-like expression language: parser, static type checker, and
//! an environment-based tree-walking evaluator, with machine-checked
//! contracts describing each stage.
pub mod ast;
pub mod env;
pub mod eval;
pub mod chars;
pub mod floats;
pub mod laws;
pub mod numerals;
pub mod parser;
pub mod types;

use vstd::prelude::*;

verus! {

} // verus!
