//! A small dynamically-typed expression language: a lexer that turns source
//! text into tokens, a precedence-climbing (Pratt) parser that builds a
//! syntax tree while accumulating structured errors, and a tree-walking
//! evaluator with lexical environments and closures.
//!
//! Every component is specified against a mathematical model: the lexer
//! against a spec-level scanner over the input characters, the parser against
//! a spec-level parser over the token sequence, and the evaluator against a
//! big-step spec-level semantics over deep views of the syntax tree and the
//! runtime values.

pub mod ast;
pub mod builtin;
pub mod environment;
pub mod display;
pub mod eval;
pub mod eval_error;
pub mod object;
pub mod laws;
pub mod lexer;
pub mod node;
pub mod parse_error;
pub mod parser;
pub mod program;
pub mod token;
