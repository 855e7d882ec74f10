//! Semantic core of an ahead-of-time compiler for a statically typed,
//! Python-like language: symbol interning, the grammar, the type universe,
//! scopes and name lookup, type evaluation, flattening into linear code,
//! the plan that a backend carries out, and the compile-time object graph.

pub mod span;
pub mod ast;
pub mod error;
pub mod ribs;
pub mod scope;
pub mod typechk;
pub mod func;
pub mod class;
pub mod object;
pub mod flatcode;
pub mod parser;
pub mod codegen;
pub mod typing;
pub mod context;
pub mod interpreter;
