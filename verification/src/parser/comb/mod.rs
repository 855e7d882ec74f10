//! Parsers over slices of tokens. Each takes the tokens that are left and
//! gives back what it has read together with the tokens after it.

pub mod atom;
pub mod basic;
pub mod expr;
pub mod stmt;
