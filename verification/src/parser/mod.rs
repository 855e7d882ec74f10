//! The tokens of a source text and the first steps of parsing them.

pub mod comb;
pub mod token;
pub mod token_iter;
pub mod tree;

use crate::ast::{Ast, Module};
use crate::parser::comb::basic::ParseError;
use crate::parser::comb::stmt::{module, parsed_module};
use crate::parser::token::PyToken;
use crate::parser::tree::forest_of;
use crate::span::Span;
use vstd::prelude::*;

verus! {

/// A token and the place in the source where it was read.
#[derive(Clone, Copy, Debug, PartialEq, Eq, Structural)]
pub struct Token {
    pub token: PyToken,
    pub span: Span,
}

/// Parses the tokens of a module and enters its statements into the
/// arena. The module holds the nodes of its top-level statements, which
/// stand in the arena for the trees that the grammar reads from the
/// tokens. Where the tokens are no module, the arena stays as it was.
pub fn parse(stream: &[Token], ast: &mut Ast) -> (result: Result<Module, ParseError>)
    requires
        old(ast).wf(),
    ensures
        final(ast).wf(),
        old(ast)@.is_prefix_of(final(ast)@),
        match result {
            Ok(found) => parsed_module(stream@).is_some() && forest_of(
                final(ast)@,
                found.body@,
                final(ast)@.len() as int,
                0,
            ) == parsed_module(stream@),
            Err(_) => parsed_module(stream@).is_none() && *final(ast) == *old(ast),
        },
{
    match module(stream) {
        Ok(forest) => {
            let body = ast.add_forest(&forest);
            Ok(Module { body })
        },
        Err(e) => Err(e),
    }
}

} // verus!
