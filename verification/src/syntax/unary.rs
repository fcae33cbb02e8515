//! Operators that stand before an operand.

use vstd::prelude::*;
use crate::types::BramaOperatorType;
use crate::syntax::SyntaxParser;
use crate::syntax::SyntaxLevel;
use crate::syntax::AstResult;
use crate::syntax::parse_level;
use crate::syntax::grammar;
use crate::compiler::ast::BramaAstType;

verus! {

/// The level of the operators that stand before an operand.
pub struct UnaryParser;

impl UnaryParser {
    /// Reads at this level, starting at the cursor.
    pub fn parse(parser: &mut SyntaxParser) -> (result: AstResult)
        requires
            old(parser).well_formed(),
        ensures
            final(parser).parsed_as(
                old(parser),
                result,
                grammar::parse_level(
                    old(parser).token_views(),
                    old(parser).index as int,
                    old(parser).flags,
                    SyntaxLevel::Unary,
                ),
            ),
        decreases old(parser).tokens@.len() - old(parser).index, 1nat, 4nat,
    {
        let operators: [BramaOperatorType; 2] = [BramaOperatorType::Subtraction, BramaOperatorType::Not];
        assert(operators@ =~= grammar::unary_operators());
        let ghost tokens = parser.token_views();
        let ghost start = parser.index as int;
        assert(grammar::parse_level(tokens, start, parser.flags, SyntaxLevel::Unary) == grammar::unary(
            tokens,
            start,
            parser.flags,
        ));
        match parser.match_operator(&operators) {
            Some(operator) => {
                match parse_level(parser, SyntaxLevel::Unary) {
                    Ok(BramaAstType::Nothing) => parser.fail("Unary operand not found"),
                    Ok(operand) => Ok(BramaAstType::PrefixUnary(operator, Box::new(operand))),
                    Err(error) => Err(error),
                }
            },
            None => parse_level(parser, SyntaxLevel::Primative),
        }
    }
}

} // verus!
