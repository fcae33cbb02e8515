//! The arithmetic levels of the grammar.

use vstd::prelude::*;
use crate::types::BramaOperatorType;
use crate::syntax::SyntaxParser;
use crate::syntax::SyntaxLevel;
use crate::syntax::AstResult;
use crate::syntax::parse_level;
use crate::syntax::grammar;
use crate::syntax::util::update_functions_for_temp_return;
use crate::compiler::ast::BramaAstType;
use crate::compiler::ast::retagged;

verus! {

/// The level of `%`.
pub struct ModuloParser;

/// The level of `*` and `/`.
pub struct MultiplyDivideParser;

/// The level of `+` and `-`.
pub struct AddSubtractParser;

impl ModuloParser {
    /// Reads at this level, starting at the cursor.
    pub fn parse(parser: &mut SyntaxParser) -> (result: AstResult)
        requires
            old(parser).well_formed(),
        ensures
            final(parser).parsed_as(
                old(parser),
                result,
                grammar::parse_level(
                    old(parser).token_views(),
                    old(parser).index as int,
                    old(parser).flags,
                    SyntaxLevel::Modulo,
                ),
            ),
        decreases old(parser).tokens@.len() - old(parser).index, 3nat, 4nat,
    {
        let operators: [BramaOperatorType; 1] = [BramaOperatorType::Modulo];
        assert(operators@ =~= grammar::level_operators(SyntaxLevel::Modulo));
        return parse_binary(parser, SyntaxLevel::MultiplyDivide, &operators);
    }
}

impl MultiplyDivideParser {
    /// Reads at this level, starting at the cursor.
    pub fn parse(parser: &mut SyntaxParser) -> (result: AstResult)
        requires
            old(parser).well_formed(),
        ensures
            final(parser).parsed_as(
                old(parser),
                result,
                grammar::parse_level(
                    old(parser).token_views(),
                    old(parser).index as int,
                    old(parser).flags,
                    SyntaxLevel::MultiplyDivide,
                ),
            ),
        decreases old(parser).tokens@.len() - old(parser).index, 2nat, 4nat,
    {
        let operators: [BramaOperatorType; 2] = [
            BramaOperatorType::Multiplication,
            BramaOperatorType::Division,
        ];
        assert(operators@ =~= grammar::level_operators(SyntaxLevel::MultiplyDivide));
        return parse_binary(parser, SyntaxLevel::Unary, &operators);
    }
}

impl AddSubtractParser {
    /// Reads at this level, starting at the cursor.
    pub fn parse(parser: &mut SyntaxParser) -> (result: AstResult)
        requires
            old(parser).well_formed(),
        ensures
            final(parser).parsed_as(
                old(parser),
                result,
                grammar::parse_level(
                    old(parser).token_views(),
                    old(parser).index as int,
                    old(parser).flags,
                    SyntaxLevel::AddSubtract,
                ),
            ),
        decreases old(parser).tokens@.len() - old(parser).index, 4nat, 4nat,
    {
        let operators: [BramaOperatorType; 2] = [
            BramaOperatorType::Addition,
            BramaOperatorType::Subtraction,
        ];
        assert(operators@ =~= grammar::level_operators(SyntaxLevel::AddSubtract));
        return parse_binary(parser, SyntaxLevel::Modulo, &operators);
    }
}

/// Reads a chain of operands at level `next` joined by operators of
/// `operators`, and folds it from the left into arithmetic nodes.
pub fn parse_binary(parser: &mut SyntaxParser, next: SyntaxLevel, operators: &[BramaOperatorType]) -> (result:
    AstResult)
    requires
        old(parser).well_formed(),
    ensures
        final(parser).parsed_as(
            old(parser),
            result,
            grammar::binary_chain(
                old(parser).token_views(),
                old(parser).index as int,
                old(parser).flags,
                next,
                operators@,
                false,
            ),
        ),
    decreases old(parser).tokens@.len() - old(parser).index, grammar::rank(next), 7nat,
{
    let ghost tokens = parser.token_views();
    let ghost expected = grammar::binary_chain(
        tokens,
        parser.index as int,
        parser.flags,
        next,
        operators@,
        false,
    );
    let mut functions_updated_for_temp: bool = false;
    let mut left_expr: BramaAstType = match parse_level(parser, next) {
        Ok(node) => node,
        Err(error) => {
            return Err(error);
        },
    };
    match left_expr {
        BramaAstType::Nothing => {
            return Ok(left_expr);
        },
        _ => (),
    };

    loop
        invariant
            parser.tokens == old(parser).tokens,
            parser.flags == old(parser).flags,
            old(parser).index <= parser.index <= parser.tokens@.len(),
            tokens == old(parser).token_views(),
            functions_updated_for_temp ==> retagged(left_expr@) == left_expr@,
            expected == grammar::binary_chain(
                tokens,
                old(parser).index as int,
                old(parser).flags,
                next,
                operators@,
                false,
            ),
            expected == grammar::binary_tail(
                tokens,
                parser.index as int,
                parser.flags,
                next,
                operators@,
                false,
                left_expr@,
            ),
        ensures
            parser.tokens == old(parser).tokens,
            parser.flags == old(parser).flags,
            old(parser).index <= parser.index <= parser.tokens@.len(),
            expected == (grammar::Parsed { result: Ok(left_expr@), index: parser.index as int }),
        decreases parser.tokens@.len() - parser.index,
    {
        let mark: usize = parser.backup();
        parser.cleanup_whitespaces();

        if let Some(operator) = parser.match_operator(operators) {
            if !functions_updated_for_temp {
                update_functions_for_temp_return(&mut left_expr);
                functions_updated_for_temp = true;
            }

            parser.cleanup_whitespaces();
            let parser_flags = parser.flags;
            parser.flags = parser_flags.with_expression();

            let right_expr = parse_level(parser, next);
            parser.flags = parser_flags;
            match right_expr {
                Ok(BramaAstType::Nothing) => {
                    return parser.fail("Right side of expression not found");
                },
                Ok(right) => {
                    left_expr = BramaAstType::Binary {
                        left: Box::new(left_expr),
                        operator: operator,
                        right: Box::new(right),
                    };
                },
                Err(error) => {
                    return Err(error);
                },
            };
        } else {
            parser.restore(mark);
            break;
        }
    }

    return Ok(left_expr);
}

} // verus!
