//! The tightest level of the grammar: literals, names, calls, lists,
//! expressions between parentheses, and the method calls that follow them.

use vstd::prelude::*;
use std::sync::Arc;
use crate::types::BramaKeywordType;
use crate::types::BramaOperatorType;
use crate::types::BramaTokenType;
use crate::types::TokenTypeView;
use crate::syntax::SyntaxParser;
use crate::syntax::SyntaxLevel;
use crate::syntax::AstResult;
use crate::syntax::parse_level;
use crate::syntax::grammar;
use crate::syntax::util::update_functions_for_temp_return;
use crate::compiler::ast::BramaAstType;
use crate::compiler::ast::ast_views;
use crate::compiler::ast::ast_views_push;
use crate::compiler::ast::ast_views_empty;
use crate::compiler::value::BramaPrimative;
use crate::compiler::value::PrimativeView;

verus! {

/// The tightest level: an atom and the method calls behind it.
pub struct PrimativeParser;

/// The value that a literal token writes.
pub open spec fn literal_of(token: TokenTypeView) -> Option<PrimativeView> {
    match token {
        TokenTypeView::Integer(number) => Some(PrimativeView::Integer(number)),
        TokenTypeView::Double(digits) => Some(PrimativeView::Double(digits)),
        TokenTypeView::Text(content) => Some(PrimativeView::Text(content)),
        TokenTypeView::Keyword(BramaKeywordType::True) => Some(PrimativeView::Bool(true)),
        TokenTypeView::Keyword(BramaKeywordType::False) => Some(PrimativeView::Bool(false)),
        _ => None,
    }
}

impl SyntaxParser {
    /// The value of the literal `offset` tokens after the cursor, if a
    /// literal stands there.
    pub fn literal_at(&self, offset: usize) -> (found: Option<BramaPrimative>)
        requires
            self.index + offset <= usize::MAX,
        ensures
            self.index + offset >= self.tokens@.len() ==> found is None,
            self.index + offset < self.tokens@.len() ==> match found {
                Some(value) => literal_of(self.token_views()[self.index + offset].token_type) == Some(
                    value@,
                ),
                None => literal_of(self.token_views()[self.index + offset].token_type) is None,
            },
    {
        if self.index + offset >= self.tokens.len() {
            return None;
        }
        match &self.tokens[self.index + offset].token_type {
            BramaTokenType::Integer(number) => Some(BramaPrimative::Integer(*number)),
            BramaTokenType::Double(digits) => Some(
                BramaPrimative::Double(crate::text::copy_text(digits.as_str())),
            ),
            BramaTokenType::Text(content) => Some(
                BramaPrimative::Text(crate::text::copy_text(content.as_str())),
            ),
            BramaTokenType::Keyword(BramaKeywordType::True) => Some(BramaPrimative::Bool(true)),
            BramaTokenType::Keyword(BramaKeywordType::False) => Some(BramaPrimative::Bool(false)),
            _ => None,
        }
    }

    /// The name `offset` tokens after the cursor, if a name stands there.
    pub fn symbol_at(&self, offset: usize) -> (found: Option<String>)
        requires
            self.index + offset <= usize::MAX,
        ensures
            self.index + offset >= self.tokens@.len() ==> found is None,
            self.index + offset < self.tokens@.len() ==> match found {
                Some(name) => self.token_views()[self.index + offset].token_type
                    == TokenTypeView::Symbol(name@),
                None => !(self.token_views()[self.index + offset].token_type is Symbol),
            },
    {
        if self.index + offset >= self.tokens.len() {
            return None;
        }
        match &self.tokens[self.index + offset].token_type {
            BramaTokenType::Symbol(name) => Some(crate::text::copy_text(name.as_str())),
            _ => None,
        }
    }

    /// Whether the token `offset` places after the cursor is `operator`.
    pub fn is_operator_at(&self, offset: usize, operator: BramaOperatorType) -> (answer: bool)
        requires
            self.index + offset <= usize::MAX,
        ensures
            answer == (grammar::operator_at(self.token_views(), self.index + offset) == Some(
                operator,
            )),
            answer ==> self.index + offset < self.tokens@.len(),
            answer ==> self.index + offset < usize::MAX,
    {
        if self.index + offset >= self.tokens.len() {
            return false;
        }
        match &self.tokens[self.index + offset].token_type {
            BramaTokenType::Operator(found) => *found == operator,
            _ => false,
        }
    }
}

/// The message for a list of items that its closing bracket does not end.
pub fn unclosed_message(closer: BramaOperatorType) -> (message: &'static str)
    ensures
        message@ == grammar::message_unclosed(closer),
{
    if closer == BramaOperatorType::SquareBracketEnd {
        "List not closed"
    } else {
        "Parentheses not closed"
    }
}

/// Reads expressions with commas between them up to the bracket `closer`,
/// and hands them back as a list node.
pub fn parse_items(parser: &mut SyntaxParser, closer: BramaOperatorType) -> (result: AstResult)
    requires
        old(parser).well_formed(),
    ensures
        final(parser).parsed_as(
            old(parser),
            result,
            grammar::items(
                old(parser).token_views(),
                old(parser).index as int,
                old(parser).flags,
                closer,
                Seq::empty(),
            ),
        ),
    decreases old(parser).tokens@.len() - old(parser).index, 10nat, 0nat,
{
    let ghost tokens = parser.token_views();
    let ghost expected = grammar::items(
        tokens,
        parser.index as int,
        parser.flags,
        closer,
        Seq::empty(),
    );
    let mut list: Vec<BramaAstType> = Vec::new();
    proof {
        ast_views_empty(list);
    }
    loop
        invariant
            parser.tokens == old(parser).tokens,
            parser.flags == old(parser).flags,
            old(parser).index <= parser.index <= parser.tokens@.len(),
            tokens == old(parser).token_views(),
            expected == grammar::items(
                tokens,
                old(parser).index as int,
                old(parser).flags,
                closer,
                Seq::empty(),
            ),
            expected == grammar::items(
                tokens,
                parser.index as int,
                parser.flags,
                closer,
                ast_views(list),
            ),
        decreases parser.tokens@.len() - parser.index,
    {
        parser.cleanup_whitespaces();
        if parser.is_operator_at(0, closer) {
            parser.index += 1;
            return Ok(BramaAstType::List(list));
        }
        match parse_level(parser, SyntaxLevel::Expression) {
            Ok(BramaAstType::Nothing) => {
                return parser.fail("Expression not found");
            },
            Ok(node) => {
                let ghost before = list;
                let ghost pushed = node;
                list.push(node);
                proof {
                    ast_views_push(before, list, pushed);
                }
                parser.cleanup_whitespaces();
                if parser.is_operator_at(0, closer) {
                    parser.index += 1;
                    return Ok(BramaAstType::List(list));
                } else if parser.is_operator_at(0, BramaOperatorType::Comma) {
                    parser.index += 1;
                } else {
                    return parser.fail(unclosed_message(closer));
                }
            },
            Err(error) => {
                return Err(error);
            },
        }
    }
}

/// Reads a literal, a name, a call by name, a list, or an expression
/// between parentheses.
pub fn parse_atom(parser: &mut SyntaxParser) -> (result: AstResult)
    requires
        old(parser).well_formed(),
    ensures
        final(parser).parsed_as(
            old(parser),
            result,
            grammar::atom(old(parser).token_views(), old(parser).index as int, old(parser).flags),
        ),
    decreases old(parser).tokens@.len() - old(parser).index, 0nat, 0nat,
{
    if parser.index >= parser.tokens.len() {
        return Ok(BramaAstType::Nothing);
    }
    let ghost tokens = parser.token_views();
    let line: u32 = parser.tokens[parser.index].line;
    let column: u32 = parser.tokens[parser.index].column;
    if let Some(value) = parser.literal_at(0) {
        parser.index += 1;
        return Ok(BramaAstType::Primative(Arc::new(value)));
    }
    if let Some(name) = parser.symbol_at(0) {
        let ghost first = name@;
        let mut names: Vec<String> = Vec::new();
        names.push(name);
        assert(names.deep_view() =~= seq![first]);
        parser.index += 1;
        loop
            invariant
                parser.tokens == old(parser).tokens,
                parser.flags == old(parser).flags,
                old(parser).index < parser.index <= parser.tokens@.len(),
                tokens == old(parser).token_views(),
                names@.len() >= 1,
                names@.len() == 1 ==> parser.index == old(parser).index + 1,
                names.deep_view()[0] == first,
                grammar::path_names(tokens, old(parser).index + 1, seq![first])
                    == grammar::path_names(tokens, parser.index as int, names.deep_view()),
            ensures
                parser.tokens == old(parser).tokens,
                parser.flags == old(parser).flags,
                old(parser).index < parser.index <= parser.tokens@.len(),
                names@.len() >= 1,
                names@.len() == 1 ==> parser.index == old(parser).index + 1,
                names.deep_view()[0] == first,
                grammar::path_names(tokens, old(parser).index + 1, seq![first]) == (
                    names.deep_view(),
                    parser.index as int,
                ),
            decreases parser.tokens@.len() - parser.index,
        {
            if parser.tokens.len() - parser.index > 2 && parser.is_operator_at(
                0,
                BramaOperatorType::ColonMark,
            ) && parser.is_operator_at(1, BramaOperatorType::ColonMark) {
                match parser.symbol_at(2) {
                    Some(part) => {
                        let ghost before = names.deep_view();
                        let ghost added = part@;
                        names.push(part);
                        assert(names.deep_view() =~= before.push(added));
                        parser.index += 3;
                    },
                    None => {
                        break;
                    },
                }
            } else {
                break;
            }
        }
        if parser.is_operator_at(0, BramaOperatorType::LeftParentheses) {
            parser.index += 1;
            let parser_flags = parser.flags;
            parser.flags = parser_flags.with_function_arg();
            let arguments = parse_items(parser, BramaOperatorType::RightParentheses);
            parser.flags = parser_flags;
            return match arguments {
                Ok(BramaAstType::List(list)) => Ok(
                    BramaAstType::FuncCall {
                        names,
                        arguments: list,
                        assign_to_temp: parser_flags.is_value_kept(),
                        line,
                        column,
                    },
                ),
                other => other,
            };
        } else if names.len() == 1 {
            match names.pop() {
                Some(name) => {
                    return Ok(BramaAstType::Symbol { name, line, column });
                },
                None => {
                    return Ok(BramaAstType::Nothing);
                },
            }
        } else {
            return parser.fail("Function call expected");
        }
    }
    if parser.is_operator_at(0, BramaOperatorType::SquareBracketStart) {
        parser.index += 1;
        let parser_flags = parser.flags;
        parser.flags = parser_flags.with_expression();
        let list = parse_items(parser, BramaOperatorType::SquareBracketEnd);
        parser.flags = parser_flags;
        return list;
    }
    if parser.is_operator_at(0, BramaOperatorType::LeftParentheses) {
        parser.index += 1;
        parser.cleanup_whitespaces();
        return match parse_level(parser, SyntaxLevel::Expression) {
            Ok(BramaAstType::Nothing) => parser.fail("Expression not found"),
            Ok(node) => {
                parser.cleanup_whitespaces();
                if parser.is_operator_at(0, BramaOperatorType::RightParentheses) {
                    parser.index += 1;
                    Ok(node)
                } else {
                    parser.fail("Parentheses not closed")
                }
            },
            Err(error) => Err(error),
        };
    }
    Ok(BramaAstType::Nothing)
}

/// Reads the method calls that follow the value `source`.
pub fn parse_postfix(parser: &mut SyntaxParser, source: BramaAstType) -> (result: AstResult)
    requires
        old(parser).well_formed(),
    ensures
        final(parser).parsed_as(
            old(parser),
            result,
            grammar::postfix(
                old(parser).token_views(),
                old(parser).index as int,
                old(parser).flags,
                source@,
            ),
        ),
    decreases old(parser).tokens@.len() - old(parser).index, 0nat, 0nat,
{
    let ghost tokens = parser.token_views();
    let ghost expected = grammar::postfix(tokens, parser.index as int, parser.flags, source@);
    let mut value: BramaAstType = source;
    loop
        invariant
            parser.tokens == old(parser).tokens,
            parser.flags == old(parser).flags,
            old(parser).index <= parser.index <= parser.tokens@.len(),
            tokens == old(parser).token_views(),
            expected == grammar::postfix(
                tokens,
                old(parser).index as int,
                old(parser).flags,
                source@,
            ),
            expected == grammar::postfix(tokens, parser.index as int, parser.flags, value@),
        decreases parser.tokens@.len() - parser.index,
    {
        if parser.tokens.len() - parser.index > 2 && parser.is_operator_at(0, BramaOperatorType::Dot)
            && parser.is_operator_at(2, BramaOperatorType::LeftParentheses) {
            match parser.symbol_at(1) {
                Some(name) => {
                    let line: u32 = parser.tokens[parser.index + 1].line;
                    let column: u32 = parser.tokens[parser.index + 1].column;
                    parser.index += 3;
                    let parser_flags = parser.flags;
                    parser.flags = parser_flags.with_function_arg();
                    let arguments = parse_items(parser, BramaOperatorType::RightParentheses);
                    parser.flags = parser_flags;
                    match arguments {
                        Ok(BramaAstType::List(list)) => {
                            update_functions_for_temp_return(&mut value);
                            value = BramaAstType::AccessorFuncCall {
                                source: Box::new(value),
                                name,
                                arguments: list,
                                assign_to_temp: parser_flags.is_value_kept(),
                                line,
                                column,
                            };
                        },
                        other => {
                            return other;
                        },
                    }
                },
                None => {
                    return Ok(value);
                },
            }
        } else {
            return Ok(value);
        }
    }
}

impl PrimativeParser {
    /// Reads at this level, starting at the cursor.
    pub fn parse(parser: &mut SyntaxParser) -> (result: AstResult)
        requires
            old(parser).well_formed(),
        ensures
            final(parser).parsed_as(
                old(parser),
                result,
                grammar::parse_level(
                    old(parser).token_views(),
                    old(parser).index as int,
                    old(parser).flags,
                    SyntaxLevel::Primative,
                ),
            ),
        decreases old(parser).tokens@.len() - old(parser).index, 0nat, 4nat,
    {
        match parse_atom(parser) {
            Ok(BramaAstType::Nothing) => Ok(BramaAstType::Nothing),
            Ok(source) => parse_postfix(parser, source),
            Err(error) => Err(error),
        }
    }
}

} // verus!
