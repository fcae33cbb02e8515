//! The syntax parser: a cursor over the tokens, the flags that say what
//! surrounds the expression being read, and the levels of the grammar.

use vstd::prelude::*;
use crate::types::BramaOperatorType;
use crate::types::BramaTokenType;
use crate::types::Token;
use crate::types::token_views;
use crate::compiler::ast::BramaAstType;
use crate::compiler::ast::AstView;

pub mod binary;

pub mod control;

pub mod grammar;

pub mod primative;

pub mod unary;

pub mod util;

verus! {

/// What surrounds the expression being read. A call that is read while any
/// of these is set has its value used.
#[derive(Clone, Copy, Debug, PartialEq, Eq, Structural)]
pub struct SyntaxFlag {
    pub in_expression: bool,
    pub in_assignment: bool,
    pub in_function_arg: bool,
}

impl SyntaxFlag {
    /// No flag is set.
    pub open spec fn nothing() -> SyntaxFlag {
        SyntaxFlag { in_expression: false, in_assignment: false, in_function_arg: false }
    }

    /// The flags with the right side of an operator entered.
    pub open spec fn expression(self) -> SyntaxFlag {
        SyntaxFlag { in_expression: true, ..self }
    }

    /// The flags with the right side of an assignment entered.
    pub open spec fn assignment(self) -> SyntaxFlag {
        SyntaxFlag { in_assignment: true, ..self }
    }

    /// The flags with the arguments of a call entered.
    pub open spec fn function_arg(self) -> SyntaxFlag {
        SyntaxFlag { in_function_arg: true, ..self }
    }

    /// Whether a call that is read under these flags has its value used.
    pub open spec fn keeps_value(self) -> bool {
        self.in_expression || self.in_assignment || self.in_function_arg
    }

    /// No flag is set.
    pub fn none() -> (flags: SyntaxFlag)
        ensures
            flags == SyntaxFlag::nothing(),
    {
        SyntaxFlag { in_expression: false, in_assignment: false, in_function_arg: false }
    }

    /// The flags with the right side of an operator entered.
    pub fn with_expression(self) -> (flags: SyntaxFlag)
        ensures
            flags == self.expression(),
    {
        SyntaxFlag { in_expression: true, ..self }
    }

    /// The flags with the right side of an assignment entered.
    pub fn with_assignment(self) -> (flags: SyntaxFlag)
        ensures
            flags == self.assignment(),
    {
        SyntaxFlag { in_assignment: true, ..self }
    }

    /// The flags with the arguments of a call entered.
    pub fn with_function_arg(self) -> (flags: SyntaxFlag)
        ensures
            flags == self.function_arg(),
    {
        SyntaxFlag { in_function_arg: true, ..self }
    }

    /// Whether a call that is read under these flags has its value used.
    pub fn is_value_kept(self) -> (kept: bool)
        ensures
            kept == self.keeps_value(),
    {
        self.in_expression || self.in_assignment || self.in_function_arg
    }
}

/// The levels of the grammar, loosest first. Each level reads operands at the
/// next tighter one.
#[derive(Clone, Copy, Debug, PartialEq, Eq, Structural)]
pub enum SyntaxLevel {
    Expression,
    Or,
    And,
    Equality,
    Control,
    AddSubtract,
    Modulo,
    MultiplyDivide,
    Unary,
    Primative,
}

/// What a parser hands back: a tree, or a message with a line and a column.
pub type AstResult = Result<BramaAstType, (&'static str, u32, u32)>;

/// An `AstResult` as a mathematical value.
pub open spec fn result_view(result: AstResult) -> Result<AstView, (Seq<char>, u32, u32)> {
    match result {
        Ok(node) => Ok(node@),
        Err(error) => Err((error.0@, error.1, error.2)),
    }
}

/// The cursor of the syntax parser over the tokens, with the flags of
/// what it is reading.
pub struct SyntaxParser {
    pub tokens: Vec<Token>,
    pub index: usize,
    pub flags: SyntaxFlag,
}

impl SyntaxParser {
    /// The cursor is at a token or just behind the last one.
    pub open spec fn well_formed(&self) -> bool {
        self.index <= self.tokens@.len()
    }

    /// The tokens as mathematical values.
    pub open spec fn token_views(&self) -> Seq<crate::types::TokenView> {
        token_views(self.tokens@)
    }

    /// This parser is what `before` becomes by a sub-parser that hands back
    /// `result`, where the grammar says `expected`: the same tokens and flags,
    /// the cursor where the grammar puts it and not before its start, and
    /// the tree or error that the grammar gives.
    pub open spec fn parsed_as(&self, before: &SyntaxParser, result: AstResult, expected: grammar::Parsed) -> bool {
        &&& self.tokens == before.tokens
        &&& self.flags == before.flags
        &&& self.index as int == expected.index
        &&& before.index <= self.index <= self.tokens@.len()
        &&& result_view(result) == expected.result
    }

    /// A parser at the first token, with no flag set.
    pub fn new(tokens: Vec<Token>) -> (parser: SyntaxParser)
        ensures
            parser.tokens == tokens,
            parser.index == 0,
            parser.flags == SyntaxFlag::nothing(),
    {
        SyntaxParser { tokens, index: 0, flags: SyntaxFlag::none() }
    }

    /// Marks the place of the cursor.
    pub fn backup(&self) -> (mark: usize)
        ensures
            mark == self.index,
    {
        self.index
    }

    /// Puts the cursor back on a mark.
    pub fn restore(&mut self, mark: usize)
        ensures
            *final(self) == (SyntaxParser { index: mark, ..*old(self) }),
    {
        self.index = mark;
    }

    /// Moves the cursor over blanks that stand inside a line.
    pub fn cleanup_whitespaces(&mut self)
        requires
            old(self).well_formed(),
        ensures
            final(self).tokens == old(self).tokens,
            final(self).flags == old(self).flags,
            final(self).index as int == grammar::skip_whitespaces(
                old(self).token_views(),
                old(self).index as int,
            ),
            old(self).index <= final(self).index <= final(self).tokens@.len(),
    {
        while self.index < self.tokens.len() && is_whitespace_token(&self.tokens[self.index])
            invariant
                self.tokens == old(self).tokens,
                self.flags == old(self).flags,
                old(self).index <= self.index <= self.tokens@.len(),
                grammar::skip_whitespaces(old(self).token_views(), old(self).index as int)
                    == grammar::skip_whitespaces(old(self).token_views(), self.index as int),
            decreases self.tokens@.len() - self.index,
        {
            self.index += 1;
        }
    }

    /// The operator under the cursor if it is one of `operators`; the cursor
    /// then moves behind it.
    pub fn match_operator(&mut self, operators: &[BramaOperatorType]) -> (found: Option<
        BramaOperatorType,
    >)
        requires
            old(self).well_formed(),
        ensures
            final(self).tokens == old(self).tokens,
            final(self).flags == old(self).flags,
            found == grammar::matched_operator(
                old(self).token_views(),
                old(self).index as int,
                operators@,
            ),
            final(self).index == if found is Some {
                old(self).index + 1
            } else {
                old(self).index as int
            },
            final(self).well_formed(),
    {
        match self.operator_under_cursor() {
            Some(operator) => {
                if holds_operator(operators, operator) && self.index < self.tokens.len() {
                    self.index += 1;
                    Some(operator)
                } else {
                    None
                }
            },
            None => None,
        }
    }

    /// The operator under the cursor, if a token stands there and is one.
    pub fn operator_under_cursor(&self) -> (found: Option<BramaOperatorType>)
        ensures
            found == grammar::operator_at(self.token_views(), self.index as int),
            found is Some ==> self.index < self.tokens@.len(),
    {
        if self.index >= self.tokens.len() {
            return None;
        }
        match &self.tokens[self.index].token_type {
            BramaTokenType::Operator(operator) => Some(*operator),
            _ => None,
        }
    }

    /// The place of the token under the cursor; behind the last token, the
    /// place of the last token; without tokens, the origin.
    pub fn position(&self) -> (place: (u32, u32))
        ensures
            place == grammar::position_at(self.token_views(), self.index as int),
    {
        if self.index < self.tokens.len() {
            (self.tokens[self.index].line, self.tokens[self.index].column)
        } else if self.tokens.len() > 0 {
            let last: usize = self.tokens.len() - 1;
            (self.tokens[last].line, self.tokens[last].column)
        } else {
            (0, 0)
        }
    }
}

impl SyntaxParser {
    /// An error with `message` at the place of the cursor.
    pub fn fail(&self, message: &'static str) -> (result: AstResult)
        ensures
            result_view(result) == grammar::failure(
                self.token_views(),
                self.index as int,
                message@,
            ).result,
    {
        let place: (u32, u32) = self.position();
        Err((message, place.0, place.1))
    }
}

impl SyntaxParser {
    /// Moves the cursor over blanks and line breaks.
    pub fn cleanup_blank(&mut self)
        requires
            old(self).well_formed(),
        ensures
            final(self).tokens == old(self).tokens,
            final(self).flags == old(self).flags,
            final(self).index as int == grammar::skip_blank(
                old(self).token_views(),
                old(self).index as int,
            ),
            old(self).index <= final(self).index <= final(self).tokens@.len(),
    {
        while self.index < self.tokens.len() && is_blank_token(&self.tokens[self.index])
            invariant
                self.tokens == old(self).tokens,
                self.flags == old(self).flags,
                old(self).index <= self.index <= self.tokens@.len(),
                grammar::skip_blank(old(self).token_views(), old(self).index as int)
                    == grammar::skip_blank(old(self).token_views(), self.index as int),
            decreases self.tokens@.len() - self.index,
        {
            self.index += 1;
        }
    }

    /// Reads one statement: an assignment to a name, or an expression.
    pub fn parse_statement(&mut self) -> (result: AstResult)
        requires
            old(self).well_formed(),
        ensures
            final(self).tokens == old(self).tokens,
            final(self).flags == SyntaxFlag::nothing(),
            final(self).index as int == grammar::statement(
                old(self).token_views(),
                old(self).index as int,
            ).index,
            old(self).index <= final(self).index <= final(self).tokens@.len(),
            result_view(result) == grammar::statement(
                old(self).token_views(),
                old(self).index as int,
            ).result,
    {
        self.flags = SyntaxFlag::none();
        if self.index < self.tokens.len() {
            if let Some(name) = self.symbol_at(0) {
                let mark: usize = self.backup();
                self.index += 1;
                self.cleanup_whitespaces();
                if self.is_operator_at(0, BramaOperatorType::Assign) {
                    self.index += 1;
                    self.cleanup_whitespaces();
                    self.flags = SyntaxFlag::none().with_assignment();
                    let value = parse_level(self, SyntaxLevel::Expression);
                    self.flags = SyntaxFlag::none();
                    return match value {
                        Ok(BramaAstType::Nothing) => self.fail("Expression not found"),
                        Ok(node) => Ok(
                            BramaAstType::Assignment {
                                variable: name,
                                operator: BramaOperatorType::Assign,
                                expression: Box::new(node),
                            },
                        ),
                        Err(error) => Err(error),
                    };
                }
                self.restore(mark);
            }
        }
        parse_level(self, SyntaxLevel::Expression)
    }

    /// Reads a program, one statement to a line, into a block node. The
    /// flags are cleared.
    pub fn parse(&mut self) -> (result: AstResult)
        requires
            old(self).well_formed(),
        ensures
            final(self).tokens == old(self).tokens,
            final(self).flags == SyntaxFlag::nothing(),
            final(self).index as int == grammar::program(
                old(self).token_views(),
                old(self).index as int,
                Seq::empty(),
            ).index,
            result_view(result) == grammar::program(
                old(self).token_views(),
                old(self).index as int,
                Seq::empty(),
            ).result,
    {
        let ghost tokens = self.token_views();
        let ghost expected = grammar::program(tokens, self.index as int, Seq::empty());
        self.flags = SyntaxFlag::none();
        let mut statements: Vec<BramaAstType> = Vec::new();
        proof {
            crate::compiler::ast::ast_views_empty(statements);
        }
        loop
            invariant
                self.tokens == old(self).tokens,
                self.flags == SyntaxFlag::nothing(),
                old(self).index <= self.index <= self.tokens@.len(),
                tokens == old(self).token_views(),
                expected == grammar::program(tokens, old(self).index as int, Seq::empty()),
                expected == grammar::program(
                    tokens,
                    self.index as int,
                    crate::compiler::ast::ast_views(statements),
                ),
            decreases self.tokens@.len() - self.index,
        {
            let begin: usize = self.index;
            self.cleanup_blank();
            if self.index >= self.tokens.len() {
                return Ok(BramaAstType::Block(statements));
            }
            match self.parse_statement() {
                Ok(BramaAstType::Nothing) => {
                    return self.fail("Syntax error");
                },
                Ok(node) => {
                    let ghost before = statements;
                    let ghost pushed = node;
                    statements.push(node);
                    proof {
                        crate::compiler::ast::ast_views_push(before, statements, pushed);
                    }
                    self.cleanup_whitespaces();
                    if self.index >= self.tokens.len() {
                        return Ok(BramaAstType::Block(statements));
                    }
                    if !is_new_line_token(&self.tokens[self.index]) || self.index <= begin {
                        return self.fail("Syntax error");
                    }
                },
                Err(error) => {
                    return Err(error);
                },
            }
        }
    }
}

/// Reads at `level`, starting at the cursor.
pub fn parse_level(parser: &mut SyntaxParser, level: SyntaxLevel) -> (result: AstResult)
    requires
        old(parser).well_formed(),
    ensures
        final(parser).parsed_as(
            old(parser),
            result,
            grammar::parse_level(
                old(parser).token_views(),
                old(parser).index as int,
                old(parser).flags,
                level,
            ),
        ),
    decreases old(parser).tokens@.len() - old(parser).index, grammar::rank(level), 5nat,
{
    match level {
        SyntaxLevel::Expression => control::ExpressionParser::parse(parser),
        SyntaxLevel::Or => control::OrParser::parse(parser),
        SyntaxLevel::And => control::AndParser::parse(parser),
        SyntaxLevel::Equality => control::EqualityParser::parse(parser),
        SyntaxLevel::Control => control::ControlParser::parse(parser),
        SyntaxLevel::AddSubtract => binary::AddSubtractParser::parse(parser),
        SyntaxLevel::Modulo => binary::ModuloParser::parse(parser),
        SyntaxLevel::MultiplyDivide => binary::MultiplyDivideParser::parse(parser),
        SyntaxLevel::Unary => unary::UnaryParser::parse(parser),
        SyntaxLevel::Primative => primative::PrimativeParser::parse(parser),
    }
}

/// Whether `operator` is one of `operators`.
pub fn holds_operator(operators: &[BramaOperatorType], operator: BramaOperatorType) -> (found: bool)
    ensures
        found == operators@.contains(operator),
{
    let mut i: usize = 0;
    while i < operators.len()
        invariant
            i <= operators@.len(),
            forall|j: int| 0 <= j < i ==> operators@[j] != operator,
        decreases operators@.len() - i,
    {
        if operators[i] == operator {
            return true;
        }
        i += 1;
    }
    false
}

/// Whether a token is a line break.
pub fn is_new_line_token(token: &Token) -> (answer: bool)
    ensures
        answer == (token@.token_type is NewLine),
{
    match token.token_type {
        BramaTokenType::NewLine(_) => true,
        _ => false,
    }
}

/// Whether a token is a run of blanks or a line break.
pub fn is_blank_token(token: &Token) -> (answer: bool)
    ensures
        answer == (token@.token_type is WhiteSpace || token@.token_type is NewLine),
{
    match token.token_type {
        BramaTokenType::WhiteSpace(_) => true,
        BramaTokenType::NewLine(_) => true,
        _ => false,
    }
}

/// Whether a token is a run of blanks inside a line.
pub fn is_whitespace_token(token: &Token) -> (answer: bool)
    ensures
        answer == (token@.token_type is WhiteSpace),
{
    match token.token_type {
        BramaTokenType::WhiteSpace(_) => true,
        _ => false,
    }
}

} // verus!
