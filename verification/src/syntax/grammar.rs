//! The grammar as mathematics: what each level of the parser reads from a
//! sequence of tokens, starting at a given place.

use vstd::prelude::*;
use crate::types::BramaOperatorType;
use crate::types::BramaKeywordType;
use crate::types::TokenTypeView;
use crate::types::TokenView;
use crate::compiler::ast::AstView;
use crate::compiler::ast::retagged;
use crate::compiler::ast::value_is_used;
use crate::compiler::value::PrimativeView;
use crate::syntax::SyntaxFlag;
use crate::syntax::SyntaxLevel;

verus! {

/// The outcome of reading at one level: the tree or the error, and where the
/// cursor stands afterwards.
pub struct Parsed {
    pub result: Result<AstView, (Seq<char>, u32, u32)>,
    pub index: int,
}

/// The place that an error at `index` reports.
pub open spec fn position_at(tokens: Seq<TokenView>, index: int) -> (u32, u32) {
    if 0 <= index < tokens.len() {
        (tokens[index].line, tokens[index].column)
    } else if tokens.len() > 0 {
        (tokens.last().line, tokens.last().column)
    } else {
        (0, 0)
    }
}

/// An error with the place of the token at `index`.
pub open spec fn failure(tokens: Seq<TokenView>, index: int, message: Seq<char>) -> Parsed {
    Parsed { result: Err((message, position_at(tokens, index).0, position_at(tokens, index).1)), index }
}

/// The first place at or after `index` that holds no blank.
pub open spec fn skip_whitespaces(tokens: Seq<TokenView>, index: int) -> int
    decreases tokens.len() - index,
{
    if 0 <= index < tokens.len() && tokens[index].token_type is WhiteSpace {
        skip_whitespaces(tokens, index + 1)
    } else {
        index
    }
}

/// The first place at or after `index` that holds neither a blank nor a line
/// break.
pub open spec fn skip_blank(tokens: Seq<TokenView>, index: int) -> int
    decreases tokens.len() - index,
{
    if 0 <= index < tokens.len() && (tokens[index].token_type is WhiteSpace
        || tokens[index].token_type is NewLine) {
        skip_blank(tokens, index + 1)
    } else {
        index
    }
}

/// The operator at `index`, if a token stands there and is one.
pub open spec fn operator_at(tokens: Seq<TokenView>, index: int) -> Option<BramaOperatorType> {
    if 0 <= index < tokens.len() {
        match tokens[index].token_type {
            TokenTypeView::Operator(operator) => Some(operator),
            _ => None,
        }
    } else {
        None
    }
}

/// The operator at `index`, if it is one of `operators`.
pub open spec fn matched_operator(
    tokens: Seq<TokenView>,
    index: int,
    operators: Seq<BramaOperatorType>,
) -> Option<BramaOperatorType> {
    match operator_at(tokens, index) {
        Some(operator) => if operators.contains(operator) {
            Some(operator)
        } else {
            None
        },
        None => None,
    }
}

/// Skipping blanks ends inside the tokens and not before its start.
pub proof fn skip_whitespaces_bounds(tokens: Seq<TokenView>, index: int)
    requires
        0 <= index <= tokens.len(),
    ensures
        index <= skip_whitespaces(tokens, index) <= tokens.len(),
    decreases tokens.len() - index,
{
    if index < tokens.len() && tokens[index].token_type is WhiteSpace {
        skip_whitespaces_bounds(tokens, index + 1);
    }
}


/// How tightly a level binds: the smaller, the tighter.
pub open spec fn rank(level: SyntaxLevel) -> nat {
    match level {
        SyntaxLevel::Primative => 0,
        SyntaxLevel::Unary => 1,
        SyntaxLevel::MultiplyDivide => 2,
        SyntaxLevel::Modulo => 3,
        SyntaxLevel::AddSubtract => 4,
        SyntaxLevel::Control => 5,
        SyntaxLevel::Equality => 6,
        SyntaxLevel::And => 7,
        SyntaxLevel::Or => 8,
        SyntaxLevel::Expression => 9,
    }
}

/// The level at which a binary level reads its operands.
pub open spec fn operand_level(level: SyntaxLevel) -> SyntaxLevel {
    match level {
        SyntaxLevel::Or => SyntaxLevel::And,
        SyntaxLevel::And => SyntaxLevel::Equality,
        SyntaxLevel::Equality => SyntaxLevel::Control,
        SyntaxLevel::Control => SyntaxLevel::AddSubtract,
        SyntaxLevel::AddSubtract => SyntaxLevel::Modulo,
        SyntaxLevel::Modulo => SyntaxLevel::MultiplyDivide,
        SyntaxLevel::MultiplyDivide => SyntaxLevel::Unary,
        _ => SyntaxLevel::Primative,
    }
}

/// The operators that a binary level folds.
pub open spec fn level_operators(level: SyntaxLevel) -> Seq<BramaOperatorType> {
    match level {
        SyntaxLevel::Or => seq![BramaOperatorType::Or],
        SyntaxLevel::And => seq![BramaOperatorType::And],
        SyntaxLevel::Equality => seq![BramaOperatorType::Equal, BramaOperatorType::NotEqual],
        SyntaxLevel::Control => seq![
            BramaOperatorType::GreaterEqualThan,
            BramaOperatorType::GreaterThan,
            BramaOperatorType::LessEqualThan,
            BramaOperatorType::LessThan,
        ],
        SyntaxLevel::AddSubtract => seq![BramaOperatorType::Addition, BramaOperatorType::Subtraction],
        SyntaxLevel::Modulo => seq![BramaOperatorType::Modulo],
        SyntaxLevel::MultiplyDivide => seq![
            BramaOperatorType::Multiplication,
            BramaOperatorType::Division,
        ],
        _ => Seq::empty(),
    }
}

/// The operators that may stand before an operand.
pub open spec fn unary_operators() -> Seq<BramaOperatorType> {
    seq![BramaOperatorType::Subtraction, BramaOperatorType::Not]
}

/// The node that folds two operands: a comparison or logical node where
/// `control` is set, an arithmetic one otherwise.
pub open spec fn folded(control: bool, left: AstView, operator: BramaOperatorType, right: AstView) -> AstView {
    if control {
        AstView::Control { left: Box::new(left), operator, right: Box::new(right) }
    } else {
        AstView::Binary { left: Box::new(left), operator, right: Box::new(right) }
    }
}

/// The message for an operator without a right operand.
pub open spec fn message_right_side() -> Seq<char> {
    "Right side of expression not found"@
}

/// The message for an operator without the operand behind it.
pub open spec fn message_unary() -> Seq<char> {
    "Unary operand not found"@
}

/// The message for a place where an expression must stand and none does.
pub open spec fn message_expression() -> Seq<char> {
    "Expression not found"@
}

/// The message for parentheses that are not closed.
pub open spec fn message_parentheses() -> Seq<char> {
    "Parentheses not closed"@
}

/// The message for a list that is not closed.
pub open spec fn message_list() -> Seq<char> {
    "List not closed"@
}

/// The message for a module path without a call behind it.
pub open spec fn message_call() -> Seq<char> {
    "Function call expected"@
}

/// The message for a token that no statement can start or end with.
pub open spec fn message_syntax() -> Seq<char> {
    "Syntax error"@
}

/// The message for a list of items that its closing bracket does not end.
pub open spec fn message_unclosed(closer: BramaOperatorType) -> Seq<char> {
    if closer == BramaOperatorType::SquareBracketEnd {
        message_list()
    } else {
        message_parentheses()
    }
}

/// A sub-parser that started at `start` stopped inside the tokens and not
/// before its start.
pub open spec fn advanced(tokens: Seq<TokenView>, start: int, parsed: Parsed) -> bool {
    start <= parsed.index <= tokens.len()
}

/// The names of a module path that goes on at `index`: each further name
/// stands behind two colons.
pub open spec fn path_names(tokens: Seq<TokenView>, index: int, names: Seq<Seq<char>>) -> (Seq<Seq<char>>, int)
    decreases tokens.len() - index,
{
    if 0 <= index && index + 2 < tokens.len() && operator_at(tokens, index) == Some(
        BramaOperatorType::ColonMark,
    ) && operator_at(tokens, index + 1) == Some(BramaOperatorType::ColonMark)
        && tokens[index + 2].token_type is Symbol {
        path_names(tokens, index + 3, names.push(tokens[index + 2].token_type->Symbol_0))
    } else {
        (names, index)
    }
}

/// What the parser reads at `level`, starting at `index`.
pub open spec fn parse_level(tokens: Seq<TokenView>, index: int, flags: SyntaxFlag, level: SyntaxLevel) -> Parsed
    decreases tokens.len() - index, rank(level), 1nat,
{
    match level {
        SyntaxLevel::Expression => parse_level(tokens, index, flags, SyntaxLevel::Or),
        SyntaxLevel::Or | SyntaxLevel::And | SyntaxLevel::Equality | SyntaxLevel::Control => binary_chain(
            tokens,
            index,
            flags,
            operand_level(level),
            level_operators(level),
            true,
        ),
        SyntaxLevel::AddSubtract | SyntaxLevel::Modulo | SyntaxLevel::MultiplyDivide => binary_chain(
            tokens,
            index,
            flags,
            operand_level(level),
            level_operators(level),
            false,
        ),
        SyntaxLevel::Unary => unary(tokens, index, flags),
        SyntaxLevel::Primative => {
            let first = atom(tokens, index, flags);
            match first.result {
                Ok(AstView::Nothing) => first,
                Ok(source) => if advanced(tokens, index, first) {
                    postfix(tokens, first.index, flags, source)
                } else {
                    first
                },
                Err(_) => first,
            }
        },
    }
}

/// A chain of operands at level `next`, folded from the left over the
/// operators of `operators`. Without a first operand there is no chain.
pub open spec fn binary_chain(
    tokens: Seq<TokenView>,
    index: int,
    flags: SyntaxFlag,
    next: SyntaxLevel,
    operators: Seq<BramaOperatorType>,
    control: bool,
) -> Parsed
    decreases tokens.len() - index, rank(next), 3nat,
{
    let first = parse_level(tokens, index, flags, next);
    match first.result {
        Ok(AstView::Nothing) => first,
        Ok(left) => if advanced(tokens, index, first) {
            binary_tail(tokens, first.index, flags, next, operators, control, left)
        } else {
            first
        },
        Err(_) => first,
    }
}

/// The rest of a chain whose operands so far are folded into `left`. Where
/// no operator of the level follows, the chain ends and the cursor stays
/// behind `left`. Where one follows, `left` is marked as a value that is
/// used, the right operand is read inside an expression, and the chain goes
/// on with the folded node.
pub open spec fn binary_tail(
    tokens: Seq<TokenView>,
    index: int,
    flags: SyntaxFlag,
    next: SyntaxLevel,
    operators: Seq<BramaOperatorType>,
    control: bool,
    left: AstView,
) -> Parsed
    decreases tokens.len() - index, rank(next), 2nat,
{
    if !(0 <= index <= tokens.len()) {
        Parsed { result: Ok(left), index }
    } else {
        let at = skip_whitespaces(tokens, index);
        match matched_operator(tokens, at, operators) {
            None => Parsed { result: Ok(left), index },
            Some(operator) => {
                let start = skip_whitespaces(tokens, at + 1);
                proof {
                    skip_whitespaces_bounds(tokens, index);
                    skip_whitespaces_bounds(tokens, at + 1);
                }
                let right = parse_level(tokens, start, flags.expression(), next);
                match right.result {
                    Ok(AstView::Nothing) => failure(tokens, right.index, message_right_side()),
                    Ok(operand) => if advanced(tokens, start, right) {
                        binary_tail(
                            tokens,
                            right.index,
                            flags,
                            next,
                            operators,
                            control,
                            folded(control, retagged(left), operator, operand),
                        )
                    } else {
                        right
                    },
                    Err(_) => right,
                }
            },
        }
    }
}

/// An operand with the operators that stand before it.
pub open spec fn unary(tokens: Seq<TokenView>, index: int, flags: SyntaxFlag) -> Parsed
    decreases tokens.len() - index, 1nat, 0nat,
{
    match matched_operator(tokens, index, unary_operators()) {
        Some(operator) => {
            let operand = parse_level(tokens, index + 1, flags, SyntaxLevel::Unary);
            match operand.result {
                Ok(AstView::Nothing) => failure(tokens, operand.index, message_unary()),
                Ok(node) => Parsed {
                    result: Ok(AstView::PrefixUnary(operator, Box::new(node))),
                    index: operand.index,
                },
                Err(_) => operand,
            }
        },
        None => parse_level(tokens, index, flags, SyntaxLevel::Primative),
    }
}

/// A literal, a name, a call by name, a list, or an expression between
/// parentheses. Any other token gives the empty node and leaves the cursor.
pub open spec fn atom(tokens: Seq<TokenView>, index: int, flags: SyntaxFlag) -> Parsed
    decreases tokens.len() - index, 0nat, 0nat,
{
    if !(0 <= index < tokens.len()) {
        Parsed { result: Ok(AstView::Nothing), index }
    } else {
        match tokens[index].token_type {
            TokenTypeView::Integer(number) => Parsed {
                result: Ok(AstView::Primative(PrimativeView::Integer(number))),
                index: index + 1,
            },
            TokenTypeView::Double(digits) => Parsed {
                result: Ok(AstView::Primative(PrimativeView::Double(digits))),
                index: index + 1,
            },
            TokenTypeView::Text(content) => Parsed {
                result: Ok(AstView::Primative(PrimativeView::Text(content))),
                index: index + 1,
            },
            TokenTypeView::Keyword(BramaKeywordType::True) => Parsed {
                result: Ok(AstView::Primative(PrimativeView::Bool(true))),
                index: index + 1,
            },
            TokenTypeView::Keyword(BramaKeywordType::False) => Parsed {
                result: Ok(AstView::Primative(PrimativeView::Bool(false))),
                index: index + 1,
            },
            TokenTypeView::Symbol(name) => {
                let (names, behind) = path_names(tokens, index + 1, seq![name]);
                if operator_at(tokens, behind) == Some(BramaOperatorType::LeftParentheses) {
                    if behind < index {
                        Parsed { result: Ok(AstView::Nothing), index }
                    } else {
                        let arguments = items(
                            tokens,
                            behind + 1,
                            flags.function_arg(),
                            BramaOperatorType::RightParentheses,
                            Seq::empty(),
                        );
                        match arguments.result {
                            Ok(AstView::List(list)) => Parsed {
                                result: Ok(
                                    AstView::FuncCall {
                                        names,
                                        arguments: list,
                                        assign_to_temp: flags.keeps_value(),
                                        line: tokens[index].line,
                                        column: tokens[index].column,
                                    },
                                ),
                                index: arguments.index,
                            },
                            _ => arguments,
                        }
                    }
                } else if names.len() == 1 {
                    Parsed {
                        result: Ok(
                            AstView::Symbol {
                                name,
                                line: tokens[index].line,
                                column: tokens[index].column,
                            },
                        ),
                        index: index + 1,
                    }
                } else {
                    failure(tokens, behind, message_call())
                }
            },
            TokenTypeView::Operator(BramaOperatorType::SquareBracketStart) => items(
                tokens,
                index + 1,
                flags.expression(),
                BramaOperatorType::SquareBracketEnd,
                Seq::empty(),
            ),
            TokenTypeView::Operator(BramaOperatorType::LeftParentheses) => {
                let start = skip_whitespaces(tokens, index + 1);
                proof {
                    skip_whitespaces_bounds(tokens, index + 1);
                }
                let inner = parse_level(tokens, start, flags, SyntaxLevel::Expression);
                match inner.result {
                    Ok(AstView::Nothing) => failure(tokens, inner.index, message_expression()),
                    Ok(node) => {
                        let end = skip_whitespaces(tokens, inner.index);
                        if operator_at(tokens, end) == Some(BramaOperatorType::RightParentheses) {
                            Parsed { result: Ok(node), index: end + 1 }
                        } else {
                            failure(tokens, end, message_parentheses())
                        }
                    },
                    Err(_) => inner,
                }
            },
            _ => Parsed { result: Ok(AstView::Nothing), index },
        }
    }
}

/// The method calls that follow a value: a dot, the method's name, and the
/// arguments between parentheses, as often as they come. The value that a
/// method is called on is marked as used.
pub open spec fn postfix(tokens: Seq<TokenView>, index: int, flags: SyntaxFlag, source: AstView) -> Parsed
    decreases tokens.len() - index, 0nat, 0nat,
{
    if 0 <= index && index + 2 < tokens.len() && operator_at(tokens, index) == Some(
        BramaOperatorType::Dot,
    ) && tokens[index + 1].token_type is Symbol && operator_at(tokens, index + 2) == Some(
        BramaOperatorType::LeftParentheses,
    ) {
        let arguments = items(
            tokens,
            index + 3,
            flags.function_arg(),
            BramaOperatorType::RightParentheses,
            Seq::empty(),
        );
        match arguments.result {
            Ok(AstView::List(list)) => if advanced(tokens, index + 3, arguments) {
                postfix(
                    tokens,
                    arguments.index,
                    flags,
                    AstView::AccessorFuncCall {
                        source: Box::new(retagged(source)),
                        name: tokens[index + 1].token_type->Symbol_0,
                        arguments: list,
                        assign_to_temp: flags.keeps_value(),
                        line: tokens[index + 1].line,
                        column: tokens[index + 1].column,
                    },
                )
            } else {
                arguments
            },
            _ => arguments,
        }
    } else {
        Parsed { result: Ok(source), index }
    }
}

/// Expressions with commas between them, up to the bracket `closer`. The
/// result is a list node of `seen` and the expressions read; the cursor ends
/// behind the bracket.
pub open spec fn items(
    tokens: Seq<TokenView>,
    index: int,
    flags: SyntaxFlag,
    closer: BramaOperatorType,
    seen: Seq<AstView>,
) -> Parsed
    decreases tokens.len() - index, 10nat, 0nat,
{
    if !(0 <= index <= tokens.len()) {
        failure(tokens, index, message_unclosed(closer))
    } else {
        let at = skip_whitespaces(tokens, index);
        proof {
            skip_whitespaces_bounds(tokens, index);
        }
        if operator_at(tokens, at) == Some(closer) {
            Parsed { result: Ok(AstView::List(seen)), index: at + 1 }
        } else {
            let item = parse_level(tokens, at, flags, SyntaxLevel::Expression);
            match item.result {
                Ok(AstView::Nothing) => failure(tokens, item.index, message_expression()),
                Ok(node) => {
                    let behind = skip_whitespaces(tokens, item.index);
                    if operator_at(tokens, behind) == Some(closer) {
                        Parsed { result: Ok(AstView::List(seen.push(node))), index: behind + 1 }
                    } else if operator_at(tokens, behind) == Some(BramaOperatorType::Comma)
                        && behind >= index {
                        items(tokens, behind + 1, flags, closer, seen.push(node))
                    } else {
                        failure(tokens, behind, message_unclosed(closer))
                    }
                },
                Err(_) => item,
            }
        }
    }
}

/// One statement: an assignment to a name, or an expression.
pub open spec fn statement(tokens: Seq<TokenView>, index: int) -> Parsed {
    let equals = skip_whitespaces(tokens, index + 1);
    if 0 <= index < tokens.len() && tokens[index].token_type is Symbol && operator_at(tokens, equals)
        == Some(BramaOperatorType::Assign) {
        let start = skip_whitespaces(tokens, equals + 1);
        let value = parse_level(tokens, start, SyntaxFlag::nothing().assignment(), SyntaxLevel::Expression);
        match value.result {
            Ok(AstView::Nothing) => failure(tokens, value.index, message_expression()),
            Ok(node) => Parsed {
                result: Ok(
                    AstView::Assignment {
                        variable: tokens[index].token_type->Symbol_0,
                        operator: BramaOperatorType::Assign,
                        expression: Box::new(node),
                    },
                ),
                index: value.index,
            },
            Err(_) => value,
        }
    } else {
        parse_level(tokens, index, SyntaxFlag::nothing(), SyntaxLevel::Expression)
    }
}

/// The statements of a program from `index` on, one to a line, behind the
/// statements `seen`: a block node of them all.
pub open spec fn program(tokens: Seq<TokenView>, index: int, seen: Seq<AstView>) -> Parsed
    decreases tokens.len() - index,
{
    let at = skip_blank(tokens, index);
    if !(0 <= index <= tokens.len()) || at < index {
        failure(tokens, index, message_syntax())
    } else if at >= tokens.len() {
        Parsed { result: Ok(AstView::Block(seen)), index: at }
    } else {
        let read = statement(tokens, at);
        match read.result {
            Ok(AstView::Nothing) => failure(tokens, read.index, message_syntax()),
            Ok(node) => {
                let behind = skip_whitespaces(tokens, read.index);
                if behind >= tokens.len() {
                    Parsed { result: Ok(AstView::Block(seen.push(node))), index: behind }
                } else if tokens[behind].token_type is NewLine && behind > index {
                    program(tokens, behind, seen.push(node))
                } else {
                    failure(tokens, behind, message_syntax())
                }
            },
            Err(_) => read,
        }
    }
}

/// The names of a module path end inside the tokens and not before their
/// start.
pub proof fn path_bounds(tokens: Seq<TokenView>, index: int, names: Seq<Seq<char>>)
    requires
        0 <= index <= tokens.len(),
    ensures
        index <= path_names(tokens, index, names).1 <= tokens.len(),
        path_names(tokens, index, names).0.len() >= names.len(),
    decreases tokens.len() - index,
{
    if 0 <= index && index + 2 < tokens.len() && operator_at(tokens, index) == Some(
        BramaOperatorType::ColonMark,
    ) && operator_at(tokens, index + 1) == Some(BramaOperatorType::ColonMark)
        && tokens[index + 2].token_type is Symbol {
        path_bounds(tokens, index + 3, names.push(tokens[index + 2].token_type->Symbol_0));
    }
}

/// Reading at a level ends inside the tokens and not before its start.
pub proof fn level_bounds(tokens: Seq<TokenView>, index: int, flags: SyntaxFlag, level: SyntaxLevel)
    requires
        0 <= index <= tokens.len(),
    ensures
        advanced(tokens, index, parse_level(tokens, index, flags, level)),
    decreases tokens.len() - index, rank(level), 1nat,
{
    match level {
        SyntaxLevel::Expression => level_bounds(tokens, index, flags, SyntaxLevel::Or),
        SyntaxLevel::Or | SyntaxLevel::And | SyntaxLevel::Equality | SyntaxLevel::Control => chain_bounds(
            tokens,
            index,
            flags,
            operand_level(level),
            level_operators(level),
            true,
        ),
        SyntaxLevel::AddSubtract | SyntaxLevel::Modulo | SyntaxLevel::MultiplyDivide => chain_bounds(
            tokens,
            index,
            flags,
            operand_level(level),
            level_operators(level),
            false,
        ),
        SyntaxLevel::Unary => unary_bounds(tokens, index, flags),
        SyntaxLevel::Primative => {
            atom_bounds(tokens, index, flags);
            let first = atom(tokens, index, flags);
            match first.result {
                Ok(AstView::Nothing) => {},
                Ok(source) => {
                    postfix_bounds(tokens, first.index, flags, source);
                },
                Err(_) => {},
            }
        },
    }
}

/// A chain ends inside the tokens and not before its start.
pub proof fn chain_bounds(
    tokens: Seq<TokenView>,
    index: int,
    flags: SyntaxFlag,
    next: SyntaxLevel,
    operators: Seq<BramaOperatorType>,
    control: bool,
)
    requires
        0 <= index <= tokens.len(),
    ensures
        advanced(tokens, index, binary_chain(tokens, index, flags, next, operators, control)),
    decreases tokens.len() - index, rank(next), 3nat,
{
    level_bounds(tokens, index, flags, next);
    let first = parse_level(tokens, index, flags, next);
    match first.result {
        Ok(AstView::Nothing) => {},
        Ok(left) => {
            tail_bounds(tokens, first.index, flags, next, operators, control, left);
        },
        Err(_) => {},
    }
}

/// The rest of a chain ends inside the tokens and not before its start.
pub proof fn tail_bounds(
    tokens: Seq<TokenView>,
    index: int,
    flags: SyntaxFlag,
    next: SyntaxLevel,
    operators: Seq<BramaOperatorType>,
    control: bool,
    left: AstView,
)
    requires
        0 <= index <= tokens.len(),
    ensures
        advanced(tokens, index, binary_tail(tokens, index, flags, next, operators, control, left)),
    decreases tokens.len() - index, rank(next), 2nat,
{
    let at = skip_whitespaces(tokens, index);
    skip_whitespaces_bounds(tokens, index);
    match matched_operator(tokens, at, operators) {
        None => {},
        Some(operator) => {
            skip_whitespaces_bounds(tokens, at + 1);
            let start = skip_whitespaces(tokens, at + 1);
            level_bounds(tokens, start, flags.expression(), next);
            let right = parse_level(tokens, start, flags.expression(), next);
            match right.result {
                Ok(AstView::Nothing) => {},
                Ok(operand) => {
                    tail_bounds(
                        tokens,
                        right.index,
                        flags,
                        next,
                        operators,
                        control,
                        folded(control, retagged(left), operator, operand),
                    );
                },
                Err(_) => {},
            }
        },
    }
}

/// An operand with its operators ends inside the tokens and not before its
/// start.
pub proof fn unary_bounds(tokens: Seq<TokenView>, index: int, flags: SyntaxFlag)
    requires
        0 <= index <= tokens.len(),
    ensures
        advanced(tokens, index, unary(tokens, index, flags)),
    decreases tokens.len() - index, 1nat, 0nat,
{
    match matched_operator(tokens, index, unary_operators()) {
        Some(operator) => {
            level_bounds(tokens, index + 1, flags, SyntaxLevel::Unary);
        },
        None => {
            level_bounds(tokens, index, flags, SyntaxLevel::Primative);
        },
    }
}

/// An atom ends inside the tokens and not before its start; one that is not
/// the empty node ends behind its start.
pub proof fn atom_bounds(tokens: Seq<TokenView>, index: int, flags: SyntaxFlag)
    requires
        0 <= index <= tokens.len(),
    ensures
        advanced(tokens, index, atom(tokens, index, flags)),
    decreases tokens.len() - index, 0nat, 0nat,
{
    if 0 <= index < tokens.len() {
        match tokens[index].token_type {
            TokenTypeView::Symbol(name) => {
                path_bounds(tokens, index + 1, seq![name]);
                let (names, behind) = path_names(tokens, index + 1, seq![name]);
                if operator_at(tokens, behind) == Some(BramaOperatorType::LeftParentheses) {
                    items_bounds(
                        tokens,
                        behind + 1,
                        flags.function_arg(),
                        BramaOperatorType::RightParentheses,
                        Seq::empty(),
                    );
                }
            },
            TokenTypeView::Operator(BramaOperatorType::SquareBracketStart) => {
                items_bounds(
                    tokens,
                    index + 1,
                    flags.expression(),
                    BramaOperatorType::SquareBracketEnd,
                    Seq::empty(),
                );
            },
            TokenTypeView::Operator(BramaOperatorType::LeftParentheses) => {
                skip_whitespaces_bounds(tokens, index + 1);
                let start = skip_whitespaces(tokens, index + 1);
                level_bounds(tokens, start, flags, SyntaxLevel::Expression);
                let inner = parse_level(tokens, start, flags, SyntaxLevel::Expression);
                skip_whitespaces_bounds(tokens, inner.index);
            },
            _ => {},
        }
    }
}

/// The method calls behind a value end inside the tokens and not before
/// their start.
pub proof fn postfix_bounds(tokens: Seq<TokenView>, index: int, flags: SyntaxFlag, source: AstView)
    requires
        0 <= index <= tokens.len(),
    ensures
        advanced(tokens, index, postfix(tokens, index, flags, source)),
    decreases tokens.len() - index, 0nat, 0nat,
{
    if 0 <= index && index + 2 < tokens.len() && operator_at(tokens, index) == Some(
        BramaOperatorType::Dot,
    ) && tokens[index + 1].token_type is Symbol && operator_at(tokens, index + 2) == Some(
        BramaOperatorType::LeftParentheses,
    ) {
        items_bounds(
            tokens,
            index + 3,
            flags.function_arg(),
            BramaOperatorType::RightParentheses,
            Seq::empty(),
        );
        let arguments = items(
            tokens,
            index + 3,
            flags.function_arg(),
            BramaOperatorType::RightParentheses,
            Seq::empty(),
        );
        match arguments.result {
            Ok(AstView::List(list)) => {
                postfix_bounds(
                    tokens,
                    arguments.index,
                    flags,
                    AstView::AccessorFuncCall {
                        source: Box::new(retagged(source)),
                        name: tokens[index + 1].token_type->Symbol_0,
                        arguments: list,
                        assign_to_temp: flags.keeps_value(),
                        line: tokens[index + 1].line,
                        column: tokens[index + 1].column,
                    },
                );
            },
            _ => {},
        }
    }
}

/// A list of items ends inside the tokens and not before its start.
pub proof fn items_bounds(
    tokens: Seq<TokenView>,
    index: int,
    flags: SyntaxFlag,
    closer: BramaOperatorType,
    seen: Seq<AstView>,
)
    requires
        0 <= index <= tokens.len(),
    ensures
        advanced(tokens, index, items(tokens, index, flags, closer, seen)),
    decreases tokens.len() - index, 10nat, 0nat,
{
    let at = skip_whitespaces(tokens, index);
    skip_whitespaces_bounds(tokens, index);
    if operator_at(tokens, at) == Some(closer) {
    } else {
        level_bounds(tokens, at, flags, SyntaxLevel::Expression);
        let item = parse_level(tokens, at, flags, SyntaxLevel::Expression);
        match item.result {
            Ok(AstView::Nothing) => {},
            Ok(node) => {
                skip_whitespaces_bounds(tokens, item.index);
                let behind = skip_whitespaces(tokens, item.index);
                if operator_at(tokens, behind) == Some(closer) {
                } else if operator_at(tokens, behind) == Some(BramaOperatorType::Comma) {
                    items_bounds(tokens, behind + 1, flags, closer, seen.push(node));
                }
            },
            Err(_) => {},
        }
    }
}

/// The left operand of a folded node.
pub open spec fn left_of(node: AstView) -> AstView {
    match node {
        AstView::Binary { left, .. } => *left,
        AstView::Control { left, .. } => *left,
        _ => AstView::Nothing,
    }
}

/// A chain that reads an operator behind `left` ends in a folded node, and
/// the value of what stands left of an operator is used: a call that is the
/// left operand of an operator keeps its value for the operator.
pub proof fn left_operand_is_marked(
    tokens: Seq<TokenView>,
    index: int,
    flags: SyntaxFlag,
    next: SyntaxLevel,
    operators: Seq<BramaOperatorType>,
    control: bool,
    left: AstView,
)
    requires
        0 <= index <= tokens.len(),
    ensures
        binary_tail(tokens, index, flags, next, operators, control, left).result matches Ok(node)
            ==> node == left || ((node is Binary || node is Control) && value_is_used(
            left_of(node),
        )),
    decreases tokens.len() - index,
{
    if 0 <= index <= tokens.len() {
        let at = skip_whitespaces(tokens, index);
        skip_whitespaces_bounds(tokens, index);
        match matched_operator(tokens, at, operators) {
            None => {},
            Some(operator) => {
                skip_whitespaces_bounds(tokens, at + 1);
                let start = skip_whitespaces(tokens, at + 1);
                let right = parse_level(tokens, start, flags.expression(), next);
                level_bounds(tokens, start, flags.expression(), next);
                match right.result {
                    Ok(AstView::Nothing) => {},
                    Ok(operand) => {
                        if advanced(tokens, start, right) {
                            let folded_node = folded(control, retagged(left), operator, operand);
                            crate::compiler::ast::marking_happens_once(left);
                            assert(left_of(folded_node) == retagged(left));
                            assert(folded_node is Binary || folded_node is Control);
                            left_operand_is_marked(
                                tokens,
                                right.index,
                                flags,
                                next,
                                operators,
                                control,
                                folded_node,
                            );
                        }
                    },
                    Err(_) => {},
                }
            },
        }
    }
}

/// The right operand of a folded node.
pub open spec fn right_of(node: AstView) -> AstView {
    match node {
        AstView::Binary { right, .. } => *right,
        AstView::Control { right, .. } => *right,
        _ => AstView::Nothing,
    }
}

/// The operator of a folded node.
pub open spec fn operator_in(node: AstView) -> BramaOperatorType {
    match node {
        AstView::Binary { operator, .. } => operator,
        AstView::Control { operator, .. } => operator,
        _ => BramaOperatorType::Nothing,
    }
}

/// A chain folds from the left, and its operands bind tighter than its
/// operators: the node that a chain ends in has an operator of the level,
/// and its right operand is what the operand level reads at some place
/// behind the start of the chain. An operator of the level that follows an
/// operand is therefore never part of that operand: it folds what stands
/// before it into its left side.
pub proof fn chain_folds_from_the_left(
    tokens: Seq<TokenView>,
    index: int,
    flags: SyntaxFlag,
    next: SyntaxLevel,
    operators: Seq<BramaOperatorType>,
    control: bool,
    left: AstView,
)
    requires
        0 <= index <= tokens.len(),
    ensures
        binary_tail(tokens, index, flags, next, operators, control, left).result matches Ok(node)
            ==> node == left || {
            &&& control ==> node is Control
            &&& !control ==> node is Binary
            &&& operators.contains(operator_in(node))
            &&& exists|start: int|
                index <= start <= tokens.len() && #[trigger] parse_level(
                    tokens,
                    start,
                    flags.expression(),
                    next,
                ).result == Ok::<AstView, (Seq<char>, u32, u32)>(right_of(node))
        },
    decreases tokens.len() - index,
{
    let at = skip_whitespaces(tokens, index);
    skip_whitespaces_bounds(tokens, index);
    match matched_operator(tokens, at, operators) {
        None => {},
        Some(operator) => {
            skip_whitespaces_bounds(tokens, at + 1);
            let start = skip_whitespaces(tokens, at + 1);
            let right = parse_level(tokens, start, flags.expression(), next);
            level_bounds(tokens, start, flags.expression(), next);
            match right.result {
                Ok(AstView::Nothing) => {},
                Ok(operand) => {
                    let folded_node = folded(control, retagged(left), operator, operand);
                    assert(right_of(folded_node) == operand);
                    assert(operator_in(folded_node) == operator);
                    chain_folds_from_the_left(
                        tokens,
                        right.index,
                        flags,
                        next,
                        operators,
                        control,
                        folded_node,
                    );
                    let end = binary_tail(
                        tokens,
                        right.index,
                        flags,
                        next,
                        operators,
                        control,
                        folded_node,
                    );
                    match end.result {
                        Ok(node) => {
                            if node == folded_node {
                                assert(parse_level(tokens, start, flags.expression(), next).result
                                    == Ok::<AstView, (Seq<char>, u32, u32)>(right_of(node)));
                            } else {
                                let inner = choose|inner: int|
                                    right.index <= inner <= tokens.len() && #[trigger] parse_level(
                                        tokens,
                                        inner,
                                        flags.expression(),
                                        next,
                                    ).result == Ok::<AstView, (Seq<char>, u32, u32)>(
                                        right_of(node),
                                    );
                                assert(index <= inner);
                            }
                        },
                        Err(_) => {},
                    }
                },
                Err(_) => {},
            }
        },
    }
}

} // verus!
