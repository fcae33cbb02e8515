//! The recognizer of operators.

use vstd::prelude::*;
use crate::types::BramaOperatorType;
use crate::types::BramaTokenType;
use crate::types::TokenParser;
use crate::types::TokenResult;
use crate::types::Tokinizer;
use crate::parser::scan::Scanned;
use crate::parser::scan::operator_of;
use crate::parser::scan::scanned_operator;

verus! {

/// The recognizer of operators.
pub struct OperatorParser;

/// The operator that three characters start, and the number of characters
/// that it takes.
pub fn find_operator(first: char, second: char, third: char) -> (found: (BramaOperatorType, u8))
    ensures
        found.0 == operator_of(first, second, third).0,
        found.1 == operator_of(first, second, third).1,
{
    if first == '=' && second == '=' && third == '=' {
        (BramaOperatorType::EqualValue, 3)
    } else if first == '!' && second == '=' && third == '=' {
        (BramaOperatorType::NotEqualValue, 3)
    } else if first == '>' && second == '>' && third == '>' {
        (BramaOperatorType::BitwiseUnsignedRightShift, 3)
    } else if first == '+' && second == '+' {
        (BramaOperatorType::Increment, 2)
    } else if first == '-' && second == '-' {
        (BramaOperatorType::Deccrement, 2)
    } else if first == '+' && second == '=' {
        (BramaOperatorType::AssignAddition, 2)
    } else if first == '-' && second == '=' {
        (BramaOperatorType::AssignSubtraction, 2)
    } else if first == '*' && second == '=' {
        (BramaOperatorType::AssignMultiplication, 2)
    } else if first == '/' && second == '=' {
        (BramaOperatorType::AssignDivision, 2)
    } else if first == '%' && second == '=' {
        (BramaOperatorType::AssignModulus, 2)
    } else if first == '=' && second == '=' {
        (BramaOperatorType::Equal, 2)
    } else if first == '!' && second == '=' {
        (BramaOperatorType::NotEqual, 2)
    } else if first == '&' && second == '&' {
        (BramaOperatorType::And, 2)
    } else if first == '|' && second == '|' {
        (BramaOperatorType::Or, 2)
    } else if first == '<' && second == '<' {
        (BramaOperatorType::BitwiseLeftShift, 2)
    } else if first == '>' && second == '>' {
        (BramaOperatorType::BitwiseRightShift, 2)
    } else if first == '>' && second == '=' {
        (BramaOperatorType::GreaterEqualThan, 2)
    } else if first == '<' && second == '=' {
        (BramaOperatorType::LessEqualThan, 2)
    } else if first == '&' && second == '=' {
        (BramaOperatorType::BitwiseAndAssign, 2)
    } else if first == '|' && second == '=' {
        (BramaOperatorType::BitwiseOrAssign, 2)
    } else if first == '^' && second == '=' {
        (BramaOperatorType::BitwiseXorAssign, 2)
    } else if first == '+' {
        (BramaOperatorType::Addition, 1)
    } else if first == '-' {
        (BramaOperatorType::Subtraction, 1)
    } else if first == '*' {
        (BramaOperatorType::Multiplication, 1)
    } else if first == '/' {
        (BramaOperatorType::Division, 1)
    } else if first == '%' {
        (BramaOperatorType::Modulo, 1)
    } else if first == '=' {
        (BramaOperatorType::Assign, 1)
    } else if first == '!' {
        (BramaOperatorType::Not, 1)
    } else if first == '&' {
        (BramaOperatorType::BitwiseAnd, 1)
    } else if first == '|' {
        (BramaOperatorType::BitwiseOr, 1)
    } else if first == '~' {
        (BramaOperatorType::BitwiseNot, 1)
    } else if first == '^' {
        (BramaOperatorType::BitwiseXor, 1)
    } else if first == '>' {
        (BramaOperatorType::GreaterThan, 1)
    } else if first == '<' {
        (BramaOperatorType::LessThan, 1)
    } else if first == '?' {
        (BramaOperatorType::QuestionMark, 1)
    } else if first == ':' {
        (BramaOperatorType::ColonMark, 1)
    } else if first == '(' {
        (BramaOperatorType::LeftParentheses, 1)
    } else if first == ')' {
        (BramaOperatorType::RightParentheses, 1)
    } else if first == '[' {
        (BramaOperatorType::SquareBracketStart, 1)
    } else if first == ']' {
        (BramaOperatorType::SquareBracketEnd, 1)
    } else if first == ',' {
        (BramaOperatorType::Comma, 1)
    } else if first == ';' {
        (BramaOperatorType::Semicolon, 1)
    } else if first == '.' {
        (BramaOperatorType::Dot, 1)
    } else if first == '{' {
        (BramaOperatorType::CurveBracketStart, 1)
    } else if first == '}' {
        (BramaOperatorType::CurveBracketEnd, 1)
    } else {
        (BramaOperatorType::Nothing, 1)
    }
}

impl TokenParser for OperatorParser {
    /// The recognizer of operators is asked last and takes what is left.
    open spec fn applies(&self, data: Seq<char>, index: int) -> bool {
        true
    }

    open spec fn scanned(&self, data: Seq<char>, index: int) -> Scanned {
        scanned_operator(data, index)
    }

    fn check(&self, tokinizer: &Tokinizer<'_>) -> (answer: bool) {
        true
    }

    fn parse(&self, tokinizer: &mut Tokinizer<'_>) -> (result: TokenResult) {
        let line: u32 = tokinizer.line;
        let column: u32 = tokinizer.column;
        let ch: char = tokinizer.get_char();
        let ch_next: char = tokinizer.get_next_char();
        let ch_third: char = tokinizer.get_third_char();
        let found: (BramaOperatorType, u8) = find_operator(ch, ch_next, ch_third);
        tokinizer.advance();
        if found.0 == BramaOperatorType::Nothing {
            return Err((crate::text::copy_text("Char not valid"), line, column));
        }
        if found.1 >= 2 {
            tokinizer.advance();
        }
        if found.1 >= 3 {
            tokinizer.advance();
        }
        Ok(BramaTokenType::Operator(found.0))
    }
}

} // verus!
