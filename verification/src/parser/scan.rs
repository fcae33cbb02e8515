//! Scanning as mathematics: what each recognizer reads from the source text
//! at a given place, and the tokens of a whole text.

use vstd::prelude::*;
use crate::types::BramaKeywordType;
use crate::types::BramaOperatorType;
use crate::types::CharTraits;
use crate::types::TokenTypeView;
use crate::types::TokenView;
use crate::types::char_at;
use crate::types::keyword_of;

verus! {

/// The outcome of reading one token: its kind or the message of the
/// failure, and the place behind what was read.
pub struct Scanned {
    pub kind: Result<TokenTypeView, Seq<char>>,
    pub index: int,
}

/// The number of line breaks before `index`.
pub open spec fn line_at(data: Seq<char>, index: int) -> int
    decreases index,
{
    if index <= 0 || index > data.len() {
        0
    } else if data[index - 1] == '\n' {
        line_at(data, index - 1) + 1
    } else {
        line_at(data, index - 1)
    }
}

/// The number of characters between the last line break before `index` and
/// `index`.
pub open spec fn column_at(data: Seq<char>, index: int) -> int
    decreases index,
{
    if index <= 0 || index > data.len() {
        0
    } else if data[index - 1] == '\n' {
        0
    } else {
        column_at(data, index - 1) + 1
    }
}

/// The line and the column of a place are not beyond the place.
pub proof fn position_bounds(data: Seq<char>, index: int)
    ensures
        0 <= line_at(data, index) <= index || index <= 0,
        0 <= column_at(data, index) <= index || index <= 0,
        index <= 0 ==> line_at(data, index) == 0 && column_at(data, index) == 0,
    decreases index,
{
    if index > 0 && index <= data.len() {
        position_bounds(data, index - 1);
    }
}

/// The classes of characters that runs are made of.
#[derive(Clone, Copy, Debug, PartialEq, Eq, Structural)]
pub enum CharClass {
    /// A blank inside a line.
    Blank,
    /// A letter, an underscore, a dollar sign or a digit.
    Word,
    /// `0` or `1`.
    Binary,
    /// `0` to `7`.
    Octal,
    /// `0` to `9`.
    Decimal,
    /// A decimal digit or a letter from `a` to `f`, small or capital.
    Hexadecimal,
    /// Anything but a line break.
    InLine,
}

/// Whether a character belongs to a class.
pub open spec fn in_class(c: char, class: CharClass) -> bool {
    match class {
        CharClass::Blank => c.whitespace(),
        CharClass::Word => c.symbol() || c.integer(),
        CharClass::Binary => c == '0' || c == '1',
        CharClass::Octal => '0' <= c && c <= '7',
        CharClass::Decimal => c.integer(),
        CharClass::Hexadecimal => c.integer() || ('a' <= c && c <= 'f') || ('A' <= c && c <= 'F'),
        CharClass::InLine => c != '\n',
    }
}

/// The place behind the run of characters of a class that starts at
/// `index` and is at most `limit` characters long.
pub open spec fn run_end(data: Seq<char>, index: int, class: CharClass, limit: nat) -> int
    decreases limit,
{
    if limit > 0 && 0 <= index < data.len() && in_class(data[index], class) {
        run_end(data, index + 1, class, (limit - 1) as nat)
    } else {
        index
    }
}

/// A run ends inside the text, not before its start and not beyond its
/// limit.
pub proof fn run_bounds(data: Seq<char>, index: int, class: CharClass, limit: nat)
    requires
        0 <= index <= data.len(),
    ensures
        index <= run_end(data, index, class, limit) <= data.len(),
        run_end(data, index, class, limit) <= index + limit,
    decreases limit,
{
    if limit > 0 && index < data.len() && in_class(data[index], class) {
        run_bounds(data, index + 1, class, (limit - 1) as nat);
    }
}

/// The value of a digit in any base up to sixteen.
pub open spec fn digit_value(c: char) -> nat {
    if '0' <= c && c <= '9' {
        (c as int - '0' as int) as nat
    } else if 'a' <= c && c <= 'f' {
        (c as int - 'a' as int + 10) as nat
    } else if 'A' <= c && c <= 'F' {
        (c as int - 'A' as int + 10) as nat
    } else {
        0
    }
}

/// The number that the digits from `from` up to `to` write in a base.
pub open spec fn digits_value(data: Seq<char>, from: int, to: int, base: nat) -> nat
    decreases to - from,
{
    if to <= from || to > data.len() || from < 0 {
        0
    } else {
        digits_value(data, from, to - 1, base) * base + digit_value(data[to - 1])
    }
}

/// The message for a number that 64 bits with a sign cannot hold.
pub open spec fn message_number() -> Seq<char> {
    "Number is too large"@
}

/// The message for the prefix of a number system without digits behind it.
pub open spec fn message_digits() -> Seq<char> {
    "Number has no digits"@
}

/// The message for a text literal that is not closed.
pub open spec fn message_text() -> Seq<char> {
    "Missing string deliminator"@
}

/// The message for a comment that is not closed.
pub open spec fn message_comment() -> Seq<char> {
    "Comment not closed"@
}

/// The message for a character that starts no token.
pub open spec fn message_char() -> Seq<char> {
    "Char not valid"@
}

/// An integer token, where 64 bits with a sign can hold the number.
pub open spec fn integer_token(value: nat, index: int) -> Scanned {
    if value <= i64::MAX {
        Scanned { kind: Ok(TokenTypeView::Integer(value as i64)), index }
    } else {
        Scanned { kind: Err(message_number()), index }
    }
}

/// A line break and the blanks that follow it, at most 255 of them.
pub open spec fn scanned_line(data: Seq<char>, index: int) -> Scanned {
    let end = run_end(data, index + 1, CharClass::Blank, 255);
    Scanned { kind: Ok(TokenTypeView::NewLine((end - index - 1) as u8)), index: end }
}

/// A run of blanks, at most 255 of them.
pub open spec fn scanned_whitespace(data: Seq<char>, index: int) -> Scanned {
    let end = run_end(data, index, CharClass::Blank, 255);
    Scanned { kind: Ok(TokenTypeView::WhiteSpace((end - index) as u8)), index: end }
}

/// The place of the first `*/` at or after `index`, or the length of the
/// text where there is none.
pub open spec fn comment_end(data: Seq<char>, index: int) -> int
    decreases data.len() - index,
{
    if index < 0 || index >= data.len() {
        data.len() as int
    } else if data[index] == '*' && char_at(data, index + 1) == '/' {
        index
    } else {
        comment_end(data, index + 1)
    }
}

/// A comment: from `//` to the end of the line, or from `/*` to the next
/// `*/`.
pub open spec fn scanned_comment(data: Seq<char>, index: int) -> Scanned {
    if char_at(data, index + 1) == '/' {
        Scanned {
            kind: Ok(TokenTypeView::Operator(BramaOperatorType::CommentLine)),
            index: run_end(data, index + 2, CharClass::InLine, data.len()),
        }
    } else {
        let end = comment_end(data, index + 2);
        if end >= data.len() {
            Scanned { kind: Err(message_comment()), index: data.len() as int }
        } else {
            Scanned {
                kind: Ok(TokenTypeView::Operator(BramaOperatorType::CommentMultilineStart)),
                index: end + 2,
            }
        }
    }
}

/// A word: a keyword where the word is reserved, a name otherwise.
pub open spec fn scanned_symbol(data: Seq<char>, index: int) -> Scanned {
    let end = run_end(data, index, CharClass::Word, data.len());
    let word = data.subrange(index, end);
    Scanned {
        kind: Ok(
            if keyword_of(word) != BramaKeywordType::Nothing {
                TokenTypeView::Keyword(keyword_of(word))
            } else {
                TokenTypeView::Symbol(word)
            },
        ),
        index: end,
    }
}

/// The content of a text literal from `index` on, behind the content
/// `seen`: up to the closing `tag`; a backslash before a `tag` makes the
/// `tag` part of the content. The place is that of the closing `tag`, or the
/// length of the text where the literal is not closed.
pub open spec fn text_content(data: Seq<char>, index: int, tag: char, seen: Seq<char>) -> (Seq<char>, int)
    decreases data.len() - index,
{
    if index < 0 || index >= data.len() {
        (seen, data.len() as int)
    } else if data[index] == '\\' && char_at(data, index + 1) == tag && index + 1 < data.len() {
        text_content(data, index + 2, tag, seen.push(tag))
    } else if data[index] == tag {
        (seen, index)
    } else {
        text_content(data, index + 1, tag, seen.push(data[index]))
    }
}

/// A text literal between two quotes of the kind that it starts with.
pub open spec fn scanned_text(data: Seq<char>, index: int) -> Scanned {
    let (content, end) = text_content(data, index + 1, data[index], Seq::empty());
    if end >= data.len() {
        Scanned { kind: Err(message_text()), index: data.len() as int }
    } else {
        Scanned { kind: Ok(TokenTypeView::Text(content)), index: end + 1 }
    }
}

/// The digits of a number in a base behind a prefix of two characters.
pub open spec fn scanned_prefixed(data: Seq<char>, index: int, class: CharClass, base: nat) -> Scanned {
    let end = run_end(data, index + 2, class, data.len());
    if end == index + 2 {
        Scanned { kind: Err(message_digits()), index: end }
    } else {
        integer_token(digits_value(data, index + 2, end, base), end)
    }
}

/// A number. `0b`, `0x` and `0` before an octal digit start a binary, a
/// hexadecimal and an octal integer. Any other number is decimal: an
/// integer, or, where a dot and a digit follow its digits, a number with a
/// fractional part, which is kept as it is spelled.
pub open spec fn scanned_number(data: Seq<char>, index: int) -> Scanned {
    let second = char_at(data, index + 1);
    if data[index] == '0' && (second == 'b' || second == 'B') {
        scanned_prefixed(data, index, CharClass::Binary, 2)
    } else if data[index] == '0' && (second == 'x' || second == 'X') {
        scanned_prefixed(data, index, CharClass::Hexadecimal, 16)
    } else if data[index] == '0' && in_class(second, CharClass::Octal) {
        let end = run_end(data, index + 1, CharClass::Octal, data.len());
        integer_token(digits_value(data, index + 1, end, 8), end)
    } else {
        let end = run_end(data, index, CharClass::Decimal, data.len());
        if char_at(data, end) == '.' && char_at(data, end + 1).integer() {
            let last = run_end(data, end + 1, CharClass::Decimal, data.len());
            Scanned { kind: Ok(TokenTypeView::Double(data.subrange(index, last))), index: last }
        } else {
            integer_token(digits_value(data, index, end, 10), end)
        }
    }
}

/// The operator that three characters start, and the number of characters
/// that it takes: the longest operator wins.
pub open spec fn operator_of(first: char, second: char, third: char) -> (BramaOperatorType, int) {
    if first == '=' && second == '=' && third == '=' {
        (BramaOperatorType::EqualValue, 3)
    } else if first == '!' && second == '=' && third == '=' {
        (BramaOperatorType::NotEqualValue, 3)
    } else if first == '>' && second == '>' && third == '>' {
        (BramaOperatorType::BitwiseUnsignedRightShift, 3)
    } else if first == '+' && second == '+' {
        (BramaOperatorType::Increment, 2)
    } else if first == '-' && second == '-' {
        (BramaOperatorType::Deccrement, 2)
    } else if first == '+' && second == '=' {
        (BramaOperatorType::AssignAddition, 2)
    } else if first == '-' && second == '=' {
        (BramaOperatorType::AssignSubtraction, 2)
    } else if first == '*' && second == '=' {
        (BramaOperatorType::AssignMultiplication, 2)
    } else if first == '/' && second == '=' {
        (BramaOperatorType::AssignDivision, 2)
    } else if first == '%' && second == '=' {
        (BramaOperatorType::AssignModulus, 2)
    } else if first == '=' && second == '=' {
        (BramaOperatorType::Equal, 2)
    } else if first == '!' && second == '=' {
        (BramaOperatorType::NotEqual, 2)
    } else if first == '&' && second == '&' {
        (BramaOperatorType::And, 2)
    } else if first == '|' && second == '|' {
        (BramaOperatorType::Or, 2)
    } else if first == '<' && second == '<' {
        (BramaOperatorType::BitwiseLeftShift, 2)
    } else if first == '>' && second == '>' {
        (BramaOperatorType::BitwiseRightShift, 2)
    } else if first == '>' && second == '=' {
        (BramaOperatorType::GreaterEqualThan, 2)
    } else if first == '<' && second == '=' {
        (BramaOperatorType::LessEqualThan, 2)
    } else if first == '&' && second == '=' {
        (BramaOperatorType::BitwiseAndAssign, 2)
    } else if first == '|' && second == '=' {
        (BramaOperatorType::BitwiseOrAssign, 2)
    } else if first == '^' && second == '=' {
        (BramaOperatorType::BitwiseXorAssign, 2)
    } else if first == '+' {
        (BramaOperatorType::Addition, 1)
    } else if first == '-' {
        (BramaOperatorType::Subtraction, 1)
    } else if first == '*' {
        (BramaOperatorType::Multiplication, 1)
    } else if first == '/' {
        (BramaOperatorType::Division, 1)
    } else if first == '%' {
        (BramaOperatorType::Modulo, 1)
    } else if first == '=' {
        (BramaOperatorType::Assign, 1)
    } else if first == '!' {
        (BramaOperatorType::Not, 1)
    } else if first == '&' {
        (BramaOperatorType::BitwiseAnd, 1)
    } else if first == '|' {
        (BramaOperatorType::BitwiseOr, 1)
    } else if first == '~' {
        (BramaOperatorType::BitwiseNot, 1)
    } else if first == '^' {
        (BramaOperatorType::BitwiseXor, 1)
    } else if first == '>' {
        (BramaOperatorType::GreaterThan, 1)
    } else if first == '<' {
        (BramaOperatorType::LessThan, 1)
    } else if first == '?' {
        (BramaOperatorType::QuestionMark, 1)
    } else if first == ':' {
        (BramaOperatorType::ColonMark, 1)
    } else if first == '(' {
        (BramaOperatorType::LeftParentheses, 1)
    } else if first == ')' {
        (BramaOperatorType::RightParentheses, 1)
    } else if first == '[' {
        (BramaOperatorType::SquareBracketStart, 1)
    } else if first == ']' {
        (BramaOperatorType::SquareBracketEnd, 1)
    } else if first == ',' {
        (BramaOperatorType::Comma, 1)
    } else if first == ';' {
        (BramaOperatorType::Semicolon, 1)
    } else if first == '.' {
        (BramaOperatorType::Dot, 1)
    } else if first == '{' {
        (BramaOperatorType::CurveBracketStart, 1)
    } else if first == '}' {
        (BramaOperatorType::CurveBracketEnd, 1)
    } else {
        (BramaOperatorType::Nothing, 1)
    }
}

/// An operator.
pub open spec fn scanned_operator(data: Seq<char>, index: int) -> Scanned {
    let found = operator_of(char_at(data, index), char_at(data, index + 1), char_at(data, index + 2));
    if found.0 == BramaOperatorType::Nothing {
        Scanned { kind: Err(message_char()), index: index + 1 }
    } else {
        Scanned { kind: Ok(TokenTypeView::Operator(found.0)), index: index + found.1 }
    }
}

/// Whether a comment starts at `index`.
pub open spec fn starts_comment(data: Seq<char>, index: int) -> bool {
    char_at(data, index) == '/' && (char_at(data, index + 1) == '/' || char_at(data, index + 1)
        == '*')
}

/// Whether a text literal starts at `index`.
pub open spec fn starts_text(data: Seq<char>, index: int) -> bool {
    char_at(data, index) == '"' || char_at(data, index) == '\''
}

/// The token at `index`, which is inside the text. The recognizers are
/// asked in this order, and the first that applies reads the token: line
/// break, blanks, comment, word, text literal, number, operator.
pub open spec fn scanned_token(data: Seq<char>, index: int) -> Scanned {
    let first = char_at(data, index);
    if first.new_line() {
        scanned_line(data, index)
    } else if first.whitespace() {
        scanned_whitespace(data, index)
    } else if starts_comment(data, index) {
        scanned_comment(data, index)
    } else if first.symbol() {
        scanned_symbol(data, index)
    } else if starts_text(data, index) {
        scanned_text(data, index)
    } else if first.integer() {
        scanned_number(data, index)
    } else {
        scanned_operator(data, index)
    }
}

/// The outcome of scanning a text: the tokens that were read, and the error
/// that ended the scan where there is one.
pub struct ScannedAll {
    pub tokens: Seq<TokenView>,
    pub error: Option<(Seq<char>, u32, u32)>,
}

/// The tokens of the text from `index` on, behind the tokens `seen`. Every
/// token carries the line and the column of its first character. The scan
/// ends at the end of the text or at the first token that cannot be read.
pub open spec fn scanned_all(data: Seq<char>, index: int, seen: Seq<TokenView>) -> ScannedAll
    decreases data.len() - index,
{
    if index < 0 || index >= data.len() {
        ScannedAll { tokens: seen, error: None }
    } else {
        let token = scanned_token(data, index);
        let line = line_at(data, index) as u32;
        let column = column_at(data, index) as u32;
        match token.kind {
            Ok(kind) => if index < token.index <= data.len() {
                scanned_all(
                    data,
                    token.index,
                    seen.push(TokenView { line, column, token_type: kind }),
                )
            } else {
                ScannedAll { tokens: seen, error: None }
            },
            Err(message) => ScannedAll { tokens: seen, error: Some((message, line, column)) },
        }
    }
}

} // verus!
