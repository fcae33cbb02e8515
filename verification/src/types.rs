//! The data shared by the scanner and the syntax parser: keywords, operators,
//! tokens, and the cursor that the scanner moves over the source text.

use vstd::prelude::*;
use vstd::string::StrSliceExecFns;

verus! {

/// The reserved words.
#[derive(Clone, Copy, Debug, PartialEq, Eq, Structural)]
pub enum BramaKeywordType {
    Nothing,
    True,
    False,
}

/// The keyword that a word spells, in mathematical terms: `true` and `doğru`
/// are `True`, `false` and `yanlış` are `False`, every other word is `Nothing`.
pub open spec fn keyword_of(word: Seq<char>) -> BramaKeywordType {
    if word == "true"@ || word == "doğru"@ {
        BramaKeywordType::True
    } else if word == "false"@ || word == "yanlış"@ {
        BramaKeywordType::False
    } else {
        BramaKeywordType::Nothing
    }
}

/// Looks a word up in the table of reserved words.
pub fn find_keyword(word: &str) -> (keyword: BramaKeywordType)
    ensures
        keyword == keyword_of(word@),
{
    if crate::text::same_text(word, "true") || crate::text::same_text(word, "doğru") {
        BramaKeywordType::True
    } else if crate::text::same_text(word, "false") || crate::text::same_text(word, "yanlış") {
        BramaKeywordType::False
    } else {
        BramaKeywordType::Nothing
    }
}

/// The operators and the marks of punctuation.
#[derive(Clone, Copy, Debug, PartialEq, Eq, Structural)]
pub enum BramaOperatorType {
    Nothing,
    Addition,
    Subtraction,
    Multiplication,
    Division,
    Modulo,
    Increment,
    Deccrement,
    Assign,
    AssignAddition,
    AssignSubtraction,
    AssignMultiplication,
    AssignDivision,
    AssignModulus,
    Equal,
    EqualValue,
    NotEqual,
    NotEqualValue,
    Not,
    And,
    Or,
    BitwiseAnd,
    BitwiseOr,
    BitwiseNot,
    BitwiseXor,
    BitwiseLeftShift,
    BitwiseRightShift,
    BitwiseUnsignedRightShift,
    GreaterThan,
    LessThan,
    GreaterEqualThan,
    LessEqualThan,
    QuestionMark,
    ColonMark,
    BitwiseAndAssign,
    BitwiseOrAssign,
    BitwiseXorAssign,
    LeftParentheses,
    RightParentheses,
    SquareBracketStart,
    SquareBracketEnd,
    Comma,
    Semicolon,
    Dot,
    CommentLine,
    CommentMultilineStart,
    CommentMultilineEnd,
    CurveBracketStart,
    CurveBracketEnd,
}

/// The kinds of token, each with what it holds.
#[derive(Clone, Debug, PartialEq)]
pub enum BramaTokenType {
    Nothing,
    Integer(i64),
    /// A number with a fractional part, as the source spells it: the library
    /// keeps the digits and never computes with them.
    Double(String),
    Symbol(String),
    Operator(BramaOperatorType),
    Text(String),
    Keyword(BramaKeywordType),
    WhiteSpace(u8),
    NewLine(u8),
}

/// What a token kind is, with text as a sequence of characters.
pub enum TokenTypeView {
    Nothing,
    Integer(i64),
    Double(Seq<char>),
    Symbol(Seq<char>),
    Operator(BramaOperatorType),
    Text(Seq<char>),
    Keyword(BramaKeywordType),
    WhiteSpace(u8),
    NewLine(u8),
}

impl View for BramaTokenType {
    type V = TokenTypeView;

    open spec fn view(&self) -> TokenTypeView {
        match *self {
            BramaTokenType::Nothing => TokenTypeView::Nothing,
            BramaTokenType::Integer(value) => TokenTypeView::Integer(value),
            BramaTokenType::Double(digits) => TokenTypeView::Double(digits@),
            BramaTokenType::Symbol(name) => TokenTypeView::Symbol(name@),
            BramaTokenType::Operator(operator) => TokenTypeView::Operator(operator),
            BramaTokenType::Text(content) => TokenTypeView::Text(content@),
            BramaTokenType::Keyword(keyword) => TokenTypeView::Keyword(keyword),
            BramaTokenType::WhiteSpace(count) => TokenTypeView::WhiteSpace(count),
            BramaTokenType::NewLine(count) => TokenTypeView::NewLine(count),
        }
    }
}

/// The number systems that an integer can be written in.
#[derive(Clone, Copy, Debug, PartialEq, Eq, Structural)]
pub enum BramaNumberSystem {
    Nothing,
    Binary,
    Octal,
    Decimal,
    Hexadecimal,
}

/// The outcome of a stage: success, or a message with a line and a column.
#[derive(Clone, Debug, PartialEq)]
pub enum BramaStatus {
    Success,
    Error(String, u32, u32),
}

/// A token with the line and the column of its first character.
#[derive(Clone, Debug, PartialEq)]
pub struct Token {
    pub line: u32,
    pub column: u32,
    pub token_type: BramaTokenType,
}

/// A token with its kind as a mathematical value.
pub struct TokenView {
    pub line: u32,
    pub column: u32,
    pub token_type: TokenTypeView,
}

impl View for Token {
    type V = TokenView;

    open spec fn view(&self) -> TokenView {
        TokenView { line: self.line, column: self.column, token_type: self.token_type@ }
    }
}

/// The views of a sequence of tokens, one for one.
pub open spec fn token_views(tokens: Seq<Token>) -> Seq<TokenView> {
    tokens.map_values(|token: Token| token@)
}

/// The character at `index`, or the null character past the end.
pub open spec fn char_at(data: Seq<char>, index: int) -> char {
    if 0 <= index < data.len() {
        data[index]
    } else {
        '\0'
    }
}

/// The cursor of the scanner over the source text, with the tokens read so
/// far.
#[derive(Default)]
pub struct Tokinizer<'a> {
    pub data: &'a str,
    pub length: u32,
    pub line: u32,
    pub column: u32,
    pub index: u32,
    pub tokens: Vec<Token>,
}

impl<'a> Tokinizer<'a> {
    /// `length` counts the characters of `data`.
    pub open spec fn well_formed(&self) -> bool {
        self.length as nat == self.data@.len()
    }

    /// The character `offset` places after the cursor, the null character
    /// where that place is not below `length` or not in the text.
    pub open spec fn peek(&self, offset: int) -> char {
        if self.index + offset < self.length {
            char_at(self.data@, self.index + offset)
        } else {
            '\0'
        }
    }

    /// Whether the cursor is behind the last character.
    pub fn is_end(&self) -> (ended: bool)
        ensures
            ended == (self.length <= self.index),
    {
        self.length <= self.index
    }

    /// The character under the cursor.
    pub fn get_char(&self) -> (ch: char)
        ensures
            ch == self.peek(0),
    {
        if !self.is_end() {
            return crate::text::char_or_null(self.data, self.index as usize);
        }
        '\0'
    }

    /// The character behind the one under the cursor.
    pub fn get_next_char(&self) -> (ch: char)
        ensures
            ch == self.peek(1),
    {
        if self.index < u32::MAX && self.length > self.index + 1 {
            return crate::text::char_or_null(self.data, (self.index + 1) as usize);
        }
        '\0'
    }

    /// The character two places behind the one under the cursor.
    pub fn get_third_char(&self) -> (ch: char)
        ensures
            ch == self.peek(2),
    {
        if self.index < u32::MAX - 1 && self.length > self.index + 2 {
            return crate::text::char_or_null(self.data, (self.index + 2) as usize);
        }
        '\0'
    }

    /// Adds a token and sets the column to zero.
    pub fn add_token(&mut self, token: Token)
        ensures
            final(self).tokens@ == old(self).tokens@.push(token),
            final(self).column == 0,
            final(self).data == old(self).data,
            final(self).length == old(self).length,
            final(self).line == old(self).line,
            final(self).index == old(self).index,
    {
        self.column = 0;
        self.tokens.push(token);
    }

    /// Moves the cursor one character on.
    pub fn increase_index(&mut self)
        requires
            old(self).index < u32::MAX,
        ensures
            *final(self) == (Tokinizer { index: (old(self).index + 1) as u32, ..*old(self) }),
    {
        self.index += 1;
    }

    /// Counts one line more.
    pub fn increate_line(&mut self)
        requires
            old(self).line < u32::MAX,
        ensures
            *final(self) == (Tokinizer { line: (old(self).line + 1) as u32, ..*old(self) }),
    {
        self.line += 1;
    }

    /// Sets the column to zero.
    pub fn reset_column(&mut self)
        ensures
            *final(self) == (Tokinizer { column: 0, ..*old(self) }),
    {
        self.column = 0;
    }
}

/// What a recognizer hands back: the kind of the token, or a message with a
/// line and a column.
pub type TokenResult = Result<BramaTokenType, (String, u32, u32)>;

impl<'a> Tokinizer<'a> {
    /// `line` and `column` are those of the cursor.
    pub open spec fn positioned(&self) -> bool {
        &&& self.line == crate::parser::scan::line_at(self.data@, self.index as int)
        &&& self.column == crate::parser::scan::column_at(self.data@, self.index as int)
    }

    /// The cursor is at a character, and the counters are in order.
    pub open spec fn ready(&self) -> bool {
        self.well_formed() && self.positioned() && self.index < self.length
    }

    /// This cursor is what `before` becomes when a token is read as
    /// `expected` says: the text and the tokens are the same, the cursor is
    /// behind the token with its counters in order, and `result` is the kind
    /// of the token, or its failure at the place where the token starts.
    pub open spec fn scanned_as(
        &self,
        before: &Tokinizer<'a>,
        result: TokenResult,
        expected: crate::parser::scan::Scanned,
    ) -> bool {
        &&& self.data == before.data
        &&& self.length == before.length
        &&& self.tokens == before.tokens
        &&& self.well_formed()
        &&& self.positioned()
        &&& self.index == expected.index
        &&& before.index < self.index <= self.length
        &&& match result {
            Ok(kind) => expected.kind == Ok::<TokenTypeView, Seq<char>>(kind@),
            Err(error) => expected.kind == Err::<TokenTypeView, Seq<char>>(error.0@) && error.1
                == before.line && error.2 == before.column,
        }
    }
}

/// A recognizer of one kind of token.
pub trait TokenParser {
    /// Whether a token of this kind starts at `index`.
    spec fn applies(&self, data: Seq<char>, index: int) -> bool;

    /// What the recognizer reads at `index`.
    spec fn scanned(&self, data: Seq<char>, index: int) -> crate::parser::scan::Scanned;

    fn check(&self, tokinizer: &Tokinizer<'_>) -> (answer: bool)
        requires
            tokinizer.well_formed(),
        ensures
            answer == self.applies(tokinizer.data@, tokinizer.index as int),
    ;

    fn parse(&self, tokinizer: &mut Tokinizer<'_>) -> (result: TokenResult)
        requires
            old(tokinizer).ready(),
            self.applies(old(tokinizer).data@, old(tokinizer).index as int),
        ensures
            final(tokinizer).scanned_as(
                old(tokinizer),
                result,
                self.scanned(old(tokinizer).data@, old(tokinizer).index as int),
            ),
    ;
}

/// The classes of characters that the scanner tells apart.
pub trait CharTraits {
    spec fn new_line(&self) -> bool;

    spec fn whitespace(&self) -> bool;

    spec fn symbol(&self) -> bool;

    spec fn integer(&self) -> bool;

    fn is_new_line(&self) -> (answer: bool)
        ensures
            answer == self.new_line(),
    ;

    fn is_whitespace(&self) -> (answer: bool)
        ensures
            answer == self.whitespace(),
    ;

    fn is_symbol(&self) -> (answer: bool)
        ensures
            answer == self.symbol(),
    ;

    fn is_integer(&self) -> (answer: bool)
        ensures
            answer == self.integer(),
    ;
}

impl CharTraits for char {
    open spec fn new_line(&self) -> bool {
        *self == '\n'
    }

    open spec fn whitespace(&self) -> bool {
        *self == ' ' || *self == '\r' || *self == '\t'
    }

    /// A letter, an underscore or a dollar sign. Among the characters of
    /// ASCII the letters are those from `a` to `z`, small or capital; beyond
    /// ASCII they are the characters that Unicode calls alphabetic.
    open spec fn symbol(&self) -> bool {
        *self == '_' || *self == '$' || ('a' <= *self && *self <= 'z') || ('A' <= *self && *self
            <= 'Z') || (*self > '\x7f' && crate::text::alphabetic(*self))
    }

    open spec fn integer(&self) -> bool {
        '0' <= *self && *self <= '9'
    }

    fn is_new_line(&self) -> (answer: bool) {
        *self == '\n'
    }

    fn is_whitespace(&self) -> (answer: bool) {
        match *self {
            ' ' | '\r' | '\t' => true,
            _ => false,
        }
    }

    fn is_symbol(&self) -> (answer: bool) {
        return *self == '_' || *self == '$' || ('a' <= *self && *self <= 'z') || ('A' <= *self
            && *self <= 'Z') || (*self > '\x7f' && self.is_alphabetic());
    }

    fn is_integer(&self) -> (answer: bool) {
        '0' <= *self && *self <= '9'
    }
}

} // verus!
