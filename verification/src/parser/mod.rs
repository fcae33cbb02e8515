//! The scanner: it turns source text into tokens.

use vstd::prelude::*;
use vstd::string::StrSliceExecFns;
use crate::types::CharTraits;
use crate::types::Token;
use crate::types::TokenParser;
use crate::types::TokenResult;
use crate::types::Tokinizer;
use crate::types::token_views;
use crate::parser::scan::CharClass;
use crate::parser::scan::in_class;
use crate::parser::scan::run_end;
use crate::parser::scan::scanned_all;
use crate::parser::scan::scanned_token;
use crate::types::BramaOperatorType;
use crate::types::BramaTokenType;
use crate::types::TokenTypeView;
use crate::types::TokenView;

pub mod comment;

pub mod line;

pub mod number;

pub mod operator;

pub mod scan;

pub mod spell;

pub mod symbol;

pub mod text;

pub mod whitespace;

verus! {

/// Whether a character belongs to a class.
pub fn is_in_class(c: char, class: CharClass) -> (answer: bool)
    ensures
        answer == in_class(c, class),
{
    match class {
        CharClass::Blank => CharTraits::is_whitespace(&c),
        CharClass::Word => c.is_symbol() || c.is_integer(),
        CharClass::Binary => c == '0' || c == '1',
        CharClass::Octal => '0' <= c && c <= '7',
        CharClass::Decimal => c.is_integer(),
        CharClass::Hexadecimal => c.is_integer() || ('a' <= c && c <= 'f') || ('A' <= c && c
            <= 'F'),
        CharClass::InLine => c != '\n',
    }
}

impl<'a> Tokinizer<'a> {
    /// A cursor at the start of a text, or nothing where the text has more
    /// characters than 32 bits can count.
    pub fn new(data: &'a str) -> (made: Option<Tokinizer<'a>>)
        ensures
            match made {
                Some(tokinizer) => tokinizer.data == data && tokinizer.well_formed()
                    && tokinizer.positioned() && tokinizer.index == 0 && tokinizer.tokens@.len()
                    == 0,
                None => data@.len() > u32::MAX,
            },
    {
        let count: usize = data.unicode_len();
        if count > u32::MAX as usize {
            return None;
        }
        Some(
            Tokinizer {
                data,
                length: count as u32,
                line: 0,
                column: 0,
                index: 0,
                tokens: Vec::new(),
            },
        )
    }

    /// Moves the cursor over one character and keeps the counters in order:
    /// behind a line break a new line starts with column 0.
    pub fn advance(&mut self)
        requires
            old(self).ready(),
        ensures
            final(self).data == old(self).data,
            final(self).length == old(self).length,
            final(self).tokens == old(self).tokens,
            final(self).index == old(self).index + 1,
            final(self).well_formed(),
            final(self).positioned(),
    {
        proof {
            crate::parser::scan::position_bounds(self.data@, self.index as int);
        }
        let ch: char = self.get_char();
        self.increase_index();
        if ch.is_new_line() {
            self.increate_line();
            self.reset_column();
        } else {
            self.column += 1;
        }
    }

    /// Moves the cursor over the run of characters of a class that starts
    /// at the cursor, at most `limit` of them, and counts them.
    pub fn skip_run(&mut self, class: CharClass, limit: usize) -> (count: usize)
        requires
            old(self).well_formed(),
            old(self).positioned(),
            old(self).index <= old(self).length,
        ensures
            final(self).data == old(self).data,
            final(self).length == old(self).length,
            final(self).tokens == old(self).tokens,
            final(self).well_formed(),
            final(self).positioned(),
            final(self).index == run_end(
                old(self).data@,
                old(self).index as int,
                class,
                limit as nat,
            ),
            count == final(self).index - old(self).index,
            old(self).index <= final(self).index <= final(self).length,
    {
        let mut count: usize = 0;
        while count < limit && !self.is_end() && is_in_class(self.get_char(), class)
            invariant
                self.data == old(self).data,
                self.length == old(self).length,
                self.tokens == old(self).tokens,
                self.well_formed(),
                self.positioned(),
                count <= limit,
                count == self.index - old(self).index,
                old(self).index <= self.index <= self.length,
                run_end(old(self).data@, old(self).index as int, class, limit as nat) == run_end(
                    self.data@,
                    self.index as int,
                    class,
                    (limit - count) as nat,
                ),
            decreases limit - count,
        {
            self.advance();
            count += 1;
        }
        count
    }

    /// The characters from `from` up to `to` as a text of their own.
    pub fn slice(&self, from: u32, to: u32) -> (text: String)
        requires
            self.well_formed(),
            from <= to <= self.length,
        ensures
            text@ == self.data@.subrange(from as int, to as int),
    {
        crate::text::copy_text(self.data.substring_char(from as usize, to as usize))
    }
}

/// What scanning hands back: nothing, or a message with a line and a
/// column.
pub type ParseResult = Result<(), (String, u32, u32)>;

/// The error of a result as a mathematical value.
pub open spec fn parse_error(result: ParseResult) -> Option<(Seq<char>, u32, u32)> {
    match result {
        Ok(_) => None,
        Err(error) => Some((error.0@, error.1, error.2)),
    }
}

/// The scanner of one source text.
pub struct Parser<'a> {
    pub data: &'a str,
    pub tokens: Vec<Token>,
}

/// A token of its own with the same content.
pub fn copy_token(token: &Token) -> (copy: Token)
    ensures
        copy@ == token@,
{
    let token_type: BramaTokenType = match &token.token_type {
        BramaTokenType::Nothing => BramaTokenType::Nothing,
        BramaTokenType::Integer(number) => BramaTokenType::Integer(*number),
        BramaTokenType::Double(digits) => BramaTokenType::Double(
            crate::text::copy_text(digits.as_str()),
        ),
        BramaTokenType::Symbol(name) => BramaTokenType::Symbol(crate::text::copy_text(name.as_str())),
        BramaTokenType::Operator(operator) => BramaTokenType::Operator(*operator),
        BramaTokenType::Text(content) => BramaTokenType::Text(
            crate::text::copy_text(content.as_str()),
        ),
        BramaTokenType::Keyword(keyword) => BramaTokenType::Keyword(*keyword),
        BramaTokenType::WhiteSpace(count) => BramaTokenType::WhiteSpace(*count),
        BramaTokenType::NewLine(count) => BramaTokenType::NewLine(*count),
    };
    Token { line: token.line, column: token.column, token_type }
}

/// A list of tokens of its own with the same content.
pub fn copy_tokens(tokens: &Vec<Token>) -> (copy: Vec<Token>)
    ensures
        token_views(copy@) == token_views(tokens@),
{
    let mut copy: Vec<Token> = Vec::new();
    let mut i: usize = 0;
    while i < tokens.len()
        invariant
            i <= tokens@.len(),
            token_views(copy@) == token_views(tokens@).take(i as int),
        decreases tokens@.len() - i,
    {
        let ghost before = token_views(copy@);
        let token: Token = copy_token(&tokens[i]);
        copy.push(token);
        assert(token_views(copy@) =~= before.push(token_views(tokens@)[i as int]));
        i += 1;
        assert(token_views(copy@) =~= token_views(tokens@).take(i as int));
    }
    assert(token_views(tokens@).take(tokens@.len() as int) =~= token_views(tokens@));
    copy
}

/// Whether a token is a comment.
pub open spec fn is_comment(token: TokenView) -> bool {
    token.token_type == TokenTypeView::Operator(BramaOperatorType::CommentLine) || token.token_type
        == TokenTypeView::Operator(BramaOperatorType::CommentMultilineStart) || token.token_type
        == TokenTypeView::Operator(BramaOperatorType::CommentMultilineEnd)
}

/// The first `count` tokens without the comments among them.
pub open spec fn significant(tokens: Seq<TokenView>, count: nat) -> Seq<TokenView>
    decreases count,
{
    if count == 0 || count > tokens.len() {
        Seq::empty()
    } else if is_comment(tokens[count - 1]) {
        significant(tokens, (count - 1) as nat)
    } else {
        significant(tokens, (count - 1) as nat).push(tokens[count - 1])
    }
}

/// The tokens without the comments, in the same order.
pub fn filter_comments(tokens: &Vec<Token>) -> (kept: Vec<Token>)
    ensures
        token_views(kept@) == significant(token_views(tokens@), tokens@.len()),
{
    let mut kept: Vec<Token> = Vec::new();
    let mut i: usize = 0;
    assert(token_views(kept@) =~= significant(token_views(tokens@), 0));
    while i < tokens.len()
        invariant
            i <= tokens@.len(),
            token_views(kept@) == significant(token_views(tokens@), i as nat),
        decreases tokens@.len() - i,
    {
        let comment: bool = match &tokens[i].token_type {
            BramaTokenType::Operator(BramaOperatorType::CommentLine) => true,
            BramaTokenType::Operator(BramaOperatorType::CommentMultilineStart) => true,
            BramaTokenType::Operator(BramaOperatorType::CommentMultilineEnd) => true,
            _ => false,
        };
        assert(comment == is_comment(token_views(tokens@)[i as int]));
        if !comment {
            let ghost before = token_views(kept@);
            let token: Token = copy_token(&tokens[i]);
            kept.push(token);
            assert(token_views(kept@) =~= before.push(token_views(tokens@)[i as int]));
        }
        i += 1;
    }
    kept
}

impl<'a> Parser<'a> {
    /// A scanner of `data` that has read no token yet.
    pub fn new(data: &'a str) -> (parser: Parser<'a>)
        ensures
            parser.data == data,
            parser.tokens@.len() == 0,
    {
        Parser { data, tokens: Vec::new() }
    }

    /// Reads the token at the cursor with the first recognizer that applies.
    /// The order is: line break, blanks, comment, word, text literal,
    /// number, operator.
    pub fn parse_token(tokinizer: &mut Tokinizer<'_>) -> (result: TokenResult)
        requires
            old(tokinizer).ready(),
        ensures
            final(tokinizer).scanned_as(
                old(tokinizer),
                result,
                scanned_token(old(tokinizer).data@, old(tokinizer).index as int),
            ),
    {
        let line_parser = line::LineParser {  };
        let whitespace_parser = whitespace::WhitespaceParser {  };
        let comment_parser = comment::CommentParser {  };
        let symbol_parser = symbol::SymbolParser {  };
        let text_parser = text::TextParser {  };
        let number_parser = number::NumberParser {  };
        let operator_parser = operator::OperatorParser {  };

        if line_parser.check(tokinizer) {
            line_parser.parse(tokinizer)
        } else if whitespace_parser.check(tokinizer) {
            whitespace_parser.parse(tokinizer)
        } else if comment_parser.check(tokinizer) {
            comment_parser.parse(tokinizer)
        } else if symbol_parser.check(tokinizer) {
            symbol_parser.parse(tokinizer)
        } else if text_parser.check(tokinizer) {
            text_parser.parse(tokinizer)
        } else if number_parser.check(tokinizer) {
            number_parser.parse(tokinizer)
        } else {
            operator_parser.parse(tokinizer)
        }
    }

    /// Scans the text into tokens. The scan ends at the first token that
    /// cannot be read; the tokens before it are kept.
    pub fn parse(&mut self) -> (result: ParseResult)
        ensures
            final(self).data == old(self).data,
            old(self).data@.len() > u32::MAX ==> parse_error(result) == Some(
                ("Text is too long"@, 0u32, 0u32),
            ) && final(self).tokens == old(self).tokens,
            old(self).data@.len() <= u32::MAX ==> {
                let expected = scanned_all(old(self).data@, 0, Seq::empty());
                &&& token_views(final(self).tokens@) == expected.tokens
                &&& parse_error(result) == expected.error
            },
    {
        let mut tokinizer = match Tokinizer::new(self.data) {
            Some(tokinizer) => tokinizer,
            None => {
                return Err((crate::text::copy_text("Text is too long"), 0, 0));
            },
        };
        let ghost expected = scanned_all(self.data@, 0, Seq::empty());
        assert(token_views(tokinizer.tokens@) =~= Seq::empty());
        while !tokinizer.is_end()
            invariant
                tokinizer.data == self.data,
                self.data == old(self).data,
                tokinizer.well_formed(),
                tokinizer.positioned(),
                tokinizer.index <= tokinizer.length,
                expected == scanned_all(self.data@, 0, Seq::empty()),
                expected == scanned_all(
                    tokinizer.data@,
                    tokinizer.index as int,
                    token_views(tokinizer.tokens@),
                ),
            decreases tokinizer.length - tokinizer.index,
        {
            let line: u32 = tokinizer.line;
            let column: u32 = tokinizer.column;
            let ghost seen = token_views(tokinizer.tokens@);
            match Parser::parse_token(&mut tokinizer) {
                Ok(token_type) => {
                    let after: u32 = tokinizer.column;
                    let ghost kind = token_type@;
                    tokinizer.add_token(Token { line, column, token_type });
                    tokinizer.column = after;
                    assert(token_views(tokinizer.tokens@) =~= seen.push(
                        TokenView { line, column, token_type: kind },
                    ));
                },
                Err(error) => {
                    self.tokens = tokinizer.tokens;
                    return Err(error);
                },
            }
        }
        self.tokens = tokinizer.tokens;
        Ok(())
    }

    /// The tokens that the scan has read.
    pub fn tokens(&self) -> (tokens: Vec<Token>)
        ensures
            token_views(tokens@) == token_views(self.tokens@),
    {
        copy_tokens(&self.tokens)
    }
}

} // verus!
