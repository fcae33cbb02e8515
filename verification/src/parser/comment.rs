//! The recognizer of comments.

use vstd::prelude::*;
use crate::types::BramaOperatorType;
use crate::types::BramaTokenType;
use crate::types::TokenParser;
use crate::types::TokenResult;
use crate::types::Tokinizer;
use crate::parser::scan::CharClass;
use crate::parser::scan::Scanned;
use crate::parser::scan::comment_end;
use crate::parser::scan::scanned_comment;
use crate::parser::scan::starts_comment;

verus! {

/// The recognizer of comments.
pub struct CommentParser;

impl TokenParser for CommentParser {
    open spec fn applies(&self, data: Seq<char>, index: int) -> bool {
        starts_comment(data, index)
    }

    open spec fn scanned(&self, data: Seq<char>, index: int) -> Scanned {
        scanned_comment(data, index)
    }

    fn check(&self, tokinizer: &Tokinizer<'_>) -> (answer: bool) {
        let ch: char = tokinizer.get_char();
        let ch_next: char = tokinizer.get_next_char();
        ch == '/' && (ch_next == '/' || ch_next == '*')
    }

    fn parse(&self, tokinizer: &mut Tokinizer<'_>) -> (result: TokenResult) {
        let line: u32 = tokinizer.line;
        let column: u32 = tokinizer.column;
        let ch_next: char = tokinizer.get_next_char();
        tokinizer.advance();
        tokinizer.advance();
        if ch_next == '/' {
            let limit: usize = tokinizer.length as usize;
            tokinizer.skip_run(CharClass::InLine, limit);
            return Ok(BramaTokenType::Operator(BramaOperatorType::CommentLine));
        }
        while !tokinizer.is_end() && !(tokinizer.get_char() == '*' && tokinizer.get_next_char()
            == '/')
            invariant
                tokinizer.data == old(tokinizer).data,
                tokinizer.length == old(tokinizer).length,
                tokinizer.tokens == old(tokinizer).tokens,
                tokinizer.well_formed(),
                tokinizer.positioned(),
                old(tokinizer).index + 2 <= tokinizer.index <= tokinizer.length,
                comment_end(old(tokinizer).data@, old(tokinizer).index + 2) == comment_end(
                    tokinizer.data@,
                    tokinizer.index as int,
                ),
            decreases tokinizer.length - tokinizer.index,
        {
            tokinizer.advance();
        }
        if tokinizer.is_end() {
            return Err((crate::text::copy_text("Comment not closed"), line, column));
        }
        tokinizer.advance();
        tokinizer.advance();
        Ok(BramaTokenType::Operator(BramaOperatorType::CommentMultilineStart))
    }
}

} // verus!
