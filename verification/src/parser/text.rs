//! The recognizer of text literals.

use vstd::prelude::*;
use crate::types::BramaTokenType;
use crate::types::TokenParser;
use crate::types::TokenResult;
use crate::types::Tokinizer;
use crate::parser::scan::Scanned;
use crate::parser::scan::scanned_text;
use crate::parser::scan::starts_text;
use crate::parser::scan::text_content;

verus! {

/// The recognizer of text literals.
pub struct TextParser;

impl TokenParser for TextParser {
    open spec fn applies(&self, data: Seq<char>, index: int) -> bool {
        starts_text(data, index)
    }

    open spec fn scanned(&self, data: Seq<char>, index: int) -> Scanned {
        scanned_text(data, index)
    }

    fn check(&self, tokinizer: &Tokinizer<'_>) -> (answer: bool) {
        let ch: char = tokinizer.get_char();
        ch == '"' || ch == '\''
    }

    fn parse(&self, tokinizer: &mut Tokinizer<'_>) -> (result: TokenResult) {
        let line: u32 = tokinizer.line;
        let column: u32 = tokinizer.column;
        let tag: char = tokinizer.get_char();
        tokinizer.advance();
        let mut content: String = String::new();
        let ghost expected = text_content(
            tokinizer.data@,
            tokinizer.index as int,
            tag,
            Seq::empty(),
        );
        assert(content@ =~= Seq::<char>::empty());

        while !tokinizer.is_end() && tokinizer.get_char() != tag
            invariant
                tokinizer.data == old(tokinizer).data,
                tokinizer.length == old(tokinizer).length,
                tokinizer.tokens == old(tokinizer).tokens,
                tokinizer.well_formed(),
                tokinizer.positioned(),
                old(tokinizer).index < tokinizer.index <= tokinizer.length,
                tag == old(tokinizer).data@[old(tokinizer).index as int],
                expected == text_content(
                    old(tokinizer).data@,
                    old(tokinizer).index + 1,
                    tag,
                    Seq::empty(),
                ),
                expected == text_content(tokinizer.data@, tokinizer.index as int, tag, content@),
            decreases tokinizer.length - tokinizer.index,
        {
            let ch: char = tokinizer.get_char();
            let ch_next: char = tokinizer.get_next_char();

            if ch == '\\' && ch_next == tag && tokinizer.length - tokinizer.index > 1 {
                content.push(tag);
                tokinizer.advance();
                tokinizer.advance();
            } else {
                content.push(ch);
                tokinizer.advance();
            }
        }

        if tokinizer.is_end() {
            return Err((crate::text::copy_text("Missing string deliminator"), line, column));
        }
        tokinizer.advance();
        Ok(BramaTokenType::Text(content))
    }
}

} // verus!
