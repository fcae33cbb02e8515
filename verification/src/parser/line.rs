//! The recognizer of line breaks.

use vstd::prelude::*;
use crate::types::BramaTokenType;
use crate::types::CharTraits;
use crate::types::TokenParser;
use crate::types::TokenResult;
use crate::types::Tokinizer;
use crate::types::char_at;
use crate::parser::scan::CharClass;
use crate::parser::scan::Scanned;
use crate::parser::scan::scanned_line;

verus! {

/// The recognizer of line breaks.
pub struct LineParser;

impl TokenParser for LineParser {
    open spec fn applies(&self, data: Seq<char>, index: int) -> bool {
        char_at(data, index).new_line()
    }

    open spec fn scanned(&self, data: Seq<char>, index: int) -> Scanned {
        scanned_line(data, index)
    }

    fn check(&self, tokinizer: &Tokinizer<'_>) -> (answer: bool) {
        tokinizer.get_char().is_new_line()
    }

    fn parse(&self, tokinizer: &mut Tokinizer<'_>) -> (result: TokenResult) {
        tokinizer.advance();
        let count: usize = tokinizer.skip_run(CharClass::Blank, 255);
        Ok(BramaTokenType::NewLine(count as u8))
    }
}

} // verus!
