//! The recognizer of blanks inside a line.

use vstd::prelude::*;
use crate::types::BramaTokenType;
use crate::types::CharTraits;
use crate::types::TokenParser;
use crate::types::TokenResult;
use crate::types::Tokinizer;
use crate::types::char_at;
use crate::parser::scan::CharClass;
use crate::parser::scan::Scanned;
use crate::parser::scan::scanned_whitespace;

verus! {

/// The recognizer of blanks inside a line.
pub struct WhitespaceParser;

impl TokenParser for WhitespaceParser {
    open spec fn applies(&self, data: Seq<char>, index: int) -> bool {
        char_at(data, index).whitespace()
    }

    open spec fn scanned(&self, data: Seq<char>, index: int) -> Scanned {
        scanned_whitespace(data, index)
    }

    fn check(&self, tokinizer: &Tokinizer<'_>) -> (answer: bool) {
        CharTraits::is_whitespace(&tokinizer.get_char())
    }

    fn parse(&self, tokinizer: &mut Tokinizer<'_>) -> (result: TokenResult) {
        proof {
            crate::parser::scan::run_bounds(
                tokinizer.data@,
                tokinizer.index + 1,
                CharClass::Blank,
                254,
            );
        }
        let count: usize = tokinizer.skip_run(CharClass::Blank, 255);
        Ok(BramaTokenType::WhiteSpace(count as u8))
    }
}

} // verus!
