//! The recognizer of words: keywords and names.

use vstd::prelude::*;
use crate::types::BramaKeywordType;
use crate::types::BramaTokenType;
use crate::types::CharTraits;
use crate::types::TokenParser;
use crate::types::TokenResult;
use crate::types::Tokinizer;
use crate::types::char_at;
use crate::types::find_keyword;
use crate::parser::scan::CharClass;
use crate::parser::scan::Scanned;
use crate::parser::scan::scanned_symbol;

verus! {

/// The recognizer of words.
pub struct SymbolParser;

impl TokenParser for SymbolParser {
    open spec fn applies(&self, data: Seq<char>, index: int) -> bool {
        char_at(data, index).symbol()
    }

    open spec fn scanned(&self, data: Seq<char>, index: int) -> Scanned {
        scanned_symbol(data, index)
    }

    fn check(&self, tokinizer: &Tokinizer<'_>) -> (answer: bool) {
        tokinizer.get_char().is_symbol()
    }

    fn parse(&self, tokinizer: &mut Tokinizer<'_>) -> (result: TokenResult) {
        let start: u32 = tokinizer.index;
        let limit: usize = tokinizer.length as usize;
        proof {
            crate::parser::scan::run_bounds(
                tokinizer.data@,
                tokinizer.index + 1,
                CharClass::Word,
                (limit - 1) as nat,
            );
        }
        tokinizer.skip_run(CharClass::Word, limit);
        let word: String = tokinizer.slice(start, tokinizer.index);
        let keyword: BramaKeywordType = find_keyword(word.as_str());
        if keyword != BramaKeywordType::Nothing {
            Ok(BramaTokenType::Keyword(keyword))
        } else {
            Ok(BramaTokenType::Symbol(word))
        }
    }
}

} // verus!
