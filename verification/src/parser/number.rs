//! The recognizer of numbers.

use vstd::prelude::*;
use crate::types::BramaTokenType;
use crate::types::CharTraits;
use crate::types::TokenParser;
use crate::types::TokenResult;
use crate::types::Tokinizer;
use crate::types::char_at;
use crate::parser::is_in_class;
use crate::parser::scan::CharClass;
use crate::parser::scan::Scanned;
use crate::parser::scan::digit_value;
use crate::parser::scan::digits_value;
use crate::parser::scan::run_bounds;
use crate::parser::scan::run_end;
use crate::parser::scan::scanned_number;

verus! {

/// The recognizer of numbers.
pub struct NumberParser;

/// The value of a digit in any base up to sixteen.
pub fn digit_of(c: char) -> (value: u64)
    ensures
        value == digit_value(c),
        value <= 15,
{
    if '0' <= c && c <= '9' {
        (c as u32 - '0' as u32) as u64
    } else if 'a' <= c && c <= 'f' {
        (c as u32 - 'a' as u32 + 10) as u64
    } else if 'A' <= c && c <= 'F' {
        (c as u32 - 'A' as u32 + 10) as u64
    } else {
        0
    }
}

/// A number that has outgrown 64 bits with a sign stays too large when
/// digits follow.
pub proof fn digits_grow(before: nat, base: nat, digit: nat)
    requires
        base >= 1,
        before > i64::MAX,
    ensures
        before * base + digit > i64::MAX,
{
    assert(before * base >= before) by (nonlinear_arith)
        requires
            base >= 1,
    ;
}

impl NumberParser {
    /// Reads the digits of a class from the cursor on and computes the
    /// number that they write in a base, where 64 bits with a sign can hold
    /// it.
    pub fn read_digits(tokinizer: &mut Tokinizer<'_>, class: CharClass, base: u64) -> (value: Option<u64>)
        requires
            old(tokinizer).well_formed(),
            old(tokinizer).positioned(),
            old(tokinizer).index <= old(tokinizer).length,
            1 <= base <= 16,
        ensures
            final(tokinizer).data == old(tokinizer).data,
            final(tokinizer).length == old(tokinizer).length,
            final(tokinizer).tokens == old(tokinizer).tokens,
            final(tokinizer).well_formed(),
            final(tokinizer).positioned(),
            old(tokinizer).index <= final(tokinizer).index <= final(tokinizer).length,
            final(tokinizer).index == run_end(
                old(tokinizer).data@,
                old(tokinizer).index as int,
                class,
                old(tokinizer).data@.len(),
            ),
            match value {
                Some(number) => number == digits_value(
                    old(tokinizer).data@,
                    old(tokinizer).index as int,
                    final(tokinizer).index as int,
                    base as nat,
                ) && number <= i64::MAX,
                None => digits_value(
                    old(tokinizer).data@,
                    old(tokinizer).index as int,
                    final(tokinizer).index as int,
                    base as nat,
                ) > i64::MAX,
            },
    {
        let mut number: u64 = 0;
        let mut overflow: bool = false;
        let ghost data = tokinizer.data@;
        let ghost start = tokinizer.index as int;
        while !tokinizer.is_end() && is_in_class(tokinizer.get_char(), class)
            invariant
                tokinizer.data == old(tokinizer).data,
                tokinizer.length == old(tokinizer).length,
                tokinizer.tokens == old(tokinizer).tokens,
                tokinizer.well_formed(),
                tokinizer.positioned(),
                data == tokinizer.data@,
                start == old(tokinizer).index,
                start <= tokinizer.index <= tokinizer.length,
                1 <= base <= 16,
                run_end(data, start, class, data.len()) == run_end(
                    data,
                    tokinizer.index as int,
                    class,
                    (data.len() - (tokinizer.index - start)) as nat,
                ),
                !overflow ==> number == digits_value(
                    data,
                    start,
                    tokinizer.index as int,
                    base as nat,
                ) && number <= i64::MAX,
                overflow ==> digits_value(data, start, tokinizer.index as int, base as nat)
                    > i64::MAX,
            decreases tokinizer.length - tokinizer.index,
        {
            let digit: u64 = digit_of(tokinizer.get_char());
            let ghost before = digits_value(data, start, tokinizer.index as int, base as nat);
            proof {
                assert(digits_value(data, start, tokinizer.index + 1, base as nat) == before * base
                    + digit);
            }
            if !overflow {
                match number.checked_mul(base) {
                    Some(scaled) => match scaled.checked_add(digit) {
                        Some(next) => {
                            if next <= 0x7fff_ffff_ffff_ffff {
                                number = next;
                            } else {
                                overflow = true;
                            }
                        },
                        None => {
                            overflow = true;
                        },
                    },
                    None => {
                        overflow = true;
                    },
                }
            } else {
                proof {
                    digits_grow(before, base as nat, digit as nat);
                }
            }
            tokinizer.advance();
        }
        if overflow {
            None
        } else {
            Some(number)
        }
    }

    /// An integer token, or the failure of a number that is too large.
    fn integer(value: Option<u64>, line: u32, column: u32) -> (result: TokenResult)
        requires
            value matches Some(number) ==> number <= i64::MAX,
        ensures
            match value {
                Some(number) => result matches Ok(kind) && kind == BramaTokenType::Integer(
                    number as i64,
                ),
                None => result matches Err(error) && error.0@
                    == crate::parser::scan::message_number() && error.1 == line && error.2
                    == column,
            },
    {
        match value {
            Some(number) => Ok(BramaTokenType::Integer(number as i64)),
            None => Err((crate::text::copy_text("Number is too large"), line, column)),
        }
    }
}

impl TokenParser for NumberParser {
    open spec fn applies(&self, data: Seq<char>, index: int) -> bool {
        char_at(data, index).integer()
    }

    open spec fn scanned(&self, data: Seq<char>, index: int) -> Scanned {
        scanned_number(data, index)
    }

    fn check(&self, tokinizer: &Tokinizer<'_>) -> (answer: bool) {
        tokinizer.get_char().is_integer()
    }

    fn parse(&self, tokinizer: &mut Tokinizer<'_>) -> (result: TokenResult) {
        let line: u32 = tokinizer.line;
        let column: u32 = tokinizer.column;
        let start: u32 = tokinizer.index;
        let ch: char = tokinizer.get_char();
        let ch_next: char = tokinizer.get_next_char();
        let ghost data = tokinizer.data@;

        if ch == '0' && (ch_next == 'b' || ch_next == 'B' || ch_next == 'x' || ch_next == 'X') {
            tokinizer.advance();
            tokinizer.advance();
            let digits: u32 = tokinizer.index;
            let value: Option<u64> = if ch_next == 'b' || ch_next == 'B' {
                NumberParser::read_digits(tokinizer, CharClass::Binary, 2)
            } else {
                NumberParser::read_digits(tokinizer, CharClass::Hexadecimal, 16)
            };
            if tokinizer.index == digits {
                return Err((crate::text::copy_text("Number has no digits"), line, column));
            }
            return NumberParser::integer(value, line, column);
        }
        if ch == '0' && is_in_class(ch_next, CharClass::Octal) {
            tokinizer.advance();
            let value: Option<u64> = NumberParser::read_digits(tokinizer, CharClass::Octal, 8);
            return NumberParser::integer(value, line, column);
        }
        proof {
            run_bounds(data, start + 1, CharClass::Decimal, (data.len() - 1) as nat);
        }
        let value: Option<u64> = NumberParser::read_digits(tokinizer, CharClass::Decimal, 10);
        if tokinizer.get_char() == '.' && tokinizer.get_next_char().is_integer() {
            tokinizer.advance();
            let limit: usize = tokinizer.length as usize;
            tokinizer.skip_run(CharClass::Decimal, limit);
            return Ok(BramaTokenType::Double(tokinizer.slice(start, tokinizer.index)));
        }
        NumberParser::integer(value, line, column)
    }
}

} // verus!
