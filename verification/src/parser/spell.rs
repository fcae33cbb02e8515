//! Writing tokens out again: how a token is spelled, and the proof that
//! scanning the spelling of tokens gives the tokens again.

use vstd::prelude::*;
use vstd::string::StrSliceExecFns;
use crate::types::BramaTokenType;
use crate::types::Token;
use crate::types::token_views;
use crate::text::digit_char;
use crate::text::natural_text;
use crate::types::BramaKeywordType;
use crate::types::BramaOperatorType;
use crate::types::CharTraits;
use crate::types::TokenTypeView;
use crate::types::TokenView;
use crate::types::char_at;
use crate::types::keyword_of;
use crate::parser::scan::CharClass;
use crate::parser::scan::Scanned;
use crate::parser::scan::digit_value;
use crate::parser::scan::digits_value;
use crate::parser::scan::in_class;
use crate::parser::scan::integer_token;
use crate::parser::scan::operator_of;
use crate::parser::scan::run_end;
use crate::parser::scan::scanned_all;
use crate::parser::scan::scanned_number;
use crate::parser::scan::scanned_operator;
use crate::parser::scan::scanned_symbol;
use crate::parser::scan::scanned_text;
use crate::parser::scan::scanned_token;
use crate::parser::scan::starts_comment;
use crate::parser::scan::starts_text;
use crate::parser::scan::text_content;

verus! {

/// Every character of a text belongs to a class.
pub open spec fn all_in_class(text: Seq<char>, class: CharClass) -> bool {
    forall|i: int| 0 <= i < text.len() ==> in_class(#[trigger] text[i], class)
}

/// A text stands in `data` at `index`, and a blank follows it.
pub open spec fn placed(data: Seq<char>, index: int, text: Seq<char>) -> bool {
    &&& 0 <= index
    &&& index + text.len() < data.len()
    &&& data.subrange(index, index + text.len()) == text
    &&& data[index + text.len()] == ' '
}

/// A run over characters of a class ends where the class ends.
pub proof fn run_over(data: Seq<char>, index: int, count: nat, class: CharClass, limit: nat)
    requires
        0 <= index,
        index + count <= data.len(),
        count <= limit,
        forall|k: int| index <= k < index + count ==> in_class(#[trigger] data[k], class),
        index + count == data.len() || count == limit || !in_class(data[index + count], class),
    ensures
        run_end(data, index, class, limit) == index + count,
    decreases count,
{
    if count > 0 {
        assert(in_class(data[index], class));
        run_over(data, index + 1, (count - 1) as nat, class, (limit - 1) as nat);
    }
}

/// The characters of a run belong to the class, and the run ends at the end
/// of the text, at its limit, or before a character of another class.
pub proof fn run_is_in_class(data: Seq<char>, index: int, class: CharClass, limit: nat)
    requires
        0 <= index <= data.len(),
    ensures
        index <= run_end(data, index, class, limit) <= data.len(),
        forall|k: int|
            index <= k < run_end(data, index, class, limit) ==> in_class(#[trigger] data[k], class),
        run_end(data, index, class, limit) == data.len() || run_end(data, index, class, limit)
            == index + limit || !in_class(data[run_end(data, index, class, limit)], class),
    decreases limit,
{
    if limit > 0 && index < data.len() && in_class(data[index], class) {
        run_is_in_class(data, index + 1, class, (limit - 1) as nat);
    }
}

/// The decimal spelling of a number is made of digits, starts with `0` only
/// for zero, and writes the number.
pub proof fn natural_text_is_decimal(n: nat)
    ensures
        natural_text(n).len() >= 1,
        all_in_class(natural_text(n), CharClass::Decimal),
        n > 0 ==> natural_text(n)[0] != '0',
        n == 0 ==> natural_text(n) == seq!['0'],
    decreases n,
{
    if n >= 10 {
        natural_text_is_decimal(n / 10);
        let head = natural_text(n / 10);
        let last = digit_char((n % 10) as int);
        assert(natural_text(n) == head.push(last));
        assert forall|i: int| 0 <= i < natural_text(n).len() implies in_class(
            #[trigger] natural_text(n)[i],
            CharClass::Decimal,
        ) by {
            if i < head.len() {
                assert(natural_text(n)[i] == head[i]);
            }
        }
        assert(natural_text(n)[0] == head[0]);
    } else {
        assert(natural_text(n) == seq![digit_char(n as int)]);
        if n == 0 {
            assert(natural_text(n) =~= seq!['0']);
        }
    }
}

/// The digits of the decimal spelling of a number, read where they stand in
/// a text, write the number.
pub proof fn natural_text_is_read(data: Seq<char>, index: int, n: nat)
    requires
        0 <= index,
        index + natural_text(n).len() <= data.len(),
        data.subrange(index, index + natural_text(n).len()) == natural_text(n),
    ensures
        digits_value(data, index, index + natural_text(n).len(), 10) == n,
    decreases n,
{
    let text = natural_text(n);
    let end = index + text.len();
    natural_text_is_decimal(n);
    assert(data[end - 1] == text[text.len() - 1]) by {
        assert(data.subrange(index, end)[text.len() - 1] == data[end - 1]);
    }
    if n >= 10 {
        let head = natural_text(n / 10);
        assert(text == head.push(digit_char((n % 10) as int)));
        assert(data.subrange(index, index + head.len()) =~= head) by {
            assert forall|k: int| 0 <= k < head.len() implies data.subrange(
                index,
                index + head.len(),
            )[k] == head[k] by {
                assert(data.subrange(index, end)[k] == data[index + k]);
                assert(text[k] == head[k]);
            }
        }
        natural_text_is_read(data, index, n / 10);
        assert(digit_value(data[end - 1]) == n % 10);
        assert(digits_value(data, index, end, 10) == digits_value(data, index, end - 1, 10) * 10
            + digit_value(data[end - 1]));
    } else {
        assert(text == seq![digit_char(n as int)]);
        assert(digit_value(data[end - 1]) == n);
        assert(digits_value(data, index, end, 10) == digits_value(data, index, end - 1, 10) * 10
            + digit_value(data[end - 1]));
        assert(digits_value(data, index, index, 10) == 0);
    }
}

/// The characters of a text that stands in `data` are those of `data`.
pub proof fn placed_chars(data: Seq<char>, index: int, text: Seq<char>)
    requires
        placed(data, index, text),
    ensures
        forall|k: int| 0 <= k < text.len() ==> #[trigger] data[index + k] == text[k],
        forall|k: int| 0 <= k < text.len() ==> char_at(data, index + k) == #[trigger] text[k],
        char_at(data, index + text.len()) == ' ',
{
    assert forall|k: int| 0 <= k < text.len() implies #[trigger] data[index + k] == text[k] by {
        assert(data.subrange(index, index + text.len())[k] == data[index + k]);
    }
}

/// Scanning the decimal spelling of a number that is not negative gives the
/// number.
pub proof fn integer_is_read_back(data: Seq<char>, index: int, number: i64)
    requires
        number >= 0,
        placed(data, index, natural_text(number as nat)),
    ensures
        scanned_token(data, index) == (Scanned {
            kind: Ok(TokenTypeView::Integer(number)),
            index: index + natural_text(number as nat).len(),
        }),
{
    let text = natural_text(number as nat);
    let end = index + text.len();
    natural_text_is_decimal(number as nat);
    placed_chars(data, index, text);
    assert(data[index] == text[0]);
    assert(in_class(text[0], CharClass::Decimal));
    assert forall|k: int| index <= k < end implies in_class(#[trigger] data[k], CharClass::Decimal) by {
        assert(data[index + (k - index)] == text[k - index]);
    }
    run_over(data, index, text.len(), CharClass::Decimal, data.len());
    natural_text_is_read(data, index, number as nat);
    if number == 0 {
        assert(text.len() == 1);
        assert(char_at(data, index + 1) == ' ');
    } else {
        assert(data[index] != '0');
    }
    assert(char_at(data, end) == ' ');
    assert(scanned_number(data, index) == integer_token(number as nat, end));
}

/// A name: a word that starts with a letter, an underscore or a dollar sign
/// and is not reserved.
pub open spec fn is_name(word: Seq<char>) -> bool {
    &&& word.len() > 0
    &&& word[0].symbol()
    &&& all_in_class(word, CharClass::Word)
    &&& keyword_of(word) == BramaKeywordType::Nothing
}

/// Scanning a word gives the keyword or the name that it spells.
pub proof fn word_is_read_back(data: Seq<char>, index: int, word: Seq<char>)
    requires
        word.len() > 0,
        word[0].symbol(),
        all_in_class(word, CharClass::Word),
        placed(data, index, word),
    ensures
        scanned_token(data, index) == (Scanned {
            kind: Ok(
                if keyword_of(word) != BramaKeywordType::Nothing {
                    TokenTypeView::Keyword(keyword_of(word))
                } else {
                    TokenTypeView::Symbol(word)
                },
            ),
            index: index + word.len(),
        }),
{
    let end = index + word.len();
    placed_chars(data, index, word);
    assert(data[index] == word[0]);
    assert forall|k: int| index <= k < end implies in_class(#[trigger] data[k], CharClass::Word) by {
        assert(data[index + (k - index)] == word[k - index]);
    }
    run_over(data, index, word.len(), CharClass::Word, data.len());
    assert(!starts_comment(data, index));
    assert(scanned_token(data, index) == scanned_symbol(data, index));
}

/// The spelling of a keyword.
pub open spec fn keyword_spelling(keyword: BramaKeywordType) -> Seq<char> {
    match keyword {
        BramaKeywordType::True => seq!['t', 'r', 'u', 'e'],
        BramaKeywordType::False => seq!['f', 'a', 'l', 's', 'e'],
        BramaKeywordType::Nothing => Seq::empty(),
    }
}

/// Scanning the spelling of a keyword gives the keyword.
pub proof fn keyword_is_read_back(data: Seq<char>, index: int, keyword: BramaKeywordType)
    requires
        keyword != BramaKeywordType::Nothing,
        placed(data, index, keyword_spelling(keyword)),
    ensures
        scanned_token(data, index) == (Scanned {
            kind: Ok(TokenTypeView::Keyword(keyword)),
            index: index + keyword_spelling(keyword).len(),
        }),
{
    let word = keyword_spelling(keyword);
    reveal_strlit("true");
    reveal_strlit("false");
    reveal_strlit("doğru");
    reveal_strlit("yanlış");
    assert(word =~= "true"@ || word =~= "false"@);
    assert(all_in_class(word, CharClass::Word));
    assert(keyword_of(word) == keyword);
    word_is_read_back(data, index, word);
}

/// The content of a text literal as it is written between double quotes: a
/// backslash goes before every double quote.
pub open spec fn escaped(content: Seq<char>) -> Seq<char>
    decreases content.len(),
{
    if content.len() == 0 {
        Seq::empty()
    } else if content[0] == '"' {
        seq!['\\', '"'] + escaped(content.drop_first())
    } else {
        seq![content[0]] + escaped(content.drop_first())
    }
}

/// The escaped content starts with a backslash where the content starts
/// with a double quote, and with the first character of the content
/// otherwise.
pub proof fn escaped_start(content: Seq<char>)
    requires
        content.len() > 0,
    ensures
        escaped(content).len() > 0,
        content[0] == '"' ==> escaped(content)[0] == '\\',
        content[0] != '"' ==> escaped(content)[0] == content[0],
        escaped(content)[0] != '"',
{
}

/// Reading escaped content that a double quote closes gives the content.
pub proof fn escaped_is_read(data: Seq<char>, index: int, content: Seq<char>, seen: Seq<char>)
    requires
        0 <= index,
        index + escaped(content).len() < data.len(),
        data.subrange(index, index + escaped(content).len()) == escaped(content),
        data[index + escaped(content).len()] == '"',
        content.len() == 0 || content.last() != '\\',
    ensures
        text_content(data, index, '"', seen) == (
            seen + content,
            index + escaped(content).len(),
        ),
    decreases content.len(),
{
    let written = escaped(content);
    if content.len() == 0 {
        assert(seen + content =~= seen);
    } else {
        let rest = content.drop_first();
        assert(data[index] == written[0]) by {
            assert(data.subrange(index, index + written.len())[0] == data[index]);
        }
        assert(rest.len() == 0 || rest.last() != '\\') by {
            if rest.len() > 0 {
                assert(rest.last() == content.last());
            }
        }
        if content[0] == '"' {
            assert(written == seq!['\\', '"'] + escaped(rest));
            assert(data[index + 1] == '"') by {
                assert(data.subrange(index, index + written.len())[1] == data[index + 1]);
            }
            assert(data.subrange(index + 2, index + 2 + escaped(rest).len()) =~= escaped(rest)) by {
                assert forall|k: int| 0 <= k < escaped(rest).len() implies data.subrange(
                    index + 2,
                    index + 2 + escaped(rest).len(),
                )[k] == escaped(rest)[k] by {
                    assert(data.subrange(index, index + written.len())[k + 2] == data[index + 2
                        + k]);
                }
            }
            escaped_is_read(data, index + 2, rest, seen.push('"'));
            assert(seen.push('"') + rest =~= seen + content);
        } else {
            assert(written == seq![content[0]] + escaped(rest));
            assert(data.subrange(index + 1, index + 1 + escaped(rest).len()) =~= escaped(rest)) by {
                assert forall|k: int| 0 <= k < escaped(rest).len() implies data.subrange(
                    index + 1,
                    index + 1 + escaped(rest).len(),
                )[k] == escaped(rest)[k] by {
                    assert(data.subrange(index, index + written.len())[k + 1] == data[index + 1
                        + k]);
                }
            }
            if content[0] == '\\' {
                // the character behind the backslash is not a double quote
                assert(rest.len() > 0);
                escaped_start(rest);
                assert(data[index + 1] == escaped(rest)[0]) by {
                    assert(data.subrange(index + 1, index + 1 + escaped(rest).len())[0]
                        == data[index + 1]);
                }
                assert(char_at(data, index + 1) != '"');
            }
            escaped_is_read(data, index + 1, rest, seen.push(content[0]));
            assert(seen.push(content[0]) + rest =~= seen + content);
        }
    }
}

/// The spelling of a text literal: its escaped content between double
/// quotes.
pub open spec fn text_spelling(content: Seq<char>) -> Seq<char> {
    seq!['"'] + escaped(content) + seq!['"']
}

/// Scanning the spelling of a text literal whose content does not end with a
/// backslash gives the literal.
pub proof fn text_is_read_back(data: Seq<char>, index: int, content: Seq<char>)
    requires
        content.len() == 0 || content.last() != '\\',
        placed(data, index, text_spelling(content)),
    ensures
        scanned_token(data, index) == (Scanned {
            kind: Ok(TokenTypeView::Text(content)),
            index: index + text_spelling(content).len(),
        }),
{
    let written = text_spelling(content);
    let inner = escaped(content);
    placed_chars(data, index, written);
    assert(data[index] == written[0]);
    assert(written[0] == '"');
    assert(data[index + 1 + inner.len()] == '"') by {
        assert(data[index + (1 + inner.len())] == written[(1 + inner.len()) as int]);
    }
    assert(data.subrange(index + 1, index + 1 + inner.len()) =~= inner) by {
        assert forall|k: int| 0 <= k < inner.len() implies data.subrange(
            index + 1,
            index + 1 + inner.len(),
        )[k] == inner[k] by {
            assert(data[index + (k + 1)] == written[k + 1]);
        }
    }
    escaped_is_read(data, index + 1, content, Seq::empty());
    assert(Seq::<char>::empty() + content =~= content);
    assert(!starts_comment(data, index));
    assert(!data[index].symbol());
    assert(starts_text(data, index));
    assert(scanned_token(data, index) == scanned_text(data, index));
}

/// A number with a fractional part as the scanner reads it: digits, a dot at
/// place `dot`, and digits; the digits before the dot do not start like an
/// octal number.
pub open spec fn is_fraction(digits: Seq<char>, dot: int) -> bool {
    &&& 0 < dot
    &&& dot + 1 < digits.len()
    &&& digits[dot] == '.'
    &&& forall|k: int| 0 <= k < dot ==> in_class(#[trigger] digits[k], CharClass::Decimal)
    &&& forall|k: int| dot < k < digits.len() ==> in_class(#[trigger] digits[k], CharClass::Decimal)
    &&& !(digits[0] == '0' && in_class(digits[1], CharClass::Octal))
}

/// Whether a text is the decimal form of a number with a fractional part.
pub open spec fn has_fraction(digits: Seq<char>) -> bool {
    exists|dot: int| #[trigger] is_fraction(digits, dot)
}

/// Scanning the spelling of a number with a fractional part gives the
/// spelling.
pub proof fn fraction_is_read_back(data: Seq<char>, index: int, digits: Seq<char>, dot: int)
    requires
        is_fraction(digits, dot),
        placed(data, index, digits),
    ensures
        scanned_token(data, index) == (Scanned {
            kind: Ok(TokenTypeView::Double(digits)),
            index: index + digits.len(),
        }),
{
    placed_chars(data, index, digits);
    assert(data[index] == digits[0]);
    assert(in_class(digits[0], CharClass::Decimal));
    assert(data[index + 1] == digits[1]);
    assert(dot == 1 || in_class(digits[1], CharClass::Decimal));
    assert forall|k: int| index <= k < index + dot implies in_class(
        #[trigger] data[k],
        CharClass::Decimal,
    ) by {
        assert(data[index + (k - index)] == digits[k - index]);
    }
    assert(data[index + dot] == digits[dot]);
    run_over(data, index, dot as nat, CharClass::Decimal, data.len());
    let end = index + dot;
    assert(data[index + (dot + 1)] == digits[dot + 1]);
    assert(char_at(data, end + 1).integer());
    assert forall|k: int| end + 1 <= k < index + digits.len() implies in_class(
        #[trigger] data[k],
        CharClass::Decimal,
    ) by {
        assert(data[index + (k - index)] == digits[k - index]);
    }
    run_over(
        data,
        end + 1,
        (digits.len() - dot - 1) as nat,
        CharClass::Decimal,
        data.len(),
    );
    assert(!starts_comment(data, index));
    assert(scanned_token(data, index) == scanned_number(data, index));
}

/// The spelling of an operator. A comment is no operator and has no
/// spelling.
pub open spec fn operator_spelling(operator: BramaOperatorType) -> Seq<char> {
    match operator {
        BramaOperatorType::EqualValue => seq!['=', '=', '='],
        BramaOperatorType::NotEqualValue => seq!['!', '=', '='],
        BramaOperatorType::BitwiseUnsignedRightShift => seq!['>', '>', '>'],
        BramaOperatorType::Increment => seq!['+', '+'],
        BramaOperatorType::Deccrement => seq!['-', '-'],
        BramaOperatorType::AssignAddition => seq!['+', '='],
        BramaOperatorType::AssignSubtraction => seq!['-', '='],
        BramaOperatorType::AssignMultiplication => seq!['*', '='],
        BramaOperatorType::AssignDivision => seq!['/', '='],
        BramaOperatorType::AssignModulus => seq!['%', '='],
        BramaOperatorType::Equal => seq!['=', '='],
        BramaOperatorType::NotEqual => seq!['!', '='],
        BramaOperatorType::And => seq!['&', '&'],
        BramaOperatorType::Or => seq!['|', '|'],
        BramaOperatorType::BitwiseLeftShift => seq!['<', '<'],
        BramaOperatorType::BitwiseRightShift => seq!['>', '>'],
        BramaOperatorType::GreaterEqualThan => seq!['>', '='],
        BramaOperatorType::LessEqualThan => seq!['<', '='],
        BramaOperatorType::BitwiseAndAssign => seq!['&', '='],
        BramaOperatorType::BitwiseOrAssign => seq!['|', '='],
        BramaOperatorType::BitwiseXorAssign => seq!['^', '='],
        BramaOperatorType::Addition => seq!['+'],
        BramaOperatorType::Subtraction => seq!['-'],
        BramaOperatorType::Multiplication => seq!['*'],
        BramaOperatorType::Division => seq!['/'],
        BramaOperatorType::Modulo => seq!['%'],
        BramaOperatorType::Assign => seq!['='],
        BramaOperatorType::Not => seq!['!'],
        BramaOperatorType::BitwiseAnd => seq!['&'],
        BramaOperatorType::BitwiseOr => seq!['|'],
        BramaOperatorType::BitwiseNot => seq!['~'],
        BramaOperatorType::BitwiseXor => seq!['^'],
        BramaOperatorType::GreaterThan => seq!['>'],
        BramaOperatorType::LessThan => seq!['<'],
        BramaOperatorType::QuestionMark => seq!['?'],
        BramaOperatorType::ColonMark => seq![':'],
        BramaOperatorType::LeftParentheses => seq!['('],
        BramaOperatorType::RightParentheses => seq![')'],
        BramaOperatorType::SquareBracketStart => seq!['['],
        BramaOperatorType::SquareBracketEnd => seq![']'],
        BramaOperatorType::Comma => seq![','],
        BramaOperatorType::Semicolon => seq![';'],
        BramaOperatorType::Dot => seq!['.'],
        BramaOperatorType::CurveBracketStart => seq!['{'],
        BramaOperatorType::CurveBracketEnd => seq!['}'],
        _ => Seq::empty(),
    }
}

/// Whether a kind of operator is written by an operator: it is none of the
/// marks of a comment, and not the kind that stands for no operator.
pub open spec fn is_operator(operator: BramaOperatorType) -> bool {
    operator != BramaOperatorType::Nothing && operator != BramaOperatorType::CommentLine
        && operator != BramaOperatorType::CommentMultilineStart && operator
        != BramaOperatorType::CommentMultilineEnd
}

/// Scanning the spelling of an operator gives the operator.
pub proof fn operator_is_read_back(data: Seq<char>, index: int, operator: BramaOperatorType)
    requires
        is_operator(operator),
        placed(data, index, operator_spelling(operator)),
    ensures
        scanned_token(data, index) == (Scanned {
            kind: Ok(TokenTypeView::Operator(operator)),
            index: index + operator_spelling(operator).len(),
        }),
{
    let written = operator_spelling(operator);
    placed_chars(data, index, written);
    assert(1 <= written.len() <= 3);
    assert(char_at(data, index) == written[0]);
    if written.len() == 1 {
        assert(char_at(data, index + 1) == ' ');
    } else {
        assert(char_at(data, index + 1) == written[1]);
        if written.len() == 2 {
            assert(char_at(data, index + 2) == ' ');
        } else {
            assert(char_at(data, index + 2) == written[2]);
        }
    }
    let found = operator_of(char_at(data, index), char_at(data, index + 1), char_at(data, index + 2));
    assert(found.0 == operator && found.1 == written.len());
    assert(!starts_comment(data, index));
    assert(!char_at(data, index).symbol());
    assert(!starts_text(data, index));
    assert(scanned_token(data, index) == scanned_operator(data, index));
}

/// Whether a kind of token carries meaning: blanks, line breaks and
/// comments do not.
pub open spec fn carries_meaning(kind: TokenTypeView) -> bool {
    match kind {
        TokenTypeView::Nothing => false,
        TokenTypeView::WhiteSpace(_) => false,
        TokenTypeView::NewLine(_) => false,
        TokenTypeView::Operator(operator) => is_operator(operator),
        _ => true,
    }
}

/// The kinds of token that the scanner can hand out for a token that
/// carries meaning: an integer that is not negative, a number with a
/// fractional part in its decimal form, a name, a keyword, an operator, and
/// a text that does not end with a backslash.
pub open spec fn spellable(kind: TokenTypeView) -> bool {
    match kind {
        TokenTypeView::Integer(number) => number >= 0,
        TokenTypeView::Double(digits) => has_fraction(digits),
        TokenTypeView::Symbol(word) => is_name(word),
        TokenTypeView::Keyword(keyword) => keyword != BramaKeywordType::Nothing,
        TokenTypeView::Operator(operator) => is_operator(operator),
        TokenTypeView::Text(content) => content.len() == 0 || content.last() != '\\',
        _ => false,
    }
}

/// How a token is spelled.
pub open spec fn spelling(kind: TokenTypeView) -> Seq<char> {
    match kind {
        TokenTypeView::Integer(number) => crate::text::integer_text(number as int),
        TokenTypeView::Double(digits) => digits,
        TokenTypeView::Symbol(word) => word,
        TokenTypeView::Keyword(keyword) => keyword_spelling(keyword),
        TokenTypeView::Operator(operator) => operator_spelling(operator),
        TokenTypeView::Text(content) => text_spelling(content),
        _ => Seq::empty(),
    }
}

/// Scanning the spelling of a token, with a blank behind it, gives the
/// token.
pub proof fn spelling_is_read_back(data: Seq<char>, index: int, kind: TokenTypeView)
    requires
        spellable(kind),
        placed(data, index, spelling(kind)),
    ensures
        scanned_token(data, index) == (Scanned {
            kind: Ok(kind),
            index: index + spelling(kind).len(),
        }),
        spelling(kind).len() > 0,
        !spelling(kind)[0].whitespace(),
{
    match kind {
        TokenTypeView::Integer(number) => {
            natural_text_is_decimal(number as nat);
            integer_is_read_back(data, index, number);
        },
        TokenTypeView::Double(digits) => {
            let dot = choose|dot: int| #[trigger] is_fraction(digits, dot);
            fraction_is_read_back(data, index, digits, dot);
            assert(in_class(digits[0], CharClass::Decimal));
        },
        TokenTypeView::Symbol(word) => {
            word_is_read_back(data, index, word);
        },
        TokenTypeView::Keyword(keyword) => {
            keyword_is_read_back(data, index, keyword);
        },
        TokenTypeView::Operator(operator) => {
            operator_is_read_back(data, index, operator);
        },
        TokenTypeView::Text(content) => {
            text_is_read_back(data, index, content);
        },
        _ => {},
    }
}

/// A text literal that is closed does not end with a backslash: a backslash
/// before the closing quote would have made the quote part of the content.
pub proof fn closed_text_does_not_end_with_a_backslash(data: Seq<char>, index: int, tag: char, seen: Seq<char>)
    requires
        tag != '\\',
        seen.len() == 0 || seen.last() != '\\' || index < 0 || index >= data.len() || data[index]
            != tag,
    ensures
        ({
            let read = text_content(data, index, tag, seen);
            read.1 < data.len() ==> read.0.len() == 0 || read.0.last() != '\\'
        }),
    decreases data.len() - index,
{
    if index < 0 || index >= data.len() {
    } else if data[index] == '\\' && char_at(data, index + 1) == tag && index + 1 < data.len() {
        closed_text_does_not_end_with_a_backslash(data, index + 2, tag, seen.push(tag));
    } else if data[index] == tag {
    } else {
        closed_text_does_not_end_with_a_backslash(data, index + 1, tag, seen.push(data[index]));
    }
}

/// A token that the scanner reads and that carries meaning is of a kind
/// that can be spelled.
pub proof fn scanned_kinds_are_spellable(data: Seq<char>, index: int)
    requires
        0 <= index < data.len(),
    ensures
        scanned_token(data, index).kind matches Ok(kind) ==> carries_meaning(kind) ==> spellable(
            kind,
        ),
{
    let first = char_at(data, index);
    if first.new_line() {
    } else if first.whitespace() {
    } else if starts_comment(data, index) {
    } else if first.symbol() {
        run_is_in_class(data, index, CharClass::Word, data.len());
        let end = run_end(data, index, CharClass::Word, data.len());
        assert(end == run_end(data, index + 1, CharClass::Word, (data.len() - 1) as nat));
        run_is_in_class(data, index + 1, CharClass::Word, (data.len() - 1) as nat);
        let word = data.subrange(index, end);
        assert(word[0] == data[index]);
        assert(all_in_class(word, CharClass::Word)) by {
            assert forall|i: int| 0 <= i < word.len() implies in_class(
                #[trigger] word[i],
                CharClass::Word,
            ) by {
                assert(word[i] == data[index + i]);
            }
        }
    } else if starts_text(data, index) {
        closed_text_does_not_end_with_a_backslash(data, index + 1, data[index], Seq::empty());
    } else if first.integer() {
        fractions_are_spellable(data, index);
    } else {
    }
}

/// A number in the decimal form of a number with a fractional part can be
/// spelled.
pub proof fn fraction_is_spellable(digits: Seq<char>, dot: int)
    requires
        is_fraction(digits, dot),
    ensures
        spellable(TokenTypeView::Double(digits)),
{
}

/// A number with a fractional part that the scanner reads is in its
/// decimal form.
pub proof fn fractions_are_spellable(data: Seq<char>, index: int)
    requires
        0 <= index < data.len(),
        data[index].integer(),
    ensures
        scanned_number(data, index).kind matches Ok(kind) ==> spellable(kind),
{
    let second = char_at(data, index + 1);
    assert forall|value: nat, end: int|
        (#[trigger] integer_token(value, end)).kind is Ok implies spellable(
            integer_token(value, end).kind->Ok_0,
        ) by {}
    if data[index] == '0' && (second == 'b' || second == 'B') {
    } else if data[index] == '0' && (second == 'x' || second == 'X') {
    } else if data[index] == '0' && in_class(second, CharClass::Octal) {
    } else {
        run_is_in_class(data, index, CharClass::Decimal, data.len());
        let end = run_end(data, index, CharClass::Decimal, data.len());
        assert(end == run_end(data, index + 1, CharClass::Decimal, (data.len() - 1) as nat));
        run_is_in_class(data, index + 1, CharClass::Decimal, (data.len() - 1) as nat);
        if char_at(data, end) == '.' && char_at(data, end + 1).integer() {
            run_is_in_class(data, end + 1, CharClass::Decimal, data.len());
            let last = run_end(data, end + 1, CharClass::Decimal, data.len());
            assert(last == run_end(data, end + 2, CharClass::Decimal, (data.len() - 1) as nat));
            run_is_in_class(data, end + 2, CharClass::Decimal, (data.len() - 1) as nat);
            let digits = data.subrange(index, last);
            let dot = end - index;
            assert(digits[dot] == data[end]);
            assert(digits[0] == data[index]);
            assert(digits[1] == data[index + 1]);
            assert forall|k: int| 0 <= k < dot implies in_class(
                #[trigger] digits[k],
                CharClass::Decimal,
            ) by {
                assert(digits[k] == data[index + k]);
            }
            assert forall|k: int| dot < k < digits.len() implies in_class(
                #[trigger] digits[k],
                CharClass::Decimal,
            ) by {
                assert(digits[k] == data[index + k]);
            }
            assert(is_fraction(digits, dot));
            fraction_is_spellable(digits, dot);
        } else {
            assert(scanned_number(data, index) == integer_token(
                digits_value(data, index, end, 10),
                end,
            ));
        }
    }
}

/// The spelling of a token that can be spelled is not empty and does not
/// start with a blank.
pub proof fn spelling_starts_without_blank(kind: TokenTypeView)
    requires
        spellable(kind),
    ensures
        spelling(kind).len() > 0,
        !spelling(kind)[0].whitespace(),
{
    match kind {
        TokenTypeView::Integer(number) => {
            natural_text_is_decimal(number as nat);
            assert(in_class(natural_text(number as nat)[0], CharClass::Decimal));
        },
        TokenTypeView::Double(digits) => {
            let dot = choose|dot: int| #[trigger] is_fraction(digits, dot);
            assert(in_class(digits[0], CharClass::Decimal));
        },
        TokenTypeView::Operator(operator) => {
            assert(operator_spelling(operator).len() > 0);
        },
        TokenTypeView::Text(content) => {
            assert(text_spelling(content)[0] == '"');
        },
        _ => {},
    }
}

/// The kinds of a sequence of tokens, one for one.
pub open spec fn kinds_of(tokens: Seq<TokenView>) -> Seq<TokenTypeView> {
    tokens.map_values(|token: TokenView| token.token_type)
}

/// The kinds that carry meaning, in their order.
pub open spec fn meaningful(kinds: Seq<TokenTypeView>) -> Seq<TokenTypeView>
    decreases kinds.len(),
{
    if kinds.len() == 0 {
        Seq::empty()
    } else if carries_meaning(kinds[0]) {
        seq![kinds[0]] + meaningful(kinds.drop_first())
    } else {
        meaningful(kinds.drop_first())
    }
}

/// The text that spells the kinds from place `from` on, with one blank
/// behind each.
pub open spec fn spelled(kinds: Seq<TokenTypeView>, from: nat) -> Seq<char>
    decreases kinds.len() - from,
{
    if from >= kinds.len() {
        Seq::empty()
    } else {
        spelling(kinds[from as int]) + seq![' '] + spelled(kinds, from + 1)
    }
}

/// The kinds from place `from` on with a blank of width one behind each.
pub open spec fn spaced(kinds: Seq<TokenTypeView>, from: nat) -> Seq<TokenTypeView>
    decreases kinds.len() - from,
{
    if from >= kinds.len() {
        Seq::empty()
    } else {
        seq![kinds[from as int], TokenTypeView::WhiteSpace(1)] + spaced(kinds, from + 1)
    }
}

/// Every kind from place `from` on can be spelled.
pub open spec fn all_spellable(kinds: Seq<TokenTypeView>, from: nat) -> bool {
    forall|k: int| from <= k < kinds.len() ==> spellable(#[trigger] kinds[k])
}

/// Scanning the text that spells kinds of token gives tokens of these
/// kinds, each with a blank of width one behind it.
pub proof fn spelled_is_scanned(
    data: Seq<char>,
    index: int,
    kinds: Seq<TokenTypeView>,
    from: nat,
    seen: Seq<TokenView>,
)
    requires
        0 <= index <= data.len(),
        from <= kinds.len(),
        data.skip(index) == spelled(kinds, from),
        all_spellable(kinds, from),
    ensures
        scanned_all(data, index, seen).error is None,
        kinds_of(scanned_all(data, index, seen).tokens) == kinds_of(seen) + spaced(kinds, from),
    decreases kinds.len() - from,
{
    if from >= kinds.len() {
        assert(data.skip(index).len() == 0);
        assert(kinds_of(seen) + spaced(kinds, from) =~= kinds_of(seen));
    } else {
        let kind = kinds[from as int];
        let written = spelling(kind);
        let rest = spelled(kinds, from + 1);
        assert(spellable(kind));
        spelling_starts_without_blank(kind);
        let tail = data.skip(index);
        assert(tail == written + seq![' '] + rest);
        assert(tail.len() == written.len() + 1 + rest.len());
        let blank = index + written.len();
        assert(data[blank] == ' ') by {
            assert(tail[written.len() as int] == data[blank]);
        }
        assert(data.subrange(index, blank) =~= written) by {
            assert forall|k: int| 0 <= k < written.len() implies data.subrange(index, blank)[k]
                == written[k] by {
                assert(tail[k] == data[index + k]);
            }
        }
        assert(placed(data, index, written));
        spelling_is_read_back(data, index, kind);
        let line = crate::parser::scan::line_at(data, index) as u32;
        let column = crate::parser::scan::column_at(data, index) as u32;
        let first = seen.push(TokenView { line, column, token_type: kind });

        // the blank behind the token
        assert(data.skip(blank + 1) =~= rest) by {
            assert(data.skip(blank + 1).len() == rest.len());
            assert forall|k: int| 0 <= k < rest.len() implies data.skip(blank + 1)[k]
                == rest[k] by {
                assert(tail[written.len() + 1 + k] == data[index + (written.len() + 1 + k)]);
                assert(tail[written.len() + 1 + k] == rest[k]);
            }
        }
        if from + 1 < kinds.len() {
            let next = kinds[(from + 1) as int];
            assert(spellable(next));
            spelling_starts_without_blank(next);
            assert(rest == spelling(next) + seq![' '] + spelled(kinds, from + 2));
            assert(data[blank + 1] == spelling(next)[0]) by {
                assert(data.skip(blank + 1)[0] == data[blank + 1]);
            }
            assert(!in_class(data[blank + 1], CharClass::Blank));
        } else {
            assert(rest.len() == 0);
            assert(blank + 1 == data.len());
        }
        run_over(data, blank, 1, CharClass::Blank, 255);
        assert(scanned_token(data, blank) == (Scanned {
            kind: Ok(TokenTypeView::WhiteSpace(1)),
            index: blank + 1,
        }));
        let blank_line = crate::parser::scan::line_at(data, blank) as u32;
        let blank_column = crate::parser::scan::column_at(data, blank) as u32;
        let second = first.push(
            TokenView {
                line: blank_line,
                column: blank_column,
                token_type: TokenTypeView::WhiteSpace(1),
            },
        );
        spelled_is_scanned(data, blank + 1, kinds, from + 1, second);
        assert(scanned_all(data, index, seen) == scanned_all(data, blank, first));
        assert(scanned_all(data, blank, first) == scanned_all(data, blank + 1, second));
        assert(kinds_of(second) =~= kinds_of(seen) + seq![kind, TokenTypeView::WhiteSpace(1)]);
        assert(kinds_of(second) + spaced(kinds, from + 1) =~= kinds_of(seen) + spaced(kinds, from));
    }
}

/// Blanks carry no meaning: of kinds with a blank behind each, the kinds
/// themselves are what carries meaning.
pub proof fn spaced_means_the_kinds(kinds: Seq<TokenTypeView>, from: nat)
    requires
        from <= kinds.len(),
        all_spellable(kinds, from),
    ensures
        meaningful(spaced(kinds, from)) == kinds.skip(from as int),
    decreases kinds.len() - from,
{
    if from >= kinds.len() {
        assert(kinds.skip(from as int) =~= Seq::empty());
    } else {
        let kind = kinds[from as int];
        assert(spellable(kind));
        let all = spaced(kinds, from);
        let rest = spaced(kinds, from + 1);
        assert(all == seq![kind, TokenTypeView::WhiteSpace(1)] + rest);
        assert(all[0] == kind);
        assert(all.drop_first() =~= seq![TokenTypeView::WhiteSpace(1)] + rest);
        assert(all.drop_first()[0] == TokenTypeView::WhiteSpace(1));
        assert(all.drop_first().drop_first() =~= rest);
        spaced_means_the_kinds(kinds, from + 1);
        assert(meaningful(all.drop_first()) == meaningful(rest));
        assert(meaningful(all) == seq![kind] + meaningful(rest));
        assert(seq![kind] + kinds.skip((from + 1) as int) =~= kinds.skip(from as int));
    }
}

/// What carries meaning among kinds is among the kinds.
pub proof fn meaningful_kinds_are_kinds(kinds: Seq<TokenTypeView>)
    ensures
        forall|k: int|
            0 <= k < meaningful(kinds).len() ==> carries_meaning(#[trigger] meaningful(kinds)[k])
                && kinds.contains(meaningful(kinds)[k]),
    decreases kinds.len(),
{
    if kinds.len() > 0 {
        let rest = kinds.drop_first();
        meaningful_kinds_are_kinds(rest);
        assert forall|k: int| 0 <= k < meaningful(kinds).len() implies carries_meaning(
            #[trigger] meaningful(kinds)[k],
        ) && kinds.contains(meaningful(kinds)[k]) by {
            if carries_meaning(kinds[0]) {
                if k == 0 {
                    assert(meaningful(kinds)[0] == kinds[0]);
                } else {
                    assert(meaningful(kinds)[k] == meaningful(rest)[k - 1]);
                    let place = choose|place: int|
                        0 <= place < rest.len() && rest[place] == meaningful(rest)[k - 1];
                    assert(kinds[place + 1] == rest[place]);
                }
            } else {
                let place = choose|place: int|
                    0 <= place < rest.len() && rest[place] == meaningful(rest)[k];
                assert(kinds[place + 1] == rest[place]);
            }
        }
    }
}

/// Every token that a scan reads and that carries meaning is of a kind that
/// can be spelled.
pub proof fn scanned_tokens_are_spellable(data: Seq<char>, index: int, seen: Seq<TokenView>)
    requires
        forall|k: int|
            0 <= k < seen.len() && carries_meaning((#[trigger] seen[k]).token_type) ==> spellable(
                seen[k].token_type,
            ),
    ensures
        forall|k: int|
            0 <= k < scanned_all(data, index, seen).tokens.len() && carries_meaning(
                (#[trigger] scanned_all(data, index, seen).tokens[k]).token_type,
            ) ==> spellable(scanned_all(data, index, seen).tokens[k].token_type),
    decreases data.len() - index,
{
    if index < 0 || index >= data.len() {
    } else {
        let token = scanned_token(data, index);
        scanned_kinds_are_spellable(data, index);
        match token.kind {
            Ok(kind) => {
                if index < token.index <= data.len() {
                    let line = crate::parser::scan::line_at(data, index) as u32;
                    let column = crate::parser::scan::column_at(data, index) as u32;
                    let next = seen.push(TokenView { line, column, token_type: kind });
                    assert forall|k: int|
                        0 <= k < next.len() && carries_meaning(
                            (#[trigger] next[k]).token_type,
                        ) implies spellable(next[k].token_type) by {
                        if k < seen.len() {
                            assert(next[k] == seen[k]);
                        }
                    }
                    scanned_tokens_are_spellable(data, token.index, next);
                }
            },
            Err(_) => {},
        }
    }
}

/// Scanning, spelling the tokens that carry meaning, and scanning the
/// spelling gives the same kinds of token again: spelling loses nothing of
/// the numbers, names, keywords, operators and texts of a program.
pub proof fn respelling_gives_the_tokens_again(data: Seq<char>)
    requires
        scanned_all(data, 0, Seq::empty()).error is None,
    ensures
        ({
            let kinds = meaningful(kinds_of(scanned_all(data, 0, Seq::empty()).tokens));
            let again = scanned_all(spelled(kinds, 0), 0, Seq::empty());
            &&& again.error is None
            &&& meaningful(kinds_of(again.tokens)) == kinds
        }),
{
    let tokens = scanned_all(data, 0, Seq::empty()).tokens;
    let kinds = meaningful(kinds_of(tokens));
    scanned_tokens_are_spellable(data, 0, Seq::empty());
    meaningful_kinds_are_kinds(kinds_of(tokens));
    assert forall|k: int| 0 <= k < kinds.len() implies spellable(#[trigger] kinds[k]) by {
        let place = choose|place: int|
            0 <= place < kinds_of(tokens).len() && kinds_of(tokens)[place] == kinds[k];
        assert(tokens[place].token_type == kinds[k]);
    }
    let text = spelled(kinds, 0);
    assert(text.skip(0) =~= text);
    spelled_is_scanned(text, 0, kinds, 0, Seq::empty());
    spaced_means_the_kinds(kinds, 0);
    assert(kinds_of(Seq::<TokenView>::empty()) + spaced(kinds, 0) =~= spaced(kinds, 0));
    assert(kinds.skip(0) =~= kinds);
}

/// Appends characters.
pub fn push_chars(out: &mut String, chars: &[char])
    ensures
        final(out)@ == old(out)@ + chars@,
{
    let mut i: usize = 0;
    assert(out@ =~= old(out)@ + chars@.take(0));
    while i < chars.len()
        invariant
            i <= chars@.len(),
            out@ == old(out)@ + chars@.take(i as int),
        decreases chars@.len() - i,
    {
        out.push(chars[i]);
        i += 1;
        assert(out@ =~= old(out)@ + chars@.take(i as int));
    }
    assert(chars@.take(chars@.len() as int) =~= chars@);
}

/// Appends the spelling of an operator.
pub fn push_operator(out: &mut String, operator: BramaOperatorType)
    ensures
        final(out)@ == old(out)@ + operator_spelling(operator),
{
    match operator {
        BramaOperatorType::EqualValue => push_chars(out, &['=', '=', '=']),
        BramaOperatorType::NotEqualValue => push_chars(out, &['!', '=', '=']),
        BramaOperatorType::BitwiseUnsignedRightShift => push_chars(out, &['>', '>', '>']),
        BramaOperatorType::Increment => push_chars(out, &['+', '+']),
        BramaOperatorType::Deccrement => push_chars(out, &['-', '-']),
        BramaOperatorType::AssignAddition => push_chars(out, &['+', '=']),
        BramaOperatorType::AssignSubtraction => push_chars(out, &['-', '=']),
        BramaOperatorType::AssignMultiplication => push_chars(out, &['*', '=']),
        BramaOperatorType::AssignDivision => push_chars(out, &['/', '=']),
        BramaOperatorType::AssignModulus => push_chars(out, &['%', '=']),
        BramaOperatorType::Equal => push_chars(out, &['=', '=']),
        BramaOperatorType::NotEqual => push_chars(out, &['!', '=']),
        BramaOperatorType::And => push_chars(out, &['&', '&']),
        BramaOperatorType::Or => push_chars(out, &['|', '|']),
        BramaOperatorType::BitwiseLeftShift => push_chars(out, &['<', '<']),
        BramaOperatorType::BitwiseRightShift => push_chars(out, &['>', '>']),
        BramaOperatorType::GreaterEqualThan => push_chars(out, &['>', '=']),
        BramaOperatorType::LessEqualThan => push_chars(out, &['<', '=']),
        BramaOperatorType::BitwiseAndAssign => push_chars(out, &['&', '=']),
        BramaOperatorType::BitwiseOrAssign => push_chars(out, &['|', '=']),
        BramaOperatorType::BitwiseXorAssign => push_chars(out, &['^', '=']),
        BramaOperatorType::Addition => push_chars(out, &['+']),
        BramaOperatorType::Subtraction => push_chars(out, &['-']),
        BramaOperatorType::Multiplication => push_chars(out, &['*']),
        BramaOperatorType::Division => push_chars(out, &['/']),
        BramaOperatorType::Modulo => push_chars(out, &['%']),
        BramaOperatorType::Assign => push_chars(out, &['=']),
        BramaOperatorType::Not => push_chars(out, &['!']),
        BramaOperatorType::BitwiseAnd => push_chars(out, &['&']),
        BramaOperatorType::BitwiseOr => push_chars(out, &['|']),
        BramaOperatorType::BitwiseNot => push_chars(out, &['~']),
        BramaOperatorType::BitwiseXor => push_chars(out, &['^']),
        BramaOperatorType::GreaterThan => push_chars(out, &['>']),
        BramaOperatorType::LessThan => push_chars(out, &['<']),
        BramaOperatorType::QuestionMark => push_chars(out, &['?']),
        BramaOperatorType::ColonMark => push_chars(out, &[':']),
        BramaOperatorType::LeftParentheses => push_chars(out, &['(']),
        BramaOperatorType::RightParentheses => push_chars(out, &[')']),
        BramaOperatorType::SquareBracketStart => push_chars(out, &['[']),
        BramaOperatorType::SquareBracketEnd => push_chars(out, &[']']),
        BramaOperatorType::Comma => push_chars(out, &[',']),
        BramaOperatorType::Semicolon => push_chars(out, &[';']),
        BramaOperatorType::Dot => push_chars(out, &['.']),
        BramaOperatorType::CurveBracketStart => push_chars(out, &['{']),
        BramaOperatorType::CurveBracketEnd => push_chars(out, &['}']),
        _ => {
            assert(out@ + Seq::<char>::empty() =~= out@);
        },
    }
    assert(final(out)@ =~= old(out)@ + operator_spelling(operator));
}

/// Escaping goes character by character.
pub proof fn escaped_push(content: Seq<char>, last: char)
    ensures
        escaped(content.push(last)) == escaped(content) + (if last == '"' {
            seq!['\\', '"']
        } else {
            seq![last]
        }),
    decreases content.len(),
{
    let whole = content.push(last);
    let piece = if last == '"' {
        seq!['\\', '"']
    } else {
        seq![last]
    };
    if content.len() == 0 {
        assert(whole.drop_first() =~= Seq::<char>::empty());
        assert(escaped(whole.drop_first()) =~= Seq::<char>::empty());
        assert(escaped(content) =~= Seq::<char>::empty());
        assert(escaped(whole) =~= escaped(content) + piece);
    } else {
        assert(whole.drop_first() =~= content.drop_first().push(last));
        escaped_push(content.drop_first(), last);
        assert(whole[0] == content[0]);
        assert(escaped(whole) =~= escaped(content) + piece);
    }
}

/// Appends the spelling of a text literal.
pub fn push_text_literal(out: &mut String, content: &str)
    ensures
        final(out)@ == old(out)@ + text_spelling(content@),
{
    out.push('"');
    let count: usize = content.unicode_len();
    let mut i: usize = 0;
    assert(out@ =~= old(out)@ + seq!['"'] + escaped(content@.take(0)));
    while i < count
        invariant
            i <= count,
            count == content@.len(),
            out@ == old(out)@ + seq!['"'] + escaped(content@.take(i as int)),
        decreases count - i,
    {
        let ch: char = content.get_char(i);
        proof {
            escaped_push(content@.take(i as int), ch);
            assert(content@.take(i + 1) =~= content@.take(i as int).push(ch));
        }
        if ch == '"' {
            out.push('\\');
            out.push('"');
        } else {
            out.push(ch);
        }
        i += 1;
        assert(out@ =~= old(out)@ + seq!['"'] + escaped(content@.take(i as int)));
    }
    proof {
        assert(content@.take(count as int) =~= content@);
    }
    out.push('"');
    assert(final(out)@ =~= old(out)@ + text_spelling(content@));
}

/// Whether a kind of token carries meaning.
pub fn has_meaning(kind: &BramaTokenType) -> (answer: bool)
    ensures
        answer == carries_meaning(kind@),
{
    match kind {
        BramaTokenType::Nothing => false,
        BramaTokenType::WhiteSpace(_) => false,
        BramaTokenType::NewLine(_) => false,
        BramaTokenType::Operator(operator) => *operator != BramaOperatorType::Nothing && *operator
            != BramaOperatorType::CommentLine && *operator
            != BramaOperatorType::CommentMultilineStart && *operator
            != BramaOperatorType::CommentMultilineEnd,
        _ => true,
    }
}

/// Appends the spelling of a token.
pub fn push_spelling(out: &mut String, kind: &BramaTokenType)
    ensures
        final(out)@ == old(out)@ + spelling(kind@),
{
    match kind {
        BramaTokenType::Integer(number) => crate::text::push_integer(out, *number),
        BramaTokenType::Double(digits) => crate::text::push_text(out, digits.as_str()),
        BramaTokenType::Symbol(word) => crate::text::push_text(out, word.as_str()),
        BramaTokenType::Keyword(keyword) => match keyword {
            BramaKeywordType::True => push_chars(out, &['t', 'r', 'u', 'e']),
            BramaKeywordType::False => push_chars(out, &['f', 'a', 'l', 's', 'e']),
            BramaKeywordType::Nothing => {
                assert(out@ + Seq::<char>::empty() =~= out@);
            },
        },
        BramaTokenType::Operator(operator) => push_operator(out, *operator),
        BramaTokenType::Text(content) => push_text_literal(out, content.as_str()),
        _ => {
            assert(out@ + Seq::<char>::empty() =~= out@);
        },
    }
    assert(final(out)@ =~= old(out)@ + spelling(kind@));
}

/// What carries meaning goes kind by kind.
pub proof fn meaningful_push(kinds: Seq<TokenTypeView>, last: TokenTypeView)
    ensures
        meaningful(kinds.push(last)) == if carries_meaning(last) {
            meaningful(kinds).push(last)
        } else {
            meaningful(kinds)
        },
    decreases kinds.len(),
{
    let whole = kinds.push(last);
    if kinds.len() == 0 {
        assert(whole.drop_first() =~= Seq::<TokenTypeView>::empty());
        assert(meaningful(whole.drop_first()) =~= Seq::<TokenTypeView>::empty());
        if carries_meaning(last) {
            assert(meaningful(whole) =~= meaningful(kinds).push(last));
        }
    } else {
        assert(whole.drop_first() =~= kinds.drop_first().push(last));
        meaningful_push(kinds.drop_first(), last);
        assert(whole[0] == kinds[0]);
        if carries_meaning(last) {
            assert(meaningful(whole) =~= meaningful(kinds).push(last));
        } else {
            assert(meaningful(whole) =~= meaningful(kinds));
        }
    }
}

/// The spelling of kinds goes kind by kind.
pub proof fn spelled_push(kinds: Seq<TokenTypeView>, last: TokenTypeView, from: nat)
    requires
        from <= kinds.len(),
    ensures
        spelled(kinds.push(last), from) == spelled(kinds, from) + spelling(last) + seq![' '],
    decreases kinds.len() - from,
{
    let whole = kinds.push(last);
    if from == kinds.len() {
        assert(spelled(whole, from + 1) =~= Seq::<char>::empty());
        assert(spelled(kinds, from) =~= Seq::<char>::empty());
        assert(spelled(whole, from) =~= spelled(kinds, from) + spelling(last) + seq![' ']);
    } else {
        spelled_push(kinds, last, from + 1);
        assert(whole[from as int] == kinds[from as int]);
        assert(spelled(whole, from) =~= spelled(kinds, from) + spelling(last) + seq![' ']);
    }
}

/// The text that spells the tokens that carry meaning, with one blank behind
/// each.
pub fn spell(tokens: &Vec<Token>) -> (text: String)
    ensures
        text@ == spelled(meaningful(kinds_of(token_views(tokens@))), 0),
{
    let mut text: String = String::new();
    let ghost all = kinds_of(token_views(tokens@));
    let mut i: usize = 0;
    assert(all.take(0) =~= Seq::<TokenTypeView>::empty());
    assert(text@ =~= spelled(meaningful(all.take(0)), 0));
    while i < tokens.len()
        invariant
            i <= tokens@.len(),
            all == kinds_of(token_views(tokens@)),
            text@ == spelled(meaningful(all.take(i as int)), 0),
        decreases tokens@.len() - i,
    {
        let ghost kind = tokens@[i as int].token_type@;
        proof {
            assert(all[i as int] == kind);
            assert(all.take(i + 1) =~= all.take(i as int).push(kind));
            meaningful_push(all.take(i as int), kind);
            spelled_push(meaningful(all.take(i as int)), kind, 0);
        }
        if has_meaning(&tokens[i].token_type) {
            push_spelling(&mut text, &tokens[i].token_type);
            text.push(' ');
            assert(text@ =~= spelled(meaningful(all.take(i as int)), 0) + spelling(kind) + seq![
                ' ',
            ]);
        }
        i += 1;
    }
    proof {
        assert(all.take(tokens@.len() as int) =~= all);
    }
    text
}

} // verus!
