use karamel::parser::filter_comments;
use karamel::parser::spell::spell;
use karamel::parser::Parser;
use karamel::types::find_keyword;
use karamel::types::BramaKeywordType;
use karamel::types::BramaOperatorType;
use karamel::types::BramaTokenType;
use karamel::types::CharTraits;
use karamel::types::Token;
use karamel::types::Tokinizer;

fn scan(code: &str) -> Vec<Token> {
    let mut parser = Parser::new(code);
    assert_eq!(parser.parse(), Ok(()));
    parser.tokens()
}

fn kinds(code: &str) -> Vec<BramaTokenType> {
    scan(code).into_iter().map(|token| token.token_type).collect()
}

fn scan_error(code: &str) -> (String, u32, u32) {
    let mut parser = Parser::new(code);
    match parser.parse() {
        Ok(()) => panic!("the scan should fail"),
        Err(error) => error,
    }
}

#[test]
fn char_classes() {
    assert!('\n'.is_new_line());
    assert!(!'\r'.is_new_line());
    assert!(CharTraits::is_whitespace(&' '));
    assert!(CharTraits::is_whitespace(&'\t'));
    assert!(CharTraits::is_whitespace(&'\r'));
    assert!(!CharTraits::is_whitespace(&'\n'));
    assert!('a'.is_symbol());
    assert!('_'.is_symbol());
    assert!('$'.is_symbol());
    assert!('ş'.is_symbol());
    assert!('ğ'.is_symbol());
    assert!(!'1'.is_symbol());
    assert!(!'+'.is_symbol());
    assert!('0'.is_integer());
    assert!('9'.is_integer());
    assert!(!'a'.is_integer());
}

#[test]
fn keywords_are_found_by_their_spelling() {
    assert_eq!(find_keyword("true"), BramaKeywordType::True);
    assert_eq!(find_keyword("doğru"), BramaKeywordType::True);
    assert_eq!(find_keyword("false"), BramaKeywordType::False);
    assert_eq!(find_keyword("yanlış"), BramaKeywordType::False);
    assert_eq!(find_keyword("dogru"), BramaKeywordType::Nothing);
    assert_eq!(find_keyword(""), BramaKeywordType::Nothing);
}

#[test]
fn cursor_looks_three_characters_ahead() {
    let mut tokinizer = Tokinizer::new("aşc").expect("short text");
    assert_eq!(tokinizer.length, 3);
    assert!(!tokinizer.is_end());
    assert_eq!(tokinizer.get_char(), 'a');
    assert_eq!(tokinizer.get_next_char(), 'ş');
    assert_eq!(tokinizer.get_third_char(), 'c');
    tokinizer.increase_index();
    assert_eq!(tokinizer.index, 1);
    assert_eq!(tokinizer.get_char(), 'ş');
    assert_eq!(tokinizer.get_next_char(), 'c');
    assert_eq!(tokinizer.get_third_char(), '\0');
    tokinizer.increase_index();
    tokinizer.increase_index();
    assert!(tokinizer.is_end());
    assert_eq!(tokinizer.get_char(), '\0');
    assert_eq!(tokinizer.get_next_char(), '\0');
}

#[test]
fn cursor_counters() {
    let mut tokinizer = Tokinizer::new("ab").expect("short text");
    tokinizer.column = 7;
    tokinizer.increate_line();
    assert_eq!(tokinizer.line, 1);
    assert_eq!(tokinizer.column, 7);
    tokinizer.reset_column();
    assert_eq!(tokinizer.column, 0);
    tokinizer.column = 3;
    tokinizer.add_token(Token { line: 1, column: 3, token_type: BramaTokenType::Integer(5) });
    assert_eq!(tokinizer.column, 0);
    assert_eq!(tokinizer.tokens.len(), 1);
    assert_eq!(tokinizer.tokens[0].token_type, BramaTokenType::Integer(5));
}

#[test]
fn advance_counts_lines_and_columns() {
    let mut tokinizer = Tokinizer::new("a\nbc").expect("short text");
    tokinizer.advance();
    assert_eq!((tokinizer.line, tokinizer.column, tokinizer.index), (0, 1, 1));
    tokinizer.advance();
    assert_eq!((tokinizer.line, tokinizer.column, tokinizer.index), (1, 0, 2));
    tokinizer.advance();
    assert_eq!((tokinizer.line, tokinizer.column, tokinizer.index), (1, 1, 3));
    assert_eq!(tokinizer.slice(2, 4), "bc".to_string());
}

#[test]
fn decimal_integers() {
    assert_eq!(kinds("0"), vec![BramaTokenType::Integer(0)]);
    assert_eq!(kinds("1024"), vec![BramaTokenType::Integer(1024)]);
    assert_eq!(kinds("9223372036854775807"), vec![BramaTokenType::Integer(i64::MAX)]);
    assert_eq!(kinds("08"), vec![BramaTokenType::Integer(8)]);
}

#[test]
fn number_systems() {
    assert_eq!(kinds("0b101"), vec![BramaTokenType::Integer(5)]);
    assert_eq!(kinds("0B11"), vec![BramaTokenType::Integer(3)]);
    assert_eq!(kinds("0x1F"), vec![BramaTokenType::Integer(31)]);
    assert_eq!(kinds("0Xff"), vec![BramaTokenType::Integer(255)]);
    assert_eq!(kinds("017"), vec![BramaTokenType::Integer(15)]);
    assert_eq!(kinds("0x7fffffffffffffff"), vec![BramaTokenType::Integer(i64::MAX)]);
}

#[test]
fn numbers_with_a_fraction_are_kept_as_spelled() {
    assert_eq!(kinds("1.5"), vec![BramaTokenType::Double("1.5".to_string())]);
    assert_eq!(kinds("10.050"), vec![BramaTokenType::Double("10.050".to_string())]);
    assert_eq!(
        kinds("1.x"),
        vec![
            BramaTokenType::Integer(1),
            BramaTokenType::Operator(BramaOperatorType::Dot),
            BramaTokenType::Symbol("x".to_string()),
        ]
    );
}

#[test]
fn numbers_that_do_not_fit_are_refused() {
    assert_eq!(scan_error("9223372036854775808"), ("Number is too large".to_string(), 0, 0));
    assert_eq!(scan_error("a = 99999999999999999999"), ("Number is too large".to_string(), 0, 4));
    assert_eq!(scan_error("0x"), ("Number has no digits".to_string(), 0, 0));
    assert_eq!(scan_error("\n 0b2"), ("Number has no digits".to_string(), 1, 1));
}

#[test]
fn text_literals() {
    assert_eq!(kinds("'erhan'"), vec![BramaTokenType::Text("erhan".to_string())]);
    assert_eq!(kinds("\"barış\""), vec![BramaTokenType::Text("barış".to_string())]);
    assert_eq!(kinds("''"), vec![BramaTokenType::Text("".to_string())]);
    assert_eq!(kinds("'it\\'s'"), vec![BramaTokenType::Text("it's".to_string())]);
    assert_eq!(kinds("\"a'b\""), vec![BramaTokenType::Text("a'b".to_string())]);
    assert_eq!(kinds("'a\\b'"), vec![BramaTokenType::Text("a\\b".to_string())]);
}

#[test]
fn unterminated_text_is_refused_at_its_start() {
    assert_eq!(scan_error("x = 'abc"), ("Missing string deliminator".to_string(), 0, 4));
    assert_eq!(scan_error("\"abc\\\""), ("Missing string deliminator".to_string(), 0, 0));
}

#[test]
fn words_and_keywords() {
    assert_eq!(kinds("boyut"), vec![BramaTokenType::Symbol("boyut".to_string())]);
    assert_eq!(kinds("_a1$"), vec![BramaTokenType::Symbol("_a1$".to_string())]);
    assert_eq!(kinds("doğru"), vec![BramaTokenType::Keyword(BramaKeywordType::True)]);
    assert_eq!(kinds("false"), vec![BramaTokenType::Keyword(BramaKeywordType::False)]);
    assert_eq!(kinds("truely"), vec![BramaTokenType::Symbol("truely".to_string())]);
}

#[test]
fn operators_take_the_longest_match() {
    let expected = vec![
        (BramaOperatorType::EqualValue, "==="),
        (BramaOperatorType::NotEqualValue, "!=="),
        (BramaOperatorType::BitwiseUnsignedRightShift, ">>>"),
        (BramaOperatorType::Increment, "++"),
        (BramaOperatorType::Deccrement, "--"),
        (BramaOperatorType::AssignAddition, "+="),
        (BramaOperatorType::AssignSubtraction, "-="),
        (BramaOperatorType::AssignMultiplication, "*="),
        (BramaOperatorType::AssignDivision, "/="),
        (BramaOperatorType::AssignModulus, "%="),
        (BramaOperatorType::Equal, "=="),
        (BramaOperatorType::NotEqual, "!="),
        (BramaOperatorType::And, "&&"),
        (BramaOperatorType::Or, "||"),
        (BramaOperatorType::BitwiseLeftShift, "<<"),
        (BramaOperatorType::BitwiseRightShift, ">>"),
        (BramaOperatorType::GreaterEqualThan, ">="),
        (BramaOperatorType::LessEqualThan, "<="),
        (BramaOperatorType::BitwiseAndAssign, "&="),
        (BramaOperatorType::BitwiseOrAssign, "|="),
        (BramaOperatorType::BitwiseXorAssign, "^="),
        (BramaOperatorType::Addition, "+"),
        (BramaOperatorType::Subtraction, "-"),
        (BramaOperatorType::Multiplication, "*"),
        (BramaOperatorType::Division, "/"),
        (BramaOperatorType::Modulo, "%"),
        (BramaOperatorType::Assign, "="),
        (BramaOperatorType::Not, "!"),
        (BramaOperatorType::BitwiseAnd, "&"),
        (BramaOperatorType::BitwiseOr, "|"),
        (BramaOperatorType::BitwiseNot, "~"),
        (BramaOperatorType::BitwiseXor, "^"),
        (BramaOperatorType::GreaterThan, ">"),
        (BramaOperatorType::LessThan, "<"),
        (BramaOperatorType::QuestionMark, "?"),
        (BramaOperatorType::ColonMark, ":"),
        (BramaOperatorType::LeftParentheses, "("),
        (BramaOperatorType::RightParentheses, ")"),
        (BramaOperatorType::SquareBracketStart, "["),
        (BramaOperatorType::SquareBracketEnd, "]"),
        (BramaOperatorType::Comma, ","),
        (BramaOperatorType::Semicolon, ";"),
        (BramaOperatorType::Dot, "."),
        (BramaOperatorType::CurveBracketStart, "{"),
        (BramaOperatorType::CurveBracketEnd, "}"),
    ];
    for (operator, spelling) in expected {
        assert_eq!(kinds(spelling), vec![BramaTokenType::Operator(operator)], "{}", spelling);
    }
    assert_eq!(
        kinds("===="),
        vec![
            BramaTokenType::Operator(BramaOperatorType::EqualValue),
            BramaTokenType::Operator(BramaOperatorType::Assign),
        ]
    );
}

#[test]
fn unknown_characters_are_refused() {
    assert_eq!(scan_error("a # b"), ("Char not valid".to_string(), 0, 2));
    assert_eq!(scan_error("@"), ("Char not valid".to_string(), 0, 0));
}

#[test]
fn blanks_and_line_breaks() {
    assert_eq!(kinds("   "), vec![BramaTokenType::WhiteSpace(3)]);
    assert_eq!(kinds(" \t\r"), vec![BramaTokenType::WhiteSpace(3)]);
    assert_eq!(kinds("\n"), vec![BramaTokenType::NewLine(0)]);
    assert_eq!(kinds("\n    "), vec![BramaTokenType::NewLine(4)]);
    assert_eq!(
        kinds("\n\n  a"),
        vec![
            BramaTokenType::NewLine(0),
            BramaTokenType::NewLine(2),
            BramaTokenType::Symbol("a".to_string()),
        ]
    );
    let long: String = " ".repeat(300);
    assert_eq!(
        kinds(&long),
        vec![BramaTokenType::WhiteSpace(255), BramaTokenType::WhiteSpace(45)]
    );
}

#[test]
fn comments_are_tokens_until_they_are_filtered() {
    let tokens = scan("a // the rest\nb /* in\nside */ c");
    let all: Vec<BramaTokenType> = tokens.iter().map(|token| token.token_type.clone()).collect();
    assert_eq!(
        all,
        vec![
            BramaTokenType::Symbol("a".to_string()),
            BramaTokenType::WhiteSpace(1),
            BramaTokenType::Operator(BramaOperatorType::CommentLine),
            BramaTokenType::NewLine(0),
            BramaTokenType::Symbol("b".to_string()),
            BramaTokenType::WhiteSpace(1),
            BramaTokenType::Operator(BramaOperatorType::CommentMultilineStart),
            BramaTokenType::WhiteSpace(1),
            BramaTokenType::Symbol("c".to_string()),
        ]
    );
    let kept: Vec<BramaTokenType> =
        filter_comments(&tokens).into_iter().map(|token| token.token_type).collect();
    assert_eq!(
        kept,
        vec![
            BramaTokenType::Symbol("a".to_string()),
            BramaTokenType::WhiteSpace(1),
            BramaTokenType::NewLine(0),
            BramaTokenType::Symbol("b".to_string()),
            BramaTokenType::WhiteSpace(1),
            BramaTokenType::WhiteSpace(1),
            BramaTokenType::Symbol("c".to_string()),
        ]
    );
    // the line after a comment that holds a line break is counted
    assert_eq!((tokens[8].line, tokens[8].column), (2, 8));
}

#[test]
fn an_open_comment_is_refused_at_its_start() {
    assert_eq!(scan_error("a /* never closed"), ("Comment not closed".to_string(), 0, 2));
    assert_eq!(kinds("/**/"), vec![BramaTokenType::Operator(BramaOperatorType::CommentMultilineStart)]);
    assert_eq!(scan_error("/*/"), ("Comment not closed".to_string(), 0, 0));
}

#[test]
fn tokens_carry_the_place_of_their_first_character() {
    let tokens = scan("ab = 12\n  c(ş, 'x')");
    let places: Vec<(u32, u32)> = tokens.iter().map(|token| (token.line, token.column)).collect();
    assert_eq!(
        places,
        vec![
            (0, 0),
            (0, 2),
            (0, 3),
            (0, 4),
            (0, 5),
            (0, 7),
            (1, 2),
            (1, 3),
            (1, 4),
            (1, 5),
            (1, 6),
            (1, 7),
            (1, 10),
        ]
    );
}

#[test]
fn a_failed_scan_keeps_the_tokens_before_the_failure() {
    let mut parser = Parser::new("a = #");
    assert_eq!(parser.parse(), Err(("Char not valid".to_string(), 0, 4)));
    assert_eq!(parser.tokens().len(), 4);
}

fn meaningful(code: &str) -> Vec<BramaTokenType> {
    kinds(code)
        .into_iter()
        .filter(|kind| {
            !matches!(
                kind,
                BramaTokenType::WhiteSpace(_)
                    | BramaTokenType::NewLine(_)
                    | BramaTokenType::Operator(BramaOperatorType::CommentLine)
                    | BramaTokenType::Operator(BramaOperatorType::CommentMultilineStart)
            )
        })
        .collect()
}

#[test]
fn tokens_are_spelled_with_a_blank_behind_each() {
    let tokens = scan("toplam = (alt + 0x1F) * 2.50 >= 'a\\b\"c' && !doğru // son\n  x");
    assert_eq!(spell(&tokens), "toplam = ( alt + 31 ) * 2.50 >= \"a\\b\\\"c\" && ! true x ");
    assert_eq!(spell(&vec![]), "");
    assert_eq!(spell(&scan(" \n /* */ ")), "");
}

#[test]
fn scanning_the_spelling_of_tokens_gives_the_tokens_again() {
    let programs = [
        "toplam = (alt + 0x1F) * 2.50 >= 'a\\'b' && !doğru",
        "boyut = ['erhan', 'barış', 1, doğru].uzunluk()\ngç::satıryaz(boyut)",
        "a=== b!==c>>>d++ --e+=1-=2*=3/=4%=5==6!=7&&8||9<<10>>11>=12<=13&=14|=15^=16",
        "+-*/%=!&|~^><?:()[],;.{}",
        "x = \"çift \\\" tırnak\" + 'tek \\' tırnak' + 'ters \\ bölü' + '\"'",
        "0 00 08 0.5 08.25 9223372036854775807 0b1 017 yanlış false true _a $b",
        "// yalnız yorum",
        "",
        "a /* b */ c // d\n e",
    ];
    for program in programs {
        let first = scan(program);
        let spelled = spell(&first);
        let second = scan(&spelled);
        assert_eq!(meaningful(program), meaningful(&spelled), "{}", program);
        // spelling what was spelled changes nothing any more
        assert_eq!(spell(&second), spelled, "{}", program);
    }
}
