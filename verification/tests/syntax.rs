use std::sync::Arc;

use karamel::compiler::ast::BramaAstType;
use karamel::compiler::value::BramaPrimative;
use karamel::parser::filter_comments;
use karamel::parser::Parser;
use karamel::syntax::binary::parse_binary;
use karamel::syntax::binary::AddSubtractParser;
use karamel::syntax::binary::ModuloParser;
use karamel::syntax::binary::MultiplyDivideParser;
use karamel::syntax::control::parse_control;
use karamel::syntax::control::AndParser;
use karamel::syntax::control::ControlParser;
use karamel::syntax::control::EqualityParser;
use karamel::syntax::control::ExpressionParser;
use karamel::syntax::control::OrParser;
use karamel::syntax::primative::PrimativeParser;
use karamel::syntax::unary::UnaryParser;
use karamel::syntax::util::update_functions_for_temp_return;
use karamel::syntax::SyntaxFlag;
use karamel::syntax::SyntaxLevel;
use karamel::syntax::SyntaxParser;
use karamel::types::BramaOperatorType;

fn parser_of(code: &str) -> SyntaxParser {
    let mut parser = Parser::new(code);
    assert_eq!(parser.parse(), Ok(()));
    SyntaxParser::new(filter_comments(&parser.tokens()))
}

fn integer(value: i64) -> BramaAstType {
    BramaAstType::Primative(Arc::new(BramaPrimative::Integer(value)))
}

fn text(value: &str) -> BramaAstType {
    BramaAstType::Primative(Arc::new(BramaPrimative::Text(value.to_string())))
}

fn boolean(value: bool) -> BramaAstType {
    BramaAstType::Primative(Arc::new(BramaPrimative::Bool(value)))
}

fn symbol(name: &str, line: u32, column: u32) -> BramaAstType {
    BramaAstType::Symbol { name: name.to_string(), line, column }
}

fn binary(left: BramaAstType, operator: BramaOperatorType, right: BramaAstType) -> BramaAstType {
    BramaAstType::Binary { left: Box::new(left), operator, right: Box::new(right) }
}

fn control(left: BramaAstType, operator: BramaOperatorType, right: BramaAstType) -> BramaAstType {
    BramaAstType::Control { left: Box::new(left), operator, right: Box::new(right) }
}

fn call(names: &[&str], arguments: Vec<BramaAstType>, kept: bool, line: u32, column: u32) -> BramaAstType {
    BramaAstType::FuncCall {
        names: names.iter().map(|name| name.to_string()).collect(),
        arguments,
        assign_to_temp: kept,
        line,
        column,
    }
}

fn expression(code: &str) -> Result<BramaAstType, (&'static str, u32, u32)> {
    let mut parser = parser_of(code);
    ExpressionParser::parse(&mut parser)
}

fn program(code: &str) -> Result<BramaAstType, (&'static str, u32, u32)> {
    let mut parser = parser_of(code);
    parser.parse()
}

#[test]
fn multiplication_is_folded_before_addition() {
    assert_eq!(
        expression("1+2*3"),
        Ok(binary(
            integer(1),
            BramaOperatorType::Addition,
            binary(integer(2), BramaOperatorType::Multiplication, integer(3)),
        ))
    );
    assert_eq!(
        expression("(1+2)*3"),
        Ok(binary(
            binary(integer(1), BramaOperatorType::Addition, integer(2)),
            BramaOperatorType::Multiplication,
            integer(3),
        ))
    );
}

#[test]
fn chains_are_folded_from_the_left() {
    assert_eq!(
        expression("10-3-2"),
        Ok(binary(
            binary(integer(10), BramaOperatorType::Subtraction, integer(3)),
            BramaOperatorType::Subtraction,
            integer(2),
        ))
    );
    assert_eq!(
        expression("8 / 4 * 2"),
        Ok(binary(
            binary(integer(8), BramaOperatorType::Division, integer(4)),
            BramaOperatorType::Multiplication,
            integer(2),
        ))
    );
}

#[test]
fn modulo_binds_looser_than_multiplication() {
    assert_eq!(
        expression("7 % 2 * 3"),
        Ok(binary(
            integer(7),
            BramaOperatorType::Modulo,
            binary(integer(2), BramaOperatorType::Multiplication, integer(3)),
        ))
    );
    assert_eq!(
        expression("1 + 7 % 2"),
        Ok(binary(
            integer(1),
            BramaOperatorType::Addition,
            binary(integer(7), BramaOperatorType::Modulo, integer(2)),
        ))
    );
}

#[test]
fn the_ladder_of_comparisons_and_logic() {
    assert_eq!(
        expression("1 < 2 == doğru && 3 >= 4 || yanlış"),
        Ok(control(
            control(
                control(
                    control(integer(1), BramaOperatorType::LessThan, integer(2)),
                    BramaOperatorType::Equal,
                    boolean(true),
                ),
                BramaOperatorType::And,
                control(integer(3), BramaOperatorType::GreaterEqualThan, integer(4)),
            ),
            BramaOperatorType::Or,
            boolean(false),
        ))
    );
    assert_eq!(
        expression("1 + 2 > 2"),
        Ok(control(
            binary(integer(1), BramaOperatorType::Addition, integer(2)),
            BramaOperatorType::GreaterThan,
            integer(2),
        ))
    );
}

#[test]
fn each_level_reads_its_own_operators_only() {
    let mut parser = parser_of("1*2+3");
    assert_eq!(
        MultiplyDivideParser::parse(&mut parser),
        Ok(binary(integer(1), BramaOperatorType::Multiplication, integer(2)))
    );
    assert_eq!(parser.index, 3);

    let mut parser = parser_of("1%2+3");
    assert_eq!(
        ModuloParser::parse(&mut parser),
        Ok(binary(integer(1), BramaOperatorType::Modulo, integer(2)))
    );
    assert_eq!(parser.index, 3);

    let mut parser = parser_of("1+2<3");
    assert_eq!(
        AddSubtractParser::parse(&mut parser),
        Ok(binary(integer(1), BramaOperatorType::Addition, integer(2)))
    );
    assert_eq!(parser.index, 3);

    let mut parser = parser_of("1<2==3");
    assert_eq!(
        ControlParser::parse(&mut parser),
        Ok(control(integer(1), BramaOperatorType::LessThan, integer(2)))
    );
    assert_eq!(parser.index, 3);

    let mut parser = parser_of("1==2&&3");
    assert_eq!(
        EqualityParser::parse(&mut parser),
        Ok(control(integer(1), BramaOperatorType::Equal, integer(2)))
    );
    assert_eq!(parser.index, 3);

    let mut parser = parser_of("1&&2||3");
    assert_eq!(
        AndParser::parse(&mut parser),
        Ok(control(integer(1), BramaOperatorType::And, integer(2)))
    );
    assert_eq!(parser.index, 3);

    let mut parser = parser_of("1||2 3");
    assert_eq!(
        OrParser::parse(&mut parser),
        Ok(control(integer(1), BramaOperatorType::Or, integer(2)))
    );
    assert_eq!(parser.index, 3);
}

#[test]
fn parse_binary_takes_any_operators() {
    let mut parser = parser_of("1 , 2 , 3");
    let result = parse_binary(&mut parser, SyntaxLevel::Primative, &[BramaOperatorType::Comma]);
    assert_eq!(
        result,
        Ok(binary(
            binary(integer(1), BramaOperatorType::Comma, integer(2)),
            BramaOperatorType::Comma,
            integer(3),
        ))
    );
    assert_eq!(parser.index, 9);

    let mut parser = parser_of("1 ; 2");
    let result = parse_control(&mut parser, SyntaxLevel::Primative, &[BramaOperatorType::Semicolon]);
    assert_eq!(result, Ok(control(integer(1), BramaOperatorType::Semicolon, integer(2))));
}

#[test]
fn without_an_operator_the_cursor_goes_back_behind_the_operand() {
    let mut parser = parser_of("1   )");
    assert_eq!(AddSubtractParser::parse(&mut parser), Ok(integer(1)));
    assert_eq!(parser.index, 1);
    assert_eq!(parser.flags, SyntaxFlag::none());
}

#[test]
fn without_an_operand_there_is_no_chain() {
    let mut parser = parser_of("+ 1");
    assert_eq!(AddSubtractParser::parse(&mut parser), Ok(BramaAstType::Nothing));
    assert_eq!(parser.index, 0);
}

#[test]
fn a_missing_right_side_is_an_error_at_its_place() {
    assert_eq!(expression("1 +"), Err(("Right side of expression not found", 0, 2)));
    assert_eq!(expression("1 + * 2"), Err(("Right side of expression not found", 0, 4)));
    assert_eq!(expression("a\n&& )"), Ok(symbol("a", 0, 0)));
    assert_eq!(expression("a && )"), Err(("Right side of expression not found", 0, 5)));
}

#[test]
fn errors_of_the_right_side_pass_unchanged() {
    assert_eq!(expression("1 + (2"), Err(("Parentheses not closed", 0, 5)));
    assert_eq!(expression("1 * [2, 3"), Err(("List not closed", 0, 8)));
    assert_eq!(expression("1 - -"), Err(("Unary operand not found", 0, 4)));
    assert_eq!(expression("- 3"), Err(("Unary operand not found", 0, 1)));
}

#[test]
fn flags_are_restored_after_the_right_side() {
    let mut parser = parser_of("1 + gç::yaz(2) + (3");
    parser.flags = SyntaxFlag::none().with_assignment();
    assert_eq!(AddSubtractParser::parse(&mut parser), Err(("Parentheses not closed", 0, 18)));
    assert_eq!(parser.flags, SyntaxFlag::none().with_assignment());
}

#[test]
fn a_call_left_of_an_operator_is_marked_once() {
    let tree = expression("gç::biçimlendir(1) + 2 + 3").expect("tree");
    assert_eq!(
        tree,
        binary(
            binary(
                call(&["gç", "biçimlendir"], vec![integer(1)], true, 0, 0),
                BramaOperatorType::Addition,
                integer(2),
            ),
            BramaOperatorType::Addition,
            integer(3),
        )
    );
    // alone, the call is not marked
    assert_eq!(
        expression("gç::biçimlendir(1)"),
        Ok(call(&["gç", "biçimlendir"], vec![integer(1)], false, 0, 0))
    );
    // right of an operator it is read inside an expression
    assert_eq!(
        expression("2 * gç::biçimlendir(1)"),
        Ok(binary(
            integer(2),
            BramaOperatorType::Multiplication,
            call(&["gç", "biçimlendir"], vec![integer(1)], true, 0, 4),
        ))
    );
}

#[test]
fn marking_changes_calls_only() {
    let mut tree = call(&["a", "b"], vec![], false, 1, 2);
    update_functions_for_temp_return(&mut tree);
    assert_eq!(tree, call(&["a", "b"], vec![], true, 1, 2));
    update_functions_for_temp_return(&mut tree);
    assert_eq!(tree, call(&["a", "b"], vec![], true, 1, 2));

    let mut tree = BramaAstType::AccessorFuncCall {
        source: Box::new(call(&["a", "b"], vec![], false, 0, 0)),
        name: "uzunluk".to_string(),
        arguments: vec![call(&["c", "d"], vec![], false, 0, 0)],
        assign_to_temp: false,
        line: 0,
        column: 7,
    };
    update_functions_for_temp_return(&mut tree);
    assert_eq!(
        tree,
        BramaAstType::AccessorFuncCall {
            source: Box::new(call(&["a", "b"], vec![], true, 0, 0)),
            name: "uzunluk".to_string(),
            arguments: vec![call(&["c", "d"], vec![], false, 0, 0)],
            assign_to_temp: true,
            line: 0,
            column: 7,
        }
    );

    let mut tree = binary(call(&["a", "b"], vec![], false, 0, 0), BramaOperatorType::Addition, integer(1));
    update_functions_for_temp_return(&mut tree);
    assert_eq!(
        tree,
        binary(call(&["a", "b"], vec![], false, 0, 0), BramaOperatorType::Addition, integer(1))
    );
}

#[test]
fn operators_before_an_operand() {
    let mut parser = parser_of("-5");
    assert_eq!(
        UnaryParser::parse(&mut parser),
        Ok(BramaAstType::PrefixUnary(BramaOperatorType::Subtraction, Box::new(integer(5))))
    );
    assert_eq!(
        expression("!!a"),
        Ok(BramaAstType::PrefixUnary(
            BramaOperatorType::Not,
            Box::new(BramaAstType::PrefixUnary(BramaOperatorType::Not, Box::new(symbol("a", 0, 2)))),
        ))
    );
    assert_eq!(
        expression("2 - -3"),
        Ok(binary(
            integer(2),
            BramaOperatorType::Subtraction,
            BramaAstType::PrefixUnary(BramaOperatorType::Subtraction, Box::new(integer(3))),
        ))
    );
}

#[test]
fn atoms() {
    let mut parser = parser_of("12");
    assert_eq!(PrimativeParser::parse(&mut parser), Ok(integer(12)));
    assert_eq!(expression("'abc'"), Ok(text("abc")));
    assert_eq!(expression("yanlış"), Ok(boolean(false)));
    assert_eq!(
        expression("1.5"),
        Ok(BramaAstType::Primative(Arc::new(BramaPrimative::Double("1.5".to_string()))))
    );
    assert_eq!(expression("  x"), Ok(BramaAstType::Nothing));
    assert_eq!(expression("x"), Ok(symbol("x", 0, 0)));
    assert_eq!(expression(""), Ok(BramaAstType::Nothing));
    assert_eq!(expression(")"), Ok(BramaAstType::Nothing));
}

#[test]
fn lists() {
    assert_eq!(expression("[]"), Ok(BramaAstType::List(vec![])));
    assert_eq!(
        expression("[ 1 , 'a' ,doğru ]"),
        Ok(BramaAstType::List(vec![integer(1), text("a"), boolean(true)]))
    );
    assert_eq!(
        expression("[1, [2, 3]]"),
        Ok(BramaAstType::List(vec![integer(1), BramaAstType::List(vec![integer(2), integer(3)])]))
    );
    assert_eq!(expression("[1,]"), Ok(BramaAstType::List(vec![integer(1)])));
    assert_eq!(expression("[1 2]"), Err(("List not closed", 0, 3)));
    assert_eq!(expression("[,]"), Err(("Expression not found", 0, 1)));
    assert_eq!(expression("[1"), Err(("List not closed", 0, 1)));
}

#[test]
fn calls() {
    assert_eq!(
        expression("gç::satıryaz(boyut, 1 + 2)"),
        Ok(call(
            &["gç", "satıryaz"],
            vec![symbol("boyut", 0, 13), binary(integer(1), BramaOperatorType::Addition, integer(2))],
            false,
            0,
            0,
        ))
    );
    assert_eq!(expression("f()"), Ok(call(&["f"], vec![], false, 0, 0)));
    assert_eq!(
        expression("a::b::c(d::e())"),
        Ok(call(&["a", "b", "c"], vec![call(&["d", "e"], vec![], true, 0, 8)], false, 0, 0))
    );
    assert_eq!(expression("a::b"), Err(("Function call expected", 0, 3)));
    assert_eq!(expression("f(1"), Err(("Parentheses not closed", 0, 2)));
}

#[test]
fn method_calls() {
    assert_eq!(
        expression("[1].uzunluk()"),
        Ok(BramaAstType::AccessorFuncCall {
            source: Box::new(BramaAstType::List(vec![integer(1)])),
            name: "uzunluk".to_string(),
            arguments: vec![],
            assign_to_temp: false,
            line: 0,
            column: 4,
        })
    );
    assert_eq!(
        expression("f().a(1).b()"),
        Ok(BramaAstType::AccessorFuncCall {
            source: Box::new(BramaAstType::AccessorFuncCall {
                source: Box::new(call(&["f"], vec![], true, 0, 0)),
                name: "a".to_string(),
                arguments: vec![integer(1)],
                assign_to_temp: true,
                line: 0,
                column: 4,
            }),
            name: "b".to_string(),
            arguments: vec![],
            assign_to_temp: false,
            line: 0,
            column: 9,
        })
    );
}

#[test]
fn statements() {
    assert_eq!(
        program("a = 1\n\n  b = a + 2  \n"),
        Ok(BramaAstType::Block(vec![
            BramaAstType::Assignment {
                variable: "a".to_string(),
                operator: BramaOperatorType::Assign,
                expression: Box::new(integer(1)),
            },
            BramaAstType::Assignment {
                variable: "b".to_string(),
                operator: BramaOperatorType::Assign,
                expression: Box::new(binary(symbol("a", 2, 6), BramaOperatorType::Addition, integer(2))),
            },
        ]))
    );
    assert_eq!(program(""), Ok(BramaAstType::Block(vec![])));
    assert_eq!(program(" \n \n"), Ok(BramaAstType::Block(vec![])));
    assert_eq!(program("a == 1"), Ok(BramaAstType::Block(vec![control(
        symbol("a", 0, 0),
        BramaOperatorType::Equal,
        integer(1),
    )])));
}

#[test]
fn an_assignment_marks_the_call_that_it_stores() {
    assert_eq!(
        program("x = f()"),
        Ok(BramaAstType::Block(vec![BramaAstType::Assignment {
            variable: "x".to_string(),
            operator: BramaOperatorType::Assign,
            expression: Box::new(call(&["f"], vec![], true, 0, 4)),
        }]))
    );
}

#[test]
fn statement_errors() {
    assert_eq!(program("1 2"), Err(("Syntax error", 0, 2)));
    assert_eq!(program(")"), Err(("Syntax error", 0, 0)));
    assert_eq!(program("a = "), Err(("Expression not found", 0, 3)));
    assert_eq!(program("a = 1\nb = (2"), Err(("Parentheses not closed", 1, 5)));
    assert_eq!(program("()"), Err(("Expression not found", 0, 1)));
}

#[test]
fn cursor_helpers() {
    let mut parser = parser_of("  + 1");
    let mark = parser.backup();
    parser.cleanup_whitespaces();
    assert_eq!(parser.index, 1);
    assert_eq!(parser.match_operator(&[BramaOperatorType::Subtraction]), None);
    assert_eq!(parser.index, 1);
    assert_eq!(
        parser.match_operator(&[BramaOperatorType::Subtraction, BramaOperatorType::Addition]),
        Some(BramaOperatorType::Addition)
    );
    assert_eq!(parser.index, 2);
    parser.restore(mark);
    assert_eq!(parser.index, 0);
    assert_eq!(parser.position(), (0, 0));
    parser.index = 4;
    assert_eq!(parser.position(), (0, 4));
    assert_eq!(SyntaxParser::new(vec![]).position(), (0, 0));
}

#[test]
fn flags() {
    let none = SyntaxFlag::none();
    assert!(!none.is_value_kept());
    assert!(none.with_expression().is_value_kept());
    assert!(none.with_assignment().is_value_kept());
    assert!(none.with_function_arg().is_value_kept());
    assert_eq!(
        none.with_expression().with_assignment(),
        SyntaxFlag { in_expression: true, in_assignment: true, in_function_arg: false }
    );
}
