use std::sync::Arc;

use karamel::compiler::ast::BramaAstType;
use karamel::compiler::context::KaramelCompilerContext;
use karamel::compiler::generator::init_list::InitListGenerator;
use karamel::compiler::generator::DumpBuilder;
use karamel::compiler::generator::OpcodeGeneratorTrait;
use karamel::compiler::static_storage::StaticStorage;
use karamel::compiler::value::BramaPrimative;
use karamel::compiler::InterpreterCompiler;
use karamel::compiler::VmOpCode;
use karamel::parser::filter_comments;
use karamel::parser::Parser;
use karamel::syntax::SyntaxParser;
use karamel::types::BramaOperatorType;

const HALT: u8 = 0;
const LOAD: u8 = 1;
const STORE: u8 = 2;
const ADDITION: u8 = 3;
const MULTIPLY: u8 = 5;
const EQUAL: u8 = 8;
const NOT: u8 = 14;
const NEGATE: u8 = 15;
const JUMP: u8 = 16;
const COMPARE: u8 = 17;
const INIT_LIST: u8 = 18;
const CALL: u8 = 19;
const CALL_METHOD: u8 = 20;
const POP: u8 = 21;

fn tree_of(code: &str) -> BramaAstType {
    let mut parser = Parser::new(code);
    assert_eq!(parser.parse(), Ok(()));
    let mut syntax = SyntaxParser::new(filter_comments(&parser.tokens()));
    syntax.parse().expect("tree")
}

fn compile(code: &str) -> Result<KaramelCompilerContext, (&'static str, u32, u32)> {
    let mut context = KaramelCompilerContext::new();
    let compiler = InterpreterCompiler {};
    compiler.compile(&tree_of(code), &mut context).map(|_| context)
}

fn memory(context: &KaramelCompilerContext) -> Vec<BramaPrimative> {
    context.storages[0].memory.iter().map(|object| (*object.value).clone()).collect()
}

#[test]
fn an_assignment_of_an_expression() {
    let context = compile("sonuc = 1+2*3").expect("code");
    assert_eq!(
        context.opcodes,
        vec![LOAD, 0, 0, LOAD, 0, 1, LOAD, 0, 2, MULTIPLY, ADDITION, STORE, 0, 3, HALT]
    );
    assert_eq!(
        memory(&context),
        vec![
            BramaPrimative::Integer(1),
            BramaPrimative::Integer(2),
            BramaPrimative::Integer(3),
            BramaPrimative::Empty,
        ]
    );
    assert_eq!(context.storages[0].get_variable_location("sonuc"), Some(3));
    assert_eq!(context.storages[0].get_constant_size(), 3);
    assert_eq!(context.storages[0].get_temp_size(), 0);
}

#[test]
fn a_literal_that_occurs_twice_has_one_slot() {
    let context = compile("a = 5\nb = 5 + 5").expect("code");
    assert_eq!(
        memory(&context),
        vec![BramaPrimative::Integer(5), BramaPrimative::Empty, BramaPrimative::Empty]
    );
    assert_eq!(
        context.opcodes,
        vec![LOAD, 0, 0, STORE, 0, 1, LOAD, 0, 0, LOAD, 0, 0, ADDITION, STORE, 0, 2, HALT]
    );
}

#[test]
fn a_statement_that_leaves_a_value_is_followed_by_a_pop() {
    let context = compile("1\n-2 == 3\n!doğru").expect("code");
    assert_eq!(
        context.opcodes,
        vec![
            LOAD, 0, 0, POP, LOAD, 0, 1, NEGATE, LOAD, 0, 2, EQUAL, POP, LOAD, 0, 3, NOT, POP, HALT
        ]
    );
}

#[test]
fn a_list_pushes_its_items_and_counts_them() {
    let context = compile("x = ['a', 'b', 1]").expect("code");
    assert_eq!(
        context.opcodes,
        vec![LOAD, 0, 0, LOAD, 0, 1, LOAD, 0, 2, INIT_LIST, 3, STORE, 0, 3, HALT]
    );
}

#[test]
fn a_call_whose_value_is_not_used() {
    let context = compile("gç::satıryaz(1, 2)").expect("code");
    assert_eq!(context.opcodes, vec![LOAD, 0, 1, LOAD, 0, 2, CALL, 0, 2, 0, 0, HALT]);
    assert_eq!(context.storages[0].get_temp_size(), 0);
    assert!(matches!(memory(&context)[0], BramaPrimative::Function(_)));
}

#[test]
fn a_call_whose_value_is_used_lives_in_a_temporary_slot() {
    let context = compile("x = gç::biçimlendir(1) + gç::biçimlendir(2)").expect("code");
    // memory: function, 1, 2, x, two temporary slots
    assert_eq!(memory(&context).len(), 6);
    assert_eq!(context.storages[0].get_temp_size(), 2);
    assert_eq!(
        context.opcodes,
        vec![
            LOAD, 0, 1, CALL, 0, 1, 1, 4, LOAD, 0, 4, LOAD, 0, 2, CALL, 0, 1, 1, 5, LOAD, 0, 5,
            ADDITION, STORE, 0, 3, HALT
        ]
    );
}

#[test]
fn a_method_call_puts_the_value_under_the_arguments() {
    let context = compile("boyut = [7].uzunluk()").expect("code");
    // memory: 7, "uzunluk", boyut, one temporary slot
    assert_eq!(
        memory(&context),
        vec![
            BramaPrimative::Integer(7),
            BramaPrimative::Text("uzunluk".to_string()),
            BramaPrimative::Empty,
            BramaPrimative::Empty,
        ]
    );
    assert_eq!(
        context.opcodes,
        vec![LOAD, 0, 0, INIT_LIST, 1, CALL_METHOD, 1, 0, 1, 3, LOAD, 0, 3, STORE, 0, 2, HALT]
    );
}

#[test]
fn and_jumps_over_its_right_side() {
    let context = compile("x = 1 && 2").expect("code");
    // memory: 1, 2, yanlış, x
    assert_eq!(
        context.opcodes,
        vec![
            LOAD, 0, 0, COMPARE, 0, 8, LOAD, 0, 1, NOT, NOT, JUMP, 0, 3, LOAD, 0, 2, STORE, 0, 3,
            HALT
        ]
    );
    assert_eq!(memory(&context)[2], BramaPrimative::Bool(false));
}

#[test]
fn or_jumps_over_its_right_side() {
    let context = compile("x = 1 || 2").expect("code");
    assert_eq!(
        context.opcodes,
        vec![
            LOAD, 0, 0, NOT, COMPARE, 0, 8, LOAD, 0, 1, NOT, NOT, JUMP, 0, 3, LOAD, 0, 2, STORE, 0,
            3, HALT
        ]
    );
    assert_eq!(memory(&context)[2], BramaPrimative::Bool(true));
}

#[test]
fn a_name_that_is_not_declared_is_refused_at_its_token() {
    assert_eq!(compile("a = 1\nb = a + tanımsız").err(), Some(("Variable not found", 1, 8)));
    assert_eq!(compile("gç::yaz(x)").err(), Some(("Variable not found", 0, 8)));
    assert_eq!(compile("x").err(), Some(("Variable not found", 0, 0)));
}

#[test]
fn a_name_that_is_assigned_anywhere_is_declared() {
    let context = compile("gç::yaz(x)\nx = 1").expect("code");
    assert_eq!(context.storages[0].get_variable_location("x"), Some(2));
}

#[test]
fn a_function_that_no_module_has_is_refused_at_its_token() {
    assert_eq!(compile("a = 1\n  gü::yaz(1)").err(), Some(("Function not found", 1, 2)));
    assert_eq!(compile("yaz(1)").err(), Some(("Function not found", 0, 0)));
    assert_eq!(compile("x = 1 + gç::sil()").err(), Some(("Function not found", 0, 8)));
}

#[test]
fn operators_that_the_machine_does_not_have_are_refused() {
    let mut context = KaramelCompilerContext::new();
    let compiler = InterpreterCompiler {};
    let tree = BramaAstType::Binary {
        left: Box::new(BramaAstType::Primative(Arc::new(BramaPrimative::Integer(1)))),
        operator: BramaOperatorType::BitwiseAnd,
        right: Box::new(BramaAstType::Primative(Arc::new(BramaPrimative::Integer(2)))),
    };
    assert_eq!(compiler.compile(&tree, &mut context), Err(("Unsupported operator", 0, 0)));
    assert_eq!(context.opcodes.len(), 0);
}

#[test]
fn a_scope_is_compiled_once() {
    let mut context = compile("a = 1").expect("code");
    let before = context.opcodes.clone();
    let compiler = InterpreterCompiler {};
    assert_eq!(
        compiler.compile(&tree_of("b = 2"), &mut context),
        Err(("Scope is laid out already", 0, 0))
    );
    assert_eq!(context.opcodes, before);
    context.storage_index = 3;
    assert_eq!(compiler.compile(&tree_of("b = 2"), &mut context), Err(("Scope not found", 0, 0)));
}

#[test]
fn more_values_than_one_byte_can_address_are_refused() {
    let code: String = (0..300).map(|number| format!("v{} = {}\n", number, number)).collect();
    assert_eq!(compile(&code).err(), Some(("Too many values", 0, 0)));
    let code: String = (0..120).map(|number| format!("v{} = {}\n", number, number)).collect();
    assert!(compile(&code).is_ok());
}

#[test]
fn names_are_found_through_the_enclosing_scopes() {
    let mut context = KaramelCompilerContext::new();
    context.storages[0].add_variable("dış");
    context.storages[0].add_variable("ikisi");
    context.storages[0].build();
    let mut inner = StaticStorage::new();
    inner.set_parent_location(0);
    inner.add_variable("ikisi");
    inner.add_variable("iç");
    inner.add_constant(Arc::new(BramaPrimative::Integer(1)));
    inner.build();
    context.storages.push(inner);
    let mut innermost = StaticStorage::new();
    innermost.set_parent_location(1);
    context.storages.push(innermost);

    assert_eq!(context.find_variable(0, "dış"), Some((0, 0)));
    assert_eq!(context.find_variable(1, "dış"), Some((0, 0)));
    assert_eq!(context.find_variable(2, "dış"), Some((0, 0)));
    assert_eq!(context.find_variable(1, "iç"), Some((1, 2)));
    assert_eq!(context.find_variable(2, "iç"), Some((1, 2)));
    assert_eq!(context.find_variable(0, "iç"), None);
    assert_eq!(context.find_variable(0, "ikisi"), Some((0, 1)));
    assert_eq!(context.find_variable(1, "ikisi"), Some((1, 1)));
    assert_eq!(context.find_variable(2, "ikisi"), Some((1, 1)));
    assert_eq!(context.find_variable(2, "hiç"), None);
    assert_eq!(context.find_variable(3, "dış"), None);
}

#[test]
fn a_scope_that_is_its_own_parent_ends_the_search() {
    let mut context = KaramelCompilerContext::new();
    context.storages[0].set_parent_location(0);
    assert_eq!(context.find_variable(0, "a"), None);
    context.storages[0].set_parent_location(5);
    assert_eq!(context.find_variable(0, "a"), None);
}

#[test]
fn code_in_an_inner_scope_reads_the_outer_scope() {
    let mut context = KaramelCompilerContext::new();
    context.storages[0].add_variable("dış");
    context.storages[0].build();
    let mut inner = StaticStorage::new();
    inner.set_parent_location(0);
    context.storages.push(inner);
    context.storage_index = 1;
    let compiler = InterpreterCompiler {};
    assert_eq!(compiler.compile(&tree_of("iç = dış"), &mut context), Ok(()));
    assert_eq!(context.opcodes, vec![LOAD, 0, 0, STORE, 1, 0, HALT]);

    let mut context = KaramelCompilerContext::new();
    context.storages[0].add_variable("dış");
    let mut inner = StaticStorage::new();
    inner.set_parent_location(0);
    inner.add_variable("iç");
    context.storages.push(inner);
    assert_eq!(compiler.compile(&tree_of("dış = iç"), &mut context), Err(("Variable not found", 0, 6)));
}

#[test]
fn the_generator_of_list_instructions() {
    let generator = InitListGenerator { argument_size: 4 };
    let mut opcodes = vec![9];
    generator.generate(&mut opcodes);
    assert_eq!(opcodes, vec![9, INIT_LIST, 4]);
    let wide = InitListGenerator { argument_size: 258 };
    wide.generate(&mut opcodes);
    assert_eq!(opcodes, vec![9, INIT_LIST, 4, INIT_LIST, 2]);

    let mut builder = DumpBuilder::new();
    let mut index: usize = 10;
    generator.dump(&mut builder, &mut index, &opcodes);
    wide.dump(&mut builder, &mut index, &opcodes);
    assert_eq!(index, 14);
    assert_eq!(builder.rows.len(), 2);
    assert_eq!(builder.rows[0].index, 10);
    assert_eq!(builder.rows[0].opcode, VmOpCode::InitList);
    assert_eq!(builder.rows[0].column1, "4");
    assert_eq!(builder.rows[0].column2, "");
    assert_eq!(builder.rows[0].column3, "");
    assert_eq!(builder.rows[1].index, 12);
    assert_eq!(builder.rows[1].column1, "258");
}
