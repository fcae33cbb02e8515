use std::rc::Rc;
use std::sync::Arc;

use karamel::compiler::function::FunctionReference;
use karamel::compiler::function::NativeCall;
use karamel::compiler::value::empty_object;
use karamel::compiler::value::positive_spelling;
use karamel::compiler::value::BramaPrimative;
use karamel::compiler::value::ClassReference;
use karamel::compiler::value::VmObject;
use karamel::compiler::VmOpCode;
use karamel::text::char_or_null;
use karamel::text::copy_text;
use karamel::text::push_integer;
use karamel::text::push_natural;
use karamel::text::push_padded;
use karamel::text::push_right_aligned;
use karamel::text::same_text;
use karamel::text::same_texts;
use karamel::text::trim_text;
use karamel::vm::arithmetic::execute_binary;
use karamel::vm::arithmetic::execute_unary;
use karamel::vm::arithmetic::order_texts;
use karamel::vm::arithmetic::order_values;
use karamel::vm::arithmetic::Evaluation;

fn integer(value: i64) -> VmObject {
    VmObject::from(BramaPrimative::Integer(value))
}

fn text(value: &str) -> VmObject {
    VmObject::from(BramaPrimative::Text(value.to_string()))
}

fn double(value: &str) -> VmObject {
    VmObject::from(BramaPrimative::Double(value.to_string()))
}

fn boolean(value: bool) -> VmObject {
    VmObject::from(BramaPrimative::Bool(value))
}

fn list(items: Vec<VmObject>) -> VmObject {
    VmObject::from(BramaPrimative::List(items))
}

fn function(name: &str) -> VmObject {
    VmObject::from(BramaPrimative::Function(Rc::new(FunctionReference {
        name: name.to_string(),
        path: vec!["gç".to_string()],
        framework: "gç".to_string(),
        callback: NativeCall::Print,
    })))
}

fn rendered(value: &VmObject, quoted: bool) -> String {
    let mut out = String::from(">");
    value.value.render(quoted, &mut out);
    out
}

fn value_of(result: Evaluation) -> BramaPrimative {
    match result {
        Evaluation::Value(value) => (*value.value).clone(),
        Evaluation::Fault(message) => panic!("fault: {}", message),
        Evaluation::Host => panic!("the host is asked"),
    }
}

fn fault_of(result: Evaluation) -> &'static str {
    match result {
        Evaluation::Fault(message) => message,
        _ => panic!("no fault"),
    }
}

#[test]
fn integers_are_spelled_in_decimal() {
    let mut out = String::new();
    push_natural(&mut out, 0);
    push_natural(&mut out, 7);
    push_natural(&mut out, 1203);
    push_natural(&mut out, u64::MAX);
    assert_eq!(out, "07120318446744073709551615");
    let mut out = String::from("x");
    push_integer(&mut out, -45);
    push_integer(&mut out, 0);
    push_integer(&mut out, i64::MIN);
    push_integer(&mut out, i64::MAX);
    assert_eq!(out, "x-450-92233720368547758089223372036854775807");
}

#[test]
fn padding() {
    let mut out = String::new();
    push_padded(&mut out, "ab", 4);
    out.push('|');
    push_padded(&mut out, "abcd", 4);
    out.push('|');
    push_padded(&mut out, "abcde", 4);
    out.push('|');
    push_right_aligned(&mut out, "7", 3);
    out.push('|');
    push_right_aligned(&mut out, "1234", 3);
    out.push('|');
    push_padded(&mut out, "ğş", 3);
    assert_eq!(out, "ab  |abcd|abcde|  7|1234|ğş ");
}

#[test]
fn text_helpers() {
    assert_eq!(char_or_null("aş", 1), 'ş');
    assert_eq!(char_or_null("aş", 2), '\0');
    assert_eq!(copy_text("gç"), "gç".to_string());
    let a = vec!["x".to_string(), "y".to_string()];
    assert!(same_texts(&a, &vec!["x".to_string(), "y".to_string()]));
    assert!(!same_texts(&a, &vec!["x".to_string()]));
    assert!(!same_texts(&a, &vec!["x".to_string(), "z".to_string()]));
    assert!(same_texts(&vec![], &vec![]));
    assert!(same_text("gç", "gç"));
    assert!(!same_text("gç", "gc"));
    assert!(same_text("", ""));
    assert_eq!(trim_text("  a b \r\n"), "a b");
    assert_eq!(trim_text("ab"), "ab");
    assert_eq!(trim_text("   "), "");
}

#[test]
fn values_are_equal_when_they_are_the_same_tree() {
    assert!(integer(1).value.equals(&integer(1).value));
    assert!(!integer(1).value.equals(&integer(2).value));
    assert!(!integer(1).value.equals(&double("1").value));
    assert!(!integer(1).value.equals(&text("1").value));
    assert!(text("a").value.equals(&text("a").value));
    assert!(!text("a").value.equals(&text("b").value));
    assert!(double("1.5").value.equals(&double("1.5").value));
    assert!(!double("1.5").value.equals(&double("1.50").value));
    assert!(empty_object().value.equals(&empty_object().value));
    assert!(boolean(true).value.equals(&boolean(true).value));
    assert!(!boolean(true).value.equals(&boolean(false).value));
    let a = list(vec![integer(1), list(vec![text("x")])]);
    let b = list(vec![integer(1), list(vec![text("x")])]);
    let c = list(vec![integer(1), list(vec![text("y")])]);
    let d = list(vec![integer(1)]);
    assert!(a.value.equals(&b.value));
    assert!(!a.value.equals(&c.value));
    assert!(!a.value.equals(&d.value));
    assert!(function("yaz").value.equals(&function("yaz").value));
    assert!(!function("yaz").value.equals(&function("oku").value));
    let class = |name: &str| VmObject::from(BramaPrimative::Class(ClassReference { name: name.to_string() }));
    assert!(class("a").value.equals(&class("a").value));
    assert!(!class("a").value.equals(&class("b").value));
}

#[test]
fn shared_values_are_the_same_value() {
    let value = Arc::new(BramaPrimative::Text("shared".to_string()));
    let object = VmObject::convert(value.clone());
    assert!(Arc::ptr_eq(&object.deref(), &value));
    assert!(Arc::ptr_eq(&object.copy().value, &value));
    assert_eq!(object.copy(), object);
}

#[test]
fn truth() {
    assert!(!empty_object().value.is_true());
    assert!(boolean(true).value.is_true());
    assert!(!boolean(false).value.is_true());
    assert!(integer(1).value.is_true());
    assert!(!integer(0).value.is_true());
    assert!(!integer(-1).value.is_true());
    assert!(text("a").value.is_true());
    assert!(!text("").value.is_true());
    assert!(list(vec![integer(0)]).value.is_true());
    assert!(!list(vec![]).value.is_true());
    assert!(function("f").value.is_true());
    assert!(double("0.5").value.is_true());
    assert!(!double("0.0").value.is_true());
    assert!(!double("-1.5").value.is_true());
}

#[test]
fn spellings_above_zero() {
    assert!(positive_spelling("inf"));
    assert!(positive_spelling("1"));
    assert!(positive_spelling("0.001"));
    assert!(positive_spelling("1e-7"));
    assert!(!positive_spelling("0e5"));
    assert!(!positive_spelling("0"));
    assert!(!positive_spelling("-inf"));
    assert!(!positive_spelling("NaN"));
    assert!(!positive_spelling(""));
    assert!(!positive_spelling("-3"));
}

#[test]
fn values_are_written_out() {
    assert_eq!(rendered(&empty_object(), false), ">boş");
    assert_eq!(rendered(&boolean(true), false), ">doğru");
    assert_eq!(rendered(&boolean(false), true), ">yanlış");
    assert_eq!(rendered(&integer(-12), false), ">-12");
    assert_eq!(rendered(&double("2.50"), false), ">2.50");
    assert_eq!(rendered(&text("ab"), false), ">ab");
    assert_eq!(rendered(&text("ab"), true), ">\"ab\"");
    assert_eq!(rendered(&list(vec![]), false), ">[]");
    assert_eq!(
        rendered(&list(vec![integer(1), text("x"), list(vec![boolean(true)])]), false),
        ">[1, \"x\", [doğru]]"
    );
    assert_eq!(rendered(&function("yaz"), false), "><Fonksiyon='yaz'>");
    assert_eq!(
        rendered(&VmObject::from(BramaPrimative::Class(ClassReference { name: "liste".to_string() })), true),
        "><Sınıf='liste'>"
    );
}

#[test]
fn integer_arithmetic() {
    let run = |opcode, a: i64, b: i64| value_of(execute_binary(opcode, &integer(a), &integer(b)));
    assert_eq!(run(VmOpCode::Addition, 2, 3), BramaPrimative::Integer(5));
    assert_eq!(run(VmOpCode::Subraction, 2, 3), BramaPrimative::Integer(-1));
    assert_eq!(run(VmOpCode::Multiply, -4, 3), BramaPrimative::Integer(-12));
    assert_eq!(run(VmOpCode::Division, 12, 3), BramaPrimative::Integer(4));
    assert_eq!(run(VmOpCode::Division, -12, 3), BramaPrimative::Integer(-4));
    assert_eq!(run(VmOpCode::Division, -12, -3), BramaPrimative::Integer(4));
    assert_eq!(run(VmOpCode::Division, i64::MIN, 1), BramaPrimative::Integer(i64::MIN));
    assert_eq!(run(VmOpCode::Module, 7, 4), BramaPrimative::Integer(3));
    assert_eq!(run(VmOpCode::Module, -7, 4), BramaPrimative::Integer(-3));
    assert_eq!(run(VmOpCode::Module, 7, -4), BramaPrimative::Integer(3));
    assert_eq!(run(VmOpCode::Module, -7, -4), BramaPrimative::Integer(-3));
    assert_eq!(run(VmOpCode::Module, i64::MIN, -1), BramaPrimative::Integer(0));
}

#[test]
fn integer_arithmetic_faults() {
    let fault = |opcode, a: i64, b: i64| fault_of(execute_binary(opcode, &integer(a), &integer(b)));
    assert_eq!(fault(VmOpCode::Addition, i64::MAX, 1), "Integer overflow");
    assert_eq!(fault(VmOpCode::Subraction, i64::MIN, 1), "Integer overflow");
    assert_eq!(fault(VmOpCode::Multiply, i64::MAX, 2), "Integer overflow");
    assert_eq!(fault(VmOpCode::Division, i64::MIN, -1), "Integer overflow");
    assert_eq!(fault(VmOpCode::Division, 1, 0), "Division by zero");
    assert_eq!(fault(VmOpCode::Module, 1, 0), "Division by zero");
    assert_eq!(fault_of(execute_binary(VmOpCode::Addition, &integer(1), &text("a"))), "Invalid operands");
    assert_eq!(fault_of(execute_binary(VmOpCode::Multiply, &text("a"), &text("b"))), "Invalid operands");
    assert_eq!(fault_of(execute_binary(VmOpCode::Load, &integer(1), &integer(1))), "Invalid operator");
    assert_eq!(fault_of(execute_unary(VmOpCode::Negate, &integer(i64::MIN))), "Integer overflow");
    assert_eq!(fault_of(execute_unary(VmOpCode::Negate, &text("a"))), "Invalid operands");
    assert_eq!(fault_of(execute_unary(VmOpCode::Addition, &integer(1))), "Invalid operator");
}

#[test]
fn texts_are_joined() {
    assert_eq!(
        value_of(execute_binary(VmOpCode::Addition, &text("ab"), &text("cd"))),
        BramaPrimative::Text("abcd".to_string())
    );
}

#[test]
fn fractions_are_the_work_of_the_host() {
    assert!(matches!(execute_binary(VmOpCode::Addition, &integer(1), &double("1.5")), Evaluation::Host));
    assert!(matches!(execute_binary(VmOpCode::Multiply, &double("1.5"), &double("1.5")), Evaluation::Host));
    assert!(matches!(execute_binary(VmOpCode::Equal, &double("1.5"), &integer(1)), Evaluation::Host));
    assert!(matches!(execute_binary(VmOpCode::LessThan, &double("1.5"), &integer(1)), Evaluation::Host));
    assert!(matches!(execute_binary(VmOpCode::Division, &integer(7), &integer(2)), Evaluation::Host));
    assert!(matches!(execute_unary(VmOpCode::Negate, &double("1.5")), Evaluation::Host));
    assert_eq!(
        value_of(execute_binary(VmOpCode::Equal, &double("1.5"), &text("1.5"))),
        BramaPrimative::Bool(false)
    );
    assert_eq!(value_of(execute_unary(VmOpCode::Not, &double("1.5"))), BramaPrimative::Bool(false));
}

#[test]
fn comparisons() {
    let run = |opcode, a: &VmObject, b: &VmObject| value_of(execute_binary(opcode, a, b));
    assert_eq!(run(VmOpCode::Equal, &integer(1), &integer(1)), BramaPrimative::Bool(true));
    assert_eq!(run(VmOpCode::NotEqual, &integer(1), &integer(1)), BramaPrimative::Bool(false));
    assert_eq!(run(VmOpCode::Equal, &integer(1), &text("1")), BramaPrimative::Bool(false));
    assert_eq!(run(VmOpCode::GreaterThan, &integer(2), &integer(1)), BramaPrimative::Bool(true));
    assert_eq!(run(VmOpCode::GreaterThan, &integer(1), &integer(1)), BramaPrimative::Bool(false));
    assert_eq!(run(VmOpCode::GreaterEqualThan, &integer(1), &integer(1)), BramaPrimative::Bool(true));
    assert_eq!(run(VmOpCode::LessThan, &integer(-1), &integer(1)), BramaPrimative::Bool(true));
    assert_eq!(run(VmOpCode::LessEqualThan, &integer(2), &integer(1)), BramaPrimative::Bool(false));
    assert_eq!(run(VmOpCode::LessThan, &text("ab"), &text("b")), BramaPrimative::Bool(true));
    assert_eq!(run(VmOpCode::LessThan, &boolean(true), &integer(0)), BramaPrimative::Bool(true));
    assert_eq!(run(VmOpCode::GreaterThan, &text(""), &integer(100)), BramaPrimative::Bool(true));
}

#[test]
fn the_order_of_values() {
    assert_eq!(order_texts("", ""), 0);
    assert_eq!(order_texts("a", ""), 1);
    assert_eq!(order_texts("", "a"), -1);
    assert_eq!(order_texts("ab", "ac"), -1);
    assert_eq!(order_texts("ab", "abc"), -1);
    assert_eq!(order_texts("b", "abc"), 1);
    assert_eq!(order_texts("ş", "z"), 1);
    let order = |a: &VmObject, b: &VmObject| order_values(&a.value, &b.value);
    assert_eq!(order(&empty_object(), &boolean(false)), -1);
    assert_eq!(order(&boolean(false), &boolean(true)), -1);
    assert_eq!(order(&boolean(true), &boolean(true)), 0);
    assert_eq!(order(&integer(5), &double("1.0")), -1);
    assert_eq!(order(&double("1.0"), &text("")), -1);
    assert_eq!(order(&text("z"), &list(vec![])), -1);
    assert_eq!(order(&list(vec![]), &function("a")), -1);
    assert_eq!(order(&list(vec![integer(1), integer(2)]), &list(vec![integer(1), integer(3)])), -1);
    assert_eq!(order(&list(vec![integer(1), integer(2)]), &list(vec![integer(1)])), 1);
    assert_eq!(order(&list(vec![integer(1)]), &list(vec![integer(1)])), 0);
    assert_eq!(order(&list(vec![list(vec![integer(2)])]), &list(vec![list(vec![integer(1)])])), 1);
    assert_eq!(order(&function("a"), &function("b")), -1);
    assert_eq!(order(&integer(3), &integer(-3)), 1);
}

#[test]
fn not_and_negate() {
    assert_eq!(value_of(execute_unary(VmOpCode::Not, &integer(0))), BramaPrimative::Bool(true));
    assert_eq!(value_of(execute_unary(VmOpCode::Not, &text("a"))), BramaPrimative::Bool(false));
    assert_eq!(value_of(execute_unary(VmOpCode::Negate, &integer(5))), BramaPrimative::Integer(-5));
    assert_eq!(value_of(execute_unary(VmOpCode::Negate, &integer(0))), BramaPrimative::Integer(0));
}

#[test]
fn opcodes_and_bytes() {
    let all = [
        VmOpCode::Halt,
        VmOpCode::Load,
        VmOpCode::Store,
        VmOpCode::Addition,
        VmOpCode::Subraction,
        VmOpCode::Multiply,
        VmOpCode::Division,
        VmOpCode::Module,
        VmOpCode::Equal,
        VmOpCode::NotEqual,
        VmOpCode::GreaterThan,
        VmOpCode::GreaterEqualThan,
        VmOpCode::LessThan,
        VmOpCode::LessEqualThan,
        VmOpCode::Not,
        VmOpCode::Negate,
        VmOpCode::Jump,
        VmOpCode::Compare,
        VmOpCode::InitList,
        VmOpCode::Call,
        VmOpCode::CallMethod,
        VmOpCode::Pop,
    ];
    for (index, opcode) in all.iter().enumerate() {
        let byte: u8 = (*opcode).into();
        assert_eq!(byte as usize, index);
        assert_eq!(VmOpCode::from_byte(byte), Some(*opcode));
    }
    assert_eq!(VmOpCode::from_byte(22), None);
    assert_eq!(VmOpCode::from_byte(255), None);
}
