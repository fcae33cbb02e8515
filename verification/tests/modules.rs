use karamel::buildin::debug::DebugModule;
use karamel::buildin::io::IoModule;
use karamel::buildin::Module;
use karamel::compiler::context::is_path_of;
use karamel::compiler::context::ModuleCollection;
use karamel::compiler::function::FunctionParameter;
use karamel::compiler::function::NativeCall;
use karamel::compiler::value::BramaPrimative;
use karamel::compiler::value::VmObject;
use karamel::vm::interpreter::call_method;
use karamel::vm::interpreter::call_native;
use karamel::vm::arithmetic::Evaluation;

fn integer(value: i64) -> VmObject {
    VmObject::from(BramaPrimative::Integer(value))
}

fn text(value: &str) -> VmObject {
    VmObject::from(BramaPrimative::Text(value.to_string()))
}

fn boolean(value: bool) -> VmObject {
    VmObject::from(BramaPrimative::Bool(value))
}

fn assert_on(stack: Vec<VmObject>, count: u8) -> Result<BramaPrimative, String> {
    let parameter = FunctionParameter::new(&stack, count).expect("arguments");
    DebugModule::assert_that(parameter).map(|value| (*value.value).clone())
}

#[test]
fn a_parameter_views_the_top_of_the_stack() {
    let stack = vec![integer(1), integer(2), integer(3)];
    let parameter = FunctionParameter::new(&stack, 2).expect("arguments");
    assert_eq!(parameter.length(), 2);
    assert_eq!(parameter.get(0), Some(&integer(2)));
    assert_eq!(parameter.get(1), Some(&integer(3)));
    assert_eq!(parameter.get(2), None);
    assert!(FunctionParameter::new(&stack, 4).is_none());
    let none = FunctionParameter::new(&stack, 0).expect("arguments");
    assert_eq!(none.length(), 0);
    assert_eq!(none.get(0), None);
}

#[test]
fn an_assertion_with_one_argument_asks_for_truth() {
    assert_eq!(assert_on(vec![boolean(false)], 1), Err("Assert failed".to_string()));
    assert_eq!(assert_on(vec![boolean(true)], 1), Ok(BramaPrimative::Empty));
    assert_eq!(assert_on(vec![integer(0)], 1), Err("Assert failed".to_string()));
    assert_eq!(assert_on(vec![text("x")], 1), Ok(BramaPrimative::Empty));
}

#[test]
fn an_assertion_with_two_arguments_asks_for_equality() {
    assert_eq!(assert_on(vec![integer(1), integer(1)], 2), Ok(BramaPrimative::Empty));
    assert_eq!(
        assert_on(vec![integer(1), integer(2)], 2),
        Err("Assert failed (left: 1, right: 2)".to_string())
    );
    assert_eq!(
        assert_on(vec![text("a"), boolean(true)], 2),
        Err("Assert failed (left: \"a\", right: doğru)".to_string())
    );
    assert_eq!(assert_on(vec![integer(9), text("a"), text("a")], 2), Ok(BramaPrimative::Empty));
}

#[test]
fn an_assertion_with_another_number_of_arguments_fails() {
    assert_eq!(assert_on(vec![], 0), Err("Assert failed".to_string()));
    assert_eq!(
        assert_on(vec![integer(1), integer(1), integer(1)], 3),
        Err("Assert failed".to_string())
    );
}

#[test]
fn the_debug_module() {
    let module = DebugModule::new();
    assert_eq!(module.get_module_name(), "hataayıklama");
    assert_eq!(module.get_path(), &vec!["hataayıklama".to_string()]);
    let method = module.get_method("doğrula").expect("method");
    assert_eq!(method.name, "doğrula");
    assert_eq!(method.path, vec!["hataayıklama".to_string()]);
    assert_eq!(method.framework, "hataayıklama");
    assert_eq!(method.callback, NativeCall::Assert);
    assert!(module.get_method("dogrula").is_none());
    assert!(module.get_module("x").is_none());
    assert_eq!(module.get_methods().len(), 1);
    assert_eq!(module.get_methods()[0].0, "doğrula");
    assert_eq!(module.get_modules().len(), 0);
    assert_eq!(module.get_classes().len(), 0);
}

#[test]
fn the_io_module() {
    let module = IoModule::new();
    assert_eq!(module.get_module_name(), "gç");
    assert_eq!(module.get_path(), &vec!["gç".to_string()]);
    let names: Vec<(String, NativeCall)> = module
        .get_methods()
        .into_iter()
        .map(|(name, reference)| (name, reference.callback))
        .collect();
    assert_eq!(
        names,
        vec![
            ("satıroku".to_string(), NativeCall::ReadLine),
            ("satiroku".to_string(), NativeCall::ReadLine),
            ("yaz".to_string(), NativeCall::Print),
            ("satıryaz".to_string(), NativeCall::PrintLine),
            ("satiryaz".to_string(), NativeCall::PrintLine),
            ("biçimlendir".to_string(), NativeCall::Format),
            ("bicimlendir".to_string(), NativeCall::Format),
        ]
    );
    let method = module.get_method("satiryaz").expect("method");
    assert_eq!(method.name, "satiryaz");
    assert_eq!(method.path, vec!["gç".to_string()]);
    assert_eq!(method.framework, "gç");
    assert!(module.get_method("oku").is_none());
    assert!(module.get_module("x").is_none());
    assert_eq!(module.get_modules().len(), 0);
    assert_eq!(module.get_classes().len(), 0);
}

#[test]
fn printing_writes_the_arguments_one_after_the_other() {
    let stack = vec![integer(0), text("a"), integer(12), boolean(true)];
    let mut sink = String::from("before:");
    let result = IoModule::print(FunctionParameter::new(&stack, 3).expect("arguments"), &mut sink);
    assert_eq!(result, Ok(VmObject::from(BramaPrimative::Empty)));
    assert_eq!(sink, "before:a12doğru");

    let mut sink = String::new();
    let result = IoModule::printline(FunctionParameter::new(&stack, 2).expect("arguments"), &mut sink);
    assert_eq!(result, Ok(VmObject::from(BramaPrimative::Empty)));
    assert_eq!(sink, "12doğru\r\n");

    let mut sink = String::new();
    let _ = IoModule::printline(FunctionParameter::new(&stack, 0).expect("arguments"), &mut sink);
    assert_eq!(sink, "\r\n");
}

#[test]
fn formatting_takes_one_argument() {
    let stack = vec![integer(7), VmObject::from(BramaPrimative::List(vec![text("a")]))];
    assert_eq!(
        IoModule::format(FunctionParameter::new(&stack, 1).expect("arguments")),
        Ok(text("[\"a\"]"))
    );
    assert_eq!(
        IoModule::format(FunctionParameter::new(&stack, 2).expect("arguments")),
        Ok(VmObject::from(BramaPrimative::Empty))
    );
    assert_eq!(
        IoModule::format(FunctionParameter::new(&stack, 0).expect("arguments")),
        Ok(VmObject::from(BramaPrimative::Empty))
    );
}

#[test]
fn a_line_that_was_read_loses_the_blanks_around_it() {
    assert_eq!(IoModule::readline(Some("  merhaba dünya \r\n".to_string())), Ok(text("merhaba dünya")));
    assert_eq!(IoModule::readline(Some("\n".to_string())), Ok(text("")));
    assert_eq!(IoModule::readline(Some("".to_string())), Ok(text("")));
    assert_eq!(IoModule::readline(Some(" \t ".to_string())), Ok(text("")));
    assert_eq!(IoModule::readline(Some("\u{a0}x y\u{3000}".to_string())), Ok(text("x y")));
    assert_eq!(IoModule::readline(Some("\u{200b}x".to_string())), Ok(text("\u{200b}x")));
    assert_eq!(IoModule::readline(None), Ok(VmObject::from(BramaPrimative::Empty)));
}

#[test]
fn calls_are_looked_up_by_path_and_name() {
    let modules = ModuleCollection::new();
    let names = |parts: &[&str]| parts.iter().map(|part| part.to_string()).collect::<Vec<String>>();
    let found = modules.find_method(&names(&["gç", "yaz"])).expect("method");
    assert_eq!(found.callback, NativeCall::Print);
    assert_eq!(found.name, "yaz");
    let found = modules.find_method(&names(&["hataayıklama", "doğrula"])).expect("method");
    assert_eq!(found.callback, NativeCall::Assert);
    assert!(modules.find_method(&names(&["yaz"])).is_none());
    assert!(modules.find_method(&names(&[])).is_none());
    assert!(modules.find_method(&names(&["gç", "doğrula"])).is_none());
    assert!(modules.find_method(&names(&["gç", "gç", "yaz"])).is_none());
    assert!(modules.find_method(&names(&["hataayıklama", "yaz"])).is_none());
    assert!(is_path_of(&names(&["a", "b", "c"]), &names(&["a", "b"])));
    assert!(!is_path_of(&names(&["a", "b", "c"]), &names(&["a"])));
    assert!(!is_path_of(&names(&["a", "b", "c"]), &names(&["a", "x"])));
    assert!(is_path_of(&names(&["a"]), &names(&[])));
}

#[test]
fn native_calls_by_their_entry_point() {
    let stack = vec![integer(1), integer(2)];
    let answer = call_native(NativeCall::Assert, &stack, 2);
    assert_eq!(answer.result, Err("Assert failed (left: 1, right: 2)".to_string()));
    assert_eq!(answer.text, "");
    let answer = call_native(NativeCall::Print, &stack, 2);
    assert_eq!(answer.result, Ok(VmObject::from(BramaPrimative::Empty)));
    assert_eq!(answer.text, "12");
    let answer = call_native(NativeCall::PrintLine, &stack, 1);
    assert_eq!(answer.text, "2\r\n");
    let answer = call_native(NativeCall::Format, &stack, 1);
    assert_eq!(answer.result, Ok(text("2")));
    assert_eq!(answer.text, "");
    let answer = call_native(NativeCall::ReadLine, &stack, 0);
    assert_eq!(answer.result, Err("Function not found".to_string()));
    let answer = call_native(NativeCall::Print, &stack, 3);
    assert_eq!(answer.result, Err("Function not found".to_string()));
    assert_eq!(answer.text, "");
}

#[test]
fn the_length_of_lists_and_texts() {
    let value = |result: Evaluation| match result {
        Evaluation::Value(value) => Ok((*value.value).clone()),
        Evaluation::Fault(message) => Err(message),
        Evaluation::Host => Err("host"),
    };
    let list = VmObject::from(BramaPrimative::List(vec![text("a"), text("b"), integer(1), boolean(true)]));
    assert_eq!(value(call_method(&list, "uzunluk", 0)), Ok(BramaPrimative::Integer(4)));
    assert_eq!(value(call_method(&text("barış"), "uzunluk", 0)), Ok(BramaPrimative::Integer(5)));
    assert_eq!(value(call_method(&text(""), "uzunluk", 0)), Ok(BramaPrimative::Integer(0)));
    assert_eq!(value(call_method(&integer(5), "uzunluk", 0)), Err("Method not found"));
    assert_eq!(value(call_method(&list, "boyut", 0)), Err("Method not found"));
    assert_eq!(value(call_method(&list, "uzunluk", 1)), Err("Method not found"));
}
