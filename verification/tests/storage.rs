use std::rc::Rc;
use std::sync::Arc;

use karamel::compiler::function::FunctionReference;
use karamel::compiler::function::NativeCall;
use karamel::compiler::static_storage::find_value;
use karamel::compiler::static_storage::StaticStorage;
use karamel::compiler::value::empty_object;
use karamel::compiler::value::BramaPrimative;
use karamel::compiler::value::ClassReference;
use karamel::compiler::value::VmObject;

fn integer(value: i64) -> Arc<BramaPrimative> {
    Arc::new(BramaPrimative::Integer(value))
}

fn text(value: &str) -> Arc<BramaPrimative> {
    Arc::new(BramaPrimative::Text(value.to_string()))
}

fn function(name: &str, path: &[&str], framework: &str) -> Arc<BramaPrimative> {
    Arc::new(BramaPrimative::Function(Rc::new(FunctionReference {
        name: name.to_string(),
        path: path.iter().map(|part| part.to_string()).collect(),
        framework: framework.to_string(),
        callback: NativeCall::Print,
    })))
}

fn values(objects: &Vec<VmObject>) -> Vec<BramaPrimative> {
    objects.iter().map(|object| (*object.value).clone()).collect()
}

#[test]
fn a_new_storage_is_empty() {
    let storage = StaticStorage::new();
    assert_eq!(storage.index, 0);
    assert_eq!(storage.constants.len(), 0);
    assert_eq!(storage.get_constant_size(), 0);
    assert_eq!(storage.get_variable_size(), 0);
    assert_eq!(storage.get_temp_size(), 0);
    assert_eq!(storage.temp_counter, 0);
    assert_eq!(storage.total_const_variables, 0);
    assert_eq!(storage.get_memory().len(), 0);
    assert_eq!(storage.get_stack().len(), 0);
    assert_eq!(storage.get_parent_location(), None);
}

#[test]
fn a_constant_is_interned_once() {
    let mut storage = StaticStorage::new();
    assert_eq!(storage.add_constant(integer(5)), 0);
    assert_eq!(storage.add_constant(text("5")), 1);
    assert_eq!(storage.add_constant(integer(5)), 0);
    assert_eq!(storage.add_constant(integer(6)), 2);
    assert_eq!(storage.add_constant(text("5")), 1);
    assert_eq!(
        values(&storage.constants),
        vec![
            BramaPrimative::Integer(5),
            BramaPrimative::Text("5".to_string()),
            BramaPrimative::Integer(6),
        ]
    );
}

#[test]
fn equal_lists_are_one_constant() {
    let list = |items: Vec<i64>| {
        Arc::new(BramaPrimative::List(
            items.into_iter().map(|item| VmObject::from(BramaPrimative::Integer(item))).collect(),
        ))
    };
    let mut storage = StaticStorage::new();
    assert_eq!(storage.add_constant(list(vec![1, 2])), 0);
    assert_eq!(storage.add_constant(list(vec![1, 2])), 0);
    assert_eq!(storage.add_constant(list(vec![1, 3])), 1);
    assert_eq!(storage.add_constant(list(vec![1])), 2);
    assert_eq!(storage.add_constant(Arc::new(BramaPrimative::Double("1.5".to_string()))), 3);
    assert_eq!(storage.add_constant(Arc::new(BramaPrimative::Double("1.5".to_string()))), 3);
    assert_eq!(storage.add_constant(Arc::new(BramaPrimative::Text("1.5".to_string()))), 4);
    assert_eq!(storage.add_constant(Arc::new(BramaPrimative::Empty)), 5);
    assert_eq!(storage.add_constant(Arc::new(BramaPrimative::Bool(true))), 6);
    assert_eq!(storage.add_constant(Arc::new(BramaPrimative::Bool(false))), 7);
    assert_eq!(storage.add_constant(Arc::new(BramaPrimative::Bool(true))), 6);
}

#[test]
fn a_new_variable_has_slot_zero_until_memory_is_laid_out() {
    let mut storage = StaticStorage::new();
    assert_eq!(storage.get_variable_location("a"), None);
    assert_eq!(storage.add_variable("a"), 0);
    assert_eq!(storage.add_variable("b"), 0);
    assert_eq!(storage.add_variable("a"), 0);
    assert_eq!(storage.get_variable_size(), 2);
    assert_eq!(storage.get_variable_location("a"), Some(0));
    assert_eq!(storage.get_variable_location("b"), Some(0));
    assert_eq!(storage.get_variable_location("c"), None);
    assert_eq!(storage.find_variable("b"), Some(1));
    assert_eq!(storage.find_variable("c"), None);
    assert_eq!(storage.get_variable_value("a"), None);
}

#[test]
fn memory_is_constants_then_variables_then_temporaries() {
    let mut storage = StaticStorage::new();
    storage.add_constant(integer(10));
    storage.add_variable("a");
    storage.add_constant(text("x"));
    storage.add_variable("b");
    storage.set_temp_size(3);
    storage.set_parent_location(4);
    storage.build();

    assert_eq!(storage.get_constant_size(), 2);
    assert_eq!(storage.get_variable_size(), 2);
    assert_eq!(storage.get_temp_size(), 3);
    assert_eq!(storage.get_parent_location(), Some(4));
    assert_eq!(storage.constants.len(), 0);
    assert_eq!(
        values(storage.get_memory()),
        vec![
            BramaPrimative::Integer(10),
            BramaPrimative::Text("x".to_string()),
            BramaPrimative::Empty,
            BramaPrimative::Empty,
            BramaPrimative::Empty,
            BramaPrimative::Empty,
            BramaPrimative::Empty,
        ]
    );
    assert_eq!(storage.get_stack().len(), 0);
    assert_eq!(storage.get_variable_location("a"), Some(2));
    assert_eq!(storage.get_variable_location("b"), Some(3));
    assert_eq!(storage.add_variable("b"), 3);
    assert_eq!(storage.get_variable_value("a"), Some(Arc::new(BramaPrimative::Empty)));
    // the slots of the constants are those that interning handed out
    assert_eq!(storage.get_constant_location(integer(10)), Some(0));
    assert_eq!(storage.get_constant_location(text("x")), Some(1));
    assert_eq!(storage.get_constant_location(Arc::new(BramaPrimative::Empty)), Some(2));
    assert_eq!(storage.get_constant_location(integer(11)), None);
}

#[test]
fn static_data_binds_a_name_to_the_slot_of_a_constant() {
    let mut storage = StaticStorage::new();
    storage.add_constant(integer(1));
    storage.add_static_data("pi", integer(3));
    storage.add_static_data("e", integer(2));
    storage.add_static_data("three", integer(3));
    assert_eq!(storage.get_variable_location("pi"), Some(1));
    assert_eq!(storage.get_variable_location("e"), Some(2));
    assert_eq!(storage.get_variable_location("three"), Some(1));
    storage.add_static_data("pi", integer(1));
    assert_eq!(storage.get_variable_location("pi"), Some(0));
    assert_eq!(storage.get_variable_location("e"), Some(2));
    assert_eq!(storage.constants.len(), 3);
    assert_eq!(storage.variables.len(), 3);
}

#[test]
fn functions_are_found_by_name_path_and_owner() {
    let mut storage = StaticStorage::new();
    storage.add_constant(integer(1));
    storage.add_constant(function("yaz", &["gç"], "gç"));
    storage.add_constant(function("yaz", &["başka"], "gç"));
    storage.add_constant(function("yaz", &["gç"], "başka"));
    storage.add_constant(function("oku", &["gç"], "gç"));
    storage.build();
    let find = |name: &str, path: &[&str], framework: &str| {
        storage.get_function_constant(
            name.to_string(),
            path.iter().map(|part| part.to_string()).collect(),
            framework.to_string(),
        )
    };
    assert_eq!(find("yaz", &["gç"], "gç"), Some(1));
    assert_eq!(find("yaz", &["başka"], "gç"), Some(2));
    assert_eq!(find("yaz", &["gç"], "başka"), Some(3));
    assert_eq!(find("oku", &["gç"], "gç"), Some(4));
    assert_eq!(find("oku", &[], "gç"), None);
    assert_eq!(find("sil", &["gç"], "gç"), None);
}

#[test]
fn classes_are_found_by_name() {
    let mut storage = StaticStorage::new();
    storage.add_constant(text("liste"));
    storage.add_constant(Arc::new(BramaPrimative::Class(ClassReference { name: "liste".to_string() })));
    storage.add_constant(Arc::new(BramaPrimative::Class(ClassReference { name: "yazı".to_string() })));
    storage.build();
    assert_eq!(storage.get_class_constant("liste".to_string(), vec![], "".to_string()), Some(1));
    assert_eq!(
        storage.get_class_constant("yazı".to_string(), vec!["x".to_string()], "y".to_string()),
        Some(2)
    );
    assert_eq!(storage.get_class_constant("sayı".to_string(), vec![], "".to_string()), None);
}

#[test]
fn slots_beyond_one_byte_are_not_handed_out() {
    let mut storage = StaticStorage::new();
    for number in 0..300 {
        storage.memory.push(VmObject::from(BramaPrimative::Integer(number)));
    }
    assert_eq!(storage.get_constant_location(integer(255)), Some(255));
    assert_eq!(storage.get_constant_location(integer(256)), None);
    assert_eq!(find_value(&storage.memory, &BramaPrimative::Integer(256)), Some(256));
    assert_eq!(storage.get_variable_size(), 0);
    for number in 0..257 {
        storage.variables.push((format!("v{}", number), 0));
    }
    assert_eq!(storage.get_variable_size(), 1);
}

#[test]
fn the_listing_of_a_storage() {
    let mut storage = StaticStorage::new();
    storage.add_constant(integer(5));
    storage.add_constant(text("ab"));
    storage.add_variable("boyut");
    storage.set_temp_size(1);
    storage.build();
    storage.stack.push(VmObject::from(BramaPrimative::Bool(true)));
    storage.stack.push(empty_object());
    let expected = "\
╔════════════════════════════════════════╗
║               MEMORY DUMP              ║
╠═══╦═════╦══════════════════════════════╣
║ C ║   0 ║ 5                            ║
║ C ║   1 ║ \"ab\"                         ║
║ V ║   2 ║ boş                          ║
║ T ║   3 ║ boş                          ║
╚═══╩═════╩══════════════════════════════╝
╔════════════════════════════════════════╗
║             VARIABLE DUMP              ║
╠════════════════════════════════════════╣
║ boyut [2]                              ║
╚════════════════════════════════════════╝
╔════════════════════════════════════════╗
║                  STACK                 ║
╠════════════════════════════════════════╣
║ Stack size: 2                          ║
╠════════════════════════════════════════╣
║ doğru                                  ║
║ boş                                    ║
╚════════════════════════════════════════╝
";
    assert_eq!(storage.dump(), expected);
}

#[test]
fn wide_values_are_not_cut_in_a_listing() {
    let mut storage = StaticStorage::new();
    storage.memory.push(VmObject::from(BramaPrimative::Text("0123456789012345678901234567890".to_string())));
    let listing = storage.dump();
    assert!(listing.contains("║ V ║   0 ║ \"0123456789012345678901234567890\" ║\n"));
}
