use std::rc::Rc;

use karamel::compiler::context::KaramelCompilerContext;
use karamel::compiler::function::FunctionReference;
use karamel::compiler::function::NativeCall;
use karamel::compiler::value::BramaPrimative;
use karamel::compiler::value::VmObject;
use karamel::compiler::VmOpCode;
use karamel::vm::interpreter::run_vm;
use karamel::vm::interpreter::HostRequest;
use karamel::vm::interpreter::VmSignal;

const HALT: u8 = 0;
const LOAD: u8 = 1;
const STORE: u8 = 2;
const ADDITION: u8 = 3;
const DIVISION: u8 = 6;
const NOT: u8 = 14;
const NEGATE: u8 = 15;
const JUMP: u8 = 16;
const COMPARE: u8 = 17;
const INIT_LIST: u8 = 18;
const CALL: u8 = 19;
const CALL_METHOD: u8 = 20;
const POP: u8 = 21;

fn integer(value: i64) -> VmObject {
    VmObject::from(BramaPrimative::Integer(value))
}

fn text(value: &str) -> VmObject {
    VmObject::from(BramaPrimative::Text(value.to_string()))
}

fn double(value: &str) -> VmObject {
    VmObject::from(BramaPrimative::Double(value.to_string()))
}

fn native(callback: NativeCall) -> VmObject {
    VmObject::from(BramaPrimative::Function(Rc::new(FunctionReference {
        name: "f".to_string(),
        path: vec![],
        framework: "".to_string(),
        callback,
    })))
}

fn machine(memory: Vec<VmObject>, opcodes: Vec<u8>) -> KaramelCompilerContext {
    let mut context = KaramelCompilerContext::new();
    context.storages[0].memory = memory;
    context.opcodes = opcodes;
    context
}

fn stack(context: &KaramelCompilerContext) -> Vec<BramaPrimative> {
    context.storages[0].stack.iter().map(|object| (*object.value).clone()).collect()
}

fn memory(context: &KaramelCompilerContext) -> Vec<BramaPrimative> {
    context.storages[0].memory.iter().map(|object| (*object.value).clone()).collect()
}

fn fault(message: &str) -> VmSignal {
    VmSignal::Fault(message.to_string())
}

#[test]
fn load_and_store() {
    let mut context = machine(vec![integer(7), integer(0)], vec![LOAD, 0, 0, STORE, 0, 1, HALT]);
    assert_eq!(context.step(), VmSignal::Next);
    assert_eq!(context.opcode_index, 3);
    assert_eq!(stack(&context), vec![BramaPrimative::Integer(7)]);
    assert_eq!(context.step(), VmSignal::Next);
    assert_eq!(context.opcode_index, 6);
    assert_eq!(stack(&context), vec![]);
    assert_eq!(memory(&context), vec![BramaPrimative::Integer(7), BramaPrimative::Integer(7)]);
    assert_eq!(context.step(), VmSignal::Halted);
    assert_eq!(context.opcode_index, 6);
}

#[test]
fn a_run_ends_at_halt() {
    let mut context = machine(
        vec![integer(2), integer(3), integer(0)],
        vec![LOAD, 0, 0, LOAD, 0, 1, ADDITION, STORE, 0, 2, HALT, LOAD, 0, 0],
    );
    assert_eq!(run_vm(&mut context), VmSignal::Halted);
    assert_eq!(context.opcode_index, 10);
    assert_eq!(memory(&context)[2], BramaPrimative::Integer(5));
    assert_eq!(stack(&context), vec![]);
}

#[test]
fn faults_leave_the_state_as_it_is() {
    let mut context = machine(vec![integer(1)], vec![LOAD, 0]);
    assert_eq!(context.step(), fault("Invalid instruction"));
    assert_eq!(context.opcode_index, 0);

    let mut context = machine(vec![integer(1)], vec![LOAD, 0, 1]);
    assert_eq!(context.step(), fault("Invalid memory address"));
    let mut context = machine(vec![integer(1)], vec![LOAD, 1, 0]);
    assert_eq!(context.step(), fault("Invalid memory address"));
    let mut context = machine(vec![integer(1)], vec![STORE, 0, 0]);
    assert_eq!(context.step(), fault("Stack underflow"));
    let mut context = machine(vec![integer(1)], vec![LOAD, 0, 0, STORE, 0, 4]);
    assert_eq!(run_vm(&mut context), fault("Invalid memory address"));
    assert_eq!(context.opcode_index, 3);
    assert_eq!(stack(&context), vec![BramaPrimative::Integer(1)]);
    let mut context = machine(vec![integer(1)], vec![LOAD, 0, 0, ADDITION]);
    assert_eq!(run_vm(&mut context), fault("Stack underflow"));
    let mut context = machine(vec![integer(1)], vec![NOT]);
    assert_eq!(run_vm(&mut context), fault("Stack underflow"));
    let mut context = machine(vec![integer(1)], vec![POP]);
    assert_eq!(run_vm(&mut context), fault("Stack underflow"));
    let mut context = machine(vec![integer(1)], vec![200]);
    assert_eq!(run_vm(&mut context), fault("Invalid instruction"));
    let mut context = machine(vec![integer(1)], vec![]);
    assert_eq!(run_vm(&mut context), fault("Invalid instruction"));
    let mut context = machine(vec![integer(1)], vec![LOAD, 0, 0]);
    assert_eq!(run_vm(&mut context), fault("Invalid instruction"));
    assert_eq!(context.opcode_index, 3);
    let mut context = machine(vec![integer(1), text("a")], vec![LOAD, 0, 0, LOAD, 0, 1, ADDITION]);
    assert_eq!(run_vm(&mut context), fault("Invalid operands"));
    assert_eq!(context.opcode_index, 6);
    assert_eq!(stack(&context).len(), 2);
    let mut context = machine(vec![], vec![HALT]);
    context.storage_index = 1;
    assert_eq!(run_vm(&mut context), fault("Invalid scope"));
}

#[test]
fn jumps_go_forward() {
    let mut context = machine(vec![integer(1)], vec![JUMP, 0, 3, LOAD, 0, 0, HALT]);
    assert_eq!(context.step(), VmSignal::Next);
    assert_eq!(context.opcode_index, 6);
    assert_eq!(context.step(), VmSignal::Halted);

    let mut context = machine(vec![integer(1)], vec![JUMP, 0, 0, HALT]);
    assert_eq!(context.step(), VmSignal::Next);
    assert_eq!(context.opcode_index, 3);

    let mut context = machine(vec![integer(1)], vec![JUMP, 1, 0]);
    assert_eq!(context.step(), fault("Invalid jump"));
    let mut context = machine(vec![integer(1)], vec![JUMP, 0, 1]);
    assert_eq!(context.step(), fault("Invalid jump"));
    let mut context = machine(vec![integer(1)], vec![JUMP, 0]);
    assert_eq!(context.step(), fault("Invalid instruction"));

    let mut code = vec![JUMP, 1, 2];
    code.extend(std::iter::repeat(POP).take(258));
    code.push(HALT);
    let mut context = machine(vec![], code);
    assert_eq!(run_vm(&mut context), VmSignal::Halted);
    assert_eq!(context.opcode_index, 261);
}

#[test]
fn compare_jumps_when_the_top_is_not_true() {
    let code = vec![LOAD, 0, 0, COMPARE, 0, 3, LOAD, 0, 1, HALT];
    let mut context = machine(vec![integer(0), integer(9)], code.clone());
    assert_eq!(run_vm(&mut context), VmSignal::Halted);
    assert_eq!(stack(&context), vec![]);
    let mut context = machine(vec![integer(1), integer(9)], code);
    assert_eq!(run_vm(&mut context), VmSignal::Halted);
    assert_eq!(stack(&context), vec![BramaPrimative::Integer(9)]);

    let mut context = machine(vec![integer(0)], vec![LOAD, 0, 0, COMPARE, 0, 9]);
    assert_eq!(run_vm(&mut context), fault("Invalid jump"));
    assert_eq!(stack(&context).len(), 1);
    let mut context = machine(vec![integer(1)], vec![LOAD, 0, 0, COMPARE, 0, 9, HALT]);
    assert_eq!(run_vm(&mut context), VmSignal::Halted);
    let mut context = machine(vec![integer(1)], vec![COMPARE, 0, 0]);
    assert_eq!(run_vm(&mut context), fault("Stack underflow"));
}

#[test]
fn a_list_holds_the_topmost_values_in_order() {
    let mut context = machine(
        vec![integer(1), integer(2), integer(3)],
        vec![LOAD, 0, 0, LOAD, 0, 1, LOAD, 0, 2, INIT_LIST, 2, HALT],
    );
    assert_eq!(run_vm(&mut context), VmSignal::Halted);
    assert_eq!(
        stack(&context),
        vec![
            BramaPrimative::Integer(1),
            BramaPrimative::List(vec![integer(2), integer(3)]),
        ]
    );
    let mut context = machine(vec![], vec![INIT_LIST, 0, HALT]);
    assert_eq!(run_vm(&mut context), VmSignal::Halted);
    assert_eq!(stack(&context), vec![BramaPrimative::List(vec![])]);
    let mut context = machine(vec![], vec![INIT_LIST, 1, HALT]);
    assert_eq!(run_vm(&mut context), fault("Stack underflow"));
    let mut context = machine(vec![], vec![INIT_LIST]);
    assert_eq!(run_vm(&mut context), fault("Invalid instruction"));
}

#[test]
fn output_goes_to_the_buffer_when_it_is_captured() {
    let code = vec![LOAD, 0, 1, LOAD, 0, 2, CALL, 0, 2, 0, 0, LOAD, 0, 1, CALL, 0, 1, 0, 0, HALT];
    let mut context = machine(vec![native(NativeCall::Print), integer(1), text("a")], code.clone());
    context.stdout = Some("x".to_string());
    assert_eq!(run_vm(&mut context), VmSignal::Halted);
    assert_eq!(context.stdout, Some("x1a1".to_string()));
    assert_eq!(stack(&context), vec![]);

    let mut context = machine(vec![native(NativeCall::Print), integer(1), text("a")], code);
    assert_eq!(run_vm(&mut context), VmSignal::Output("1a".to_string()));
    assert_eq!(context.opcode_index, 11);
    assert_eq!(stack(&context), vec![]);
    assert_eq!(run_vm(&mut context), VmSignal::Output("1".to_string()));
    assert_eq!(run_vm(&mut context), VmSignal::Halted);
    assert_eq!(context.stdout, None);
}

#[test]
fn printing_nothing_writes_nothing() {
    let mut context = machine(vec![native(NativeCall::Print)], vec![CALL, 0, 0, 0, 0, HALT]);
    assert_eq!(run_vm(&mut context), VmSignal::Halted);
    let mut context = machine(vec![native(NativeCall::PrintLine)], vec![CALL, 0, 0, 0, 0, HALT]);
    assert_eq!(run_vm(&mut context), VmSignal::Output("\r\n".to_string()));
}

#[test]
fn the_value_of_a_call_goes_into_its_temporary_slot() {
    let mut context = machine(
        vec![native(NativeCall::Format), integer(12), integer(0)],
        vec![LOAD, 0, 1, CALL, 0, 1, 1, 2, HALT],
    );
    assert_eq!(run_vm(&mut context), VmSignal::Halted);
    assert_eq!(memory(&context)[2], BramaPrimative::Text("12".to_string()));
    assert_eq!(stack(&context), vec![]);

    let mut context = machine(
        vec![native(NativeCall::Format), integer(12), integer(0)],
        vec![LOAD, 0, 1, CALL, 0, 1, 0, 2, HALT],
    );
    assert_eq!(run_vm(&mut context), VmSignal::Halted);
    assert_eq!(memory(&context)[2], BramaPrimative::Integer(0));

    let mut context = machine(
        vec![native(NativeCall::Format), integer(12)],
        vec![LOAD, 0, 1, CALL, 0, 1, 1, 2, HALT],
    );
    assert_eq!(run_vm(&mut context), fault("Invalid memory address"));
    assert_eq!(stack(&context).len(), 1);
}

#[test]
fn call_faults() {
    let mut context = machine(vec![integer(1)], vec![CALL, 0, 0, 0, 0]);
    assert_eq!(run_vm(&mut context), fault("Function not found"));
    let mut context = machine(vec![integer(1)], vec![CALL, 1, 0, 0, 0]);
    assert_eq!(run_vm(&mut context), fault("Invalid memory address"));
    let mut context = machine(vec![native(NativeCall::Print)], vec![CALL, 0, 1, 0, 0]);
    assert_eq!(run_vm(&mut context), fault("Stack underflow"));
    let mut context = machine(vec![native(NativeCall::Print)], vec![CALL, 0, 0, 0]);
    assert_eq!(run_vm(&mut context), fault("Invalid instruction"));
    let mut context = machine(vec![native(NativeCall::Assert), integer(0)], vec![LOAD, 0, 1, CALL, 0, 1, 0, 0]);
    assert_eq!(run_vm(&mut context), fault("Assert failed"));
    assert_eq!(context.opcode_index, 3);
}

#[test]
fn method_calls_on_the_machine() {
    let mut context = machine(
        vec![text("uzunluk"), text("dört"), integer(0)],
        vec![LOAD, 0, 1, CALL_METHOD, 0, 0, 1, 2, LOAD, 0, 2, HALT],
    );
    assert_eq!(run_vm(&mut context), VmSignal::Halted);
    assert_eq!(memory(&context)[2], BramaPrimative::Integer(4));
    assert_eq!(stack(&context), vec![BramaPrimative::Integer(4)]);

    let mut context = machine(vec![text("uzunluk")], vec![CALL_METHOD, 0, 0, 0, 0]);
    assert_eq!(run_vm(&mut context), fault("Stack underflow"));
    let mut context = machine(vec![integer(1)], vec![LOAD, 0, 0, CALL_METHOD, 0, 0, 0, 0]);
    assert_eq!(run_vm(&mut context), fault("Method not found"));
    let mut context = machine(vec![text("boyut")], vec![LOAD, 0, 0, CALL_METHOD, 0, 0, 0, 0]);
    assert_eq!(run_vm(&mut context), fault("Method not found"));
    let mut context = machine(vec![text("uzunluk")], vec![LOAD, 0, 0, LOAD, 0, 0, CALL_METHOD, 0, 1, 0, 0]);
    assert_eq!(run_vm(&mut context), fault("Method not found"));
    let mut context = machine(vec![text("uzunluk")], vec![LOAD, 0, 0, CALL_METHOD, 3, 0, 0, 0]);
    assert_eq!(run_vm(&mut context), fault("Invalid memory address"));
}

#[test]
fn the_host_computes_with_fractions() {
    let mut context = machine(
        vec![integer(1), double("1.5"), integer(0)],
        vec![LOAD, 0, 0, LOAD, 0, 1, ADDITION, NEGATE, STORE, 0, 2, HALT],
    );
    assert_eq!(
        run_vm(&mut context),
        VmSignal::Request(HostRequest::Binary {
            opcode: VmOpCode::Addition,
            left: integer(1),
            right: double("1.5"),
        })
    );
    assert_eq!(context.opcode_index, 6);
    assert_eq!(stack(&context).len(), 2);
    // asking again changes nothing
    assert!(matches!(run_vm(&mut context), VmSignal::Request(_)));
    assert_eq!(context.give_value(double("2.5")), VmSignal::Next);
    assert_eq!(context.opcode_index, 7);
    assert_eq!(stack(&context), vec![BramaPrimative::Double("2.5".to_string())]);
    assert_eq!(
        run_vm(&mut context),
        VmSignal::Request(HostRequest::Unary { opcode: VmOpCode::Negate, operand: double("2.5") })
    );
    assert_eq!(context.give_value(double("-2.5")), VmSignal::Next);
    assert_eq!(run_vm(&mut context), VmSignal::Halted);
    assert_eq!(memory(&context)[2], BramaPrimative::Double("-2.5".to_string()));
}

#[test]
fn a_division_that_leaves_a_rest_is_the_work_of_the_host() {
    let mut context = machine(vec![integer(7), integer(2)], vec![LOAD, 0, 0, LOAD, 0, 1, DIVISION, HALT]);
    assert!(matches!(run_vm(&mut context), VmSignal::Request(HostRequest::Binary { .. })));
    assert_eq!(context.give_value(double("3.5")), VmSignal::Next);
    assert_eq!(run_vm(&mut context), VmSignal::Halted);
    assert_eq!(stack(&context), vec![BramaPrimative::Double("3.5".to_string())]);
}

#[test]
fn an_answer_that_nobody_asked_for_is_a_fault() {
    let mut context = machine(vec![integer(7), integer(2)], vec![LOAD, 0, 0, LOAD, 0, 1, ADDITION, HALT]);
    assert_eq!(context.give_value(integer(1)), fault("No request is pending"));
    assert_eq!(context.give_line(None), fault("No request is pending"));
    assert_eq!(context.opcode_index, 0);
    context.step();
    context.step();
    // the operator can be computed here: nobody waits
    assert_eq!(context.give_value(integer(1)), fault("No request is pending"));
    assert_eq!(stack(&context).len(), 2);
    assert_eq!(run_vm(&mut context), VmSignal::Halted);
    assert_eq!(context.give_value(integer(1)), fault("No request is pending"));
    let mut context = machine(vec![native(NativeCall::Print)], vec![CALL, 0, 0, 0, 0, HALT]);
    assert_eq!(context.give_line(Some("x".to_string())), fault("No request is pending"));
    context.opcode_index = 9;
    assert_eq!(context.give_line(None), fault("No request is pending"));
    assert_eq!(context.give_value(integer(1)), fault("No request is pending"));
}

#[test]
fn the_host_reads_lines() {
    let mut context = machine(
        vec![native(NativeCall::ReadLine), integer(0)],
        vec![CALL, 0, 0, 1, 1, CALL, 0, 0, 1, 1, HALT],
    );
    assert_eq!(run_vm(&mut context), VmSignal::Request(HostRequest::ReadLine));
    assert_eq!(context.opcode_index, 0);
    assert_eq!(context.give_line(Some(" satır \n".to_string())), VmSignal::Next);
    assert_eq!(context.opcode_index, 5);
    assert_eq!(memory(&context)[1], BramaPrimative::Text("satır".to_string()));
    assert_eq!(run_vm(&mut context), VmSignal::Request(HostRequest::ReadLine));
    assert_eq!(context.give_line(None), VmSignal::Next);
    assert_eq!(memory(&context)[1], BramaPrimative::Empty);
    assert_eq!(run_vm(&mut context), VmSignal::Halted);
}

#[test]
fn other_scopes_are_addressed_by_their_number() {
    let mut context = machine(vec![integer(1)], vec![LOAD, 1, 0, STORE, 0, 0, LOAD, 0, 0, STORE, 1, 1, HALT]);
    let mut other = karamel::compiler::static_storage::StaticStorage::new();
    other.memory = vec![integer(5), integer(6)];
    context.storages.push(other);
    assert_eq!(run_vm(&mut context), VmSignal::Halted);
    assert_eq!(memory(&context), vec![BramaPrimative::Integer(5)]);
    assert_eq!(*context.storages[1].memory[1].value, BramaPrimative::Integer(5));
    assert_eq!(context.storages[1].stack.len(), 0);
}
