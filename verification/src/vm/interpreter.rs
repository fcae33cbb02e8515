//! The machine that runs byte code.

use vstd::prelude::*;
use vstd::string::StrSliceExecFns;
use crate::buildin::debug::DebugModule;
use crate::buildin::io::IoModule;
use crate::compiler::VmOpCode;
use crate::compiler::context::KaramelCompilerContext;
use crate::compiler::function::FunctionParameter;
use crate::compiler::function::NativeCall;
use crate::compiler::function::NativeCallResult;
use crate::compiler::function::native_result_view;
use crate::compiler::static_storage::StaticStorage;
use crate::compiler::value::BramaPrimative;
use crate::compiler::value::PrimativeView;
use crate::compiler::value::VmObject;
use crate::compiler::value::object_views;
use crate::compiler::value::list_view_is_item_views;
use crate::vm::arithmetic::Evaluation;
use crate::vm::arithmetic::Evaluated;
use crate::vm::arithmetic::execute_binary;
use crate::vm::arithmetic::execute_unary;
use crate::vm::machine;
use crate::vm::machine::VmState;
use crate::vm::machine::SignalView;
use crate::vm::machine::RequestView;
use crate::vm::machine::Stepped;

verus! {

/// What the machine asks of the host.
#[derive(Debug, PartialEq)]
pub enum HostRequest {
    /// A line of input. The answer goes to `give_line`.
    ReadLine,
    /// The value of a binary operator on numbers of which one has a
    /// fractional part. The answer goes to `give_value`.
    Binary { opcode: VmOpCode, left: VmObject, right: VmObject },
    /// The value of an operator on one number with a fractional part. The
    /// answer goes to `give_value`.
    Unary { opcode: VmOpCode, operand: VmObject },
}

/// How an instruction, or a run, ended.
#[derive(Debug, PartialEq)]
pub enum VmSignal {
    Next,
    Halted,
    Fault(String),
    Output(String),
    Request(HostRequest),
}

impl View for HostRequest {
    type V = RequestView;

    open spec fn view(&self) -> RequestView {
        match *self {
            HostRequest::ReadLine => RequestView::ReadLine,
            HostRequest::Binary { opcode, left, right } => RequestView::Binary {
                opcode,
                left: left@,
                right: right@,
            },
            HostRequest::Unary { opcode, operand } => RequestView::Unary { opcode, operand: operand@ },
        }
    }
}

impl View for VmSignal {
    type V = SignalView;

    open spec fn view(&self) -> SignalView {
        match *self {
            VmSignal::Next => SignalView::Next,
            VmSignal::Halted => SignalView::Halted,
            VmSignal::Fault(message) => SignalView::Fault(message@),
            VmSignal::Output(text) => SignalView::Output(text@),
            VmSignal::Request(request) => SignalView::Request(request@),
        }
    }
}

/// The memories of a list of storages.
pub open spec fn memories_of(storages: Seq<StaticStorage>) -> Seq<Seq<PrimativeView>> {
    storages.map_values(|storage: StaticStorage| storage.memory_views())
}

/// The captured output as a mathematical value.
pub open spec fn captured(stdout: Option<String>) -> Option<Seq<char>> {
    match stdout {
        Some(text) => Some(text@),
        None => None,
    }
}

/// What a storage keeps through a run: everything but what its memory and
/// its stack hold.
pub open spec fn storage_kept(after: StaticStorage, before: StaticStorage) -> bool {
    &&& after.index == before.index
    &&& after.constants == before.constants
    &&& after.constant_size == before.constant_size
    &&& after.temp_size == before.temp_size
    &&& after.temp_counter == before.temp_counter
    &&& after.variables == before.variables
    &&& after.total_const_variables == before.total_const_variables
    &&& after.parent_location == before.parent_location
    &&& after.memory@.len() == before.memory@.len()
}

impl KaramelCompilerContext {
    /// The state of the machine.
    pub open spec fn state(&self) -> VmState {
        VmState {
            opcodes: self.opcodes@,
            ip: self.opcode_index as int,
            scope: self.storage_index as int,
            memories: memories_of(self.storages@),
            stack: if self.storage_index < self.storages@.len() {
                self.storages@[self.storage_index as int].stack_views()
            } else {
                Seq::empty()
            },
            stdout: captured(self.stdout),
        }
    }

    /// What a run keeps of a context: the code, the running scope, the
    /// modules, the captured errors, the number of storages, the stacks of
    /// the other scopes, and of every storage all but what its memory and
    /// its stack hold.
    pub open spec fn framed(&self, before: &KaramelCompilerContext) -> bool {
        &&& self.opcodes == before.opcodes
        &&& self.storage_index == before.storage_index
        &&& self.modules == before.modules
        &&& self.stderr == before.stderr
        &&& self.storages@.len() == before.storages@.len()
        &&& forall|i: int|
            0 <= i < self.storages@.len() ==> storage_kept(
                #[trigger] self.storages@[i],
                before.storages@[i],
            )
        &&& forall|i: int|
            0 <= i < self.storages@.len() && i != self.storage_index ==> (
            #[trigger] self.storages@[i]).stack == before.storages@[i].stack
    }

    /// The state and the signal are what the machine makes of `before`.
    pub open spec fn moved(&self, before: &KaramelCompilerContext, signal: VmSignal, expected: Stepped) -> bool {
        &&& self.state() == expected.state
        &&& signal@ == expected.signal
        &&& self.framed(before)
    }
}

/// A fault with `message`.
fn fault(message: &str) -> (signal: VmSignal)
    ensures
        signal@ == SignalView::Fault(message@),
{
    VmSignal::Fault(crate::text::copy_text(message))
}

impl KaramelCompilerContext {
    /// The operand byte `offset` places behind the opcode.
    fn operand(&self, offset: usize) -> (byte: u8)
        requires
            self.opcode_index + offset < self.opcodes@.len(),
        ensures
            byte == machine::operand(self.state(), offset as int),
    {
        let length: usize = self.opcodes.len();
        assert(self.opcode_index + offset < length);
        self.opcodes[self.opcode_index + offset]
    }

    /// The number of values on the stack of the running scope.
    fn depth(&self) -> (count: usize)
        requires
            self.storage_index < self.storages@.len(),
        ensures
            count == self.state().stack.len(),
    {
        self.storages[self.storage_index].stack.len()
    }

    /// The value `below` places under the top of the stack.
    fn peek(&self, below: usize) -> (value: VmObject)
        requires
            self.storage_index < self.storages@.len(),
            below < self.state().stack.len(),
        ensures
            value@ == self.state().stack[self.state().stack.len() - 1 - below],
            value == self.storages@[self.storage_index as int].stack@[self.state().stack.len() - 1
                - below],
    {
        let stack = &self.storages[self.storage_index].stack;
        stack[stack.len() - 1 - below].copy()
    }

    /// Puts a value on the stack.
    fn push(&mut self, value: VmObject)
        requires
            old(self).storage_index < old(self).storages@.len(),
        ensures
            final(self).state() == (VmState {
                stack: old(self).state().stack.push(value@),
                ..old(self).state()
            }),
            final(self).framed(old(self)),
            final(self).opcode_index == old(self).opcode_index,
    {
        let scope: usize = self.storage_index;
        let ghost before = self.storages@;
        self.storages[scope].stack.push(value);
        proof {
            assert(self.storages@[scope as int].stack_views() =~= before[scope as int].stack_views().push(
                value@,
            ));
            assert(memories_of(self.storages@) =~= memories_of(before));
        }
    }

    /// Takes `count` values off the stack.
    fn drop_values(&mut self, count: usize)
        requires
            old(self).storage_index < old(self).storages@.len(),
            count <= old(self).state().stack.len(),
        ensures
            final(self).state() == (VmState {
                stack: old(self).state().stack.take(old(self).state().stack.len() - count),
                ..old(self).state()
            }),
            final(self).framed(old(self)),
            final(self).opcode_index == old(self).opcode_index,
    {
        let scope: usize = self.storage_index;
        let ghost before = self.storages@;
        let keep: usize = self.storages[scope].stack.len() - count;
        self.storages[scope].stack.truncate(keep);
        proof {
            assert(self.storages@[scope as int].stack_views() =~= before[scope as int].stack_views().take(
                keep as int,
            ));
            assert(memories_of(self.storages@) =~= memories_of(before));
        }
    }

    /// The value in a slot of a scope.
    fn read(&self, scope: usize, slot: usize) -> (value: Option<VmObject>)
        ensures
            match value {
                Some(found) => scope < self.state().memories.len() && slot
                    < self.state().memories[scope as int].len() && found@
                    == self.state().memories[scope as int][slot as int] && found
                    == self.storages@[scope as int].memory@[slot as int],
                None => scope >= self.state().memories.len() || slot
                    >= self.state().memories[scope as int].len(),
            },
    {
        if scope < self.storages.len() && slot < self.storages[scope].memory.len() {
            Some(self.storages[scope].memory[slot].copy())
        } else {
            None
        }
    }

    /// Puts a value into a slot of a scope.
    fn write(&mut self, scope: usize, slot: usize, value: VmObject)
        requires
            scope < old(self).state().memories.len(),
            slot < old(self).state().memories[scope as int].len(),
        ensures
            final(self).state() == machine::stored(
                old(self).state(),
                scope as int,
                slot as int,
                value@,
            ),
            final(self).framed(old(self)),
            final(self).opcode_index == old(self).opcode_index,
    {
        let ghost before = self.storages@;
        self.storages[scope].memory[slot] = value;
        proof {
            assert(self.storages@[scope as int].memory_views() =~= before[scope as int].memory_views().update(
                slot as int,
                value@,
            ));
            assert(memories_of(self.storages@) =~= memories_of(before).update(
                scope as int,
                before[scope as int].memory_views().update(slot as int, value@),
            ));
        }
    }
}

/// The views of the topmost `count` values of a stack are the topmost
/// `count` of the views.
pub proof fn top_views(stack: Seq<VmObject>, count: int)
    requires
        0 <= count <= stack.len(),
    ensures
        object_views(stack.subrange(stack.len() - count, stack.len() as int)) == object_views(
            stack,
        ).skip(stack.len() - count),
{
    assert(object_views(stack.subrange(stack.len() - count, stack.len() as int)) =~= object_views(
        stack,
    ).skip(stack.len() - count));
}

impl KaramelCompilerContext {
    /// The place `by` bytes behind the cursor, inside the code or just
    /// behind it.
    fn ahead(&self, by: usize) -> (ip: usize)
        requires
            self.opcode_index + by <= self.opcodes@.len(),
        ensures
            ip == self.opcode_index + by,
    {
        let length: usize = self.opcodes.len();
        assert(self.opcode_index + by <= length);
        self.opcode_index + by
    }

    /// Moves the cursor.
    fn go(&mut self, ip: usize)
        ensures
            final(self).state() == (VmState { ip: ip as int, ..old(self).state() }),
            final(self).framed(old(self)),
    {
        self.opcode_index = ip;
    }

    /// Writes a text: into the captured output where output is captured, to
    /// the host otherwise. An empty text is not written.
    fn emit(&mut self, text: String) -> (signal: VmSignal)
        ensures
            final(self).framed(old(self)),
            text@.len() == 0 ==> signal@ == SignalView::Next && final(self).state() == old(
                self,
            ).state(),
            text@.len() > 0 ==> match old(self).state().stdout {
                Some(held) => signal@ == SignalView::Next && final(self).state() == (VmState {
                    stdout: Some(held + text@),
                    ..old(self).state()
                }),
                None => signal@ == SignalView::Output(text@) && final(self).state() == old(
                    self,
                ).state(),
            },
    {
        if text.as_str().unicode_len() == 0 {
            return VmSignal::Next;
        }
        match &mut self.stdout {
            Some(held) => {
                crate::text::push_text(held, text.as_str());
                VmSignal::Next
            },
            None => VmSignal::Output(text),
        }
    }

    /// Ends a call of five bytes.
    fn complete(&mut self, drop: usize, value: VmObject, text: String) -> (signal: VmSignal)
        requires
            old(self).storage_index < old(self).storages@.len(),
            old(self).opcode_index + 4 < old(self).opcodes@.len(),
            drop <= old(self).state().stack.len(),
        ensures
            final(self).moved(
                old(self),
                signal,
                machine::completed(old(self).state(), drop as int, value@, text@),
            ),
    {
        let kept: bool = self.operand(3) != 0;
        let slot: usize = self.operand(4) as usize;
        let scope: usize = self.storage_index;
        if kept {
            if slot >= self.storages[scope].memory.len() {
                return fault("Invalid memory address");
            }
            self.write(scope, slot, value);
        }
        self.drop_values(drop);
        let ip: usize = self.ahead(5);
        self.go(ip);
        self.emit(text)
    }

    fn step_load(&mut self) -> (signal: VmSignal)
        requires
            old(self).storage_index < old(self).storages@.len(),
            old(self).opcode_index < old(self).opcodes@.len(),
        ensures
            final(self).moved(old(self), signal, machine::loaded(old(self).state())),
    {
        if self.opcodes.len() - self.opcode_index <= 2 {
            return fault("Invalid instruction");
        }
        let scope: usize = self.operand(1) as usize;
        let slot: usize = self.operand(2) as usize;
        match self.read(scope, slot) {
            Some(value) => {
                self.push(value);
                let ip: usize = self.ahead(3);
                self.go(ip);
                VmSignal::Next
            },
            None => fault("Invalid memory address"),
        }
    }

    fn step_store(&mut self) -> (signal: VmSignal)
        requires
            old(self).storage_index < old(self).storages@.len(),
            old(self).opcode_index < old(self).opcodes@.len(),
        ensures
            final(self).moved(old(self), signal, machine::put(old(self).state())),
    {
        if self.opcodes.len() - self.opcode_index <= 2 {
            return fault("Invalid instruction");
        }
        if self.depth() == 0 {
            return fault("Stack underflow");
        }
        let scope: usize = self.operand(1) as usize;
        let slot: usize = self.operand(2) as usize;
        if scope >= self.storages.len() || slot >= self.storages[scope].memory.len() {
            return fault("Invalid memory address");
        }
        let value: VmObject = self.peek(0);
        self.write(scope, slot, value);
        self.drop_values(1);
        let ip: usize = self.ahead(3);
        self.go(ip);
        VmSignal::Next
    }

    fn step_binary(&mut self, opcode: VmOpCode) -> (signal: VmSignal)
        requires
            old(self).storage_index < old(self).storages@.len(),
            old(self).opcode_index < old(self).opcodes@.len(),
        ensures
            final(self).moved(old(self), signal, machine::combined(old(self).state(), opcode)),
    {
        if self.depth() < 2 {
            return fault("Stack underflow");
        }
        let left: VmObject = self.peek(1);
        let right: VmObject = self.peek(0);
        match execute_binary(opcode, &left, &right) {
            Evaluation::Value(value) => {
                self.drop_values(2);
                self.push(value);
                let ip: usize = self.ahead(1);
                self.go(ip);
                VmSignal::Next
            },
            Evaluation::Fault(message) => fault(message),
            Evaluation::Host => VmSignal::Request(HostRequest::Binary { opcode, left, right }),
        }
    }

    fn step_unary(&mut self, opcode: VmOpCode) -> (signal: VmSignal)
        requires
            old(self).storage_index < old(self).storages@.len(),
            old(self).opcode_index < old(self).opcodes@.len(),
        ensures
            final(self).moved(old(self), signal, machine::changed(old(self).state(), opcode)),
    {
        if self.depth() < 1 {
            return fault("Stack underflow");
        }
        let operand: VmObject = self.peek(0);
        match execute_unary(opcode, &operand) {
            Evaluation::Value(value) => {
                self.drop_values(1);
                self.push(value);
                let ip: usize = self.ahead(1);
                self.go(ip);
                VmSignal::Next
            },
            Evaluation::Fault(message) => fault(message),
            Evaluation::Host => VmSignal::Request(HostRequest::Unary { opcode, operand }),
        }
    }

    /// The place behind the instruction of three bytes at the cursor and the
    /// distance that it writes, where that place is in the code or just
    /// behind it.
    fn target(&self) -> (place: Option<usize>)
        requires
            self.opcode_index + 2 < self.opcodes@.len(),
        ensures
            match place {
                Some(ip) => ip == self.opcode_index + 3 + machine::distance(self.state()) && ip
                    <= self.opcodes@.len(),
                None => self.opcode_index + 3 + machine::distance(self.state())
                    > self.opcodes@.len(),
            },
    {
        let distance: usize = (self.operand(1) as usize) * 256 + self.operand(2) as usize;
        let room: usize = self.opcodes.len() - self.opcode_index - 3;
        if distance <= room {
            Some(self.opcode_index + 3 + distance)
        } else {
            None
        }
    }

    fn step_jump(&mut self) -> (signal: VmSignal)
        requires
            old(self).storage_index < old(self).storages@.len(),
            old(self).opcode_index < old(self).opcodes@.len(),
        ensures
            final(self).moved(old(self), signal, machine::jumped(old(self).state())),
    {
        if self.opcodes.len() - self.opcode_index <= 2 {
            return fault("Invalid instruction");
        }
        match self.target() {
            Some(ip) => {
                self.go(ip);
                VmSignal::Next
            },
            None => fault("Invalid jump"),
        }
    }

    fn step_compare(&mut self) -> (signal: VmSignal)
        requires
            old(self).storage_index < old(self).storages@.len(),
            old(self).opcode_index < old(self).opcodes@.len(),
        ensures
            final(self).moved(old(self), signal, machine::branched(old(self).state())),
    {
        if self.opcodes.len() - self.opcode_index <= 2 {
            return fault("Invalid instruction");
        }
        if self.depth() == 0 {
            return fault("Stack underflow");
        }
        let value: VmObject = self.peek(0);
        if value.value.is_true() {
            self.drop_values(1);
            let ip: usize = self.ahead(3);
            self.go(ip);
            VmSignal::Next
        } else {
            match self.target() {
                Some(ip) => {
                    self.drop_values(1);
                    self.go(ip);
                    VmSignal::Next
                },
                None => fault("Invalid jump"),
            }
        }
    }

    fn step_init_list(&mut self) -> (signal: VmSignal)
        requires
            old(self).storage_index < old(self).storages@.len(),
            old(self).opcode_index < old(self).opcodes@.len(),
        ensures
            final(self).moved(old(self), signal, machine::listed(old(self).state())),
    {
        if self.opcodes.len() - self.opcode_index <= 1 {
            return fault("Invalid instruction");
        }
        let count: usize = self.operand(1) as usize;
        let depth: usize = self.depth();
        if depth < count {
            return fault("Stack underflow");
        }
        let mut items: Vec<VmObject> = Vec::new();
        let mut i: usize = 0;
        while i < count
            invariant
                i <= count,
                count <= depth,
                self.storage_index < self.storages@.len(),
                depth == self.state().stack.len(),
                object_views(items@) == self.state().stack.subrange(
                    depth - count,
                    depth - count + i,
                ),
            decreases count - i,
        {
            let value: VmObject = self.peek(count - 1 - i);
            let ghost before = object_views(items@);
            items.push(value);
            assert(object_views(items@) =~= before.push(value@));
            i += 1;
            assert(object_views(items@) =~= self.state().stack.subrange(
                depth - count,
                depth - count + i,
            ));
        }
        proof {
            list_view_is_item_views(items);
            assert(self.state().stack.subrange(depth - count, depth as int) =~= self.state().stack.skip(
                depth - count,
            ));
        }
        self.drop_values(count);
        self.push(VmObject::from(BramaPrimative::List(items)));
        let ip: usize = self.ahead(2);
        self.go(ip);
        VmSignal::Next
    }

    fn step_pop(&mut self) -> (signal: VmSignal)
        requires
            old(self).storage_index < old(self).storages@.len(),
            old(self).opcode_index < old(self).opcodes@.len(),
        ensures
            final(self).moved(old(self), signal, machine::popped(old(self).state())),
    {
        if self.depth() == 0 {
            return fault("Stack underflow");
        }
        self.drop_values(1);
        let ip: usize = self.ahead(1);
        self.go(ip);
        VmSignal::Next
    }
}

/// What a native call answered, and what it wrote.
pub struct NativeAnswer {
    pub result: NativeCallResult,
    pub text: String,
}

/// What a native entry point other than reading a line answers for the
/// topmost `count` values of a stack, and what it writes.
pub open spec fn native_value(callback: NativeCall, arguments: Seq<PrimativeView>) -> (
    Result<PrimativeView, Seq<char>>,
    Seq<char>,
) {
    match callback {
        NativeCall::Assert => (crate::buildin::debug::assertion(arguments), Seq::empty()),
        NativeCall::Print => (
            Ok(PrimativeView::Empty),
            crate::buildin::io::written(arguments, arguments.len()),
        ),
        NativeCall::PrintLine => (
            Ok(PrimativeView::Empty),
            crate::buildin::io::written(arguments, arguments.len()) + "\r\n"@,
        ),
        NativeCall::Format => (Ok(crate::buildin::io::formatted(arguments)), Seq::empty()),
        _ => (Err(machine::message_function()), Seq::empty()),
    }
}

/// Calls a native entry point on the topmost `count` values of a stack.
/// Where the stack holds fewer values, no function is called.
pub fn call_native(callback: NativeCall, stack: &Vec<VmObject>, count: u8) -> (answer: NativeAnswer)
    ensures
        count <= stack@.len() ==> native_result_view(answer.result) == native_value(
            callback,
            object_views(stack@).skip(stack@.len() - count),
        ).0 && answer.text@ == native_value(
            callback,
            object_views(stack@).skip(stack@.len() - count),
        ).1,
        count > stack@.len() ==> native_result_view(answer.result) == Err::<
            PrimativeView,
            Seq<char>,
        >(machine::message_function()) && answer.text@ == Seq::<char>::empty(),
{
    proof {
        if count <= stack@.len() {
            top_views(stack@, count as int);
        }
    }
    let mut text: String = String::new();
    match FunctionParameter::new(stack, count) {
        Some(parameter) => {
            let ghost arguments = parameter.argument_views();
            assert(arguments == object_views(stack@).skip(stack@.len() - count));
            assert(arguments.len() == count);
            let result: NativeCallResult = match callback {
                NativeCall::Assert => DebugModule::assert_that(parameter),
                NativeCall::Print => IoModule::print(parameter, &mut text),
                NativeCall::PrintLine => {
                    let result = IoModule::printline(parameter, &mut text);
                    assert(text@ =~= crate::buildin::io::written(arguments, arguments.len())
                        + "\r\n"@);
                    result
                },
                NativeCall::Format => IoModule::format(parameter),
                _ => Err(crate::text::copy_text("Function not found")),
            };
            assert(text@ =~= native_value(callback, arguments).1);
            NativeAnswer { result, text }
        },
        None => NativeAnswer { result: Err(crate::text::copy_text("Function not found")), text },
    }
}

/// The number of items of a list or of characters of a text.
pub fn call_method(receiver: &VmObject, name: &str, count: u8) -> (result: Evaluation)
    ensures
        count == 0 ==> result@ == machine::method_value(receiver@, name@, Seq::empty()),
        count != 0 ==> result@ == Evaluated::Fault(machine::message_method()),
{
    if count != 0 || !crate::text::same_text(name, "uzunluk") {
        return Evaluation::Fault("Method not found");
    }
    match &*receiver.value {
        BramaPrimative::List(items) => {
            proof {
                list_view_is_item_views(*items);
            }
            crate::vm::arithmetic::signed_value(false, items.len() as u64)
        },
        BramaPrimative::Text(content) => crate::vm::arithmetic::signed_value(
            false,
            content.as_str().unicode_len() as u64,
        ),
        _ => Evaluation::Fault("Method not found"),
    }
}

impl KaramelCompilerContext {
    /// The native entry point of the function in a slot of the running
    /// scope, where the slot holds a function.
    fn function_in(&self, slot: usize) -> (callback: Option<NativeCall>)
        requires
            self.storage_index < self.storages@.len(),
            slot < self.state().memories[self.storage_index as int].len(),
        ensures
            match callback {
                Some(native) => machine::memory(self.state())[slot as int] is Function
                    && machine::memory(self.state())[slot as int]->Function_0.callback == native,
                None => !(machine::memory(self.state())[slot as int] is Function),
            },
    {
        match &*self.storages[self.storage_index].memory[slot].value {
            BramaPrimative::Function(reference) => Some(reference.callback),
            _ => None,
        }
    }

    /// The text in a slot of the running scope, where the slot holds a text.
    fn text_in(&self, slot: usize) -> (text: Option<String>)
        requires
            self.storage_index < self.storages@.len(),
            slot < self.state().memories[self.storage_index as int].len(),
        ensures
            match text {
                Some(content) => machine::memory(self.state())[slot as int]
                    == PrimativeView::Text(content@),
                None => !(machine::memory(self.state())[slot as int] is Text),
            },
    {
        match &*self.storages[self.storage_index].memory[slot].value {
            BramaPrimative::Text(content) => Some(crate::text::copy_text(content.as_str())),
            _ => None,
        }
    }

    fn step_call(&mut self) -> (signal: VmSignal)
        requires
            old(self).storage_index < old(self).storages@.len(),
            old(self).opcode_index < old(self).opcodes@.len(),
        ensures
            final(self).moved(old(self), signal, machine::called(old(self).state())),
    {
        if self.opcodes.len() - self.opcode_index <= 4 {
            return fault("Invalid instruction");
        }
        let scope: usize = self.storage_index;
        let slot: usize = self.operand(1) as usize;
        let count: u8 = self.operand(2);
        if slot >= self.storages[scope].memory.len() {
            return fault("Invalid memory address");
        }
        let callback: NativeCall = match self.function_in(slot) {
            Some(callback) => callback,
            None => {
                return fault("Function not found");
            },
        };
        if self.depth() < count as usize {
            return fault("Stack underflow");
        }
        match callback {
            NativeCall::ReadLine => VmSignal::Request(HostRequest::ReadLine),
            _ => {
                let answer: NativeAnswer = call_native(callback, &self.storages[scope].stack, count);
                match answer.result {
                    Ok(value) => self.complete(count as usize, value, answer.text),
                    Err(message) => VmSignal::Fault(message),
                }
            },
        }
    }

    fn step_call_method(&mut self) -> (signal: VmSignal)
        requires
            old(self).storage_index < old(self).storages@.len(),
            old(self).opcode_index < old(self).opcodes@.len(),
        ensures
            final(self).moved(old(self), signal, machine::method_called(old(self).state())),
    {
        if self.opcodes.len() - self.opcode_index <= 4 {
            return fault("Invalid instruction");
        }
        let scope: usize = self.storage_index;
        let slot: usize = self.operand(1) as usize;
        let count: u8 = self.operand(2);
        if slot >= self.storages[scope].memory.len() {
            return fault("Invalid memory address");
        }
        let name: String = match self.text_in(slot) {
            Some(name) => name,
            None => {
                return fault("Method not found");
            },
        };
        if self.depth() < count as usize + 1 {
            return fault("Stack underflow");
        }
        let receiver: VmObject = self.peek(count as usize);
        proof {
            let stack = self.state().stack;
            if count == 0 {
                assert(machine::call_arguments(self.state()) =~= Seq::empty());
            } else {
                assert(machine::call_arguments(self.state()).len() != 0);
            }
        }
        match call_method(&receiver, name.as_str(), count) {
            Evaluation::Value(value) => self.complete(count as usize + 1, value, String::new()),
            Evaluation::Fault(message) => fault(message),
            Evaluation::Host => fault("Method not found"),
        }
    }

    /// Runs the instruction at the cursor.
    pub fn step(&mut self) -> (signal: VmSignal)
        ensures
            final(self).moved(old(self), signal, machine::stepped(old(self).state())),
    {
        if self.storage_index >= self.storages.len() {
            assert(memories_of(self.storages@).len() == self.storages@.len());
            return fault("Invalid scope");
        }
        assert(memories_of(self.storages@).len() == self.storages@.len());
        if self.opcode_index >= self.opcodes.len() {
            return fault("Invalid instruction");
        }
        match VmOpCode::from_byte(self.opcodes[self.opcode_index]) {
            None => fault("Invalid instruction"),
            Some(opcode) => match opcode {
                VmOpCode::Halt => VmSignal::Halted,
                VmOpCode::Load => self.step_load(),
                VmOpCode::Store => self.step_store(),
                VmOpCode::Not => self.step_unary(opcode),
                VmOpCode::Negate => self.step_unary(opcode),
                VmOpCode::Jump => self.step_jump(),
                VmOpCode::Compare => self.step_compare(),
                VmOpCode::InitList => self.step_init_list(),
                VmOpCode::Call => self.step_call(),
                VmOpCode::CallMethod => self.step_call_method(),
                VmOpCode::Pop => self.step_pop(),
                _ => self.step_binary(opcode),
            },
        }
    }

    /// Hands the machine the value that it asked the host for: the operands
    /// of the waiting operator give way to the value. Where no operator
    /// waits, this is a fault and nothing changes.
    pub fn give_value(&mut self, value: VmObject) -> (signal: VmSignal)
        ensures
            final(self).moved(old(self), signal, machine::answered(old(self).state(), value@)),
    {
        if self.storage_index >= self.storages.len() || self.opcode_index >= self.opcodes.len() {
            assert(memories_of(self.storages@).len() == self.storages@.len());
            return fault("No request is pending");
        }
        assert(memories_of(self.storages@).len() == self.storages@.len());
        let opcode: VmOpCode = match VmOpCode::from_byte(self.opcodes[self.opcode_index]) {
            Some(opcode) => opcode,
            None => {
                return fault("No request is pending");
            },
        };
        match opcode {
            VmOpCode::Halt | VmOpCode::Load | VmOpCode::Store | VmOpCode::Jump | VmOpCode::Compare | VmOpCode::InitList | VmOpCode::Call | VmOpCode::CallMethod | VmOpCode::Pop => fault(
                "No request is pending",
            ),
            VmOpCode::Not | VmOpCode::Negate => {
                if self.depth() < 1 {
                    return fault("No request is pending");
                }
                let operand: VmObject = self.peek(0);
                match execute_unary(opcode, &operand) {
                    Evaluation::Host => {
                        self.drop_values(1);
                        self.push(value);
                        let ip: usize = self.ahead(1);
                        self.go(ip);
                        VmSignal::Next
                    },
                    _ => fault("No request is pending"),
                }
            },
            _ => {
                if self.depth() < 2 {
                    return fault("No request is pending");
                }
                let left: VmObject = self.peek(1);
                let right: VmObject = self.peek(0);
                match execute_binary(opcode, &left, &right) {
                    Evaluation::Host => {
                        self.drop_values(2);
                        self.push(value);
                        let ip: usize = self.ahead(1);
                        self.go(ip);
                        VmSignal::Next
                    },
                    _ => fault("No request is pending"),
                }
            },
        }
    }

    /// Hands the machine the line that it asked the host for, or the news
    /// that none could be read: the waiting call ends with the value of the
    /// line. Where no call waits, this is a fault and nothing changes.
    pub fn give_line(&mut self, line: Option<String>) -> (signal: VmSignal)
        ensures
            final(self).moved(
                old(self),
                signal,
                machine::line_given(
                    old(self).state(),
                    match line {
                        Some(text) => Some(text@),
                        None => None,
                    },
                ),
            ),
    {
        if self.storage_index >= self.storages.len() || self.opcode_index >= self.opcodes.len() {
            assert(memories_of(self.storages@).len() == self.storages@.len());
            return fault("No request is pending");
        }
        assert(memories_of(self.storages@).len() == self.storages@.len());
        match VmOpCode::from_byte(self.opcodes[self.opcode_index]) {
            Some(VmOpCode::Call) => {},
            _ => {
                return fault("No request is pending");
            },
        }
        if self.opcodes.len() - self.opcode_index <= 4 {
            return fault("No request is pending");
        }
        let scope: usize = self.storage_index;
        let slot: usize = self.operand(1) as usize;
        let count: u8 = self.operand(2);
        if slot >= self.storages[scope].memory.len() {
            return fault("No request is pending");
        }
        match self.function_in(slot) {
            Some(NativeCall::ReadLine) => {},
            _ => {
                return fault("No request is pending");
            },
        }
        if self.depth() < count as usize {
            return fault("No request is pending");
        }
        match IoModule::readline(line) {
            Ok(value) => self.complete(count as usize, value, String::new()),
            Err(message) => VmSignal::Fault(message),
        }
    }
}

/// Runs the code from the cursor on, until an instruction halts, fails,
/// writes to the host or waits for the host.
pub fn run_vm(context: &mut KaramelCompilerContext) -> (signal: VmSignal)
    ensures
        final(context).moved(old(context), signal, machine::ran(old(context).state())),
{
    loop
        invariant
            context.framed(old(context)),
            machine::ran(old(context).state()) == machine::ran(context.state()),
        decreases context.opcodes@.len() - context.opcode_index,
    {
        let ghost before = context.state();
        let start: usize = context.opcode_index;
        let signal: VmSignal = context.step();
        proof {
            machine::step_progresses(before);
        }
        match signal {
            VmSignal::Next => {
                if context.opcode_index <= start || context.opcode_index > context.opcodes.len() {
                    return signal;
                }
            },
            _ => {
                return signal;
            },
        }
    }
}

} // verus!
