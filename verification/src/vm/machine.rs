//! The machine as mathematics: its state, and what one instruction makes of
//! a state.
//!
//! Every jump goes forward, so a run ends after at most as many
//! instructions as the code has bytes.

use vstd::prelude::*;
use crate::buildin::debug::assertion;
use crate::buildin::io::formatted;
use crate::buildin::io::line_value;
use crate::buildin::io::written;
use crate::compiler::VmOpCode;
use crate::compiler::byte_opcode;
use crate::compiler::function::NativeCall;
use crate::compiler::value::PrimativeView;
use crate::compiler::value::truthy;
use crate::vm::arithmetic::Evaluated;
use crate::vm::arithmetic::evaluated;
use crate::vm::arithmetic::evaluated_unary;
use crate::vm::arithmetic::integer_or_overflow;

verus! {

/// What the machine works on: the code and the place in it, the memory of
/// every scope, the operand stack of the running scope, and the captured
/// output where output is captured.
pub struct VmState {
    pub opcodes: Seq<u8>,
    pub ip: int,
    pub scope: int,
    pub memories: Seq<Seq<PrimativeView>>,
    pub stack: Seq<PrimativeView>,
    pub stdout: Option<Seq<char>>,
}

/// What the machine asks of the host.
pub enum RequestView {
    /// A line of input.
    ReadLine,
    /// The value of a binary operator on numbers of which one has a
    /// fractional part.
    Binary { opcode: VmOpCode, left: PrimativeView, right: PrimativeView },
    /// The value of an operator on one number with a fractional part.
    Unary { opcode: VmOpCode, operand: PrimativeView },
}

/// How an instruction ended.
pub enum SignalView {
    /// The next instruction can run.
    Next,
    /// The program is over.
    Halted,
    /// The program failed.
    Fault(Seq<char>),
    /// The program wrote this text and output is not captured: the host
    /// writes it out, and the next instruction can run.
    Output(Seq<char>),
    /// The instruction waits for the host's answer.
    Request(RequestView),
}

/// A state and how the instruction that led to it ended.
pub struct Stepped {
    pub state: VmState,
    pub signal: SignalView,
}

/// The state stays and the program fails with `message`.
pub open spec fn fault(state: VmState, message: Seq<char>) -> Stepped {
    Stepped { state, signal: SignalView::Fault(message) }
}

/// The state becomes `state` and the next instruction can run.
pub open spec fn next(state: VmState) -> Stepped {
    Stepped { state, signal: SignalView::Next }
}

/// The message for a byte that starts no instruction, for an instruction
/// that the code cuts short, and for a cursor outside the code.
pub open spec fn message_instruction() -> Seq<char> {
    "Invalid instruction"@
}

/// The message for a slot that memory does not have.
pub open spec fn message_address() -> Seq<char> {
    "Invalid memory address"@
}

/// The message for a stack that holds too few values.
pub open spec fn message_underflow() -> Seq<char> {
    "Stack underflow"@
}

/// The message for a jump beyond the code.
pub open spec fn message_jump() -> Seq<char> {
    "Invalid jump"@
}

/// The message for a call of what is no function.
pub open spec fn message_function() -> Seq<char> {
    "Function not found"@
}

/// The message for a method that a value does not have.
pub open spec fn message_method() -> Seq<char> {
    "Method not found"@
}

/// The message for a running scope that does not exist.
pub open spec fn message_scope() -> Seq<char> {
    "Invalid scope"@
}

/// The message for an answer that no instruction waits for.
pub open spec fn message_pending() -> Seq<char> {
    "No request is pending"@
}

/// The operand byte `offset` places behind the opcode.
pub open spec fn operand(state: VmState, offset: int) -> int {
    state.opcodes[state.ip + offset] as int
}

/// The distance that the two operand bytes of a jump write.
pub open spec fn distance(state: VmState) -> int {
    operand(state, 1) * 256 + operand(state, 2)
}

/// The memory of the running scope.
pub open spec fn memory(state: VmState) -> Seq<PrimativeView> {
    state.memories[state.scope]
}

/// The state with `value` in slot `slot` of scope `scope`.
pub open spec fn stored(state: VmState, scope: int, slot: int, value: PrimativeView) -> VmState {
    VmState { memories: state.memories.update(scope, state.memories[scope].update(slot, value)), ..state }
}

/// `Load`: the value of a slot goes onto the stack.
pub open spec fn loaded(state: VmState) -> Stepped {
    if state.ip + 2 >= state.opcodes.len() {
        fault(state, message_instruction())
    } else if operand(state, 1) >= state.memories.len() || operand(state, 2)
        >= state.memories[operand(state, 1)].len() {
        fault(state, message_address())
    } else {
        next(
            VmState {
                stack: state.stack.push(state.memories[operand(state, 1)][operand(state, 2)]),
                ip: state.ip + 3,
                ..state
            },
        )
    }
}

/// `Store`: the top of the stack goes into a slot.
pub open spec fn put(state: VmState) -> Stepped {
    if state.ip + 2 >= state.opcodes.len() {
        fault(state, message_instruction())
    } else if state.stack.len() == 0 {
        fault(state, message_underflow())
    } else if operand(state, 1) >= state.memories.len() || operand(state, 2)
        >= state.memories[operand(state, 1)].len() {
        fault(state, message_address())
    } else {
        next(
            VmState {
                stack: state.stack.drop_last(),
                ip: state.ip + 3,
                ..stored(state, operand(state, 1), operand(state, 2), state.stack.last())
            },
        )
    }
}

/// A binary operator: the two topmost values give way to its value.
pub open spec fn combined(state: VmState, opcode: VmOpCode) -> Stepped {
    if state.stack.len() < 2 {
        fault(state, message_underflow())
    } else {
        let left = state.stack[state.stack.len() - 2];
        let right = state.stack[state.stack.len() - 1];
        match evaluated(opcode, left, right) {
            Evaluated::Value(value) => next(
                VmState {
                    stack: state.stack.take(state.stack.len() - 2).push(value),
                    ip: state.ip + 1,
                    ..state
                },
            ),
            Evaluated::Fault(message) => fault(state, message),
            Evaluated::Host => Stepped {
                state,
                signal: SignalView::Request(RequestView::Binary { opcode, left, right }),
            },
        }
    }
}

/// An operator on one value: the top of the stack gives way to its value.
pub open spec fn changed(state: VmState, opcode: VmOpCode) -> Stepped {
    if state.stack.len() < 1 {
        fault(state, message_underflow())
    } else {
        let operand = state.stack.last();
        match evaluated_unary(opcode, operand) {
            Evaluated::Value(value) => next(
                VmState { stack: state.stack.drop_last().push(value), ip: state.ip + 1, ..state },
            ),
            Evaluated::Fault(message) => fault(state, message),
            Evaluated::Host => Stepped {
                state,
                signal: SignalView::Request(RequestView::Unary { opcode, operand }),
            },
        }
    }
}

/// `Jump`: the run goes on behind the instruction and the distance.
pub open spec fn jumped(state: VmState) -> Stepped {
    if state.ip + 2 >= state.opcodes.len() {
        fault(state, message_instruction())
    } else if state.ip + 3 + distance(state) > state.opcodes.len() {
        fault(state, message_jump())
    } else {
        next(VmState { ip: state.ip + 3 + distance(state), ..state })
    }
}

/// `Compare`: the top of the stack leaves; where it is not true, the run
/// jumps.
pub open spec fn branched(state: VmState) -> Stepped {
    if state.ip + 2 >= state.opcodes.len() {
        fault(state, message_instruction())
    } else if state.stack.len() == 0 {
        fault(state, message_underflow())
    } else if truthy(state.stack.last()) {
        next(VmState { stack: state.stack.drop_last(), ip: state.ip + 3, ..state })
    } else if state.ip + 3 + distance(state) > state.opcodes.len() {
        fault(state, message_jump())
    } else {
        next(VmState { stack: state.stack.drop_last(), ip: state.ip + 3 + distance(state), ..state })
    }
}

/// `InitList`: as many topmost values as the operand says give way to one
/// list that holds them, the deepest first.
pub open spec fn listed(state: VmState) -> Stepped {
    if state.ip + 1 >= state.opcodes.len() {
        fault(state, message_instruction())
    } else if state.stack.len() < operand(state, 1) {
        fault(state, message_underflow())
    } else {
        let count = operand(state, 1);
        next(
            VmState {
                stack: state.stack.take(state.stack.len() - count).push(
                    PrimativeView::List(state.stack.skip(state.stack.len() - count)),
                ),
                ip: state.ip + 2,
                ..state
            },
        )
    }
}

/// `Pop`: the top of the stack leaves.
pub open spec fn popped(state: VmState) -> Stepped {
    if state.stack.len() == 0 {
        fault(state, message_underflow())
    } else {
        next(VmState { stack: state.stack.drop_last(), ip: state.ip + 1, ..state })
    }
}

/// The end of a call of five bytes: `drop` values leave the stack, the
/// result goes into the temporary slot where the call asks for that, and
/// `text` is written: into the captured output where output is captured,
/// and to the host otherwise.
pub open spec fn completed(state: VmState, drop: int, value: PrimativeView, text: Seq<char>) -> Stepped {
    let kept = operand(state, 3) != 0;
    let slot = operand(state, 4);
    if kept && slot >= memory(state).len() {
        fault(state, message_address())
    } else {
        let placed = if kept {
            stored(state, state.scope, slot, value)
        } else {
            state
        };
        let after = VmState {
            stack: state.stack.take(state.stack.len() - drop),
            ip: state.ip + 5,
            ..placed
        };
        if text.len() == 0 {
            next(after)
        } else {
            match state.stdout {
                Some(captured) => next(VmState { stdout: Some(captured + text), ..after }),
                None => Stepped { state: after, signal: SignalView::Output(text) },
            }
        }
    }
}

/// Whether the instruction at the cursor is a call that is well formed: its
/// five bytes are there, the slot holds a function, and the stack holds the
/// arguments.
pub open spec fn call_ready(state: VmState) -> bool {
    &&& state.ip + 4 < state.opcodes.len()
    &&& operand(state, 1) < memory(state).len()
    &&& memory(state)[operand(state, 1)] is Function
    &&& state.stack.len() >= operand(state, 2)
}

/// The native entry point that the call at the cursor reaches.
pub open spec fn callee(state: VmState) -> NativeCall {
    memory(state)[operand(state, 1)]->Function_0.callback
}

/// The arguments of the call at the cursor.
pub open spec fn call_arguments(state: VmState) -> Seq<PrimativeView> {
    state.stack.skip(state.stack.len() - operand(state, 2))
}

/// `Call`: the native function in the slot is called on the topmost values.
pub open spec fn called(state: VmState) -> Stepped {
    if state.ip + 4 >= state.opcodes.len() {
        fault(state, message_instruction())
    } else if operand(state, 1) >= memory(state).len() {
        fault(state, message_address())
    } else if !(memory(state)[operand(state, 1)] is Function) {
        fault(state, message_function())
    } else if state.stack.len() < operand(state, 2) {
        fault(state, message_underflow())
    } else {
        let arguments = call_arguments(state);
        let count = operand(state, 2);
        match callee(state) {
            NativeCall::Assert => match assertion(arguments) {
                Ok(value) => completed(state, count, value, Seq::empty()),
                Err(message) => fault(state, message),
            },
            NativeCall::Print => completed(
                state,
                count,
                PrimativeView::Empty,
                written(arguments, arguments.len()),
            ),
            NativeCall::PrintLine => completed(
                state,
                count,
                PrimativeView::Empty,
                written(arguments, arguments.len()) + "\r\n"@,
            ),
            NativeCall::Format => completed(state, count, formatted(arguments), Seq::empty()),
            NativeCall::ReadLine => Stepped {
                state,
                signal: SignalView::Request(RequestView::ReadLine),
            },
        }
    }
}

/// What a method answers on a value. The one method is `uzunluk`, without
/// arguments: the number of items of a list, or of characters of a text.
pub open spec fn method_value(receiver: PrimativeView, name: Seq<char>, arguments: Seq<PrimativeView>) -> Evaluated {
    if name == "uzunluk"@ && arguments.len() == 0 {
        match receiver {
            PrimativeView::List(items) => integer_or_overflow(items.len() as int),
            PrimativeView::Text(content) => integer_or_overflow(content.len() as int),
            _ => Evaluated::Fault(message_method()),
        }
    } else {
        Evaluated::Fault(message_method())
    }
}

/// `CallMethod`: the method whose name is in the slot is called on the value
/// that lies under the arguments.
pub open spec fn method_called(state: VmState) -> Stepped {
    if state.ip + 4 >= state.opcodes.len() {
        fault(state, message_instruction())
    } else if operand(state, 1) >= memory(state).len() {
        fault(state, message_address())
    } else if !(memory(state)[operand(state, 1)] is Text) {
        fault(state, message_method())
    } else if state.stack.len() < operand(state, 2) + 1 {
        fault(state, message_underflow())
    } else {
        let count = operand(state, 2);
        let receiver = state.stack[state.stack.len() - count - 1];
        match method_value(
            receiver,
            memory(state)[operand(state, 1)]->Text_0,
            call_arguments(state),
        ) {
            Evaluated::Value(value) => completed(state, count + 1, value, Seq::empty()),
            Evaluated::Fault(message) => fault(state, message),
            Evaluated::Host => fault(state, message_method()),
        }
    }
}

/// What the instruction at the cursor makes of a state.
pub open spec fn stepped(state: VmState) -> Stepped {
    if !(0 <= state.scope < state.memories.len()) {
        fault(state, message_scope())
    } else if !(0 <= state.ip < state.opcodes.len()) {
        fault(state, message_instruction())
    } else {
        match byte_opcode(state.opcodes[state.ip]) {
            None => fault(state, message_instruction()),
            Some(opcode) => match opcode {
                VmOpCode::Halt => Stepped { state, signal: SignalView::Halted },
                VmOpCode::Load => loaded(state),
                VmOpCode::Store => put(state),
                VmOpCode::Not | VmOpCode::Negate => changed(state, opcode),
                VmOpCode::Jump => jumped(state),
                VmOpCode::Compare => branched(state),
                VmOpCode::InitList => listed(state),
                VmOpCode::Call => called(state),
                VmOpCode::CallMethod => method_called(state),
                VmOpCode::Pop => popped(state),
                _ => combined(state, opcode),
            },
        }
    }
}

/// What the host's value makes of a state whose instruction waits for it:
/// the operands give way to the value.
pub open spec fn answered(state: VmState, value: PrimativeView) -> Stepped {
    match stepped(state).signal {
        SignalView::Request(RequestView::Binary { .. }) => next(
            VmState {
                stack: state.stack.take(state.stack.len() - 2).push(value),
                ip: state.ip + 1,
                ..state
            },
        ),
        SignalView::Request(RequestView::Unary { .. }) => next(
            VmState { stack: state.stack.drop_last().push(value), ip: state.ip + 1, ..state },
        ),
        _ => fault(state, message_pending()),
    }
}

/// What the line that the host read makes of a state whose call waits for
/// it: the call ends with the value of the line.
pub open spec fn line_given(state: VmState, line: Option<Seq<char>>) -> Stepped {
    match stepped(state).signal {
        SignalView::Request(RequestView::ReadLine) => completed(
            state,
            operand(state, 2),
            line_value(line),
            Seq::empty(),
        ),
        _ => fault(state, message_pending()),
    }
}

/// An instruction after which the next can run has moved the cursor forward
/// and has left the code as it was.
pub open spec fn progressed(before: VmState, after: Stepped) -> bool {
    (after.signal is Next || after.signal is Output) ==> before.ip < after.state.ip
        <= before.opcodes.len() && after.state.opcodes == before.opcodes
}

/// What a run makes of a state: instruction after instruction, until one
/// ends otherwise than with leave for the next.
pub open spec fn ran(state: VmState) -> Stepped
    decreases state.opcodes.len() - state.ip,
{
    let after = stepped(state);
    if after.signal is Next && state.ip < after.state.ip <= state.opcodes.len()
        && after.state.opcodes == state.opcodes {
        ran(after.state)
    } else {
        after
    }
}

/// Every instruction that gives leave for the next moves the cursor forward
/// inside the code.
pub proof fn step_progresses(state: VmState)
    ensures
        progressed(state, stepped(state)),
        stepped(state).state.scope == state.scope,
        stepped(state).state.memories.len() == state.memories.len(),
{
}

} // verus!
