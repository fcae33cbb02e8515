//! What an expression means, and the proof that the machine computes it:
//! running the byte code of an expression leaves the value of the expression
//! on the stack, or ends as the expression fails.
//!
//! The proof covers expressions without calls: literals, names, lists, and
//! the operators.

use vstd::prelude::*;
use crate::types::BramaOperatorType;
use crate::compiler::VmOpCode;
use crate::compiler::opcode_byte;
use crate::compiler::ast::AstView;
use crate::compiler::code::Layout;
use crate::compiler::code::binary_opcode;
use crate::compiler::code::code_of;
use crate::compiler::code::codes_of;
use crate::compiler::code::constant_code;
use crate::compiler::code::constant_slot;
use crate::compiler::code::control_opcode;
use crate::compiler::code::instruction;
use crate::compiler::code::jump;
use crate::compiler::code::logical_code;
use crate::compiler::code::unary_opcode;
use crate::compiler::context::visible_slot;
use crate::compiler::value::PrimativeView;
use crate::compiler::value::truthy;
use crate::vm::arithmetic::Evaluated;
use crate::vm::arithmetic::evaluated;
use crate::vm::arithmetic::evaluated_unary;
use crate::vm::machine::SignalView;
use crate::vm::machine::Stepped;
use crate::vm::machine::VmState;
use crate::vm::machine::message_address;
use crate::vm::machine::ran;
use crate::vm::machine::step_progresses;
use crate::vm::machine::stepped;

verus! {

/// Whether a tree is an expression without calls.
pub open spec fn is_plain(node: AstView) -> bool
    decreases node, 0nat,
{
    match node {
        AstView::Primative(_) => true,
        AstView::Symbol { .. } => true,
        AstView::List(items) => all_plain(items, 0),
        AstView::Binary { left, right, .. } => is_plain(*left) && is_plain(*right),
        AstView::Control { left, right, .. } => is_plain(*left) && is_plain(*right),
        AstView::PrefixUnary(_, operand) => is_plain(*operand),
        _ => false,
    }
}

/// Whether the trees of a list from place `from` on are expressions without
/// calls.
pub open spec fn all_plain(nodes: Seq<AstView>, from: nat) -> bool
    decreases nodes, nodes.len() - from,
{
    if from >= nodes.len() {
        true
    } else {
        is_plain(nodes[from as int]) && all_plain(nodes, from + 1)
    }
}

/// What the items of a list mean: their values, or the failure of the first
/// item that fails.
pub enum Meanings {
    Values(Seq<PrimativeView>),
    Stopped(Evaluated),
}

/// What an expression without calls means in a memory: its value, its
/// fault, or the need for the host's arithmetic.
///
/// A literal means itself and a name the value in its slot. A list means
/// the list of what its items mean. An operator means what it computes on
/// what its operands mean, the left one first. `&&` means false where its
/// left side is not true, and the truth of its right side otherwise; `||`
/// means true where its left side is true, and the truth of its right side
/// otherwise.
pub open spec fn meaning(node: AstView, layout: Layout, memories: Seq<Seq<PrimativeView>>) -> Evaluated
    decreases node, 0nat,
{
    match node {
        AstView::Primative(value) => Evaluated::Value(value),
        AstView::Symbol { name, .. } => match visible_slot(layout.scopes, layout.scope, name) {
            Some(place) => if place.0 < memories.len() && place.1 < memories[place.0].len() {
                Evaluated::Value(memories[place.0][place.1 as int])
            } else {
                Evaluated::Fault(message_address())
            },
            None => Evaluated::Fault(message_address()),
        },
        AstView::List(items) => match meanings(items, 0, layout, memories) {
            Meanings::Values(values) => Evaluated::Value(PrimativeView::List(values)),
            Meanings::Stopped(failure) => failure,
        },
        AstView::Binary { left, operator, right } => match meaning(*left, layout, memories) {
            Evaluated::Value(a) => match meaning(*right, layout, memories) {
                Evaluated::Value(b) => match binary_opcode(operator) {
                    Some(opcode) => evaluated(opcode, a, b),
                    None => Evaluated::Fault(message_address()),
                },
                failure => failure,
            },
            failure => failure,
        },
        AstView::Control { left, operator, right } => match meaning(*left, layout, memories) {
            Evaluated::Value(a) => if operator == BramaOperatorType::And && !truthy(a) {
                Evaluated::Value(PrimativeView::Bool(false))
            } else if operator == BramaOperatorType::Or && truthy(a) {
                Evaluated::Value(PrimativeView::Bool(true))
            } else {
                match meaning(*right, layout, memories) {
                    Evaluated::Value(b) => if operator == BramaOperatorType::And || operator
                        == BramaOperatorType::Or {
                        Evaluated::Value(PrimativeView::Bool(truthy(b)))
                    } else {
                        match control_opcode(operator) {
                            Some(opcode) => evaluated(opcode, a, b),
                            None => Evaluated::Fault(message_address()),
                        }
                    },
                    failure => failure,
                }
            },
            failure => failure,
        },
        AstView::PrefixUnary(operator, operand) => match meaning(*operand, layout, memories) {
            Evaluated::Value(a) => match unary_opcode(operator) {
                Some(opcode) => evaluated_unary(opcode, a),
                None => Evaluated::Fault(message_address()),
            },
            failure => failure,
        },
        _ => Evaluated::Fault(message_address()),
    }
}

/// What the items of a list from place `from` on mean.
pub open spec fn meanings(
    nodes: Seq<AstView>,
    from: nat,
    layout: Layout,
    memories: Seq<Seq<PrimativeView>>,
) -> Meanings
    decreases nodes, nodes.len() - from,
{
    if from >= nodes.len() {
        Meanings::Values(Seq::empty())
    } else {
        match meaning(nodes[from as int], layout, memories) {
            Evaluated::Value(value) => match meanings(nodes, from + 1, layout, memories) {
                Meanings::Values(values) => Meanings::Values(seq![value] + values),
                stopped => stopped,
            },
            failure => Meanings::Stopped(failure),
        }
    }
}

/// Whether a signal asks the host for arithmetic.
pub open spec fn asks_arithmetic(signal: SignalView) -> bool {
    signal matches SignalView::Request(request) && !(request is ReadLine)
}

/// The code stands in `opcodes` at `ip`.
pub open spec fn code_at(opcodes: Seq<u8>, ip: int, code: Seq<u8>) -> bool {
    &&& 0 <= ip
    &&& ip + code.len() <= opcodes.len()
    &&& opcodes.subrange(ip, ip + code.len()) == code
}

/// The code stands in the state at the cursor.
pub open spec fn holds_code(state: VmState, code: Seq<u8>) -> bool {
    code_at(state.opcodes, state.ip, code)
}

/// The state is one that the code of the layout can run in: the running
/// scope is that of the layout and exists, and every constant of the layout
/// stands in its slot.
pub open spec fn fits_layout(state: VmState, layout: Layout) -> bool {
    &&& state.scope == layout.scope
    &&& 0 <= state.scope < state.memories.len()
    &&& forall|value: PrimativeView| #[trigger]
        constant_slot(layout.memory, layout.constants, value) is Some ==> constant_slot(layout.memory, layout.constants, value)->0
            < state.memories[state.scope].len() && state.memories[state.scope][constant_slot(
            layout.memory,
            layout.constants,
            value,
        )->0 as int] == value
}

/// What a run makes of a state. This is `ran` under a name that the proofs
/// below open only where they look at single instructions.
#[verifier::opaque]
pub open spec fn run_of(state: VmState) -> Stepped {
    ran(state)
}

/// The state with `values` put on the stack and the cursor moved over
/// `length` bytes.
pub open spec fn behind(state: VmState, length: nat, values: Seq<PrimativeView>) -> VmState {
    VmState { stack: state.stack + values, ip: state.ip + length, ..state }
}

/// The machine computes what `expected` says from `state` by running code of
/// `length` bytes: a value is left on the stack with the cursor behind the
/// code, from where the run goes on; a fault ends the run with its message;
/// the need for the host ends the run with a request.
pub open spec fn computes(state: VmState, length: nat, expected: Evaluated) -> bool {
    match expected {
        Evaluated::Value(value) => run_of(state) == run_of(behind(state, length, seq![value])),
        Evaluated::Fault(message) => run_of(state).signal == SignalView::Fault(message),
        Evaluated::Host => asks_arithmetic(run_of(state).signal),
    }
}

/// The machine computes what the items of a list mean from `state` by
/// running code of `length` bytes.
pub open spec fn computes_all(state: VmState, length: nat, count: nat, expected: Meanings) -> bool {
    match expected {
        Meanings::Values(values) => values.len() == count && run_of(state) == run_of(
            behind(state, length, values),
        ),
        Meanings::Stopped(failure) => match failure {
            Evaluated::Fault(message) => run_of(state).signal == SignalView::Fault(message),
            Evaluated::Host => asks_arithmetic(run_of(state).signal),
            Evaluated::Value(_) => true,
        },
    }
}

/// A run goes on from the state that its first instruction leaves.
pub proof fn run_goes_on(state: VmState, after: VmState)
    requires
        stepped(state) == (Stepped { state: after, signal: SignalView::Next }),
    ensures
        run_of(state) == run_of(after),
{
    reveal(run_of);
    step_progresses(state);
}

/// A run ends with the first instruction that does not give leave for the
/// next.
pub proof fn run_ends(state: VmState)
    requires
        !(stepped(state).signal is Next),
    ensures
        run_of(state) == stepped(state),
{
    reveal(run_of);
}

/// The bytes of code that stands in a text of code are the bytes of the
/// text.
pub proof fn code_bytes(opcodes: Seq<u8>, ip: int, code: Seq<u8>)
    requires
        code_at(opcodes, ip, code),
    ensures
        forall|k: int| 0 <= k < code.len() ==> #[trigger] opcodes[ip + k] == code[k],
{
    assert forall|k: int| 0 <= k < code.len() implies #[trigger] opcodes[ip + k] == code[k] by {
        assert(opcodes.subrange(ip, ip + code.len())[k] == opcodes[ip + k]);
    }
}

/// Code that is joined of two pieces stands where the first piece stands
/// and the second stands behind it.
pub proof fn code_joins(opcodes: Seq<u8>, ip: int, first: Seq<u8>, second: Seq<u8>)
    requires
        code_at(opcodes, ip, first + second),
    ensures
        code_at(opcodes, ip, first),
        code_at(opcodes, ip + first.len(), second),
{
    code_bytes(opcodes, ip, first + second);
    assert(opcodes.subrange(ip, ip + first.len()) =~= first) by {
        assert forall|k: int| 0 <= k < first.len() implies opcodes.subrange(
            ip,
            ip + first.len(),
        )[k] == first[k] by {
            assert(opcodes[ip + k] == (first + second)[k]);
        }
    }
    assert(opcodes.subrange(ip + first.len(), ip + first.len() + second.len()) =~= second) by {
        assert forall|k: int| 0 <= k < second.len() implies opcodes.subrange(
            ip + first.len(),
            ip + first.len() + second.len(),
        )[k] == second[k] by {
            assert(opcodes[ip + (first.len() + k)] == (first + second)[first.len() + k]);
        }
    }
}

/// The state behind two pieces of code is the state behind their join.
pub proof fn behind_twice(
    state: VmState,
    first: nat,
    values: Seq<PrimativeView>,
    second: nat,
    more: Seq<PrimativeView>,
)
    ensures
        behind(behind(state, first, values), second, more) == behind(
            state,
            first + second,
            values + more,
        ),
{
    assert(state.stack + values + more =~= state.stack + (values + more));
}

/// The opcodes that compute on two values.
pub open spec fn binary_code(opcode: VmOpCode) -> bool {
    opcode == VmOpCode::Addition || opcode == VmOpCode::Subraction || opcode == VmOpCode::Multiply
        || opcode == VmOpCode::Division || opcode == VmOpCode::Module || opcode == VmOpCode::Equal
        || opcode == VmOpCode::NotEqual || opcode == VmOpCode::GreaterThan || opcode
        == VmOpCode::GreaterEqualThan || opcode == VmOpCode::LessThan || opcode
        == VmOpCode::LessEqualThan
}

/// `Load` of a slot that memory has puts the value of the slot on the stack;
/// of a slot that memory does not have, it fails.
pub proof fn load_runs(state: VmState, scope: int, slot: int)
    requires
        holds_code(state, instruction(VmOpCode::Load, scope, slot)),
        0 <= state.scope < state.memories.len(),
        0 <= scope <= 255,
        0 <= slot <= 255,
    ensures
        scope < state.memories.len() && slot < state.memories[scope].len() ==> run_of(state)
            == run_of(behind(state, 3, seq![state.memories[scope][slot]])),
        !(scope < state.memories.len() && slot < state.memories[scope].len()) ==> run_of(
            state,
        ).signal == SignalView::Fault(message_address()),
{
    let code = instruction(VmOpCode::Load, scope, slot);
    code_bytes(state.opcodes, state.ip, code);
    assert(state.opcodes[state.ip + 0] == code[0]);
    assert(state.opcodes[state.ip + 1] == code[1]);
    assert(state.opcodes[state.ip + 2] == code[2]);
    assert(stepped(state) == crate::vm::machine::loaded(state));
    if scope < state.memories.len() && slot < state.memories[scope].len() {
        let after = behind(state, 3, seq![state.memories[scope][slot]]);
        assert(state.stack.push(state.memories[scope][slot]) =~= state.stack + seq![
            state.memories[scope][slot],
        ]);
        run_goes_on(state, after);
    } else {
        run_ends(state);
    }
}

/// A binary operator computes on the two topmost values.
pub proof fn operator_runs(state: VmState, opcode: VmOpCode, base: Seq<PrimativeView>, a: PrimativeView, b: PrimativeView)
    requires
        holds_code(state, seq![opcode_byte(opcode)]),
        0 <= state.scope < state.memories.len(),
        binary_code(opcode),
        state.stack == base + seq![a] + seq![b],
    ensures
        match evaluated(opcode, a, b) {
            Evaluated::Value(value) => run_of(state) == run_of(
                VmState { stack: base + seq![value], ip: state.ip + 1, ..state },
            ),
            Evaluated::Fault(message) => run_of(state).signal == SignalView::Fault(message),
            Evaluated::Host => asks_arithmetic(run_of(state).signal),
        },
{
    let code = seq![opcode_byte(opcode)];
    code_bytes(state.opcodes, state.ip, code);
    assert(state.opcodes[state.ip + 0] == code[0]);
    assert(stepped(state) == crate::vm::machine::combined(state, opcode));
    let length = state.stack.len();
    assert(state.stack[length - 2] == a);
    assert(state.stack[length - 1] == b);
    match evaluated(opcode, a, b) {
        Evaluated::Value(value) => {
            assert(state.stack.take(length - 2).push(value) =~= base + seq![value]);
            run_goes_on(state, VmState { stack: base + seq![value], ip: state.ip + 1, ..state });
        },
        _ => {
            run_ends(state);
        },
    }
}

/// An operator on one value computes on the topmost value.
pub proof fn unary_runs(state: VmState, opcode: VmOpCode, base: Seq<PrimativeView>, a: PrimativeView)
    requires
        holds_code(state, seq![opcode_byte(opcode)]),
        0 <= state.scope < state.memories.len(),
        opcode == VmOpCode::Not || opcode == VmOpCode::Negate,
        state.stack == base + seq![a],
    ensures
        match evaluated_unary(opcode, a) {
            Evaluated::Value(value) => run_of(state) == run_of(
                VmState { stack: base + seq![value], ip: state.ip + 1, ..state },
            ),
            Evaluated::Fault(message) => run_of(state).signal == SignalView::Fault(message),
            Evaluated::Host => asks_arithmetic(run_of(state).signal),
        },
{
    let code = seq![opcode_byte(opcode)];
    code_bytes(state.opcodes, state.ip, code);
    assert(state.opcodes[state.ip + 0] == code[0]);
    assert(stepped(state) == crate::vm::machine::changed(state, opcode));
    assert(state.stack.last() == a);
    match evaluated_unary(opcode, a) {
        Evaluated::Value(value) => {
            assert(state.stack.drop_last().push(value) =~= base + seq![value]);
            run_goes_on(state, VmState { stack: base + seq![value], ip: state.ip + 1, ..state });
        },
        _ => {
            run_ends(state);
        },
    }
}

/// `Compare` takes the topmost value and jumps where it is not true.
pub proof fn compare_runs(state: VmState, distance: int, base: Seq<PrimativeView>, a: PrimativeView)
    requires
        holds_code(state, jump(VmOpCode::Compare, distance)),
        0 <= state.scope < state.memories.len(),
        0 <= distance <= 65535,
        state.ip + 3 + distance <= state.opcodes.len(),
        state.stack == base + seq![a],
    ensures
        run_of(state) == run_of(
            VmState {
                stack: base,
                ip: if truthy(a) {
                    state.ip + 3
                } else {
                    state.ip + 3 + distance
                },
                ..state
            },
        ),
{
    let code = jump(VmOpCode::Compare, distance);
    code_bytes(state.opcodes, state.ip, code);
    assert(state.opcodes[state.ip + 0] == code[0]);
    assert(state.opcodes[state.ip + 1] == code[1]);
    assert(state.opcodes[state.ip + 2] == code[2]);
    assert(crate::vm::machine::distance(state) == distance) by {
        assert(((distance / 256) as u8) as int == distance / 256);
        assert(((distance % 256) as u8) as int == distance % 256);
    }
    assert(stepped(state) == crate::vm::machine::branched(state));
    assert(state.stack.last() == a);
    assert(state.stack.drop_last() =~= base);
    let after = VmState {
        stack: base,
        ip: if truthy(a) {
            state.ip + 3
        } else {
            state.ip + 3 + distance
        },
        ..state
    };
    run_goes_on(state, after);
}

/// `Jump` moves the cursor over the distance.
pub proof fn jump_runs(state: VmState, distance: int)
    requires
        holds_code(state, jump(VmOpCode::Jump, distance)),
        0 <= state.scope < state.memories.len(),
        0 <= distance <= 65535,
        state.ip + 3 + distance <= state.opcodes.len(),
    ensures
        run_of(state) == run_of(VmState { ip: state.ip + 3 + distance, ..state }),
{
    let code = jump(VmOpCode::Jump, distance);
    code_bytes(state.opcodes, state.ip, code);
    assert(state.opcodes[state.ip + 0] == code[0]);
    assert(state.opcodes[state.ip + 1] == code[1]);
    assert(state.opcodes[state.ip + 2] == code[2]);
    assert(crate::vm::machine::distance(state) == distance) by {
        assert(((distance / 256) as u8) as int == distance / 256);
        assert(((distance % 256) as u8) as int == distance % 256);
    }
    assert(stepped(state) == crate::vm::machine::jumped(state));
    run_goes_on(state, VmState { ip: state.ip + 3 + distance, ..state });
}

/// `InitList` makes a list of the topmost values.
pub proof fn list_runs(state: VmState, count: int, base: Seq<PrimativeView>, values: Seq<PrimativeView>)
    requires
        holds_code(state, seq![opcode_byte(VmOpCode::InitList), count as u8]),
        0 <= state.scope < state.memories.len(),
        0 <= count <= 255,
        values.len() == count,
        state.stack == base + values,
    ensures
        run_of(state) == run_of(
            VmState {
                stack: base + seq![PrimativeView::List(values)],
                ip: state.ip + 2,
                ..state
            },
        ),
{
    let code = seq![opcode_byte(VmOpCode::InitList), count as u8];
    code_bytes(state.opcodes, state.ip, code);
    assert(state.opcodes[state.ip + 0] == code[0]);
    assert(state.opcodes[state.ip + 1] == code[1]);
    assert(stepped(state) == crate::vm::machine::listed(state));
    let length = state.stack.len();
    assert(state.stack.skip(length - count) =~= values);
    assert(state.stack.take(length - count) =~= base);
    assert(base.push(PrimativeView::List(values)) =~= base + seq![PrimativeView::List(values)]);
    run_goes_on(
        state,
        VmState { stack: base + seq![PrimativeView::List(values)], ip: state.ip + 2, ..state },
    );
}

/// A name is found in a scope that exists.
pub proof fn visible_slot_is_in_scopes(
    scopes: Seq<crate::compiler::context::ScopeView>,
    scope: int,
    name: Seq<char>,
)
    ensures
        visible_slot(scopes, scope, name) matches Some(place) ==> 0 <= place.0 < scopes.len(),
    decreases scope,
{
    if 0 <= scope < scopes.len() {
        match crate::compiler::static_storage::recorded_slot(scopes[scope].variables, name) {
            Some(_) => {},
            None => match scopes[scope].parent {
                Some(parent) => {
                    if parent < scope {
                        visible_slot_is_in_scopes(scopes, parent as int, name);
                    }
                },
                None => {},
            },
        }
    }
}

/// Whether a node is an operator on the operands `left` and `right`.
pub open spec fn has_operands(parent: AstView, left: AstView, right: AstView) -> bool {
    match parent {
        AstView::Binary { left: first, right: second, .. } => *first == left && *second == right,
        AstView::Control { left: first, right: second, .. } => *first == left && *second == right,
        _ => false,
    }
}

/// The machine computes what an expression means: running the byte code of
/// an expression without calls, in a state that holds the code and the
/// constants of its layout, leaves the value of the expression on the stack
/// and goes on behind the code; where the expression fails, the run ends
/// with the fault of the expression, and where it needs the host's
/// arithmetic, with a request.
pub proof fn code_computes_meaning(node: AstView, layout: Layout, temps: nat, state: VmState)
    requires
        is_plain(node),
        code_of(node, layout, temps).result is Ok,
        holds_code(state, code_of(node, layout, temps).result->Ok_0),
        fits_layout(state, layout),
    ensures
        computes(
            state,
            code_of(node, layout, temps).result->Ok_0.len(),
            meaning(node, layout, state.memories),
        ),
    decreases node, 1nat,
{
    match node {
        AstView::Primative(value) => {
            let slot = constant_slot(layout.memory, layout.constants, value)->0;
            assert(constant_slot(layout.memory, layout.constants, value) is Some);
            load_runs(state, layout.scope, slot as int);
        },
        AstView::Symbol { name, line, column } => {
            let place = visible_slot(layout.scopes, layout.scope, name)->0;
            visible_slot_is_in_scopes(layout.scopes, layout.scope, name);
            load_runs(state, place.0, place.1 as int);
        },
        AstView::List(items) => {
            list_code_computes(node, items, layout, temps, state);
        },
        AstView::Binary { left, operator, right } => {
            operator_code_computes(
                node,
                *left,
                *right,
                binary_opcode(operator)->0,
                layout,
                temps,
                state,
            );
        },
        AstView::Control { left, operator, right } => {
            if operator == BramaOperatorType::And || operator == BramaOperatorType::Or {
                logical_code_computes(node, *left, *right, operator, layout, temps, state);
            } else {
                operator_code_computes(
                    node,
                    *left,
                    *right,
                    control_opcode(operator)->0,
                    layout,
                    temps,
                    state,
                );
            }
        },
        AstView::PrefixUnary(operator, operand) => {
            unary_code_computes(node, *operand, unary_opcode(operator)->0, layout, temps, state);
        },
        _ => {},
    }
}

/// The machine computes what a list means.
pub proof fn list_code_computes(node: AstView, items: Seq<AstView>, layout: Layout, temps: nat, state: VmState)
    requires
        node == AstView::List(items),
        is_plain(node),
        code_of(node, layout, temps).result is Ok,
        holds_code(state, code_of(node, layout, temps).result->Ok_0),
        fits_layout(state, layout),
    ensures
        computes(
            state,
            code_of(node, layout, temps).result->Ok_0.len(),
            meaning(node, layout, state.memories),
        ),
    decreases node, 0nat,
{
    let code = code_of(node, layout, temps).result->Ok_0;
    let items_code = codes_of(items, 0, layout, temps, false).result->Ok_0;
    let tail = seq![opcode_byte(VmOpCode::InitList), items.len() as u8];
    assert(code == items_code + tail);
    code_joins(state.opcodes, state.ip, items_code, tail);
    codes_compute_meanings(items, 0, layout, temps, state);
    stopped_is_failure(items, 0, layout, state.memories);
    match meanings(items, 0, layout, state.memories) {
        Meanings::Values(values) => {
            let after = behind(state, items_code.len(), values);
            list_runs(after, items.len() as int, state.stack, values);
            assert(VmState {
                stack: state.stack + seq![PrimativeView::List(values)],
                ip: after.ip + 2,
                ..after
            } == behind(state, code.len(), seq![PrimativeView::List(values)]));
        },
        Meanings::Stopped(_) => {},
    }
}

/// The machine computes what an operator on two operands means, where the
/// operator is neither `&&` nor `||`.
pub proof fn operator_code_computes(
    node: AstView,
    left: AstView,
    right: AstView,
    opcode: VmOpCode,
    layout: Layout,
    temps: nat,
    state: VmState,
)
    requires
        has_operands(node, left, right),
        is_plain(left),
        is_plain(right),
        binary_code(opcode),
        code_of(left, layout, temps).result is Ok,
        code_of(right, layout, code_of(left, layout, temps).temps).result is Ok,
        code_of(node, layout, temps).result == Ok::<Seq<u8>, crate::compiler::code::ErrorView>(
            code_of(left, layout, temps).result->Ok_0 + code_of(
                right,
                layout,
                code_of(left, layout, temps).temps,
            ).result->Ok_0 + seq![opcode_byte(opcode)],
        ),
        meaning(node, layout, state.memories) == match meaning(left, layout, state.memories) {
            Evaluated::Value(a) => match meaning(right, layout, state.memories) {
                Evaluated::Value(b) => evaluated(opcode, a, b),
                failure => failure,
            },
            failure => failure,
        },
        holds_code(state, code_of(node, layout, temps).result->Ok_0),
        fits_layout(state, layout),
    ensures
        computes(
            state,
            code_of(node, layout, temps).result->Ok_0.len(),
            meaning(node, layout, state.memories),
        ),
    decreases node, 0nat,
{
    let first = code_of(left, layout, temps);
    let left_code = first.result->Ok_0;
    let right_code = code_of(right, layout, first.temps).result->Ok_0;
    let tail = seq![opcode_byte(opcode)];
    let code = left_code + right_code + tail;
    code_joins(state.opcodes, state.ip, left_code + right_code, tail);
    code_joins(state.opcodes, state.ip, left_code, right_code);
    code_computes_meaning(left, layout, temps, state);
    match meaning(left, layout, state.memories) {
        Evaluated::Value(a) => {
            let middle = behind(state, left_code.len(), seq![a]);
            code_computes_meaning(right, layout, first.temps, middle);
            match meaning(right, layout, state.memories) {
                Evaluated::Value(b) => {
                    let after = behind(middle, right_code.len(), seq![b]);
                    operator_runs(after, opcode, state.stack, a, b);
                    match evaluated(opcode, a, b) {
                        Evaluated::Value(value) => {
                            assert(VmState {
                                stack: state.stack + seq![value],
                                ip: after.ip + 1,
                                ..after
                            } == behind(state, code.len(), seq![value]));
                        },
                        _ => {},
                    }
                },
                _ => {},
            }
        },
        _ => {},
    }
}

/// The machine computes what an operator before its operand means.
pub proof fn unary_code_computes(
    node: AstView,
    operand: AstView,
    opcode: VmOpCode,
    layout: Layout,
    temps: nat,
    state: VmState,
)
    requires
        node is PrefixUnary,
        *node->PrefixUnary_1 == operand,
        unary_opcode(node->PrefixUnary_0) == Some(opcode),
        is_plain(operand),
        code_of(node, layout, temps).result is Ok,
        holds_code(state, code_of(node, layout, temps).result->Ok_0),
        fits_layout(state, layout),
    ensures
        computes(
            state,
            code_of(node, layout, temps).result->Ok_0.len(),
            meaning(node, layout, state.memories),
        ),
    decreases node, 0nat,
{
    let code = code_of(node, layout, temps).result->Ok_0;
    let inner_code = code_of(operand, layout, temps).result->Ok_0;
    let tail = seq![opcode_byte(opcode)];
    assert(code == inner_code + tail);
    code_joins(state.opcodes, state.ip, inner_code, tail);
    code_computes_meaning(operand, layout, temps, state);
    match meaning(operand, layout, state.memories) {
        Evaluated::Value(a) => {
            let after = behind(state, inner_code.len(), seq![a]);
            unary_runs(after, opcode, state.stack, a);
            match evaluated_unary(opcode, a) {
                Evaluated::Value(value) => {
                    assert(VmState {
                        stack: state.stack + seq![value],
                        ip: after.ip + 1,
                        ..after
                    } == behind(state, code.len(), seq![value]));
                },
                _ => {},
            }
        },
        _ => {},
    }
}

/// The test of a logical operator: it takes the value of the left side from
/// the stack; where that value settles the answer, the run goes on behind
/// `far` bytes, and behind the test otherwise.
pub proof fn test_runs(state: VmState, settled: bool, distance: int, base: Seq<PrimativeView>, a: PrimativeView)
    requires
        holds_code(
            state,
            if settled {
                seq![opcode_byte(VmOpCode::Not)] + jump(VmOpCode::Compare, distance)
            } else {
                jump(VmOpCode::Compare, distance)
            },
        ),
        0 <= state.scope < state.memories.len(),
        0 <= distance <= 65535,
        state.ip + 4 + distance <= state.opcodes.len(),
        state.stack == base + seq![a],
    ensures
        ({
            let length = if settled {
                4int
            } else {
                3int
            };
            run_of(state) == run_of(
                VmState {
                    stack: base,
                    ip: if truthy(a) == settled {
                        state.ip + length + distance
                    } else {
                        state.ip + length
                    },
                    ..state
                },
            )
        }),
{
    if settled {
        let not = seq![opcode_byte(VmOpCode::Not)];
        code_joins(state.opcodes, state.ip, not, jump(VmOpCode::Compare, distance));
        unary_runs(state, VmOpCode::Not, base, a);
        let turned = VmState {
            stack: base + seq![PrimativeView::Bool(!truthy(a))],
            ip: state.ip + 1,
            ..state
        };
        compare_runs(turned, distance, base, PrimativeView::Bool(!truthy(a)));
    } else {
        compare_runs(state, distance, base, a);
    }
}

/// The end of the right side of a logical operator: the value of the right
/// side gives way to its truth, and the run goes on behind the load of the
/// settled answer.
pub proof fn truth_runs(state: VmState, base: Seq<PrimativeView>, b: PrimativeView)
    requires
        holds_code(
            state,
            seq![opcode_byte(VmOpCode::Not), opcode_byte(VmOpCode::Not)] + jump(VmOpCode::Jump, 3),
        ),
        0 <= state.scope < state.memories.len(),
        state.ip + 8 <= state.opcodes.len(),
        state.stack == base + seq![b],
    ensures
        run_of(state) == run_of(
            VmState {
                stack: base + seq![PrimativeView::Bool(truthy(b))],
                ip: state.ip + 8,
                ..state
            },
        ),
{
    let not = seq![opcode_byte(VmOpCode::Not)];
    let nots = seq![opcode_byte(VmOpCode::Not), opcode_byte(VmOpCode::Not)];
    assert(nots =~= not + not);
    code_joins(state.opcodes, state.ip, nots, jump(VmOpCode::Jump, 3));
    code_joins(state.opcodes, state.ip, not, not);
    unary_runs(state, VmOpCode::Not, base, b);
    let once = VmState {
        stack: base + seq![PrimativeView::Bool(!truthy(b))],
        ip: state.ip + 1,
        ..state
    };
    unary_runs(once, VmOpCode::Not, base, PrimativeView::Bool(!truthy(b)));
    let twice = VmState {
        stack: base + seq![PrimativeView::Bool(truthy(b))],
        ip: state.ip + 2,
        ..state
    };
    jump_runs(twice, 3);
}

/// The machine computes what `&&` and `||` mean.
pub proof fn logical_code_computes(
    node: AstView,
    left: AstView,
    right: AstView,
    operator: BramaOperatorType,
    layout: Layout,
    temps: nat,
    state: VmState,
)
    requires
        node is Control,
        has_operands(node, left, right),
        node->Control_operator == operator,
        is_plain(left),
        is_plain(right),
        operator == BramaOperatorType::And || operator == BramaOperatorType::Or,
        code_of(node, layout, temps).result is Ok,
        holds_code(state, code_of(node, layout, temps).result->Ok_0),
        fits_layout(state, layout),
    ensures
        computes(
            state,
            code_of(node, layout, temps).result->Ok_0.len(),
            meaning(node, layout, state.memories),
        ),
    decreases node, 0nat,
{
    let code = code_of(node, layout, temps).result->Ok_0;
    let settled = operator == BramaOperatorType::Or;
    let first = code_of(left, layout, temps);
    let second = code_of(right, layout, first.temps);
    let left_code = first.result->Ok_0;
    let right_code = second.result->Ok_0;
    assert(code == logical_code(layout, settled, left_code, right_code, second.temps).result->Ok_0);
    let load = constant_code(layout, PrimativeView::Bool(settled), second.temps).result->Ok_0;
    let slot = constant_slot(
        layout.memory,
        layout.constants,
        PrimativeView::Bool(settled),
    )->0;
    assert(constant_slot(
        layout.memory,
        layout.constants,
        PrimativeView::Bool(settled),
    ) is Some);
    let distance = (right_code.len() + 5) as int;
    let test = if settled {
        seq![opcode_byte(VmOpCode::Not)] + jump(VmOpCode::Compare, distance)
    } else {
        jump(VmOpCode::Compare, distance)
    };
    let nots = seq![opcode_byte(VmOpCode::Not), opcode_byte(VmOpCode::Not)];
    let skip = jump(VmOpCode::Jump, 3);
    assert(code == left_code + test + right_code + nots + skip + load);
    let opcodes = state.opcodes;
    let ip = state.ip;
    code_joins(opcodes, ip, left_code + test + right_code + nots + skip, load);
    code_joins(opcodes, ip, left_code + test + right_code + nots, skip);
    code_joins(opcodes, ip, left_code + test + right_code, nots);
    code_joins(opcodes, ip, left_code + test, right_code);
    code_joins(opcodes, ip, left_code, test);
    let at_right = ip + left_code.len() + test.len();
    let at_nots = at_right + right_code.len();
    let at_load = at_nots + 5;
    assert(code.len() == at_load + 3 - ip);
    assert(code_at(opcodes, at_nots, nots + skip)) by {
        code_bytes(opcodes, at_nots, nots);
        code_bytes(opcodes, at_nots + 2, skip);
        assert(opcodes.subrange(at_nots, at_nots + 5) =~= nots + skip);
    }
    let base = state.stack;

    code_computes_meaning(left, layout, temps, state);
    match meaning(left, layout, state.memories) {
        Evaluated::Value(a) => {
            let tested = behind(state, left_code.len(), seq![a]);
            test_runs(tested, settled, distance, base, a);
            if truthy(a) == settled {
                let start = VmState { stack: base, ip: at_load, ..state };
                load_runs(start, layout.scope, slot as int);
                assert(behind(start, 3, seq![PrimativeView::Bool(settled)]) == behind(
                    state,
                    code.len(),
                    seq![PrimativeView::Bool(settled)],
                ));
            } else {
                let start = VmState { stack: base, ip: at_right, ..state };
                code_computes_meaning(right, layout, first.temps, start);
                match meaning(right, layout, state.memories) {
                    Evaluated::Value(b) => {
                        let read = behind(start, right_code.len(), seq![b]);
                        truth_runs(read, base, b);
                        assert(VmState {
                            stack: base + seq![PrimativeView::Bool(truthy(b))],
                            ip: read.ip + 8,
                            ..read
                        } == behind(state, code.len(), seq![PrimativeView::Bool(truthy(b))]));
                    },
                    _ => {},
                }
            }
        },
        _ => {},
    }
}

/// Where the items of a list stop short, they stop at a failure.
pub proof fn stopped_is_failure(nodes: Seq<AstView>, from: nat, layout: Layout, memories: Seq<Seq<PrimativeView>>)
    ensures
        meanings(nodes, from, layout, memories) matches Meanings::Stopped(failure) ==> !(failure
            is Value),
    decreases nodes.len() - from,
{
    if from < nodes.len() {
        stopped_is_failure(nodes, from + 1, layout, memories);
    }
}

/// The machine computes what the items of a list mean, one after the other.
pub proof fn codes_compute_meanings(
    nodes: Seq<AstView>,
    from: nat,
    layout: Layout,
    temps: nat,
    state: VmState,
)
    requires
        from <= nodes.len(),
        all_plain(nodes, from),
        codes_of(nodes, from, layout, temps, false).result is Ok,
        holds_code(state, codes_of(nodes, from, layout, temps, false).result->Ok_0),
        fits_layout(state, layout),
    ensures
        computes_all(
            state,
            codes_of(nodes, from, layout, temps, false).result->Ok_0.len(),
            (nodes.len() - from) as nat,
            meanings(nodes, from, layout, state.memories),
        ),
    decreases nodes, nodes.len() - from,
{
    let code = codes_of(nodes, from, layout, temps, false).result->Ok_0;
    if from >= nodes.len() {
        assert(behind(state, 0, Seq::empty()) == state) by {
            assert(state.stack + Seq::<PrimativeView>::empty() =~= state.stack);
        }
    } else {
        let first = code_of(nodes[from as int], layout, temps);
        let first_code = first.result->Ok_0;
        let rest = codes_of(nodes, from + 1, layout, first.temps, false);
        let rest_code = rest.result->Ok_0;
        assert(code == first_code + rest_code);
        code_joins(state.opcodes, state.ip, first_code, rest_code);
        code_computes_meaning(nodes[from as int], layout, temps, state);
        let whole = meanings(nodes, from, layout, state.memories);
        match meaning(nodes[from as int], layout, state.memories) {
            Evaluated::Value(value) => {
                let middle = behind(state, first_code.len(), seq![value]);
                codes_compute_meanings(nodes, from + 1, layout, first.temps, middle);
                match meanings(nodes, from + 1, layout, state.memories) {
                    Meanings::Values(values) => {
                        behind_twice(state, first_code.len(), seq![value], rest_code.len(), values);
                        assert(whole == Meanings::Values(seq![value] + values));
                    },
                    Meanings::Stopped(failure) => {
                        assert(whole == Meanings::Stopped(failure));
                    },
                }
            },
            Evaluated::Fault(message) => {
                assert(whole == Meanings::Stopped(Evaluated::Fault(message)));
            },
            Evaluated::Host => {
                assert(whole == Meanings::Stopped(Evaluated::Host));
            },
        }
    }
}

/// Whether a tree is a statement without calls: an assignment of an
/// expression without calls, such an expression alone, or a block of such
/// statements.
pub open spec fn is_simple(node: AstView) -> bool
    decreases node, 0nat,
{
    match node {
        AstView::Assignment { operator, expression, .. } => operator == BramaOperatorType::Assign
            && is_plain(*expression),
        AstView::Block(statements) => all_simple(statements, 0),
        _ => is_plain(node),
    }
}

/// Whether the trees of a list from place `from` on are statements without
/// calls.
pub open spec fn all_simple(nodes: Seq<AstView>, from: nat) -> bool
    decreases nodes, nodes.len() - from,
{
    if from >= nodes.len() {
        true
    } else {
        is_simple(nodes[from as int]) && all_simple(nodes, from + 1)
    }
}

/// What a statement does: the memory that it leaves, or the failure that
/// ends it.
pub enum Effect {
    Memory(Seq<Seq<PrimativeView>>),
    Stopped(Evaluated),
}

/// What a statement without calls does to a memory. An assignment puts the
/// value of its expression into the slot of its name. An expression alone
/// changes nothing. A block does what its statements do, one after the
/// other. A statement fails as its expression fails.
pub open spec fn effect(node: AstView, layout: Layout, memories: Seq<Seq<PrimativeView>>) -> Effect
    decreases node, 0nat,
{
    match node {
        AstView::Assignment { variable, expression, .. } => match meaning(
            *expression,
            layout,
            memories,
        ) {
            Evaluated::Value(value) => match visible_slot(layout.scopes, layout.scope, variable) {
                Some(place) => if place.0 < memories.len() && place.1 < memories[place.0].len() {
                    Effect::Memory(
                        memories.update(place.0, memories[place.0].update(place.1 as int, value)),
                    )
                } else {
                    Effect::Stopped(Evaluated::Fault(message_address()))
                },
                None => Effect::Stopped(Evaluated::Fault(message_address())),
            },
            failure => Effect::Stopped(failure),
        },
        AstView::Block(statements) => effects(statements, 0, layout, memories),
        _ => match meaning(node, layout, memories) {
            Evaluated::Value(_) => Effect::Memory(memories),
            failure => Effect::Stopped(failure),
        },
    }
}

/// What the statements of a list from place `from` on do to a memory.
pub open spec fn effects(
    nodes: Seq<AstView>,
    from: nat,
    layout: Layout,
    memories: Seq<Seq<PrimativeView>>,
) -> Effect
    decreases nodes, nodes.len() - from,
{
    if from >= nodes.len() {
        Effect::Memory(memories)
    } else {
        match effect(nodes[from as int], layout, memories) {
            Effect::Memory(changed) => effects(nodes, from + 1, layout, changed),
            stopped => stopped,
        }
    }
}

/// The slot of a name that is found in the running scope itself.
pub open spec fn slot_here(layout: Layout, name: Seq<char>) -> Option<u8> {
    match visible_slot(layout.scopes, layout.scope, name) {
        Some(place) => if place.0 == layout.scope {
            Some(place.1)
        } else {
            None
        },
        None => None,
    }
}

/// No name that is found in the running scope has the slot of a constant:
/// a store never changes a constant.
pub open spec fn constants_are_safe(layout: Layout) -> bool {
    forall|value: PrimativeView, name: Seq<char>|
        #![trigger constant_slot(layout.memory, layout.constants, value), slot_here(layout, name)]
        constant_slot(layout.memory, layout.constants, value) is Some && slot_here(layout, name) is Some
            ==> slot_here(layout, name) != constant_slot(layout.memory, layout.constants, value)
}

/// The machine does what `expected` says from `state` by running code of
/// `length` bytes: the memory is changed, the stack is as it was and the
/// cursor is behind the code, from where the run goes on; or the run ends
/// with the failure.
pub open spec fn does(state: VmState, length: nat, expected: Effect) -> bool {
    match expected {
        Effect::Memory(memories) => run_of(state) == run_of(
            VmState { memories, ip: state.ip + length, ..state },
        ),
        Effect::Stopped(failure) => match failure {
            Evaluated::Fault(message) => run_of(state).signal == SignalView::Fault(message),
            Evaluated::Host => asks_arithmetic(run_of(state).signal),
            Evaluated::Value(_) => true,
        },
    }
}

/// `Store` of the topmost value into a slot that memory has.
pub proof fn store_runs(state: VmState, scope: int, slot: int, base: Seq<PrimativeView>, value: PrimativeView)
    requires
        holds_code(state, instruction(VmOpCode::Store, scope, slot)),
        0 <= state.scope < state.memories.len(),
        0 <= scope <= 255,
        0 <= slot <= 255,
        state.stack == base + seq![value],
    ensures
        scope < state.memories.len() && slot < state.memories[scope].len() ==> run_of(state)
            == run_of(
            VmState {
                memories: state.memories.update(scope, state.memories[scope].update(slot, value)),
                stack: base,
                ip: state.ip + 3,
                ..state
            },
        ),
        !(scope < state.memories.len() && slot < state.memories[scope].len()) ==> run_of(
            state,
        ).signal == SignalView::Fault(message_address()),
{
    let code = instruction(VmOpCode::Store, scope, slot);
    code_bytes(state.opcodes, state.ip, code);
    assert(state.opcodes[state.ip + 0] == code[0]);
    assert(state.opcodes[state.ip + 1] == code[1]);
    assert(state.opcodes[state.ip + 2] == code[2]);
    assert(stepped(state) == crate::vm::machine::put(state));
    assert(state.stack.last() == value);
    assert(state.stack.drop_last() =~= base);
    if scope < state.memories.len() && slot < state.memories[scope].len() {
        run_goes_on(
            state,
            VmState {
                memories: state.memories.update(scope, state.memories[scope].update(slot, value)),
                stack: base,
                ip: state.ip + 3,
                ..state
            },
        );
    } else {
        run_ends(state);
    }
}

/// `Pop` takes the topmost value.
pub proof fn pop_runs(state: VmState, base: Seq<PrimativeView>, value: PrimativeView)
    requires
        holds_code(state, seq![opcode_byte(VmOpCode::Pop)]),
        0 <= state.scope < state.memories.len(),
        state.stack == base + seq![value],
    ensures
        run_of(state) == run_of(VmState { stack: base, ip: state.ip + 1, ..state }),
{
    let code = seq![opcode_byte(VmOpCode::Pop)];
    code_bytes(state.opcodes, state.ip, code);
    assert(state.opcodes[state.ip + 0] == code[0]);
    assert(stepped(state) == crate::vm::machine::popped(state));
    assert(state.stack.drop_last() =~= base);
    run_goes_on(state, VmState { stack: base, ip: state.ip + 1, ..state });
}

/// A failure of an expression is no value.
pub proof fn stopped_effect_is_failure(node: AstView, layout: Layout, memories: Seq<Seq<PrimativeView>>)
    ensures
        effect(node, layout, memories) matches Effect::Stopped(failure) ==> !(failure is Value),
    decreases node, 0nat,
{
    match node {
        AstView::Block(statements) => {
            stopped_effects_are_failures(statements, 0, layout, memories);
        },
        _ => {},
    }
}

/// A failure of a statement of a list is no value.
pub proof fn stopped_effects_are_failures(
    nodes: Seq<AstView>,
    from: nat,
    layout: Layout,
    memories: Seq<Seq<PrimativeView>>,
)
    ensures
        effects(nodes, from, layout, memories) matches Effect::Stopped(failure) ==> !(failure
            is Value),
    decreases nodes, nodes.len() - from,
{
    if from < nodes.len() {
        stopped_effect_is_failure(nodes[from as int], layout, memories);
        match effect(nodes[from as int], layout, memories) {
            Effect::Memory(changed) => {
                stopped_effects_are_failures(nodes, from + 1, layout, changed);
            },
            _ => {},
        }
    }
}

/// A statement leaves a state that the code of the layout can run in.
pub proof fn effect_keeps_layout(node: AstView, layout: Layout, state: VmState)
    requires
        is_simple(node),
        fits_layout(state, layout),
        constants_are_safe(layout),
    ensures
        effect(node, layout, state.memories) matches Effect::Memory(memories) ==> fits_layout(
            VmState { memories, ..state },
            layout,
        ) && memories.len() == state.memories.len(),
    decreases node, 0nat,
{
    match node {
        AstView::Assignment { variable, operator, expression } => {
            match effect(node, layout, state.memories) {
                Effect::Memory(memories) => {
                    let place = visible_slot(layout.scopes, layout.scope, variable)->0;
                    let after = VmState { memories, ..state };
                    visible_slot_is_in_scopes(layout.scopes, layout.scope, variable);
                    let stored = meaning(*expression, layout, state.memories)->Value_0;
                    assert(memories == state.memories.update(
                        place.0,
                        state.memories[place.0].update(place.1 as int, stored),
                    ));
                    assert(memories.len() == state.memories.len());
                    assert(after.memories[after.scope].len()
                        == state.memories[state.scope].len());
                    assert forall|value: PrimativeView| #[trigger]
                        constant_slot(layout.memory, layout.constants, value) is Some implies constant_slot(
                        layout.memory,
                        layout.constants,
                        value,
                    )->0 < after.memories[after.scope].len()
                        && after.memories[after.scope][constant_slot(
                        layout.memory,
                        layout.constants,
                        value,
                    )->0 as int] == value by {
                        let slot = constant_slot(layout.memory, layout.constants, value)->0;
                        assert(state.memories[state.scope][slot as int] == value);
                        if place.0 == layout.scope {
                            assert(slot_here(layout, variable) == Some(place.1));
                            assert(place.1 != slot);
                            assert(after.memories[after.scope][slot as int]
                                == state.memories[state.scope][slot as int]);
                        } else {
                            assert(after.memories[after.scope] == state.memories[state.scope]);
                        }
                    }
                },
                _ => {},
            }
        },
        AstView::Block(statements) => {
            effects_keep_layout(statements, 0, layout, state);
        },
        _ => {
            assert(VmState { memories: state.memories, ..state } == state);
        },
    }
}

/// The statements of a list leave a state that the code of the layout can
/// run in.
pub proof fn effects_keep_layout(nodes: Seq<AstView>, from: nat, layout: Layout, state: VmState)
    requires
        all_simple(nodes, from),
        fits_layout(state, layout),
        constants_are_safe(layout),
    ensures
        effects(nodes, from, layout, state.memories) matches Effect::Memory(memories)
            ==> fits_layout(VmState { memories, ..state }, layout) && memories.len()
            == state.memories.len(),
    decreases nodes, nodes.len() - from,
{
    if from < nodes.len() {
        effect_keeps_layout(nodes[from as int], layout, state);
        match effect(nodes[from as int], layout, state.memories) {
            Effect::Memory(changed) => {
                effects_keep_layout(nodes, from + 1, layout, VmState { memories: changed, ..state });
            },
            _ => {},
        }
    } else {
        assert(VmState { memories: state.memories, ..state } == state);
    }
}

/// The machine does what a statement does: running the byte code of a
/// statement without calls changes the memory as the statement says, leaves
/// the stack as it was and goes on behind the code; where the statement
/// fails, the run ends with its failure.
pub proof fn code_does_effect(node: AstView, layout: Layout, temps: nat, state: VmState)
    requires
        is_simple(node),
        code_of(node, layout, temps).result is Ok,
        holds_code(state, code_of(node, layout, temps).result->Ok_0),
        fits_layout(state, layout),
        constants_are_safe(layout),
        node is Assignment || node is Block,
    ensures
        does(
            state,
            code_of(node, layout, temps).result->Ok_0.len(),
            effect(node, layout, state.memories),
        ),
    decreases node, 1nat,
{
    let code = code_of(node, layout, temps).result->Ok_0;
    match node {
        AstView::Assignment { variable, operator, expression } => {
            let value_code = code_of(*expression, layout, temps).result->Ok_0;
            let place = visible_slot(layout.scopes, layout.scope, variable)->0;
            visible_slot_is_in_scopes(layout.scopes, layout.scope, variable);
            let store = instruction(VmOpCode::Store, place.0, place.1 as int);
            assert(code == value_code + store);
            code_joins(state.opcodes, state.ip, value_code, store);
            code_computes_meaning(*expression, layout, temps, state);
            match meaning(*expression, layout, state.memories) {
                Evaluated::Value(value) => {
                    let after = behind(state, value_code.len(), seq![value]);
                    store_runs(after, place.0, place.1 as int, state.stack, value);
                },
                _ => {},
            }
        },
        AstView::Block(statements) => {
            codes_do_effects(statements, 0, layout, temps, state);
        },
        _ => {},
    }
}

/// The machine does what the statements of a list do, one after the other.
pub proof fn codes_do_effects(nodes: Seq<AstView>, from: nat, layout: Layout, temps: nat, state: VmState)
    requires
        from <= nodes.len(),
        all_simple(nodes, from),
        codes_of(nodes, from, layout, temps, true).result is Ok,
        holds_code(state, codes_of(nodes, from, layout, temps, true).result->Ok_0),
        fits_layout(state, layout),
        constants_are_safe(layout),
    ensures
        does(
            state,
            codes_of(nodes, from, layout, temps, true).result->Ok_0.len(),
            effects(nodes, from, layout, state.memories),
        ),
    decreases nodes, nodes.len() - from,
{
    let code = codes_of(nodes, from, layout, temps, true).result->Ok_0;
    if from >= nodes.len() {
        assert(VmState { memories: state.memories, ip: state.ip + 0, ..state } == state);
    } else {
        let node = nodes[from as int];
        let first = code_of(node, layout, temps);
        let first_code = first.result->Ok_0;
        let rest_code = codes_of(nodes, from + 1, layout, first.temps, true).result->Ok_0;
        let whole = effects(nodes, from, layout, state.memories);
        stopped_effect_is_failure(node, layout, state.memories);
        if node is Assignment || node is Block {
            assert(!crate::compiler::code::leaves_value(node));
            assert(code == first_code + rest_code);
            code_joins(state.opcodes, state.ip, first_code, rest_code);
            code_does_effect(node, layout, temps, state);
            effect_keeps_layout(node, layout, state);
            match effect(node, layout, state.memories) {
                Effect::Memory(changed) => {
                    let middle = VmState { memories: changed, ip: state.ip + first_code.len(), ..state };
                    codes_do_effects(nodes, from + 1, layout, first.temps, middle);
                    match effects(nodes, from + 1, layout, changed) {
                        Effect::Memory(memories) => {
                            assert(VmState {
                                memories,
                                ip: middle.ip + rest_code.len(),
                                ..middle
                            } == VmState { memories, ip: state.ip + code.len(), ..state });
                        },
                        _ => {},
                    }
                },
                _ => {},
            }
        } else {
            assert(is_simple(node));
            assert(is_plain(node));
            assert(crate::compiler::code::leaves_value(node));
            let pop = seq![opcode_byte(VmOpCode::Pop)];
            assert(code == first_code + pop + rest_code);
            code_joins(state.opcodes, state.ip, first_code + pop, rest_code);
            code_joins(state.opcodes, state.ip, first_code, pop);
            code_computes_meaning(node, layout, temps, state);
            match meaning(node, layout, state.memories) {
                Evaluated::Value(value) => {
                    let valued = behind(state, first_code.len(), seq![value]);
                    pop_runs(valued, state.stack, value);
                    let middle = VmState { ip: state.ip + first_code.len() + 1, ..state };
                    assert(VmState { stack: state.stack, ip: valued.ip + 1, ..valued } == middle);
                    codes_do_effects(nodes, from + 1, layout, first.temps, middle);
                    match effects(nodes, from + 1, layout, state.memories) {
                        Effect::Memory(memories) => {
                            assert(VmState {
                                memories,
                                ip: middle.ip + rest_code.len(),
                                ..middle
                            } == VmState { memories, ip: state.ip + code.len(), ..state });
                        },
                        _ => {},
                    }
                },
                _ => {},
            }
        }
    }
}

/// The machine computes what an expression means, said of the run itself:
/// from a state that holds the byte code of an expression without calls and
/// the constants of its layout, the run is the run from behind the code with
/// the value of the expression on the stack; where the expression fails,
/// the run ends with the fault of the expression; where it needs the host's
/// arithmetic, the run ends with a request.
pub proof fn machine_computes_meaning(node: AstView, layout: Layout, temps: nat, state: VmState)
    requires
        is_plain(node),
        code_of(node, layout, temps).result is Ok,
        holds_code(state, code_of(node, layout, temps).result->Ok_0),
        fits_layout(state, layout),
    ensures
        match meaning(node, layout, state.memories) {
            Evaluated::Value(value) => ran(state) == ran(
                behind(state, code_of(node, layout, temps).result->Ok_0.len(), seq![value]),
            ),
            Evaluated::Fault(message) => ran(state).signal == SignalView::Fault(message),
            Evaluated::Host => asks_arithmetic(ran(state).signal),
        },
{
    reveal(run_of);
    code_computes_meaning(node, layout, temps, state);
}

/// The machine does what a program does, said of the run itself: from a
/// state that holds the byte code of a block of statements without calls
/// and the constants of its layout, the run is the run from behind the code
/// with the memory that the statements leave; where a statement fails, the
/// run ends with its fault or with a request to the host.
pub proof fn machine_does_effect(statements: Seq<AstView>, layout: Layout, temps: nat, state: VmState)
    requires
        all_simple(statements, 0),
        code_of(AstView::Block(statements), layout, temps).result is Ok,
        holds_code(state, code_of(AstView::Block(statements), layout, temps).result->Ok_0),
        fits_layout(state, layout),
        constants_are_safe(layout),
    ensures
        match effect(AstView::Block(statements), layout, state.memories) {
            Effect::Memory(memories) => ran(state) == ran(
                VmState {
                    memories,
                    ip: state.ip + code_of(
                        AstView::Block(statements),
                        layout,
                        temps,
                    ).result->Ok_0.len(),
                    ..state
                },
            ),
            Effect::Stopped(failure) => match failure {
                Evaluated::Fault(message) => ran(state).signal == SignalView::Fault(message),
                Evaluated::Host => asks_arithmetic(ran(state).signal),
                Evaluated::Value(_) => false,
            },
        },
{
    reveal(run_of);
    code_does_effect(AstView::Block(statements), layout, temps, state);
    stopped_effect_is_failure(AstView::Block(statements), layout, state.memories);
}

} // verus!
