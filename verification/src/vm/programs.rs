//! Programs without calls run as they mean: compiling a block of
//! assignments and expressions in a new context and running the code ends
//! in the memory that the statements leave, or as the first statement that
//! fails.

use vstd::prelude::*;
use crate::compiler::VmOpCode;
use crate::compiler::compiled;
use crate::compiler::laid_out;
use crate::compiler::opcode_byte;
use crate::compiler::ast::AstView;
use crate::compiler::code::Layout;
use crate::compiler::code::code_of;
use crate::compiler::code::constant_slot;
use crate::compiler::code::gathered;
use crate::compiler::context::ScopeView;
use crate::compiler::context::visible_slot;
use crate::compiler::static_storage::first_equal;
use crate::compiler::static_storage::first_named;
use crate::compiler::static_storage::numbered;
use crate::compiler::static_storage::recorded_slot;
use crate::compiler::value::PrimativeView;
use crate::vm::arithmetic::Evaluated;
use crate::vm::executer::finished;
use crate::vm::executer::fresh_unit;
use crate::vm::executer::goes_on;
use crate::vm::executer::initial;
use crate::vm::executer::round;
use crate::vm::machine::SignalView;
use crate::vm::machine::Stepped;
use crate::vm::machine::VmState;
use crate::vm::machine::ran;
use crate::vm::machine::stepped;
use crate::vm::meaning::Effect;
use crate::vm::meaning::all_simple;
use crate::vm::meaning::asks_arithmetic;
use crate::vm::meaning::code_joins;
use crate::vm::meaning::constants_are_safe;
use crate::vm::meaning::effect;
use crate::vm::meaning::effect_keeps_layout;
use crate::vm::meaning::fits_layout;
use crate::vm::meaning::holds_code;
use crate::vm::meaning::machine_does_effect;
use crate::vm::meaning::slot_here;

verus! {

/// The slot of a name among variables that are numbered from `first` on is
/// not below `first`, where one byte can hold every number.
pub proof fn numbered_slots_start_at(variables: Seq<(Seq<char>, u8)>, first: int, name: Seq<char>)
    requires
        0 <= first,
        first + variables.len() <= 256,
    ensures
        recorded_slot(numbered(variables, first), name) matches Some(slot) ==> slot >= first,
{
    let slots = numbered(variables, first);
    if exists|i: int| first_named(slots, name, i) {
        let i = choose|i: int| first_named(slots, name, i);
        assert(slots[i].1 == (first + i) as u8);
    }
}

/// A name that is found in the scope from which it is looked for is
/// recorded there.
pub proof fn found_here_is_recorded(scopes: Seq<ScopeView>, scope: int, name: Seq<char>)
    ensures
        visible_slot(scopes, scope, name) matches Some(place) ==> place.0 <= scope && (place.0
            == scope ==> recorded_slot(scopes[scope].variables, name) == Some(place.1)),
    decreases scope,
{
    if 0 <= scope < scopes.len() {
        match recorded_slot(scopes[scope].variables, name) {
            Some(_) => {},
            None => match scopes[scope].parent {
                Some(parent) => {
                    if parent < scope {
                        found_here_is_recorded(scopes, parent as int, name);
                    }
                },
                None => {},
            },
        }
    }
}

/// The block of statements as a tree.
pub open spec fn block(statements: Seq<AstView>) -> AstView {
    AstView::Block(statements)
}

/// The layout that compiling a tree in a new context lays out.
pub open spec fn fresh_layout(node: AstView) -> Layout {
    laid_out(fresh_unit(), gathered(node, fresh_unit().pool, fresh_unit().tables).pool)
}

/// In the layout of a new context, no variable has the slot of a constant.
pub proof fn fresh_layout_is_safe(node: AstView)
    requires
        compiled(node, fresh_unit()).error is None,
    ensures
        constants_are_safe(fresh_layout(node)),
{
    let unit = fresh_unit();
    let pool = gathered(node, unit.pool, unit.tables).pool;
    let layout = fresh_layout(node);
    assert forall|value: PrimativeView, name: Seq<char>|
        #![trigger constant_slot(layout.memory, layout.constants, value), slot_here(layout, name)]
        constant_slot(layout.memory, layout.constants, value) is Some && slot_here(
            layout,
            name,
        ) is Some implies slot_here(layout, name) != constant_slot(
        layout.memory,
        layout.constants,
        value,
    ) by {
        found_here_is_recorded(layout.scopes, layout.scope, name);
        numbered_slots_start_at(pool.variables, pool.constants.len() as int, name);
        assert(layout.scopes[layout.scope].variables == numbered(
            pool.variables,
            pool.constants.len() as int,
        ));
        let slot = constant_slot(layout.memory, layout.constants, value)->0;
        assert(slot < layout.constants);
    }
}

/// The state in which the machine starts on the code of a new context is
/// one that the code can run in.
pub proof fn initial_state_fits(node: AstView, return_output: bool)
    requires
        compiled(node, fresh_unit()).error is None,
    ensures
        fits_layout(initial(compiled(node, fresh_unit()), return_output), fresh_layout(node)),
        holds_code(
            initial(compiled(node, fresh_unit()), return_output),
            code_of(node, fresh_layout(node), 0).result->Ok_0,
        ),
        code_of(node, fresh_layout(node), 0).result is Ok,
        initial(compiled(node, fresh_unit()), return_output).opcodes == code_of(
            node,
            fresh_layout(node),
            0,
        ).result->Ok_0 + seq![opcode_byte(VmOpCode::Halt)],
{
    let code = compiled(node, fresh_unit());
    let layout = fresh_layout(node);
    let state = initial(code, return_output);
    let written = code_of(node, layout, 0).result->Ok_0;
    let halt = seq![opcode_byte(VmOpCode::Halt)];
    assert(state.opcodes =~= written + halt);
    assert(state.opcodes.subrange(0, (written + halt).len() as int) =~= written + halt);
    code_joins(state.opcodes, 0, written, halt);
    assert(state.memories[0] == layout.memory);
    assert forall|value: PrimativeView| #[trigger]
        constant_slot(layout.memory, layout.constants, value) is Some implies constant_slot(
        layout.memory,
        layout.constants,
        value,
    )->0 < state.memories[state.scope].len() && state.memories[state.scope][constant_slot(
        layout.memory,
        layout.constants,
        value,
    )->0 as int] == value by {
        let chosen = choose|i: int|
            first_equal(layout.memory, value, i) && i < layout.constants && i <= 255;
        assert(first_equal(layout.memory, value, chosen));
    }
}

/// A run that ends with a halt, with a fault or with a request for
/// arithmetic ends so without a host too.
pub proof fn finished_is_ran(state: VmState)
    requires
        ran(state).signal is Halted || ran(state).signal is Fault || asks_arithmetic(
            ran(state).signal,
        ),
    ensures
        finished(state) == ran(state),
{
    assert(round(state) == ran(state));
    assert(!goes_on(state, ran(state)));
}

/// A program without calls runs as it means. Where compiling a block of
/// assignments and of expressions without calls in a new context succeeds,
/// running the code without a host halts with the memory that the statements
/// leave and with an empty stack; where a statement fails, the run ends with
/// the fault of the statement, and where a statement needs the arithmetic
/// of the host, with a request for it.
pub proof fn simple_programs_run_as_they_mean(statements: Seq<AstView>, return_output: bool)
    requires
        all_simple(statements, 0),
        compiled(block(statements), fresh_unit()).error is None,
    ensures
        ({
            let end = finished(initial(compiled(block(statements), fresh_unit()), return_output));
            match effect(
                block(statements),
                fresh_layout(block(statements)),
                seq![compiled(block(statements), fresh_unit()).memory],
            ) {
                Effect::Memory(memories) => end.signal is Halted && end.state.memories == memories
                    && end.state.stack.len() == 0,
                Effect::Stopped(failure) => match failure {
                    Evaluated::Fault(message) => end.signal == SignalView::Fault(message),
                    Evaluated::Host => asks_arithmetic(end.signal),
                    Evaluated::Value(_) => false,
                },
            }
        }),
{
    let node = block(statements);
    let code = compiled(node, fresh_unit());
    let layout = fresh_layout(node);
    let state = initial(code, return_output);
    let written = code_of(node, layout, 0).result->Ok_0;
    initial_state_fits(node, return_output);
    fresh_layout_is_safe(node);
    assert(state.memories =~= seq![code.memory]);
    machine_does_effect(statements, layout, 0, state);
    match effect(node, layout, state.memories) {
        Effect::Memory(memories) => {
            let after = VmState { memories, ip: state.ip + written.len(), ..state };
            effect_keeps_layout(node, layout, state);
            assert(after.opcodes[after.ip] == opcode_byte(VmOpCode::Halt)) by {
                assert(state.opcodes == written + seq![opcode_byte(VmOpCode::Halt)]);
            }
            assert(stepped(after) == (Stepped { state: after, signal: SignalView::Halted }));
            assert(ran(after) == stepped(after));
            finished_is_ran(state);
        },
        Effect::Stopped(failure) => {
            match failure {
                Evaluated::Value(_) => {},
                _ => {
                    finished_is_ran(state);
                },
            }
        },
    }
}

} // verus!
