//! Counting calls: a tree and its byte code hold the same number of calls.

use vstd::prelude::*;
use crate::types::BramaOperatorType;
use crate::compiler::VmOpCode;
use crate::compiler::byte_opcode;
use crate::compiler::opcode_byte;
use crate::compiler::ast::AstView;
use crate::compiler::code::Layout;
use crate::compiler::code::call_code;
use crate::compiler::code::code_of;
use crate::compiler::code::codes_of;
use crate::compiler::code::constant_code;
use crate::compiler::code::instruction;
use crate::compiler::code::jump;
use crate::compiler::code::leaves_value;
use crate::compiler::code::logical_code;

verus! {

/// The number of calls in a tree: calls by name and method calls.
pub open spec fn calls_in(node: AstView) -> nat
    decreases node, 0nat,
{
    match node {
        AstView::List(items) => calls_in_all(items, 0),
        AstView::Binary { left, right, .. } => calls_in(*left) + calls_in(*right),
        AstView::Control { left, right, .. } => calls_in(*left) + calls_in(*right),
        AstView::PrefixUnary(_, operand) => calls_in(*operand),
        AstView::Assignment { expression, .. } => calls_in(*expression),
        AstView::FuncCall { arguments, .. } => calls_in_all(arguments, 0) + 1,
        AstView::AccessorFuncCall { source, arguments, .. } => calls_in(*source) + calls_in_all(
            arguments,
            0,
        ) + 1,
        AstView::Block(statements) => calls_in_all(statements, 0),
        _ => 0,
    }
}

/// The number of calls in the trees of a list from place `from` on.
pub open spec fn calls_in_all(nodes: Seq<AstView>, from: nat) -> nat
    decreases nodes, nodes.len() - from,
{
    if from >= nodes.len() {
        0
    } else {
        calls_in(nodes[from as int]) + calls_in_all(nodes, from + 1)
    }
}

/// The number of bytes of the instruction that a byte starts.
pub open spec fn instruction_length(byte: u8) -> int {
    match byte_opcode(byte) {
        Some(VmOpCode::Load) | Some(VmOpCode::Store) | Some(VmOpCode::Jump) | Some(
            VmOpCode::Compare,
        ) => 3,
        Some(VmOpCode::InitList) => 2,
        Some(VmOpCode::Call) | Some(VmOpCode::CallMethod) => 5,
        _ => 1,
    }
}

/// Whether a byte starts a call.
pub open spec fn starts_call(byte: u8) -> bool {
    byte_opcode(byte) == Some(VmOpCode::Call) || byte_opcode(byte) == Some(VmOpCode::CallMethod)
}

/// Whether the code from `from` on is made of whole instructions.
pub open spec fn is_whole(code: Seq<u8>, from: int) -> bool
    decreases code.len() - from,
{
    if from < 0 || from >= code.len() {
        from == code.len()
    } else if from + instruction_length(code[from]) > code.len() {
        false
    } else {
        is_whole(code, from + instruction_length(code[from]))
    }
}

/// The number of call instructions in the code from `from` on, read
/// instruction by instruction.
pub open spec fn call_count(code: Seq<u8>, from: int) -> nat
    decreases code.len() - from,
{
    if from < 0 || from >= code.len() || from + instruction_length(code[from]) > code.len() {
        0
    } else if starts_call(code[from]) {
        1 + call_count(code, from + instruction_length(code[from]))
    } else {
        call_count(code, from + instruction_length(code[from]))
    }
}

/// Code behind other code reads as it reads alone.
pub proof fn reads_the_same_behind(first: Seq<u8>, second: Seq<u8>, from: int)
    requires
        0 <= from,
    ensures
        is_whole(first + second, first.len() + from) == is_whole(second, from),
        call_count(first + second, first.len() + from) == call_count(second, from),
    decreases second.len() - from,
{
    let both = first + second;
    if from < second.len() {
        assert(both[first.len() + from] == second[from]);
        if from + instruction_length(second[from]) <= second.len() {
            reads_the_same_behind(first, second, from + instruction_length(second[from]));
        }
    }
}

/// Whole instructions before other code are read first: the code behind
/// them starts at an instruction, and the calls add up.
pub proof fn whole_code_joins(first: Seq<u8>, second: Seq<u8>, from: int)
    requires
        0 <= from <= first.len(),
        is_whole(first, from),
    ensures
        is_whole(first + second, from) == is_whole(second, 0),
        call_count(first + second, from) == call_count(first, from) + call_count(second, 0),
    decreases first.len() - from,
{
    let both = first + second;
    if from < first.len() {
        assert(both[from] == first[from]);
        let next = from + instruction_length(first[from]);
        whole_code_joins(first, second, next);
    } else {
        reads_the_same_behind(first, second, 0);
    }
}

/// The code is made of whole instructions and holds `calls` calls.
pub open spec fn counts(code: Seq<u8>, calls: nat) -> bool {
    is_whole(code, 0) && call_count(code, 0) == calls
}

/// Code that is joined of two pieces of whole instructions is made of whole
/// instructions, and their calls add up.
pub proof fn joined_counts(first: Seq<u8>, second: Seq<u8>, calls: nat, more: nat)
    requires
        counts(first, calls),
        counts(second, more),
    ensures
        counts(first + second, calls + more),
{
    whole_code_joins(first, second, 0);
}

/// An instruction with two operand bytes that is no call counts no call.
pub proof fn instruction_counts(opcode: VmOpCode, first: int, second: int)
    requires
        opcode == VmOpCode::Load || opcode == VmOpCode::Store || opcode == VmOpCode::Jump || opcode
            == VmOpCode::Compare,
    ensures
        counts(instruction(opcode, first, second), 0),
        counts(jump(opcode, first), 0),
{
    let code = instruction(opcode, first, second);
    assert(code[0] == opcode_byte(opcode));
    assert(is_whole(code, 3));
    assert(call_count(code, 3) == 0);
    let other = jump(opcode, first);
    assert(other[0] == opcode_byte(opcode));
    assert(is_whole(other, 3));
    assert(call_count(other, 3) == 0);
}

/// An instruction of one byte counts no call.
pub proof fn opcode_counts(opcode: VmOpCode)
    requires
        instruction_length(opcode_byte(opcode)) == 1,
    ensures
        counts(seq![opcode_byte(opcode)], 0),
{
    let code = seq![opcode_byte(opcode)];
    assert(code[0] == opcode_byte(opcode));
    assert(is_whole(code, 1));
    assert(call_count(code, 1) == 0);
}

/// The end of the code of a call counts one call more than the code before
/// it.
pub proof fn call_counts(
    layout: Layout,
    opcode: VmOpCode,
    before: Seq<u8>,
    slot: int,
    count: nat,
    kept: bool,
    temps: nat,
    calls: nat,
)
    requires
        opcode == VmOpCode::Call || opcode == VmOpCode::CallMethod,
        counts(before, calls),
    ensures
        call_code(layout, opcode, before, slot, count, kept, temps).result matches Ok(code)
            ==> counts(code, calls + 1),
{
    let made = call_code(layout, opcode, before, slot, count, kept, temps);
    match made.result {
        Ok(code) => {
            if !kept {
                let call = seq![opcode_byte(opcode), slot as u8, count as u8, 0u8, 0u8];
                assert(call[0] == opcode_byte(opcode));
                assert(is_whole(call, 5));
                assert(call_count(call, 5) == 0);
                assert(counts(call, 1));
                joined_counts(before, call, calls, 1);
            } else {
                let call = seq![
                    opcode_byte(opcode),
                    slot as u8,
                    count as u8,
                    1u8,
                    (layout.temp_base + temps) as u8,
                ];
                assert(call[0] == opcode_byte(opcode));
                assert(is_whole(call, 5));
                assert(call_count(call, 5) == 0);
                assert(counts(call, 1));
                joined_counts(before, call, calls, 1);
                instruction_counts(VmOpCode::Load, layout.scope, layout.temp_base + temps);
                joined_counts(
                    before + call,
                    instruction(VmOpCode::Load, layout.scope, layout.temp_base + temps),
                    calls + 1,
                    0,
                );
            }
        },
        Err(_) => {},
    }
}

/// The code that loads a constant counts no call.
pub proof fn constant_counts(layout: Layout, value: crate::compiler::value::PrimativeView, temps: nat)
    ensures
        constant_code(layout, value, temps).result matches Ok(code) ==> counts(code, 0),
{
    match constant_code(layout, value, temps).result {
        Ok(code) => {
            let slot = crate::compiler::code::constant_slot(
                layout.memory,
                layout.constants,
                value,
            )->0;
            instruction_counts(VmOpCode::Load, layout.scope, slot as int);
        },
        Err(_) => {},
    }
}

/// The code of a logical operator counts the calls of both operands.
pub proof fn logical_counts(
    layout: Layout,
    settled: bool,
    left: Seq<u8>,
    right: Seq<u8>,
    temps: nat,
    calls: nat,
    more: nat,
)
    requires
        counts(left, calls),
        counts(right, more),
    ensures
        logical_code(layout, settled, left, right, temps).result matches Ok(code) ==> counts(
            code,
            calls + more,
        ),
{
    match logical_code(layout, settled, left, right, temps).result {
        Ok(code) => {
            let answer = constant_code(
                layout,
                crate::compiler::value::PrimativeView::Bool(settled),
                temps,
            );
            constant_counts(layout, crate::compiler::value::PrimativeView::Bool(settled), temps);
            let load = answer.result->Ok_0;
            let distance = (right.len() + 5) as int;
            instruction_counts(VmOpCode::Compare, distance / 256, distance % 256);
            instruction_counts(VmOpCode::Jump, 3int / 256, 3int % 256);
            opcode_counts(VmOpCode::Not);
            let not = seq![opcode_byte(VmOpCode::Not)];
            let test = if settled {
                not + jump(VmOpCode::Compare, distance)
            } else {
                jump(VmOpCode::Compare, distance)
            };
            if settled {
                joined_counts(not, jump(VmOpCode::Compare, distance), 0, 0);
            }
            assert(counts(test, 0));
            joined_counts(left, test, calls, 0);
            joined_counts(left + test, right, calls, more);
            joined_counts(not, not, 0, 0);
            assert(not + not =~= seq![opcode_byte(VmOpCode::Not), opcode_byte(VmOpCode::Not)]);
            joined_counts(left + test + right, not + not, calls + more, 0);
            joined_counts(
                left + test + right + (not + not),
                jump(VmOpCode::Jump, 3),
                calls + more,
                0,
            );
            joined_counts(
                left + test + right + (not + not) + jump(VmOpCode::Jump, 3),
                load,
                calls + more,
                0,
            );
        },
        Err(_) => {},
    }
}

/// The byte code of a tree is made of whole instructions and holds one call
/// instruction for each call of the tree: no call is compiled twice, however
/// often the parser looks at its node. As the machine never goes back in the
/// code, no call runs twice.
pub proof fn each_call_is_compiled_once(node: AstView, layout: Layout, temps: nat)
    ensures
        code_of(node, layout, temps).result matches Ok(code) ==> counts(code, calls_in(node)),
    decreases node, 0nat,
{
    let made = code_of(node, layout, temps);
    match node {
        AstView::Nothing => {},
        AstView::Primative(value) => {
            constant_counts(layout, value, temps);
        },
        AstView::Symbol { name, line, column } => {
            match made.result {
                Ok(code) => {
                    let place = crate::compiler::context::visible_slot(
                        layout.scopes,
                        layout.scope,
                        name,
                    )->0;
                    instruction_counts(VmOpCode::Load, place.0, place.1 as int);
                },
                Err(_) => {},
            }
        },
        AstView::List(items) => {
            calls_are_compiled_once(items, 0, layout, temps, false);
            let listed = codes_of(items, 0, layout, temps, false);
            match made.result {
                Ok(code) => {
                    let tail = seq![opcode_byte(VmOpCode::InitList), items.len() as u8];
                    assert(tail[0] == opcode_byte(VmOpCode::InitList));
                    assert(is_whole(tail, 2));
                    assert(call_count(tail, 2) == 0);
                    joined_counts(listed.result->Ok_0, tail, calls_in_all(items, 0), 0);
                },
                Err(_) => {},
            }
        },
        AstView::Binary { left, operator, right } => {
            each_call_is_compiled_once(*left, layout, temps);
            let first = code_of(*left, layout, temps);
            each_call_is_compiled_once(*right, layout, first.temps);
            let second = code_of(*right, layout, first.temps);
            match made.result {
                Ok(code) => {
                    let opcode = crate::compiler::code::binary_opcode(operator)->0;
                    opcode_counts(opcode);
                    joined_counts(
                        first.result->Ok_0,
                        second.result->Ok_0,
                        calls_in(*left),
                        calls_in(*right),
                    );
                    joined_counts(
                        first.result->Ok_0 + second.result->Ok_0,
                        seq![opcode_byte(opcode)],
                        calls_in(*left) + calls_in(*right),
                        0,
                    );
                },
                Err(_) => {},
            }
        },
        AstView::Control { left, operator, right } => {
            each_call_is_compiled_once(*left, layout, temps);
            let first = code_of(*left, layout, temps);
            each_call_is_compiled_once(*right, layout, first.temps);
            let second = code_of(*right, layout, first.temps);
            match made.result {
                Ok(code) => {
                    if operator == BramaOperatorType::And {
                        logical_counts(
                            layout,
                            false,
                            first.result->Ok_0,
                            second.result->Ok_0,
                            second.temps,
                            calls_in(*left),
                            calls_in(*right),
                        );
                    } else if operator == BramaOperatorType::Or {
                        logical_counts(
                            layout,
                            true,
                            first.result->Ok_0,
                            second.result->Ok_0,
                            second.temps,
                            calls_in(*left),
                            calls_in(*right),
                        );
                    } else {
                        let opcode = crate::compiler::code::control_opcode(operator)->0;
                        opcode_counts(opcode);
                        joined_counts(
                            first.result->Ok_0,
                            second.result->Ok_0,
                            calls_in(*left),
                            calls_in(*right),
                        );
                        joined_counts(
                            first.result->Ok_0 + second.result->Ok_0,
                            seq![opcode_byte(opcode)],
                            calls_in(*left) + calls_in(*right),
                            0,
                        );
                    }
                },
                Err(_) => {},
            }
        },
        AstView::PrefixUnary(operator, operand) => {
            each_call_is_compiled_once(*operand, layout, temps);
            match made.result {
                Ok(code) => {
                    let opcode = crate::compiler::code::unary_opcode(operator)->0;
                    opcode_counts(opcode);
                    joined_counts(
                        code_of(*operand, layout, temps).result->Ok_0,
                        seq![opcode_byte(opcode)],
                        calls_in(*operand),
                        0,
                    );
                },
                Err(_) => {},
            }
        },
        AstView::Assignment { variable, operator, expression } => {
            each_call_is_compiled_once(*expression, layout, temps);
            match made.result {
                Ok(code) => {
                    let place = crate::compiler::context::visible_slot(
                        layout.scopes,
                        layout.scope,
                        variable,
                    )->0;
                    instruction_counts(VmOpCode::Store, place.0, place.1 as int);
                    joined_counts(
                        code_of(*expression, layout, temps).result->Ok_0,
                        instruction(VmOpCode::Store, place.0, place.1 as int),
                        calls_in(*expression),
                        0,
                    );
                },
                Err(_) => {},
            }
        },
        AstView::FuncCall { names, arguments, assign_to_temp, line, column } => {
            calls_are_compiled_once(arguments, 0, layout, temps, false);
            match made.result {
                Ok(code) => {
                    let function = crate::compiler::context::resolved(layout.tables, names, 0)->0;
                    let slot = crate::compiler::code::constant_slot(
                        layout.memory,
                        layout.constants,
                        crate::compiler::value::PrimativeView::Function(function),
                    )->0;
                    let given = codes_of(arguments, 0, layout, temps, false);
                    call_counts(
                        layout,
                        VmOpCode::Call,
                        given.result->Ok_0,
                        slot as int,
                        arguments.len(),
                        assign_to_temp,
                        given.temps,
                        calls_in_all(arguments, 0),
                    );
                },
                Err(_) => {},
            }
        },
        AstView::AccessorFuncCall { source, name, arguments, assign_to_temp, line, column } => {
            each_call_is_compiled_once(*source, layout, temps);
            let first = code_of(*source, layout, temps);
            calls_are_compiled_once(arguments, 0, layout, first.temps, false);
            match made.result {
                Ok(code) => {
                    let slot = crate::compiler::code::constant_slot(
                        layout.memory,
                        layout.constants,
                        crate::compiler::value::PrimativeView::Text(name),
                    )->0;
                    let given = codes_of(arguments, 0, layout, first.temps, false);
                    joined_counts(
                        first.result->Ok_0,
                        given.result->Ok_0,
                        calls_in(*source),
                        calls_in_all(arguments, 0),
                    );
                    call_counts(
                        layout,
                        VmOpCode::CallMethod,
                        first.result->Ok_0 + given.result->Ok_0,
                        slot as int,
                        arguments.len(),
                        assign_to_temp,
                        given.temps,
                        calls_in(*source) + calls_in_all(arguments, 0),
                    );
                },
                Err(_) => {},
            }
        },
        AstView::Block(statements) => {
            calls_are_compiled_once(statements, 0, layout, temps, true);
        },
    }
}

/// The byte code of the trees of a list holds one call instruction for each
/// call of the trees.
pub proof fn calls_are_compiled_once(
    nodes: Seq<AstView>,
    from: nat,
    layout: Layout,
    temps: nat,
    statements: bool,
)
    ensures
        codes_of(nodes, from, layout, temps, statements).result matches Ok(code) ==> counts(
            code,
            calls_in_all(nodes, from),
        ),
    decreases nodes, nodes.len() - from,
{
    if from < nodes.len() {
        each_call_is_compiled_once(nodes[from as int], layout, temps);
        let first = code_of(nodes[from as int], layout, temps);
        match first.result {
            Ok(code) => {
                calls_are_compiled_once(nodes, from + 1, layout, first.temps, statements);
                let rest = codes_of(nodes, from + 1, layout, first.temps, statements);
                match rest.result {
                    Ok(more) => {
                        let calls = calls_in(nodes[from as int]);
                        if statements && leaves_value(nodes[from as int]) {
                            opcode_counts(VmOpCode::Pop);
                            joined_counts(code, seq![opcode_byte(VmOpCode::Pop)], calls, 0);
                            joined_counts(
                                code + seq![opcode_byte(VmOpCode::Pop)],
                                more,
                                calls,
                                calls_in_all(nodes, from + 1),
                            );
                        } else {
                            joined_counts(code, more, calls, calls_in_all(nodes, from + 1));
                        }
                    },
                    Err(_) => {},
                }
            },
            Err(_) => {},
        }
    }
}

} // verus!
