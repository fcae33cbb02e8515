//! Compiling as mathematics: what the first pass gathers from a tree, and
//! the byte code that the second pass writes for it.

use vstd::prelude::*;
use crate::types::BramaOperatorType;
use crate::compiler::VmOpCode;
use crate::compiler::opcode_byte;
use crate::compiler::ast::AstView;
use crate::compiler::context::ScopeView;
use crate::compiler::context::resolved;
use crate::compiler::context::visible_slot;
use crate::compiler::function::FunctionView;
use crate::compiler::static_storage::declared;
use crate::compiler::static_storage::first_equal;
use crate::compiler::static_storage::interned;
use crate::compiler::value::PrimativeView;

verus! {

/// A message with a line and a column.
pub type ErrorView = (Seq<char>, u32, u32);

/// The tables of the modules: the path and the methods of each.
pub type Tables = Seq<(Seq<Seq<char>>, Seq<(Seq<char>, FunctionView)>)>;

/// What the first pass has gathered: the constants, the variables, and the
/// number of temporary slots.
pub struct Pool {
    pub constants: Seq<PrimativeView>,
    pub variables: Seq<(Seq<char>, u8)>,
    pub temps: nat,
}

/// The outcome of the first pass: what was gathered, up to the error where
/// there is one.
pub struct Gathered {
    pub pool: Pool,
    pub error: Option<ErrorView>,
}

/// The message for a call of a function that no module has.
pub open spec fn message_no_function() -> Seq<char> {
    "Function not found"@
}

/// The message for a name that no scope in sight declares.
pub open spec fn message_no_variable() -> Seq<char> {
    "Variable not found"@
}

/// The message for a constant that memory does not hold.
pub open spec fn message_no_constant() -> Seq<char> {
    "Constant not found"@
}

/// The message for more values than one byte can count.
pub open spec fn message_too_many() -> Seq<char> {
    "Too many values"@
}

/// The message for a jump over more bytes than two bytes can count.
pub open spec fn message_too_long() -> Seq<char> {
    "Expression is too long"@
}

/// The message for an operator that the machine does not have.
pub open spec fn message_operator() -> Seq<char> {
    "Unsupported operator"@
}

/// The message for a scope whose memory is laid out already.
pub open spec fn message_laid_out() -> Seq<char> {
    "Scope is laid out already"@
}

/// The message for a scope that does not exist or that one byte cannot
/// address.
pub open spec fn message_scope() -> Seq<char> {
    "Scope not found"@
}

/// The pool with one more constant interned.
pub open spec fn with_constant(pool: Pool, value: PrimativeView) -> Pool {
    Pool { constants: interned(pool.constants, value), ..pool }
}

/// The pool with a temporary slot for a call, where the value of the call
/// is used. There are at most 255 temporary slots.
pub open spec fn with_temp(pool: Pool, kept: bool) -> Gathered {
    if !kept {
        Gathered { pool, error: None }
    } else if pool.temps >= 255 {
        Gathered { pool, error: Some((message_too_many(), 0u32, 0u32)) }
    } else {
        Gathered { pool: Pool { temps: pool.temps + 1, ..pool }, error: None }
    }
}

/// What the first pass gathers from a tree: every literal, the function of
/// every call, the name of every method and the truth values that `and` and
/// `or` answer are interned, in the order in which they stand; every name
/// that is assigned to is declared; every call whose value is used gets a
/// temporary slot.
pub open spec fn gathered(node: AstView, pool: Pool, tables: Tables) -> Gathered
    decreases node, 0nat,
{
    match node {
        AstView::Nothing => Gathered { pool, error: None },
        AstView::Primative(value) => Gathered { pool: with_constant(pool, value), error: None },
        AstView::Symbol { .. } => Gathered { pool, error: None },
        AstView::List(items) => gathered_all(items, 0, pool, tables),
        AstView::Binary { left, operator, right } => {
            let first = gathered(*left, pool, tables);
            if first.error is Some {
                first
            } else {
                gathered(*right, first.pool, tables)
            }
        },
        AstView::Control { left, operator, right } => {
            let first = gathered(*left, pool, tables);
            if first.error is Some {
                first
            } else {
                let second = gathered(*right, first.pool, tables);
                if second.error is Some {
                    second
                } else if operator == BramaOperatorType::And {
                    Gathered {
                        pool: with_constant(second.pool, PrimativeView::Bool(false)),
                        error: None,
                    }
                } else if operator == BramaOperatorType::Or {
                    Gathered {
                        pool: with_constant(second.pool, PrimativeView::Bool(true)),
                        error: None,
                    }
                } else {
                    second
                }
            }
        },
        AstView::PrefixUnary(_, operand) => gathered(*operand, pool, tables),
        AstView::Assignment { variable, operator, expression } => {
            let value = gathered(*expression, pool, tables);
            if value.error is Some {
                value
            } else {
                Gathered {
                    pool: Pool {
                        variables: declared(value.pool.variables, variable),
                        ..value.pool
                    },
                    error: None,
                }
            }
        },
        AstView::FuncCall { names, arguments, assign_to_temp, line, column } => {
            match resolved(tables, names, 0) {
                None => Gathered { pool, error: Some((message_no_function(), line, column)) },
                Some(function) => {
                    let given = gathered_all(
                        arguments,
                        0,
                        with_constant(pool, PrimativeView::Function(function)),
                        tables,
                    );
                    if given.error is Some {
                        given
                    } else {
                        with_temp(given.pool, assign_to_temp)
                    }
                },
            }
        },
        AstView::AccessorFuncCall { source, name, arguments, assign_to_temp, line, column } => {
            let first = gathered(*source, pool, tables);
            if first.error is Some {
                first
            } else {
                let given = gathered_all(
                    arguments,
                    0,
                    with_constant(first.pool, PrimativeView::Text(name)),
                    tables,
                );
                if given.error is Some {
                    given
                } else {
                    with_temp(given.pool, assign_to_temp)
                }
            }
        },
        AstView::Block(statements) => gathered_all(statements, 0, pool, tables),
    }
}

/// What the first pass gathers from the trees of a list from place `from`
/// on, in order.
pub open spec fn gathered_all(nodes: Seq<AstView>, from: nat, pool: Pool, tables: Tables) -> Gathered
    decreases nodes, nodes.len() - from,
{
    if from >= nodes.len() {
        Gathered { pool, error: None }
    } else {
        let first = gathered(nodes[from as int], pool, tables);
        if first.error is Some {
            first
        } else {
            gathered_all(nodes, from + 1, first.pool, tables)
        }
    }
}

/// What the second pass reads: the scopes, the scope that is compiled, its
/// memory, the number of constants at the start of that memory, the tables
/// of the modules, and the number of the first temporary slot.
pub struct Layout {
    pub scopes: Seq<ScopeView>,
    pub scope: int,
    pub memory: Seq<PrimativeView>,
    pub constants: int,
    pub tables: Tables,
    pub temp_base: int,
}

/// The outcome of the second pass on a tree: the byte code or the error, and
/// the number of temporary slots that are taken.
pub struct Generated {
    pub result: Result<Seq<u8>, ErrorView>,
    pub temps: nat,
}

/// The slot of a constant: the first slot of memory that holds the value,
/// where it is one of the first `constants` slots and one byte can address
/// it.
pub open spec fn constant_slot(memory: Seq<PrimativeView>, constants: int, value: PrimativeView) -> Option<u8> {
    if exists|i: int| first_equal(memory, value, i) && i < constants && i <= 255 {
        Some((choose|i: int| first_equal(memory, value, i) && i < constants && i <= 255) as u8)
    } else {
        None
    }
}

/// The opcode of an arithmetic operator.
pub open spec fn binary_opcode(operator: BramaOperatorType) -> Option<VmOpCode> {
    match operator {
        BramaOperatorType::Addition => Some(VmOpCode::Addition),
        BramaOperatorType::Subtraction => Some(VmOpCode::Subraction),
        BramaOperatorType::Multiplication => Some(VmOpCode::Multiply),
        BramaOperatorType::Division => Some(VmOpCode::Division),
        BramaOperatorType::Modulo => Some(VmOpCode::Module),
        _ => None,
    }
}

/// The opcode of a comparison.
pub open spec fn control_opcode(operator: BramaOperatorType) -> Option<VmOpCode> {
    match operator {
        BramaOperatorType::Equal => Some(VmOpCode::Equal),
        BramaOperatorType::NotEqual => Some(VmOpCode::NotEqual),
        BramaOperatorType::GreaterThan => Some(VmOpCode::GreaterThan),
        BramaOperatorType::GreaterEqualThan => Some(VmOpCode::GreaterEqualThan),
        BramaOperatorType::LessThan => Some(VmOpCode::LessThan),
        BramaOperatorType::LessEqualThan => Some(VmOpCode::LessEqualThan),
        _ => None,
    }
}

/// The opcode of an operator that stands before its operand.
pub open spec fn unary_opcode(operator: BramaOperatorType) -> Option<VmOpCode> {
    match operator {
        BramaOperatorType::Subtraction => Some(VmOpCode::Negate),
        BramaOperatorType::Not => Some(VmOpCode::Not),
        _ => None,
    }
}

/// An instruction with two operand bytes.
pub open spec fn instruction(opcode: VmOpCode, first: int, second: int) -> Seq<u8> {
    seq![opcode_byte(opcode), first as u8, second as u8]
}

/// A jump of `opcode` over `distance` bytes.
pub open spec fn jump(opcode: VmOpCode, distance: int) -> Seq<u8> {
    instruction(opcode, distance / 256, distance % 256)
}

/// A failed second pass.
pub open spec fn failed(message: Seq<char>, line: u32, column: u32, temps: nat) -> Generated {
    Generated { result: Err((message, line, column)), temps }
}

/// The code that loads a constant.
pub open spec fn constant_code(layout: Layout, value: PrimativeView, temps: nat) -> Generated {
    match constant_slot(layout.memory, layout.constants, value) {
        Some(slot) => if layout.scope <= 255 {
            Generated {
                result: Ok(instruction(VmOpCode::Load, layout.scope, slot as int)),
                temps,
            }
        } else {
            failed(message_scope(), 0, 0, temps)
        },
        None => failed(message_no_constant(), 0, 0, temps),
    }
}

/// The end of the code of a call: the call instruction itself and, where the
/// value of the call is used, the load of the temporary slot that holds it.
pub open spec fn call_code(
    layout: Layout,
    opcode: VmOpCode,
    before: Seq<u8>,
    slot: int,
    count: nat,
    kept: bool,
    temps: nat,
) -> Generated {
    if count > 255 {
        failed(message_too_many(), 0, 0, temps)
    } else if !kept {
        Generated {
            result: Ok(before + seq![opcode_byte(opcode), slot as u8, count as u8, 0u8, 0u8]),
            temps,
        }
    } else if layout.temp_base + temps > 255 || layout.scope > 255 {
        failed(message_too_many(), 0, 0, temps)
    } else {
        Generated {
            result: Ok(
                before + seq![
                    opcode_byte(opcode),
                    slot as u8,
                    count as u8,
                    1u8,
                    (layout.temp_base + temps) as u8,
                ] + instruction(VmOpCode::Load, layout.scope, layout.temp_base + temps),
            ),
            temps: temps + 1,
        }
    }
}

/// Whether a statement leaves a value on the stack.
pub open spec fn leaves_value(node: AstView) -> bool {
    match node {
        AstView::Nothing => false,
        AstView::Assignment { .. } => false,
        AstView::Block(_) => false,
        AstView::FuncCall { assign_to_temp, .. } => assign_to_temp,
        AstView::AccessorFuncCall { assign_to_temp, .. } => assign_to_temp,
        _ => true,
    }
}

/// The code of a logical operator. The left operand decides: where it
/// settles the answer, the right operand is not run and the answer is
/// loaded as a constant; otherwise the answer is the truth of the right
/// operand.
pub open spec fn logical_code(
    layout: Layout,
    settled: bool,
    left: Seq<u8>,
    right: Seq<u8>,
    temps: nat,
) -> Generated {
    let answer = constant_code(layout, PrimativeView::Bool(settled), temps);
    match answer.result {
        Err(_) => answer,
        Ok(load) => if right.len() + 5 > 65535 {
            failed(message_too_long(), 0, 0, temps)
        } else {
            let test = if settled {
                seq![opcode_byte(VmOpCode::Not)] + jump(VmOpCode::Compare, (right.len() + 5) as int)
            } else {
                jump(VmOpCode::Compare, (right.len() + 5) as int)
            };
            Generated {
                result: Ok(
                    left + test + right + seq![
                        opcode_byte(VmOpCode::Not),
                        opcode_byte(VmOpCode::Not),
                    ] + jump(VmOpCode::Jump, 3) + load,
                ),
                temps,
            }
        },
    }
}

/// The byte code of a tree, where `temps` temporary slots are taken.
pub open spec fn code_of(node: AstView, layout: Layout, temps: nat) -> Generated
    decreases node, 0nat,
{
    match node {
        AstView::Nothing => Generated { result: Ok(Seq::empty()), temps },
        AstView::Primative(value) => constant_code(layout, value, temps),
        AstView::Symbol { name, line, column } => match visible_slot(
            layout.scopes,
            layout.scope,
            name,
        ) {
            Some(place) => if place.0 <= 255 {
                Generated {
                    result: Ok(instruction(VmOpCode::Load, place.0, place.1 as int)),
                    temps,
                }
            } else {
                failed(message_scope(), line, column, temps)
            },
            None => failed(message_no_variable(), line, column, temps),
        },
        AstView::List(items) => {
            let listed = codes_of(items, 0, layout, temps, false);
            match listed.result {
                Err(_) => listed,
                Ok(code) => if items.len() > 255 {
                    failed(message_too_many(), 0, 0, listed.temps)
                } else {
                    Generated {
                        result: Ok(
                            code + seq![opcode_byte(VmOpCode::InitList), items.len() as u8],
                        ),
                        temps: listed.temps,
                    }
                },
            }
        },
        AstView::Binary { left, operator, right } => {
            let first = code_of(*left, layout, temps);
            match first.result {
                Err(_) => first,
                Ok(left_code) => {
                    let second = code_of(*right, layout, first.temps);
                    match second.result {
                        Err(_) => second,
                        Ok(right_code) => match binary_opcode(operator) {
                            Some(opcode) => Generated {
                                result: Ok(left_code + right_code + seq![opcode_byte(opcode)]),
                                temps: second.temps,
                            },
                            None => failed(message_operator(), 0, 0, second.temps),
                        },
                    }
                },
            }
        },
        AstView::Control { left, operator, right } => {
            let first = code_of(*left, layout, temps);
            match first.result {
                Err(_) => first,
                Ok(left_code) => {
                    let second = code_of(*right, layout, first.temps);
                    match second.result {
                        Err(_) => second,
                        Ok(right_code) => if operator == BramaOperatorType::And {
                            logical_code(layout, false, left_code, right_code, second.temps)
                        } else if operator == BramaOperatorType::Or {
                            logical_code(layout, true, left_code, right_code, second.temps)
                        } else {
                            match control_opcode(operator) {
                                Some(opcode) => Generated {
                                    result: Ok(left_code + right_code + seq![opcode_byte(opcode)]),
                                    temps: second.temps,
                                },
                                None => failed(message_operator(), 0, 0, second.temps),
                            }
                        },
                    }
                },
            }
        },
        AstView::PrefixUnary(operator, operand) => {
            let inner = code_of(*operand, layout, temps);
            match inner.result {
                Err(_) => inner,
                Ok(code) => match unary_opcode(operator) {
                    Some(opcode) => Generated {
                        result: Ok(code + seq![opcode_byte(opcode)]),
                        temps: inner.temps,
                    },
                    None => failed(message_operator(), 0, 0, inner.temps),
                },
            }
        },
        AstView::Assignment { variable, operator, expression } => {
            let value = code_of(*expression, layout, temps);
            match value.result {
                Err(_) => value,
                Ok(code) => if operator != BramaOperatorType::Assign {
                    failed(message_operator(), 0, 0, value.temps)
                } else {
                    match visible_slot(layout.scopes, layout.scope, variable) {
                        Some(place) => if place.0 <= 255 {
                            Generated {
                                result: Ok(
                                    code + instruction(VmOpCode::Store, place.0, place.1 as int),
                                ),
                                temps: value.temps,
                            }
                        } else {
                            failed(message_scope(), 0, 0, value.temps)
                        },
                        None => failed(message_no_variable(), 0, 0, value.temps),
                    }
                },
            }
        },
        AstView::FuncCall { names, arguments, assign_to_temp, line, column } => {
            match resolved(layout.tables, names, 0) {
                None => failed(message_no_function(), line, column, temps),
                Some(function) => match constant_slot(
                    layout.memory,
                    layout.constants,
                    PrimativeView::Function(function),
                ) {
                    None => failed(message_no_constant(), line, column, temps),
                    Some(slot) => {
                        let given = codes_of(arguments, 0, layout, temps, false);
                        match given.result {
                            Err(_) => given,
                            Ok(code) => call_code(
                                layout,
                                VmOpCode::Call,
                                code,
                                slot as int,
                                arguments.len(),
                                assign_to_temp,
                                given.temps,
                            ),
                        }
                    },
                },
            }
        },
        AstView::AccessorFuncCall { source, name, arguments, assign_to_temp, line, column } => {
            let first = code_of(*source, layout, temps);
            match first.result {
                Err(_) => first,
                Ok(source_code) => match constant_slot(
                    layout.memory,
                    layout.constants,
                    PrimativeView::Text(name),
                ) {
                    None => failed(message_no_constant(), line, column, first.temps),
                    Some(slot) => {
                        let given = codes_of(arguments, 0, layout, first.temps, false);
                        match given.result {
                            Err(_) => given,
                            Ok(code) => call_code(
                                layout,
                                VmOpCode::CallMethod,
                                source_code + code,
                                slot as int,
                                arguments.len(),
                                assign_to_temp,
                                given.temps,
                            ),
                        }
                    },
                },
            }
        },
        AstView::Block(statements) => codes_of(statements, 0, layout, temps, true),
    }
}

/// The byte code of the trees of a list from place `from` on, one after the
/// other. Where the trees are statements, a `Pop` follows each one that
/// leaves a value.
pub open spec fn codes_of(
    nodes: Seq<AstView>,
    from: nat,
    layout: Layout,
    temps: nat,
    statements: bool,
) -> Generated
    decreases nodes, nodes.len() - from,
{
    if from >= nodes.len() {
        Generated { result: Ok(Seq::empty()), temps }
    } else {
        let first = code_of(nodes[from as int], layout, temps);
        match first.result {
            Err(_) => first,
            Ok(code) => {
                let rest = codes_of(nodes, from + 1, layout, first.temps, statements);
                match rest.result {
                    Err(_) => rest,
                    Ok(more) => Generated {
                        result: Ok(
                            if statements && leaves_value(nodes[from as int]) {
                                code + seq![opcode_byte(VmOpCode::Pop)] + more
                            } else {
                                code + more
                            },
                        ),
                        temps: rest.temps,
                    },
                }
            },
        }
    }
}

/// A name that no scope in sight declares cannot be compiled: the error
/// carries the line and the column of the name.
pub proof fn undeclared_name_is_refused(name: Seq<char>, line: u32, column: u32, layout: Layout, temps: nat)
    requires
        visible_slot(layout.scopes, layout.scope, name) is None,
    ensures
        code_of(AstView::Symbol { name, line, column }, layout, temps).result == Err::<
            Seq<u8>,
            ErrorView,
        >((message_no_variable(), line, column)),
{
}

} // verus!
