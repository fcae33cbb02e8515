//! The second pass of the compiler: it writes the byte code of a tree, with
//! the slots that the storage of the scope assigned.

use vstd::prelude::*;
use std::sync::Arc;
use crate::types::BramaOperatorType;
use crate::compiler::VmOpCode;
use crate::compiler::opcode_byte;
use crate::compiler::ast::BramaAstType;
use crate::compiler::ast::ast_view;
use crate::compiler::ast::ast_views;
use crate::compiler::code;
use crate::compiler::code::ErrorView;
use crate::compiler::code::Generated;
use crate::compiler::code::Layout;
use crate::compiler::context::KaramelCompilerContext;
use crate::compiler::static_storage::first_equal;
use crate::compiler::static_storage::first_equal_is_unique;
use crate::compiler::value::BramaPrimative;
use crate::compiler::value::PrimativeView;
use crate::compiler::value::share;

verus! {

/// What the second pass hands back for a tree: the number of temporary
/// slots that are taken, or a message with a line and a column.
pub type EmitResult = Result<usize, (&'static str, u32, u32)>;

/// What the second pass reads in a context.
pub open spec fn layout_of(context: &KaramelCompilerContext) -> Layout {
    Layout {
        scopes: context.scopes(),
        scope: context.storage_index as int,
        memory: context.storages@[context.storage_index as int].memory_views(),
        constants: context.storages@[context.storage_index as int].constant_size as int,
        tables: context.modules.tables(),
        temp_base: context.storages@[context.storage_index as int].constant_size
            + context.storages@[context.storage_index as int].variables@.len(),
    }
}

/// The code grew by what the second pass writes, and the result is what it
/// hands back. After an error the code holds what was written up to it.
pub open spec fn emitted(before: Seq<u8>, after: Seq<u8>, result: EmitResult, expected: Generated) -> bool {
    match result {
        Ok(temps) => expected.result is Ok && after == before + expected.result->Ok_0 && temps
            == expected.temps,
        Err(error) => expected.result == Err::<Seq<u8>, ErrorView>((error.0@, error.1, error.2)),
    }
}

/// What a search of memory found is the slot of the constant, where it is
/// among the constants.
pub proof fn found_is_constant_slot(
    memory: Seq<PrimativeView>,
    constants: int,
    value: PrimativeView,
    found: Option<u8>,
)
    requires
        match found {
            Some(slot) => first_equal(memory, value, slot as int),
            None => forall|i: int| first_equal(memory, value, i) ==> i > 255,
        },
    ensures
        code::constant_slot(memory, constants, value) == match found {
            Some(slot) => if slot < constants {
                Some(slot)
            } else {
                None
            },
            None => None,
        },
{
    match found {
        Some(slot) => {
            if slot < constants {
                assert(first_equal(memory, value, slot as int) && slot < constants && slot <= 255);
                let chosen = choose|i: int|
                    first_equal(memory, value, i) && i < constants && i <= 255;
                first_equal_is_unique(memory, value, chosen, slot as int);
            } else {
                assert forall|i: int| first_equal(memory, value, i) implies !(i < constants) by {
                    first_equal_is_unique(memory, value, i, slot as int);
                }
            }
        },
        None => {},
    }
}

/// The opcode of an arithmetic operator.
pub fn binary_opcode(operator: BramaOperatorType) -> (opcode: Option<VmOpCode>)
    ensures
        opcode == code::binary_opcode(operator),
{
    match operator {
        BramaOperatorType::Addition => Some(VmOpCode::Addition),
        BramaOperatorType::Subtraction => Some(VmOpCode::Subraction),
        BramaOperatorType::Multiplication => Some(VmOpCode::Multiply),
        BramaOperatorType::Division => Some(VmOpCode::Division),
        BramaOperatorType::Modulo => Some(VmOpCode::Module),
        _ => None,
    }
}

/// The opcode of a comparison.
pub fn control_opcode(operator: BramaOperatorType) -> (opcode: Option<VmOpCode>)
    ensures
        opcode == code::control_opcode(operator),
{
    match operator {
        BramaOperatorType::Equal => Some(VmOpCode::Equal),
        BramaOperatorType::NotEqual => Some(VmOpCode::NotEqual),
        BramaOperatorType::GreaterThan => Some(VmOpCode::GreaterThan),
        BramaOperatorType::GreaterEqualThan => Some(VmOpCode::GreaterEqualThan),
        BramaOperatorType::LessThan => Some(VmOpCode::LessThan),
        BramaOperatorType::LessEqualThan => Some(VmOpCode::LessEqualThan),
        _ => None,
    }
}

/// The opcode of an operator that stands before its operand.
pub fn unary_opcode(operator: BramaOperatorType) -> (opcode: Option<VmOpCode>)
    ensures
        opcode == code::unary_opcode(operator),
{
    match operator {
        BramaOperatorType::Subtraction => Some(VmOpCode::Negate),
        BramaOperatorType::Not => Some(VmOpCode::Not),
        _ => None,
    }
}

/// Whether a statement leaves a value on the stack.
pub fn leaves_value(node: &BramaAstType) -> (answer: bool)
    ensures
        answer == code::leaves_value(node@),
{
    match node {
        BramaAstType::Nothing => false,
        BramaAstType::Assignment { .. } => false,
        BramaAstType::Block(_) => false,
        BramaAstType::FuncCall { assign_to_temp, .. } => *assign_to_temp,
        BramaAstType::AccessorFuncCall { assign_to_temp, .. } => *assign_to_temp,
        _ => true,
    }
}

/// Writes an opcode.
pub(crate) fn emit_opcode(opcodes: &mut Vec<u8>, opcode: VmOpCode)
    ensures
        final(opcodes)@ == old(opcodes)@ + seq![opcode_byte(opcode)],
{
    opcodes.push(opcode.into());
    assert(final(opcodes)@ =~= old(opcodes)@ + seq![opcode_byte(opcode)]);
}

/// Writes an instruction with two operand bytes.
pub(crate) fn emit_instruction(opcodes: &mut Vec<u8>, opcode: VmOpCode, first: u8, second: u8)
    ensures
        final(opcodes)@ == old(opcodes)@ + code::instruction(opcode, first as int, second as int),
{
    opcodes.push(opcode.into());
    opcodes.push(first);
    opcodes.push(second);
    assert(final(opcodes)@ =~= old(opcodes)@ + code::instruction(
        opcode,
        first as int,
        second as int,
    ));
}

/// Writes a jump of `opcode` over `distance` bytes.
pub(crate) fn emit_jump(opcodes: &mut Vec<u8>, opcode: VmOpCode, distance: usize)
    requires
        distance <= 65535,
    ensures
        final(opcodes)@ == old(opcodes)@ + code::jump(opcode, distance as int),
{
    emit_instruction(opcodes, opcode, (distance / 256) as u8, (distance % 256) as u8);
}

impl KaramelCompilerContext {
    /// The slot of a constant among the constants of the running scope.
    pub(crate) fn constant_slot(&self, value: Arc<BramaPrimative>) -> (slot: Option<u8>)
        requires
            self.storage_index < self.storages@.len(),
        ensures
            slot == code::constant_slot(
                layout_of(self).memory,
                layout_of(self).constants,
                value@,
            ),
    {
        let ghost wanted = value@;
        let storage = &self.storages[self.storage_index];
        let found: Option<u8> = storage.get_constant_location(value);
        proof {
            found_is_constant_slot(
                layout_of(self).memory,
                layout_of(self).constants,
                wanted,
                found,
            );
        }
        match found {
            Some(slot) => if slot < storage.get_constant_size() {
                Some(slot)
            } else {
                None
            },
            None => None,
        }
    }

    /// Writes the load of a constant.
    pub(crate) fn emit_constant(&self, value: Arc<BramaPrimative>, opcodes: &mut Vec<u8>, temps: usize) -> (result:
        EmitResult)
        requires
            self.storage_index < self.storages@.len(),
        ensures
            emitted(
                old(opcodes)@,
                final(opcodes)@,
                result,
                code::constant_code(layout_of(self), value@, temps as nat),
            ),
    {
        match self.constant_slot(value) {
            Some(slot) => {
                if self.storage_index <= 255 {
                    emit_instruction(opcodes, VmOpCode::Load, self.storage_index as u8, slot);
                    Ok(temps)
                } else {
                    Err(("Scope not found", 0, 0))
                }
            },
            None => Err(("Constant not found", 0, 0)),
        }
    }

    /// Writes the end of the code of a call.
    pub(crate) fn emit_call(
        &self,
        opcode: VmOpCode,
        slot: u8,
        count: usize,
        kept: bool,
        opcodes: &mut Vec<u8>,
        temps: usize,
    ) -> (result: EmitResult)
        requires
            self.storage_index < self.storages@.len(),
        ensures
            emitted(
                Seq::empty(),
                final(opcodes)@,
                result,
                code::call_code(
                    layout_of(self),
                    opcode,
                    old(opcodes)@,
                    slot as int,
                    count as nat,
                    kept,
                    temps as nat,
                ),
            ),
    {
        if count > 255 {
            return Err(("Too many values", 0, 0));
        }
        let storage = &self.storages[self.storage_index];
        let base: usize = storage.constant_size as usize;
        let variables: usize = storage.variables.len();
        if !kept {
            opcodes.push(opcode.into());
            opcodes.push(slot);
            opcodes.push(count as u8);
            opcodes.push(0);
            opcodes.push(0);
            assert(final(opcodes)@ =~= Seq::<u8>::empty() + (old(opcodes)@ + seq![
                opcode_byte(opcode),
                slot,
                count as u8,
                0u8,
                0u8,
            ]));
            return Ok(temps);
        }
        if variables > 255 || temps > 255 || base + variables + temps > 255 || self.storage_index
            > 255 {
            return Err(("Too many values", 0, 0));
        }
        let temp: u8 = (base + variables + temps) as u8;
        opcodes.push(opcode.into());
        opcodes.push(slot);
        opcodes.push(count as u8);
        opcodes.push(1);
        opcodes.push(temp);
        emit_instruction(opcodes, VmOpCode::Load, self.storage_index as u8, temp);
        assert(final(opcodes)@ =~= Seq::<u8>::empty() + (old(opcodes)@ + seq![
            opcode_byte(opcode),
            slot,
            count as u8,
            1u8,
            temp,
        ] + code::instruction(VmOpCode::Load, self.storage_index as int, temp as int)));
        Ok(temps + 1)
    }

    /// Writes the code of a logical operator behind the code of its left
    /// operand; `right` is the code of its right operand.
    pub(crate) fn emit_logical(&self, settled: bool, right: &mut Vec<u8>, opcodes: &mut Vec<u8>, temps: usize) -> (result:
        EmitResult)
        requires
            self.storage_index < self.storages@.len(),
        ensures
            emitted(
                Seq::empty(),
                final(opcodes)@,
                result,
                code::logical_code(
                    layout_of(self),
                    settled,
                    old(opcodes)@,
                    old(right)@,
                    temps as nat,
                ),
            ),
    {
        let slot: u8 = match self.constant_slot(Arc::new(BramaPrimative::Bool(settled))) {
            Some(slot) => slot,
            None => {
                return Err(("Constant not found", 0, 0));
            },
        };
        if self.storage_index > 255 {
            return Err(("Scope not found", 0, 0));
        }
        if right.len() > 65530 {
            return Err(("Expression is too long", 0, 0));
        }
        let distance: usize = right.len() + 5;
        if settled {
            emit_opcode(opcodes, VmOpCode::Not);
        }
        emit_jump(opcodes, VmOpCode::Compare, distance);
        opcodes.append(right);
        emit_opcode(opcodes, VmOpCode::Not);
        emit_opcode(opcodes, VmOpCode::Not);
        emit_jump(opcodes, VmOpCode::Jump, 3);
        emit_instruction(opcodes, VmOpCode::Load, self.storage_index as u8, slot);
        proof {
            let expected = code::logical_code(
                layout_of(self),
                settled,
                old(opcodes)@,
                old(right)@,
                temps as nat,
            );
            assert(expected.result is Ok);
            assert(final(opcodes)@ =~= Seq::<u8>::empty() + expected.result->Ok_0);
        }
        Ok(temps)
    }

    /// Writes the byte code of the trees of a list, one after the other.
    pub(crate) fn generate_all(
        &self,
        nodes: &Vec<BramaAstType>,
        opcodes: &mut Vec<u8>,
        temps: usize,
        statements: bool,
    ) -> (result: EmitResult)
        requires
            self.storage_index < self.storages@.len(),
        ensures
            emitted(
                old(opcodes)@,
                final(opcodes)@,
                result,
                code::codes_of(ast_views(*nodes), 0, layout_of(self), temps as nat, statements),
            ),
        decreases *nodes, 2nat,
    {
        let ghost layout = layout_of(self);
        let ghost views = ast_views(*nodes);
        let ghost whole = code::codes_of(views, 0, layout, temps as nat, statements);
        let mut taken: usize = temps;
        let mut i: usize = 0;
        while i < nodes.len()
            invariant
                i <= nodes@.len(),
                self.storage_index < self.storages@.len(),
                layout == layout_of(self),
                views == ast_views(*nodes),
                whole == code::codes_of(views, 0, layout, temps as nat, statements),
                joined(
                    old(opcodes)@,
                    opcodes@,
                    whole,
                    code::codes_of(views, i as nat, layout, taken as nat, statements),
                ),
            decreases nodes@.len() - i,
        {
            proof {
                assert(decreases_to!(*nodes => nodes[i as int]));
                assert(views[i as int] == ast_view(nodes[i as int]));
            }
            let ghost before = opcodes@;
            let ghost here = code::codes_of(views, i as nat, layout, taken as nat, statements);
            match self.generate(&nodes[i], opcodes, taken) {
                Ok(next) => {
                    taken = next;
                },
                Err(error) => {
                    return Err(error);
                },
            }
            if statements && leaves_value(&nodes[i]) {
                emit_opcode(opcodes, VmOpCode::Pop);
            }
            proof {
                let rest = code::codes_of(views, (i + 1) as nat, layout, taken as nat, statements);
                match rest.result {
                    Ok(more) => {
                        assert(here.result is Ok);
                        assert(before + (here.result->Ok_0) =~= opcodes@ + more);
                    },
                    Err(_) => {},
                }
            }
            i += 1;
        }
        proof {
            assert(opcodes@ + Seq::<u8>::empty() =~= opcodes@);
        }
        Ok(taken)
    }

    /// Writes the byte code of a list: its items, then the instruction that makes the list.
    pub(crate) fn generate_list(&self, node: &BramaAstType, opcodes: &mut Vec<u8>, temps: usize) -> (result: EmitResult)
        requires
            self.storage_index < self.storages@.len(),
            *node is List,
        ensures
            emitted(
                old(opcodes)@,
                final(opcodes)@,
                result,
                code::code_of(node@, layout_of(self), temps as nat),
            ),
        decreases *node, 0nat,
    {
        let ghost layout = layout_of(self);
        match node {
            BramaAstType::List(items) => {
                let taken: usize = match self.generate_all(items, opcodes, temps, false) {
                    Ok(taken) => taken,
                    Err(error) => {
                        return Err(error);
                    },
                };
                if items.len() > 255 {
                    return Err(("Too many values", 0, 0));
                }
                let ghost before = opcodes@;
                opcodes.push(VmOpCode::InitList.into());
                opcodes.push(items.len() as u8);
                assert(opcodes@ =~= before + seq![
                    opcode_byte(VmOpCode::InitList),
                    items@.len() as u8,
                ]);
                assert(final(opcodes)@ =~= old(opcodes)@ + code::code_of(
                    node@,
                    layout,
                    temps as nat,
                ).result->Ok_0);
                Ok(taken)
            },
            _ => Err(("Unsupported operator", 0, 0)),
        }
    }

    /// Writes the byte code of an arithmetic node: the operands, then the operator.
    pub(crate) fn generate_binary(&self, node: &BramaAstType, opcodes: &mut Vec<u8>, temps: usize) -> (result: EmitResult)
        requires
            self.storage_index < self.storages@.len(),
            *node is Binary,
        ensures
            emitted(
                old(opcodes)@,
                final(opcodes)@,
                result,
                code::code_of(node@, layout_of(self), temps as nat),
            ),
        decreases *node, 0nat,
    {
        let ghost layout = layout_of(self);
        match node {
            BramaAstType::Binary { left, operator, right } => {
                let first: usize = match self.generate(left, opcodes, temps) {
                    Ok(taken) => taken,
                    Err(error) => {
                        return Err(error);
                    },
                };
                let second: usize = match self.generate(right, opcodes, first) {
                    Ok(taken) => taken,
                    Err(error) => {
                        return Err(error);
                    },
                };
                match binary_opcode(*operator) {
                    Some(opcode) => {
                        emit_opcode(opcodes, opcode);
                        assert(final(opcodes)@ =~= old(opcodes)@ + code::code_of(
                            node@,
                            layout,
                            temps as nat,
                        ).result->Ok_0);
                        Ok(second)
                    },
                    None => Err(("Unsupported operator", 0, 0)),
                }
            },
            _ => Err(("Unsupported operator", 0, 0)),
        }
    }

    /// Writes the byte code of a comparison or a logical node.
    pub(crate) fn generate_control(&self, node: &BramaAstType, opcodes: &mut Vec<u8>, temps: usize) -> (result: EmitResult)
        requires
            self.storage_index < self.storages@.len(),
            *node is Control,
        ensures
            emitted(
                old(opcodes)@,
                final(opcodes)@,
                result,
                code::code_of(node@, layout_of(self), temps as nat),
            ),
        decreases *node, 0nat,
    {
        let ghost layout = layout_of(self);
        match node {
            BramaAstType::Control { left, operator, right } => {
                let first: usize = match self.generate(left, opcodes, temps) {
                    Ok(taken) => taken,
                    Err(error) => {
                        return Err(error);
                    },
                };
                if *operator == BramaOperatorType::And || *operator == BramaOperatorType::Or {
                    let mut code: Vec<u8> = Vec::new();
                    let second: usize = match self.generate(right, &mut code, first) {
                        Ok(taken) => taken,
                        Err(error) => {
                            return Err(error);
                        },
                    };
                    assert(Seq::<u8>::empty() + code@ =~= code@);
                    let ghost left_code = opcodes@;
                    let settled: bool = *operator == BramaOperatorType::Or;
                    match self.emit_logical(settled, &mut code, opcodes, second) {
                        Ok(taken) => {
                            proof {
                                let inner = code::logical_code(
                                    layout,
                                    settled,
                                    code::code_of(ast_view(**left), layout, temps as nat).result->Ok_0,
                                    code::code_of(ast_view(**right), layout, first as nat).result->Ok_0,
                                    second as nat,
                                );
                                assert(inner.result is Ok);
                                assert(final(opcodes)@ =~= old(opcodes)@ + inner.result->Ok_0);
                            }
                            Ok(taken)
                        },
                        Err(error) => Err(error),
                    }
                } else {
                    let second: usize = match self.generate(right, opcodes, first) {
                        Ok(taken) => taken,
                        Err(error) => {
                            return Err(error);
                        },
                    };
                    match control_opcode(*operator) {
                        Some(opcode) => {
                            emit_opcode(opcodes, opcode);
                            assert(final(opcodes)@ =~= old(opcodes)@ + code::code_of(
                                node@,
                                layout,
                                temps as nat,
                            ).result->Ok_0);
                            Ok(second)
                        },
                        None => Err(("Unsupported operator", 0, 0)),
                    }
                }
            },
            _ => Err(("Unsupported operator", 0, 0)),
        }
    }

    /// Writes the byte code of an operator that stands before its operand.
    pub(crate) fn generate_unary(&self, node: &BramaAstType, opcodes: &mut Vec<u8>, temps: usize) -> (result: EmitResult)
        requires
            self.storage_index < self.storages@.len(),
            *node is PrefixUnary,
        ensures
            emitted(
                old(opcodes)@,
                final(opcodes)@,
                result,
                code::code_of(node@, layout_of(self), temps as nat),
            ),
        decreases *node, 0nat,
    {
        let ghost layout = layout_of(self);
        match node {
            BramaAstType::PrefixUnary(operator, operand) => {
                let taken: usize = match self.generate(operand, opcodes, temps) {
                    Ok(taken) => taken,
                    Err(error) => {
                        return Err(error);
                    },
                };
                match unary_opcode(*operator) {
                    Some(opcode) => {
                        emit_opcode(opcodes, opcode);
                        assert(final(opcodes)@ =~= old(opcodes)@ + code::code_of(
                            node@,
                            layout,
                            temps as nat,
                        ).result->Ok_0);
                        Ok(taken)
                    },
                    None => Err(("Unsupported operator", 0, 0)),
                }
            },
            _ => Err(("Unsupported operator", 0, 0)),
        }
    }

    /// Writes the byte code of an assignment: the value, then the store.
    pub(crate) fn generate_assignment(&self, node: &BramaAstType, opcodes: &mut Vec<u8>, temps: usize) -> (result: EmitResult)
        requires
            self.storage_index < self.storages@.len(),
            *node is Assignment,
        ensures
            emitted(
                old(opcodes)@,
                final(opcodes)@,
                result,
                code::code_of(node@, layout_of(self), temps as nat),
            ),
        decreases *node, 0nat,
    {
        let ghost layout = layout_of(self);
        match node {
            BramaAstType::Assignment { variable, operator, expression } => {
                let taken: usize = match self.generate(expression, opcodes, temps) {
                    Ok(taken) => taken,
                    Err(error) => {
                        return Err(error);
                    },
                };
                if *operator != BramaOperatorType::Assign {
                    return Err(("Unsupported operator", 0, 0));
                }
                match self.find_variable(self.storage_index, variable.as_str()) {
                    Some(place) => {
                        if place.0 <= 255 {
                            emit_instruction(opcodes, VmOpCode::Store, place.0 as u8, place.1);
                            assert(final(opcodes)@ =~= old(opcodes)@ + code::code_of(
                                node@,
                                layout,
                                temps as nat,
                            ).result->Ok_0);
                            Ok(taken)
                        } else {
                            Err(("Scope not found", 0, 0))
                        }
                    },
                    None => Err(("Variable not found", 0, 0)),
                }
            },
            _ => Err(("Unsupported operator", 0, 0)),
        }
    }

    /// Writes the byte code of a call by name: the arguments, then the call.
    pub(crate) fn generate_call(&self, node: &BramaAstType, opcodes: &mut Vec<u8>, temps: usize) -> (result: EmitResult)
        requires
            self.storage_index < self.storages@.len(),
            *node is FuncCall,
        ensures
            emitted(
                old(opcodes)@,
                final(opcodes)@,
                result,
                code::code_of(node@, layout_of(self), temps as nat),
            ),
        decreases *node, 0nat,
    {
        match node {
            BramaAstType::FuncCall { names, arguments, assign_to_temp, line, column } => {
                let function = match self.modules.find_method(names) {
                    Some(function) => function,
                    None => {
                        return Err(("Function not found", *line, *column));
                    },
                };
                let slot: u8 = match self.constant_slot(
                    Arc::new(BramaPrimative::Function(function)),
                ) {
                    Some(slot) => slot,
                    None => {
                        return Err(("Constant not found", *line, *column));
                    },
                };
                let mut code: Vec<u8> = Vec::new();
                let taken: usize = match self.generate_all(arguments, &mut code, temps, false) {
                    Ok(taken) => taken,
                    Err(error) => {
                        return Err(error);
                    },
                };
                assert(Seq::<u8>::empty() + code@ =~= code@);
                match self.emit_call(
                    VmOpCode::Call,
                    slot,
                    arguments.len(),
                    *assign_to_temp,
                    &mut code,
                    taken,
                ) {
                    Ok(after) => {
                        assert(Seq::<u8>::empty() + code@ =~= code@);
                        opcodes.append(&mut code);
                        Ok(after)
                    },
                    Err(error) => Err(error),
                }
            },
            _ => Err(("Unsupported operator", 0, 0)),
        }
    }

    /// Writes the byte code of a method call: the value, the arguments, then the call.
    pub(crate) fn generate_method(&self, node: &BramaAstType, opcodes: &mut Vec<u8>, temps: usize) -> (result: EmitResult)
        requires
            self.storage_index < self.storages@.len(),
            *node is AccessorFuncCall,
        ensures
            emitted(
                old(opcodes)@,
                final(opcodes)@,
                result,
                code::code_of(node@, layout_of(self), temps as nat),
            ),
        decreases *node, 0nat,
    {
        match node {
            BramaAstType::AccessorFuncCall { source, name, arguments, assign_to_temp, line, column } => {
                let mut code: Vec<u8> = Vec::new();
                let first: usize = match self.generate(source, &mut code, temps) {
                    Ok(taken) => taken,
                    Err(error) => {
                        return Err(error);
                    },
                };
                assert(Seq::<u8>::empty() + code@ =~= code@);
                let slot: u8 = match self.constant_slot(
                    Arc::new(BramaPrimative::Text(crate::text::copy_text(name.as_str()))),
                ) {
                    Some(slot) => slot,
                    None => {
                        return Err(("Constant not found", *line, *column));
                    },
                };
                let taken: usize = match self.generate_all(arguments, &mut code, first, false) {
                    Ok(taken) => taken,
                    Err(error) => {
                        return Err(error);
                    },
                };
                match self.emit_call(
                    VmOpCode::CallMethod,
                    slot,
                    arguments.len(),
                    *assign_to_temp,
                    &mut code,
                    taken,
                ) {
                    Ok(after) => {
                        assert(Seq::<u8>::empty() + code@ =~= code@);
                        opcodes.append(&mut code);
                        Ok(after)
                    },
                    Err(error) => Err(error),
                }
            },
            _ => Err(("Unsupported operator", 0, 0)),
        }
    }

    /// Writes the byte code of a tree.
    pub(crate) fn generate(&self, node: &BramaAstType, opcodes: &mut Vec<u8>, temps: usize) -> (result: EmitResult)
        requires
            self.storage_index < self.storages@.len(),
        ensures
            emitted(
                old(opcodes)@,
                final(opcodes)@,
                result,
                code::code_of(node@, layout_of(self), temps as nat),
            ),
        decreases *node, 1nat,
    {
        match node {
            BramaAstType::Nothing => {
                assert(opcodes@ + Seq::<u8>::empty() =~= opcodes@);
                Ok(temps)
            },
            BramaAstType::Primative(value) => self.emit_constant(share(value), opcodes, temps),
            BramaAstType::Symbol { name, line, column } => {
                match self.find_variable(self.storage_index, name.as_str()) {
                    Some(place) => {
                        if place.0 <= 255 {
                            emit_instruction(opcodes, VmOpCode::Load, place.0 as u8, place.1);
                            Ok(temps)
                        } else {
                            Err(("Scope not found", *line, *column))
                        }
                    },
                    None => Err(("Variable not found", *line, *column)),
                }
            },
            BramaAstType::List(_) => self.generate_list(node, opcodes, temps),
            BramaAstType::Binary { .. } => self.generate_binary(node, opcodes, temps),
            BramaAstType::Control { .. } => self.generate_control(node, opcodes, temps),
            BramaAstType::PrefixUnary(_, _) => self.generate_unary(node, opcodes, temps),
            BramaAstType::Assignment { .. } => self.generate_assignment(node, opcodes, temps),
            BramaAstType::FuncCall { .. } => self.generate_call(node, opcodes, temps),
            BramaAstType::AccessorFuncCall { .. } => self.generate_method(node, opcodes, temps),
            BramaAstType::Block(statements) => self.generate_all(statements, opcodes, temps, true),
        }
    }
}

/// The code so far and what is still to come give the whole: where the rest
/// fails, the whole fails in the same way; where the rest is `more`, the
/// whole is the code written so far and `more`.
pub open spec fn joined(start: Seq<u8>, written: Seq<u8>, whole: Generated, rest: Generated) -> bool {
    match rest.result {
        Ok(more) => whole.result is Ok && start + whole.result->Ok_0 == written + more
            && whole.temps == rest.temps,
        Err(error) => whole.result == Err::<Seq<u8>, ErrorView>(error),
    }
}

} // verus!
