//! From syntax tree to byte code: values, function references, the storage
//! that lays memory out, and the code generator.

use vstd::prelude::*;
use crate::compiler::ast::AstView;
use crate::compiler::ast::BramaAstType;
use crate::compiler::code::ErrorView;
use crate::compiler::code::Layout;
use crate::compiler::code::Pool;
use crate::compiler::code::code_of;
use crate::compiler::code::gathered;
use crate::compiler::context::KaramelCompilerContext;
use crate::compiler::context::ScopeView;
use crate::compiler::emit::layout_of;
use crate::compiler::static_storage::StaticStorage;
use crate::compiler::static_storage::empties;
use crate::compiler::static_storage::numbered;
use crate::compiler::storage_builder::CompileResult;
use crate::compiler::storage_builder::error_view;
use crate::compiler::storage_builder::pool_of;
use crate::compiler::storage_builder::prepare;
use crate::compiler::value::PrimativeView;

pub mod ast;

pub mod code;

pub mod context;

pub mod count;

pub mod emit;

pub mod function;

pub mod generator;

pub mod static_storage;

pub mod storage_builder;

pub mod value;

verus! {

/// The instructions of the machine. An instruction is one byte for the
/// opcode and then as many operand bytes as the opcode says.
#[derive(Clone, Copy, Debug, PartialEq, Eq, Structural)]
pub enum VmOpCode {
    Halt,
    Load,
    Store,
    Addition,
    Subraction,
    Multiply,
    Division,
    Module,
    Equal,
    NotEqual,
    GreaterThan,
    GreaterEqualThan,
    LessThan,
    LessEqualThan,
    Not,
    Negate,
    Jump,
    Compare,
    InitList,
    Call,
    CallMethod,
    Pop,
}

/// The byte that writes an opcode.
pub open spec fn opcode_byte(opcode: VmOpCode) -> u8 {
    match opcode {
        VmOpCode::Halt => 0,
        VmOpCode::Load => 1,
        VmOpCode::Store => 2,
        VmOpCode::Addition => 3,
        VmOpCode::Subraction => 4,
        VmOpCode::Multiply => 5,
        VmOpCode::Division => 6,
        VmOpCode::Module => 7,
        VmOpCode::Equal => 8,
        VmOpCode::NotEqual => 9,
        VmOpCode::GreaterThan => 10,
        VmOpCode::GreaterEqualThan => 11,
        VmOpCode::LessThan => 12,
        VmOpCode::LessEqualThan => 13,
        VmOpCode::Not => 14,
        VmOpCode::Negate => 15,
        VmOpCode::Jump => 16,
        VmOpCode::Compare => 17,
        VmOpCode::InitList => 18,
        VmOpCode::Call => 19,
        VmOpCode::CallMethod => 20,
        VmOpCode::Pop => 21,
    }
}

/// The opcode that a byte writes, if it writes one.
pub open spec fn byte_opcode(byte: u8) -> Option<VmOpCode> {
    if byte == 0 {
        Some(VmOpCode::Halt)
    } else if byte == 1 {
        Some(VmOpCode::Load)
    } else if byte == 2 {
        Some(VmOpCode::Store)
    } else if byte == 3 {
        Some(VmOpCode::Addition)
    } else if byte == 4 {
        Some(VmOpCode::Subraction)
    } else if byte == 5 {
        Some(VmOpCode::Multiply)
    } else if byte == 6 {
        Some(VmOpCode::Division)
    } else if byte == 7 {
        Some(VmOpCode::Module)
    } else if byte == 8 {
        Some(VmOpCode::Equal)
    } else if byte == 9 {
        Some(VmOpCode::NotEqual)
    } else if byte == 10 {
        Some(VmOpCode::GreaterThan)
    } else if byte == 11 {
        Some(VmOpCode::GreaterEqualThan)
    } else if byte == 12 {
        Some(VmOpCode::LessThan)
    } else if byte == 13 {
        Some(VmOpCode::LessEqualThan)
    } else if byte == 14 {
        Some(VmOpCode::Not)
    } else if byte == 15 {
        Some(VmOpCode::Negate)
    } else if byte == 16 {
        Some(VmOpCode::Jump)
    } else if byte == 17 {
        Some(VmOpCode::Compare)
    } else if byte == 18 {
        Some(VmOpCode::InitList)
    } else if byte == 19 {
        Some(VmOpCode::Call)
    } else if byte == 20 {
        Some(VmOpCode::CallMethod)
    } else if byte == 21 {
        Some(VmOpCode::Pop)
    } else {
        None
    }
}

/// Reading back the byte of an opcode gives the opcode.
pub proof fn opcode_round_trip(opcode: VmOpCode)
    ensures
        byte_opcode(opcode_byte(opcode)) == Some(opcode),
{
}

impl From<VmOpCode> for u8 {
    fn from(opcode: VmOpCode) -> (byte: u8) {
        match opcode {
            VmOpCode::Halt => 0,
            VmOpCode::Load => 1,
            VmOpCode::Store => 2,
            VmOpCode::Addition => 3,
            VmOpCode::Subraction => 4,
            VmOpCode::Multiply => 5,
            VmOpCode::Division => 6,
            VmOpCode::Module => 7,
            VmOpCode::Equal => 8,
            VmOpCode::NotEqual => 9,
            VmOpCode::GreaterThan => 10,
            VmOpCode::GreaterEqualThan => 11,
            VmOpCode::LessThan => 12,
            VmOpCode::LessEqualThan => 13,
            VmOpCode::Not => 14,
            VmOpCode::Negate => 15,
            VmOpCode::Jump => 16,
            VmOpCode::Compare => 17,
            VmOpCode::InitList => 18,
            VmOpCode::Call => 19,
            VmOpCode::CallMethod => 20,
            VmOpCode::Pop => 21,
        }
    }
}

impl vstd::std_specs::convert::FromSpecImpl<VmOpCode> for u8 {
    open spec fn obeys_from_spec() -> bool {
        true
    }

    open spec fn from_spec(opcode: VmOpCode) -> u8 {
        opcode_byte(opcode)
    }
}

impl VmOpCode {
    /// The opcode that a byte writes, if it writes one.
    pub fn from_byte(byte: u8) -> (opcode: Option<VmOpCode>)
        ensures
            opcode == byte_opcode(byte),
    {
        match byte {
            0 => Some(VmOpCode::Halt),
            1 => Some(VmOpCode::Load),
            2 => Some(VmOpCode::Store),
            3 => Some(VmOpCode::Addition),
            4 => Some(VmOpCode::Subraction),
            5 => Some(VmOpCode::Multiply),
            6 => Some(VmOpCode::Division),
            7 => Some(VmOpCode::Module),
            8 => Some(VmOpCode::Equal),
            9 => Some(VmOpCode::NotEqual),
            10 => Some(VmOpCode::GreaterThan),
            11 => Some(VmOpCode::GreaterEqualThan),
            12 => Some(VmOpCode::LessThan),
            13 => Some(VmOpCode::LessEqualThan),
            14 => Some(VmOpCode::Not),
            15 => Some(VmOpCode::Negate),
            16 => Some(VmOpCode::Jump),
            17 => Some(VmOpCode::Compare),
            18 => Some(VmOpCode::InitList),
            19 => Some(VmOpCode::Call),
            20 => Some(VmOpCode::CallMethod),
            21 => Some(VmOpCode::Pop),
            _ => None,
        }
    }
}

/// The compiler from syntax tree to byte code.
pub struct InterpreterCompiler {}

/// What compiling makes of the scope that is compiled and of the code: the
/// error where there is one, what the storage of the scope then holds, and
/// the code.
pub struct Compiled {
    pub error: Option<ErrorView>,
    pub constants: Seq<PrimativeView>,
    pub variables: Seq<(Seq<char>, u8)>,
    pub temp_counter: nat,
    pub temp_size: nat,
    pub constant_size: nat,
    pub memory: Seq<PrimativeView>,
    pub opcodes: Seq<u8>,
}

/// What compiling reads: the code so far, the scopes, the scope that is
/// compiled, what its storage has gathered and holds, and the tables of the
/// modules.
pub struct Unit {
    pub opcodes: Seq<u8>,
    pub scopes: Seq<ScopeView>,
    pub scope: int,
    pub pool: Pool,
    pub memory: Seq<PrimativeView>,
    pub temp_size: nat,
    pub constant_size: nat,
    pub tables: crate::compiler::code::Tables,
}

/// What compiling reads in a context.
pub open spec fn unit_of(context: &KaramelCompilerContext) -> Unit {
    let storage = context.storages@[context.storage_index as int];
    Unit {
        opcodes: context.opcodes@,
        scopes: context.scopes(),
        scope: context.storage_index as int,
        pool: pool_of(storage),
        memory: storage.memory_views(),
        temp_size: storage.temp_size as nat,
        constant_size: storage.constant_size as nat,
        tables: context.modules.tables(),
    }
}

/// The scope as compiling finds it, with an error.
pub open spec fn refused(unit: Unit, message: Seq<char>) -> Compiled {
    Compiled {
        error: Some((message, 0u32, 0u32)),
        constants: unit.pool.constants,
        variables: unit.pool.variables,
        temp_counter: unit.pool.temps,
        temp_size: unit.temp_size,
        constant_size: unit.constant_size,
        memory: unit.memory,
        opcodes: unit.opcodes,
    }
}

/// What the second pass reads once the first pass has gathered `pool` and
/// memory is laid out.
pub open spec fn laid_out(unit: Unit, pool: Pool) -> Layout {
    Layout {
        scopes: unit.scopes.update(
            unit.scope,
            ScopeView {
                variables: numbered(pool.variables, pool.constants.len() as int),
                parent: unit.scopes[unit.scope].parent,
            },
        ),
        scope: unit.scope,
        memory: pool.constants + empties(pool.variables.len()) + empties(pool.temps),
        constants: pool.constants.len() as int,
        tables: unit.tables,
        temp_base: (pool.constants.len() + pool.variables.len()) as int,
    }
}

/// What compiling a tree makes of a scope and of the code.
///
/// The memory of the scope must be empty. The first pass gathers constants,
/// variables and temporary slots; together they must not be more than 255.
/// Memory is then laid out: the constants, a slot for each variable, the
/// temporary slots. The second pass writes the code, which goes behind the
/// code that is there, with a `Halt` at its end.
pub open spec fn compiled(node: AstView, unit: Unit) -> Compiled {
    if unit.memory.len() != 0 {
        refused(unit, crate::compiler::code::message_laid_out())
    } else {
        let first = gathered(node, unit.pool, unit.tables);
        let pool = first.pool;
        if first.error is Some {
            Compiled {
                error: first.error,
                constants: pool.constants,
                variables: pool.variables,
                temp_counter: pool.temps,
                temp_size: unit.temp_size,
                constant_size: unit.constant_size,
                memory: unit.memory,
                opcodes: unit.opcodes,
            }
        } else if pool.constants.len() + pool.variables.len() + pool.temps > 255 {
            Compiled {
                error: Some((crate::compiler::code::message_too_many(), 0u32, 0u32)),
                constants: pool.constants,
                variables: pool.variables,
                temp_counter: pool.temps,
                temp_size: pool.temps,
                constant_size: unit.constant_size,
                memory: unit.memory,
                opcodes: unit.opcodes,
            }
        } else {
            let layout = laid_out(unit, pool);
            let second = code_of(node, layout, 0);
            Compiled {
                error: match second.result {
                    Ok(_) => None,
                    Err(error) => Some(error),
                },
                constants: Seq::empty(),
                variables: numbered(pool.variables, pool.constants.len() as int),
                temp_counter: pool.temps,
                temp_size: pool.temps,
                constant_size: pool.constants.len(),
                memory: layout.memory,
                opcodes: match second.result {
                    Ok(code) => unit.opcodes + code + seq![opcode_byte(VmOpCode::Halt)],
                    Err(_) => unit.opcodes,
                },
            }
        }
    }
}

/// The storage holds what compiling leaves in it.
pub open spec fn holds(storage: StaticStorage, expected: Compiled) -> bool {
    &&& storage.constant_views() == expected.constants
    &&& storage.variable_views() == expected.variables
    &&& storage.temp_counter == expected.temp_counter
    &&& storage.temp_size == expected.temp_size
    &&& storage.constant_size == expected.constant_size
    &&& storage.memory_views() == expected.memory
}

impl InterpreterCompiler {
    /// Compiles a tree in the running scope of a context.
    pub fn compile(&self, ast: &BramaAstType, context: &mut KaramelCompilerContext) -> (result: CompileResult)
        ensures
            old(context).storage_index >= old(context).storages@.len() ==> *final(context) == *old(context) && error_view(result) == Some((crate::compiler::code::message_scope(), 0u32, 0u32)),
            old(context).storage_index < old(context).storages@.len() ==> {
                let scope = old(context).storage_index as int;
                let expected = compiled(ast@, unit_of(old(context)));
                &&& error_view(result) == expected.error
                &&& final(context).opcodes@ == expected.opcodes
                &&& final(context).storages@.len() == old(context).storages@.len()
                &&& holds(final(context).storages@[scope], expected)
                &&& final(context).storages@[scope].index == old(context).storages@[scope].index
                &&& final(context).storages@[scope].stack == old(context).storages@[scope].stack
                &&& final(context).storages@[scope].total_const_variables == old(context).storages@[scope].total_const_variables
                &&& final(context).storages@[scope].parent_location == old(context).storages@[scope].parent_location
                &&& forall|i: int|
                    0 <= i < old(context).storages@.len() && i != scope ==> final(context).storages@[i] == old(context).storages@[i]
                &&& final(context).opcode_index == old(context).opcode_index
                &&& final(context).storage_index == old(context).storage_index
                &&& final(context).stdout == old(context).stdout
                &&& final(context).stderr == old(context).stderr
                &&& final(context).modules == old(context).modules
            },
    {
        let scope: usize = context.storage_index;
        if scope >= context.storages.len() {
            return Err(("Scope not found", 0, 0));
        }
        if context.storages[scope].memory.len() != 0 {
            return Err(("Scope is laid out already", 0, 0));
        }
        let ghost before = context.storages@[scope as int];
        let ghost first = gathered(ast@, pool_of(before), context.modules.tables());
        match prepare(ast, &mut context.storages[scope], &context.modules) {
            Ok(_) => {},
            Err(error) => {
                return Err(error);
            },
        }
        let temps: u8 = context.storages[scope].temp_counter;
        context.storages[scope].set_temp_size(temps);
        let constants: usize = context.storages[scope].constants.len();
        let variables: usize = context.storages[scope].variables.len();
        if constants > 255 || variables > 255 || constants + variables + temps as usize > 255 {
            return Err(("Too many values", 0, 0));
        }
        let ghost gathered_storage = context.storages@[scope as int];
        context.storages[scope].build();
        let ghost layout = laid_out(unit_of(old(context)), first.pool);
        proof {
            let built = context.storages@[scope as int];
            assert(pool_of(gathered_storage) == first.pool);
            assert(built.memory_views() =~= layout.memory);
            assert(context.scopes() =~= layout.scopes);
            assert(built.variable_views().len() == built.variables@.len());
            assert(layout_of(context).temp_base == layout.temp_base);
            assert(layout_of(context).constants == layout.constants);
            assert(layout_of(context).tables == layout.tables);
            assert(layout_of(context).scope == layout.scope);
            assert(layout_of(context).memory == layout.memory);
            assert(layout_of(context).scopes == layout.scopes);
            assert(layout_of(context) == layout);
            assert(built.constant_views() =~= Seq::<PrimativeView>::empty());
            assert(holds(built, compiled(ast@, unit_of(old(context)))));
        }
        let mut code: Vec<u8> = Vec::new();
        match context.generate(ast, &mut code, 0) {
            Ok(_) => {},
            Err(error) => {
                return Err(error);
            },
        }
        assert(Seq::<u8>::empty() + code@ =~= code@);
        let ghost written = code@;
        context.opcodes.append(&mut code);
        context.opcodes.push(VmOpCode::Halt.into());
        assert(context.opcodes@ =~= old(context).opcodes@ + written + seq![
            opcode_byte(VmOpCode::Halt),
        ]);
        Ok(())
    }
}

} // verus!
