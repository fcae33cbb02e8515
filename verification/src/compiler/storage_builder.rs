//! The first pass of the compiler: it gathers the constants, the variables
//! and the temporary slots of a tree into the storage of a scope.

use vstd::prelude::*;
use std::sync::Arc;
use crate::types::BramaOperatorType;
use crate::compiler::ast::BramaAstType;
use crate::compiler::ast::ast_view;
use crate::compiler::ast::ast_views;
use crate::compiler::code::Gathered;
use crate::compiler::code::Pool;
use crate::compiler::code::gathered;
use crate::compiler::code::gathered_all;
use crate::compiler::code::with_temp;
use crate::compiler::context::ModuleCollection;
use crate::compiler::static_storage::StaticStorage;
use crate::compiler::value::BramaPrimative;
use crate::compiler::value::share;

verus! {

/// What a pass hands back: nothing, or a message with a line and a column.
pub type CompileResult = Result<(), (&'static str, u32, u32)>;

/// The error of a result as a mathematical value.
pub open spec fn error_view(result: CompileResult) -> Option<(Seq<char>, u32, u32)> {
    match result {
        Ok(_) => None,
        Err(error) => Some((error.0@, error.1, error.2)),
    }
}

/// What a storage has gathered.
pub open spec fn pool_of(storage: StaticStorage) -> Pool {
    Pool {
        constants: storage.constant_views(),
        variables: storage.variable_views(),
        temps: storage.temp_counter as nat,
    }
}

/// What the first pass leaves alone in a storage.
pub open spec fn untouched(after: StaticStorage, before: StaticStorage) -> bool {
    &&& after.index == before.index
    &&& after.constant_size == before.constant_size
    &&& after.temp_size == before.temp_size
    &&& after.memory == before.memory
    &&& after.stack == before.stack
    &&& after.total_const_variables == before.total_const_variables
    &&& after.parent_location == before.parent_location
}

/// The storage is what the first pass makes of `before` for a tree, and the
/// result is its error.
pub open spec fn prepared(after: StaticStorage, before: StaticStorage, result: CompileResult, expected: Gathered) -> bool {
    &&& pool_of(after) == expected.pool
    &&& error_view(result) == expected.error
    &&& untouched(after, before)
}

/// Takes a temporary slot for a call whose value is used.
pub fn reserve_temp(storage: &mut StaticStorage, kept: bool) -> (result: CompileResult)
    ensures
        prepared(*final(storage), *old(storage), result, with_temp(pool_of(*old(storage)), kept)),
{
    if !kept {
        return Ok(());
    }
    if storage.temp_counter >= 255 {
        return Err(("Too many values", 0, 0));
    }
    storage.temp_counter += 1;
    Ok(())
}

/// Gathers what the trees of a list need, in order.
pub fn prepare_all(nodes: &Vec<BramaAstType>, storage: &mut StaticStorage, modules: &ModuleCollection) -> (result:
    CompileResult)
    ensures
        prepared(
            *final(storage),
            *old(storage),
            result,
            gathered_all(ast_views(*nodes), 0, pool_of(*old(storage)), modules.tables()),
        ),
    decreases *nodes, 1nat,
{
    let ghost expected = gathered_all(ast_views(*nodes), 0, pool_of(*storage), modules.tables());
    let mut i: usize = 0;
    while i < nodes.len()
        invariant
            i <= nodes@.len(),
            untouched(*storage, *old(storage)),
            expected == gathered_all(
                ast_views(*nodes),
                0,
                pool_of(*old(storage)),
                modules.tables(),
            ),
            expected == gathered_all(ast_views(*nodes), i as nat, pool_of(*storage), modules.tables()),
        decreases nodes@.len() - i,
    {
        proof {
            assert(decreases_to!(*nodes => nodes[i as int]));
            assert(ast_views(*nodes)[i as int] == ast_view(nodes[i as int]));
        }
        match prepare(&nodes[i], storage, modules) {
            Ok(_) => {},
            Err(error) => {
                return Err(error);
            },
        }
        i += 1;
    }
    Ok(())
}

/// Gathers what a tree needs: its constants are interned, the names that it
/// assigns to are declared, and its calls whose value is used get their
/// temporary slots.
pub fn prepare(node: &BramaAstType, storage: &mut StaticStorage, modules: &ModuleCollection) -> (result:
    CompileResult)
    ensures
        prepared(
            *final(storage),
            *old(storage),
            result,
            gathered(node@, pool_of(*old(storage)), modules.tables()),
        ),
    decreases *node, 0nat,
{
    match node {
        BramaAstType::Nothing => Ok(()),
        BramaAstType::Primative(value) => {
            storage.add_constant(share(value));
            Ok(())
        },
        BramaAstType::Symbol { .. } => Ok(()),
        BramaAstType::List(items) => prepare_all(items, storage, modules),
        BramaAstType::Binary { left, operator, right } => {
            match prepare(left, storage, modules) {
                Ok(_) => {},
                Err(error) => {
                    return Err(error);
                },
            }
            prepare(right, storage, modules)
        },
        BramaAstType::Control { left, operator, right } => {
            match prepare(left, storage, modules) {
                Ok(_) => {},
                Err(error) => {
                    return Err(error);
                },
            }
            match prepare(right, storage, modules) {
                Ok(_) => {},
                Err(error) => {
                    return Err(error);
                },
            }
            if *operator == BramaOperatorType::And {
                storage.add_constant(Arc::new(BramaPrimative::Bool(false)));
            } else if *operator == BramaOperatorType::Or {
                storage.add_constant(Arc::new(BramaPrimative::Bool(true)));
            }
            Ok(())
        },
        BramaAstType::PrefixUnary(_, operand) => prepare(operand, storage, modules),
        BramaAstType::Assignment { variable, operator, expression } => {
            match prepare(expression, storage, modules) {
                Ok(_) => {},
                Err(error) => {
                    return Err(error);
                },
            }
            storage.add_variable(variable.as_str());
            Ok(())
        },
        BramaAstType::FuncCall { names, arguments, assign_to_temp, line, column } => {
            match modules.find_method(names) {
                None => Err(("Function not found", *line, *column)),
                Some(function) => {
                    storage.add_constant(Arc::new(BramaPrimative::Function(function)));
                    match prepare_all(arguments, storage, modules) {
                        Ok(_) => {},
                        Err(error) => {
                            return Err(error);
                        },
                    }
                    reserve_temp(storage, *assign_to_temp)
                },
            }
        },
        BramaAstType::AccessorFuncCall { source, name, arguments, assign_to_temp, line, column } => {
            match prepare(source, storage, modules) {
                Ok(_) => {},
                Err(error) => {
                    return Err(error);
                },
            }
            storage.add_constant(
                Arc::new(BramaPrimative::Text(crate::text::copy_text(name.as_str()))),
            );
            match prepare_all(arguments, storage, modules) {
                Ok(_) => {},
                Err(error) => {
                    return Err(error);
                },
            }
            reserve_temp(storage, *assign_to_temp)
        },
        BramaAstType::Block(statements) => prepare_all(statements, storage, modules),
    }
}

} // verus!
