//! The state that compiling and running share: the storages of the scopes,
//! the byte code, the captured output and the built-in modules.

use vstd::prelude::*;
use std::rc::Rc;
use crate::buildin::Module;
use crate::buildin::debug::DebugModule;
use crate::buildin::io::IoModule;
use crate::buildin::first_method;
use crate::buildin::found_method;
use crate::compiler::function::FunctionReference;
use crate::compiler::function::FunctionView;
use crate::compiler::function::reference_view;
use crate::compiler::static_storage::StaticStorage;
use crate::compiler::static_storage::recorded_slot;

verus! {

/// The built-in modules, in the order in which a call is looked up.
pub struct ModuleCollection {
    pub debug: Rc<DebugModule>,
    pub io: Rc<IoModule>,
}

/// The method called `name` in a table: the first entry of this name.
pub open spec fn method_of(methods: Seq<(Seq<char>, FunctionView)>, name: Seq<char>) -> Option<FunctionView> {
    if exists|i: int| first_method(methods, name, i) {
        Some(methods[choose|i: int| first_method(methods, name, i)].1)
    } else {
        None
    }
}

/// What a lookup finds is the method of that name.
pub proof fn found_is_method_of(methods: Seq<(Seq<char>, FunctionView)>, name: Seq<char>, found: Option<FunctionView>)
    requires
        found_method(methods, name, found),
    ensures
        found == method_of(methods, name),
{
    match found {
        Some(reference) => {
            let i = choose|i: int| #[trigger] first_method(methods, name, i) && methods[i].1 == reference;
            let j = choose|j: int| first_method(methods, name, j);
            if i < j {
                assert(methods[i].0 != name);
            } else if j < i {
                assert(methods[j].0 != name);
            }
        },
        None => {
            assert forall|i: int| !first_method(methods, name, i) by {
                if first_method(methods, name, i) {
                    assert(methods[i].0 != name);
                }
            }
        },
    }
}

/// The function that a call by `names` means: the names but the last are the
/// path of a module, the last is the method. The modules are asked in
/// order; the first whose path it is decides.
pub open spec fn resolved(
    tables: Seq<(Seq<Seq<char>>, Seq<(Seq<char>, FunctionView)>)>,
    names: Seq<Seq<char>>,
    from: int,
) -> Option<FunctionView>
    decreases tables.len() - from,
{
    if names.len() < 2 || from < 0 || from >= tables.len() {
        None
    } else if tables[from].0 == names.drop_last() {
        method_of(tables[from].1, names.last())
    } else {
        resolved(tables, names, from + 1)
    }
}

/// Whether there are names, and the names but the last are `path`.
pub fn is_path_of(names: &Vec<String>, path: &Vec<String>) -> (answer: bool)
    ensures
        answer == (names@.len() >= 1 && names.deep_view().drop_last() == path.deep_view()),
{
    if names.len() == 0 {
        return false;
    }
    if names.len() - 1 != path.len() {
        assert(names.deep_view().drop_last().len() != path.deep_view().len());
        return false;
    }
    let mut i: usize = 0;
    while i < path.len()
        invariant
            i <= path@.len(),
            names@.len() - 1 == path@.len(),
            forall|j: int| 0 <= j < i ==> names[j]@ == path[j]@,
        decreases path@.len() - i,
    {
        if !crate::text::same_text(names[i].as_str(), path[i].as_str()) {
            assert(names.deep_view().drop_last()[i as int] != path.deep_view()[i as int]);
            return false;
        }
        i += 1;
    }
    assert(names.deep_view().drop_last() =~= path.deep_view());
    true
}

/// The tables of the built-in modules: the module of assertions, then the
/// module of input and output.
pub open spec fn builtin_tables() -> Seq<(Seq<Seq<char>>, Seq<(Seq<char>, FunctionView)>)> {
    seq![
        (
            seq!["hataayıklama"@],
            seq![
                (
                    "doğrula"@,
                    FunctionView {
                        name: "doğrula"@,
                        path: seq!["hataayıklama"@],
                        framework: "hataayıklama"@,
                        callback: crate::compiler::function::NativeCall::Assert,
                    },
                ),
            ],
        ),
        (seq!["gç"@], crate::buildin::io::io_methods()),
    ]
}

impl ModuleCollection {
    /// The path and the methods of each module, in order.
    pub open spec fn tables(&self) -> Seq<(Seq<Seq<char>>, Seq<(Seq<char>, FunctionView)>)> {
        seq![
            (self.debug.path_view(), self.debug.methods_view()),
            (self.io.path_view(), self.io.methods_view()),
        ]
    }

    /// The built-in modules.
    pub fn new() -> (modules: ModuleCollection)
        ensures
            modules.tables() == builtin_tables(),
    {
        ModuleCollection { debug: DebugModule::new(), io: IoModule::new() }
    }

    /// The function that a call by `names` means.
    pub fn find_method(&self, names: &Vec<String>) -> (found: Option<Rc<FunctionReference>>)
        ensures
            reference_view(found) == resolved(self.tables(), names.deep_view(), 0),
    {
        if names.len() < 2 {
            return None;
        }
        let ghost tables = self.tables();
        let ghost wanted = names.deep_view();
        assert(wanted.last() == names[names@.len() - 1]@);
        let last: usize = names.len() - 1;
        if is_path_of(names, self.debug.get_path()) {
            let found = self.debug.get_method(names[last].as_str());
            proof {
                found_is_method_of(
                    tables[0].1,
                    wanted.last(),
                    reference_view(found),
                );
            }
            return found;
        }
        if is_path_of(names, self.io.get_path()) {
            let found = self.io.get_method(names[last].as_str());
            proof {
                found_is_method_of(
                    tables[1].1,
                    wanted.last(),
                    reference_view(found),
                );
                assert(resolved(tables, wanted, 0) == resolved(tables, wanted, 1));
            }
            return found;
        }
        proof {
            assert(resolved(tables, wanted, 0) == resolved(tables, wanted, 1));
            assert(resolved(tables, wanted, 1) == resolved(tables, wanted, 2));
        }
        None
    }
}

/// The state of one run: what compiling fills and the machine works on.
pub struct KaramelCompilerContext {
    pub storages: Vec<StaticStorage>,
    pub opcodes: Vec<u8>,
    pub opcode_index: usize,
    pub storage_index: usize,
    pub stdout: Option<String>,
    pub stderr: Option<String>,
    pub modules: ModuleCollection,
}

/// What a scope declares and which scope encloses it.
pub struct ScopeView {
    pub variables: Seq<(Seq<char>, u8)>,
    pub parent: Option<usize>,
}

/// The scopes of a list of storages.
pub open spec fn scope_views(storages: Seq<StaticStorage>) -> Seq<ScopeView> {
    storages.map_values(
        |storage: StaticStorage|
            ScopeView { variables: storage.variable_views(), parent: storage.parent_location },
    )
}

/// Where a name is found from a scope: in the scope itself, or else where it
/// is found from the enclosing scope. An enclosing scope has a smaller
/// number than the scope it encloses. The answer is the scope that declares
/// the name and the slot there.
pub open spec fn visible_slot(scopes: Seq<ScopeView>, scope: int, name: Seq<char>) -> Option<(int, u8)>
    decreases scope,
{
    if !(0 <= scope < scopes.len()) {
        None
    } else {
        match recorded_slot(scopes[scope].variables, name) {
            Some(slot) => Some((scope, slot)),
            None => match scopes[scope].parent {
                Some(parent) => if parent < scope {
                    visible_slot(scopes, parent as int, name)
                } else {
                    None
                },
                None => None,
            },
        }
    }
}

/// A name that is found from the enclosing scope is found from the scope
/// that it encloses: in the inner scope itself where that declares the name,
/// and where the enclosing scope finds it otherwise.
pub proof fn enclosing_scope_is_visible(scopes: Seq<ScopeView>, scope: int, name: Seq<char>)
    requires
        0 <= scope < scopes.len(),
        scopes[scope].parent is Some,
        scopes[scope].parent->0 < scope,
        visible_slot(scopes, scopes[scope].parent->0 as int, name) is Some,
    ensures
        visible_slot(scopes, scope, name) is Some,
        recorded_slot(scopes[scope].variables, name) is None ==> visible_slot(scopes, scope, name)
            == visible_slot(scopes, scopes[scope].parent->0 as int, name),
{
}

/// A name that only scopes with a greater number declare, as the scopes
/// nested in `scope` are, is not found from `scope`.
pub proof fn nested_scope_is_hidden(scopes: Seq<ScopeView>, scope: int, name: Seq<char>)
    requires
        forall|i: int| 0 <= i <= scope && i < scopes.len() ==> recorded_slot(
            #[trigger] scopes[i].variables,
            name,
        ) is None,
    ensures
        visible_slot(scopes, scope, name) is None,
    decreases scope,
{
    if 0 <= scope < scopes.len() {
        match scopes[scope].parent {
            Some(parent) => {
                if parent < scope {
                    nested_scope_is_hidden(scopes, parent as int, name);
                }
            },
            None => {},
        }
    }
}

impl KaramelCompilerContext {
    /// The scopes of the context.
    pub open spec fn scopes(&self) -> Seq<ScopeView> {
        scope_views(self.storages@)
    }

    /// A context with the built-in modules, one empty storage for the
    /// outermost scope, no code and no captured output.
    pub fn new() -> (context: KaramelCompilerContext)
        ensures
            context.storages@.len() == 1,
            context.storages@[0].constants@.len() == 0,
            context.storages@[0].variables@.len() == 0,
            context.storages@[0].memory@.len() == 0,
            context.storages@[0].stack@.len() == 0,
            context.storages@[0].temp_size == 0,
            context.storages@[0].temp_counter == 0,
            context.storages@[0].constant_size == 0,
            context.storages@[0].parent_location is None,
            context.storages@[0].index == 0,
            context.storages@[0].total_const_variables == 0,
            context.modules.tables() == builtin_tables(),
            context.opcodes@.len() == 0,
            context.opcode_index == 0,
            context.storage_index == 0,
            context.stdout is None,
            context.stderr is None,
    {
        let mut storages: Vec<StaticStorage> = Vec::new();
        storages.push(StaticStorage::new());
        KaramelCompilerContext {
            storages,
            opcodes: Vec::new(),
            opcode_index: 0,
            storage_index: 0,
            stdout: None,
            stderr: None,
            modules: ModuleCollection::new(),
        }
    }

    /// Where a name is found from a scope: the scope that declares it and
    /// the slot there.
    pub fn find_variable(&self, scope: usize, name: &str) -> (found: Option<(usize, u8)>)
        ensures
            match found {
                Some(place) => Some((place.0 as int, place.1)),
                None => None,
            } == visible_slot(self.scopes(), scope as int, name@),
    {
        let mut current: usize = scope;
        loop
            invariant
                visible_slot(self.scopes(), scope as int, name@) == visible_slot(
                    self.scopes(),
                    current as int,
                    name@,
                ),
            decreases current,
        {
            if current >= self.storages.len() {
                return None;
            }
            assert(self.scopes()[current as int].variables
                == self.storages@[current as int].variable_views());
            match self.storages[current].get_variable_location(name) {
                Some(slot) => {
                    return Some((current, slot));
                },
                None => match self.storages[current].get_parent_location() {
                    Some(parent) => {
                        if parent < current {
                            current = parent;
                        } else {
                            return None;
                        }
                    },
                    None => {
                        return None;
                    },
                },
            }
        }
    }
}

} // verus!
