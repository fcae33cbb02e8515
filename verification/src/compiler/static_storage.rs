//! The storage of one scope: its constants, its variables, and the memory
//! that they are laid out in.
//!
//! Memory holds the constants first, then one slot for each variable, then
//! the temporary slots.

use vstd::prelude::*;
use std::sync::Arc;
use crate::compiler::value::BramaPrimative;
use crate::compiler::value::PrimativeView;
use crate::compiler::value::VmObject;
use crate::compiler::value::object_views;
use crate::compiler::function::function_matches;
use crate::compiler::value::rendered;
use crate::text::natural_text;
use crate::text::padded;
use crate::text::right_aligned;

verus! {

/// The storage of one scope.
pub struct StaticStorage {
    pub index: usize,
    pub constants: Vec<VmObject>,
    pub constant_size: u8,
    pub temp_size: u8,
    pub temp_counter: u8,
    pub variables: Vec<(String, u8)>,
    pub memory: Vec<VmObject>,
    pub stack: Vec<VmObject>,
    pub total_const_variables: u8,
    pub parent_location: Option<usize>,
}

/// Place `i` is the first one that holds `value`.
pub open spec fn first_equal(values: Seq<PrimativeView>, value: PrimativeView, i: int) -> bool {
    &&& 0 <= i < values.len()
    &&& values[i] == value
    &&& forall|j: int| 0 <= j < i ==> #[trigger] values[j] != value
}

/// Place `i` is the first one that holds a variable called `name`.
pub open spec fn first_named(variables: Seq<(Seq<char>, u8)>, name: Seq<char>, i: int) -> bool {
    &&& 0 <= i < variables.len()
    &&& variables[i].0 == name
    &&& forall|j: int| 0 <= j < i ==> (#[trigger] variables[j]).0 != name
}

/// Whether a value is the function that a lookup by name, path and owning
/// module asks for.
pub open spec fn is_function(
    value: PrimativeView,
    name: Seq<char>,
    path: Seq<Seq<char>>,
    framework: Seq<char>,
) -> bool {
    value matches PrimativeView::Function(reference) && function_matches(
        reference,
        name,
        path,
        framework,
    )
}

/// Place `i` is the first one that holds the function asked for.
pub open spec fn first_function(
    values: Seq<PrimativeView>,
    name: Seq<char>,
    path: Seq<Seq<char>>,
    framework: Seq<char>,
    i: int,
) -> bool {
    &&& 0 <= i < values.len()
    &&& is_function(values[i], name, path, framework)
    &&& forall|j: int| 0 <= j < i ==> !is_function(#[trigger] values[j], name, path, framework)
}

/// Place `i` is the first one that holds a class called `name`.
pub open spec fn first_class(values: Seq<PrimativeView>, name: Seq<char>, i: int) -> bool {
    &&& 0 <= i < values.len()
    &&& values[i] == PrimativeView::Class(name)
    &&& forall|j: int| 0 <= j < i ==> #[trigger] values[j] != PrimativeView::Class(name)
}

/// The variables of a storage as pairs of a name and a slot.
pub open spec fn variable_views(variables: Seq<(String, u8)>) -> Seq<(Seq<char>, u8)> {
    variables.map_values(|entry: (String, u8)| (entry.0@, entry.1))
}

/// `count` empty values.
pub open spec fn empties(count: nat) -> Seq<PrimativeView> {
    Seq::new(count, |i: int| PrimativeView::Empty)
}

/// No value occurs twice.
pub open spec fn distinct(values: Seq<PrimativeView>) -> bool {
    forall|i: int, j: int| 0 <= i < j < values.len() ==> values[i] != values[j]
}

/// The pool after `value` is interned: unchanged where the pool holds the
/// value already, with the value at its end otherwise.
pub open spec fn interned(pool: Seq<PrimativeView>, value: PrimativeView) -> Seq<PrimativeView> {
    if pool.contains(value) {
        pool
    } else {
        pool.push(value)
    }
}

/// With the slots of the variables numbered from `first` on, in order.
pub open spec fn numbered(variables: Seq<(Seq<char>, u8)>, first: int) -> Seq<(Seq<char>, u8)> {
    Seq::new(variables.len(), |i: int| (variables[i].0, (first + i) as u8))
}

/// The slot recorded for `name`: that of the first entry with this name.
pub open spec fn recorded_slot(variables: Seq<(Seq<char>, u8)>, name: Seq<char>) -> Option<u8> {
    if exists|i: int| first_named(variables, name, i) {
        Some(variables[choose|i: int| first_named(variables, name, i)].1)
    } else {
        None
    }
}

/// Only one place can be the first with a name.
pub proof fn first_named_is_unique(variables: Seq<(Seq<char>, u8)>, name: Seq<char>, i: int, j: int)
    requires
        first_named(variables, name, i),
        first_named(variables, name, j),
    ensures
        i == j,
{
    if i < j {
        assert(variables[i].0 != name);
    } else if j < i {
        assert(variables[j].0 != name);
    }
}

impl StaticStorage {
    /// The constants as mathematical values.
    pub open spec fn constant_views(&self) -> Seq<PrimativeView> {
        object_views(self.constants@)
    }

    /// The memory as mathematical values.
    pub open spec fn memory_views(&self) -> Seq<PrimativeView> {
        object_views(self.memory@)
    }

    /// The stack as mathematical values.
    pub open spec fn stack_views(&self) -> Seq<PrimativeView> {
        object_views(self.stack@)
    }

    /// The variables as pairs of a name and a slot.
    pub open spec fn variable_views(&self) -> Seq<(Seq<char>, u8)> {
        variable_views(self.variables@)
    }

    /// The constants, the variables and the temporary slots can all be
    /// addressed by one byte.
    pub open spec fn fits(&self) -> bool {
        self.constants@.len() + self.variables@.len() + self.temp_size <= 255
    }

    /// An empty storage without an enclosing scope.
    pub fn new() -> (storage: StaticStorage)
        ensures
            storage.index == 0,
            storage.constants@.len() == 0,
            storage.constant_size == 0,
            storage.temp_size == 0,
            storage.temp_counter == 0,
            storage.total_const_variables == 0,
            storage.memory@.len() == 0,
            storage.stack@.len() == 0,
            storage.variables@.len() == 0,
            storage.parent_location is None,
    {
        StaticStorage {
            index: 0,
            constants: Vec::new(),
            constant_size: 0,
            temp_size: 0,
            temp_counter: 0,
            total_const_variables: 0,
            memory: Vec::new(),
            stack: Vec::new(),
            variables: Vec::new(),
            parent_location: None,
        }
    }

    /// Lays memory out: the constants move to the end of memory, then comes
    /// an empty slot for each variable, then the empty temporary slots. Each
    /// variable is given the number of its slot, counted from the number of
    /// constants.
    pub fn build(&mut self)
        requires
            old(self).fits(),
        ensures
            final(self).constant_size == old(self).constants@.len(),
            final(self).constants@.len() == 0,
            final(self).memory_views() == old(self).memory_views() + old(self).constant_views()
                + empties(old(self).variables@.len()) + empties(old(self).temp_size as nat),
            final(self).variable_views() == numbered(
                old(self).variable_views(),
                old(self).constants@.len() as int,
            ),
            final(self).index == old(self).index,
            final(self).temp_size == old(self).temp_size,
            final(self).temp_counter == old(self).temp_counter,
            final(self).total_const_variables == old(self).total_const_variables,
            final(self).parent_location == old(self).parent_location,
            final(self).stack == old(self).stack,
    {
        self.constant_size = self.constants.len() as u8;
        let ghost before = self.memory_views();
        let ghost constants = self.constant_views();
        let ghost names = self.variable_views();

        // the constants go to memory first
        self.memory.append(&mut self.constants);
        assert(self.memory_views() =~= before + constants);

        // then a slot for each variable, which is given its number
        let mut index: u8 = self.get_constant_size();
        let count: usize = self.variables.len();
        let mut i: usize = 0;
        while i < count
            invariant
                i <= count,
                count == self.variables@.len(),
                count == names.len(),
                index == self.constant_size + i,
                self.constant_size + count + self.temp_size <= 255,
                self.constants@.len() == 0,
                self.memory_views() == before + constants + empties(i as nat),
                self.variable_views().len() == names.len(),
                forall|j: int| 0 <= j < i ==> #[trigger] self.variable_views()[j] == (
                    names[j].0,
                    (self.constant_size + j) as u8,
                ),
                forall|j: int| i <= j < count ==> #[trigger] self.variable_views()[j] == names[j],
                self.index == old(self).index,
                self.temp_size == old(self).temp_size,
                self.temp_counter == old(self).temp_counter,
                self.total_const_variables == old(self).total_const_variables,
                self.parent_location == old(self).parent_location,
                self.stack == old(self).stack,
                self.constant_size == old(self).constants@.len(),
            decreases count - i,
        {
            let ghost memory = self.memory_views();
            let ghost entries = self.variable_views();
            self.memory.push(VmObject::from(BramaPrimative::Empty));
            assert(self.memory_views() =~= memory.push(PrimativeView::Empty));
            assert(self.memory_views() =~= before + constants + empties((i + 1) as nat));
            let ghost listed = self.variables@;
            assert(entries[i as int] == names[i as int]);
            assert(entries[i as int].0 == listed[i as int].0@);
            self.variables[i].1 = index;
            assert(self.variables@ == listed.update(i as int, (listed[i as int].0, index)));
            assert forall|j: int| 0 <= j < count && j != i implies #[trigger] self.variable_views()[j]
                == entries[j] by {}
            assert(self.variable_views()[i as int] == (names[i as int].0, index));
            index += 1;
            i += 1;
        }
        assert(self.variable_views() =~= numbered(names, self.constant_size as int));

        let mut made: u8 = 0;
        while made < self.temp_size
            invariant
                made <= self.temp_size,
                self.memory_views() == before + constants + empties(count as nat) + empties(
                    made as nat,
                ),
                self.variable_views() == numbered(names, self.constant_size as int),
                self.constants@.len() == 0,
                self.index == old(self).index,
                self.temp_size == old(self).temp_size,
                self.temp_counter == old(self).temp_counter,
                self.total_const_variables == old(self).total_const_variables,
                self.parent_location == old(self).parent_location,
                self.stack == old(self).stack,
                self.constant_size == old(self).constants@.len(),
            decreases self.temp_size - made,
        {
            let ghost memory = self.memory_views();
            self.memory.push(VmObject::from(BramaPrimative::Empty));
            assert(self.memory_views() =~= memory.push(PrimativeView::Empty));
            made += 1;
            assert(self.memory_views() =~= before + constants + empties(count as nat) + empties(
                made as nat,
            ));
        }
    }

    /// The memory of the scope.
    pub fn get_memory(&self) -> (memory: &Vec<VmObject>)
        ensures
            *memory == self.memory,
    {
        &self.memory
    }

    /// The operand stack of the scope.
    pub fn get_stack(&self) -> (stack: &Vec<VmObject>)
        ensures
            *stack == self.stack,
    {
        &self.stack
    }

    /// The number of constants that memory was laid out with.
    pub fn get_constant_size(&self) -> (size: u8)
        ensures
            size == self.constant_size,
    {
        self.constant_size
    }

    /// The number of variables, modulo 256.
    pub fn get_variable_size(&self) -> (size: u8)
        ensures
            size == self.variables@.len() % 256,
    {
        (self.variables.len() % 256) as u8
    }

    /// The number of temporary slots.
    pub fn get_temp_size(&self) -> (size: u8)
        ensures
            size == self.temp_size,
    {
        self.temp_size
    }

    /// Sets the scope that encloses this one.
    pub fn set_parent_location(&mut self, parent_location: usize)
        ensures
            *final(self) == (StaticStorage { parent_location: Some(parent_location), ..*old(self) }),
    {
        self.parent_location = Some(parent_location);
    }

    /// The scope that encloses this one.
    pub fn get_parent_location(&self) -> (parent: Option<usize>)
        ensures
            parent == self.parent_location,
    {
        self.parent_location
    }

    /// Sets the number of temporary slots.
    pub fn set_temp_size(&mut self, value: u8)
        ensures
            *final(self) == (StaticStorage { temp_size: value, ..*old(self) }),
    {
        self.temp_size = value;
    }
}

/// Only one place can be the first with a value.
pub proof fn first_equal_is_unique(values: Seq<PrimativeView>, value: PrimativeView, i: int, j: int)
    requires
        first_equal(values, value, i),
        first_equal(values, value, j),
    ensures
        i == j,
{
    if i < j {
        assert(values[i] != value);
    } else if j < i {
        assert(values[j] != value);
    }
}

/// Interning a value a second time changes nothing, and in a pool without
/// repetitions exactly one slot holds the value afterwards.
pub proof fn interning_allocates_once(pool: Seq<PrimativeView>, value: PrimativeView)
    ensures
        interned(interned(pool, value), value) == interned(pool, value),
        interned(pool, value).contains(value),
        distinct(pool) ==> distinct(interned(pool, value)),
        distinct(pool) ==> forall|i: int, j: int|
            0 <= i < interned(pool, value).len() && 0 <= j < interned(pool, value).len()
                && interned(pool, value)[i] == value && interned(pool, value)[j] == value ==> i
                == j,
{
    let after = interned(pool, value);
    if pool.contains(value) {
    } else {
        assert(after[pool.len() as int] == value);
        assert forall|i: int| 0 <= i < pool.len() implies pool[i] != value by {
            if pool[i] == value {
                assert(pool.contains(value));
            }
        }
    }
    assert(after.contains(value));
    if distinct(pool) {
        assert(distinct(after));
        assert forall|i: int, j: int|
            0 <= i < after.len() && 0 <= j < after.len() && after[i] == value && after[j]
                == value implies i == j by {
            if i < j {
                assert(after[i] != after[j]);
            } else if j < i {
                assert(after[j] != after[i]);
            }
        }
    }
}

/// The slot that interning handed out for a constant is its slot in the
/// memory that is laid out from an empty memory: the constants come first,
/// and what follows them does not move them.
pub proof fn slots_stay_valid(constants: Seq<PrimativeView>, variables: nat, temps: nat, value: PrimativeView, slot: int)
    requires
        first_equal(constants, value, slot),
    ensures
        first_equal(constants + empties(variables) + empties(temps), value, slot),
{
    let memory = constants + empties(variables) + empties(temps);
    assert(memory[slot] == constants[slot]);
    assert forall|j: int| 0 <= j < slot implies #[trigger] memory[j] != value by {
        assert(memory[j] == constants[j]);
    }
}

/// The variables with `name` declared: as they are where the name is known,
/// with the name at the end and slot 0 otherwise.
pub open spec fn declared(variables: Seq<(Seq<char>, u8)>, name: Seq<char>) -> Seq<(Seq<char>, u8)> {
    if exists|i: int| first_named(variables, name, i) {
        variables
    } else {
        variables.push((name, 0u8))
    }
}

/// The variables with the slot of `name` set to `slot`.
pub open spec fn with_slot(variables: Seq<(Seq<char>, u8)>, name: Seq<char>, slot: u8) -> Seq<(Seq<char>, u8)> {
    if exists|i: int| first_named(variables, name, i) {
        variables.update(choose|i: int| first_named(variables, name, i), (name, slot))
    } else {
        variables
    }
}

/// The first place in `objects` that holds `value`.
pub fn find_value(objects: &Vec<VmObject>, value: &BramaPrimative) -> (found: Option<usize>)
    ensures
        match found {
            Some(i) => first_equal(object_views(objects@), value@, i as int),
            None => !object_views(objects@).contains(value@),
        },
{
    let mut i: usize = 0;
    while i < objects.len()
        invariant
            i <= objects@.len(),
            forall|j: int| 0 <= j < i ==> #[trigger] object_views(objects@)[j] != value@,
        decreases objects@.len() - i,
    {
        if objects[i].value.equals(value) {
            return Some(i);
        }
        i += 1;
    }
    None
}

impl StaticStorage {
    /// The first place among the variables that holds `name`.
    pub fn find_variable(&self, name: &str) -> (found: Option<usize>)
        ensures
            match found {
                Some(i) => first_named(self.variable_views(), name@, i as int),
                None => {
                    &&& forall|i: int| !first_named(self.variable_views(), name@, i)
                    &&& forall|i: int|
                        0 <= i < self.variables@.len() ==> (#[trigger] self.variable_views()[i]).0
                            != name@
                },
            },
    {
        let mut i: usize = 0;
        while i < self.variables.len()
            invariant
                i <= self.variables@.len(),
                forall|j: int| 0 <= j < i ==> (#[trigger] self.variable_views()[j]).0 != name@,
            decreases self.variables@.len() - i,
        {
            if crate::text::same_text(self.variables[i].0.as_str(), name) {
                return Some(i);
            }
            i += 1;
        }
        assert forall|i: int| !first_named(self.variable_views(), name@, i) by {
            if first_named(self.variable_views(), name@, i) {
                assert(self.variable_views()[i].0 != name@);
            }
        }
        None
    }

    /// Binds a name to a constant: the name is declared where it is new, the
    /// constant is interned, and the slot of the name becomes the slot of
    /// the constant, modulo 256.
    pub fn add_static_data(&mut self, name: &str, value: Arc<BramaPrimative>)
        ensures
            final(self).constant_views() == interned(old(self).constant_views(), value@),
            exists|slot: int| #[trigger]
                first_equal(final(self).constant_views(), value@, slot)
                    && final(self).variable_views() == with_slot(
                    declared(old(self).variable_views(), name@),
                    name@,
                    (slot % 256) as u8,
                ),
            final(self).memory == old(self).memory,
            final(self).stack == old(self).stack,
            final(self).index == old(self).index,
            final(self).constant_size == old(self).constant_size,
            final(self).temp_size == old(self).temp_size,
            final(self).temp_counter == old(self).temp_counter,
            final(self).total_const_variables == old(self).total_const_variables,
            final(self).parent_location == old(self).parent_location,
    {
        let ghost before = self.variable_views();
        let position: usize = match self.find_variable(name) {
            Some(position) => position,
            None => {
                self.add_variable(name);
                assert(self.variable_views() == before.push((name@, 0u8)));
                assert forall|j: int| 0 <= j < before.len() implies (#[trigger] self.variable_views()[j]).0
                    != name@ by {
                    assert(self.variable_views()[j] == before[j]);
                }
                assert(first_named(self.variable_views(), name@, self.variables@.len() - 1));
                self.variables.len() - 1
            },
        };
        let ghost listed = self.variable_views();
        assert(listed == declared(before, name@));
        assert(first_named(listed, name@, position as int));
        let constant_location: usize = self.add_constant(value);
        let slot: u8 = (constant_location % 256) as u8;
        let ghost entries = self.variables@;
        self.variables[position].1 = slot;
        proof {
            assert(self.variables@ == entries.update(
                position as int,
                (entries[position as int].0, slot),
            ));
            let chosen = choose|i: int| first_named(listed, name@, i);
            first_named_is_unique(listed, name@, chosen, position as int);
            assert(self.variable_views() =~= with_slot(listed, name@, slot));
            assert(first_equal(self.constant_views(), value@, constant_location as int));
        }
    }

    /// Interns a constant: where the pool holds an equal value already, the
    /// pool stays as it is and that value's slot is handed back; otherwise
    /// the value goes to the end of the pool.
    pub fn add_constant(&mut self, value: Arc<BramaPrimative>) -> (slot: usize)
        ensures
            final(self).constant_views() == interned(old(self).constant_views(), value@),
            first_equal(final(self).constant_views(), value@, slot as int),
            distinct(old(self).constant_views()) ==> distinct(final(self).constant_views()),
            final(self).variables == old(self).variables,
            final(self).memory == old(self).memory,
            final(self).stack == old(self).stack,
            final(self).index == old(self).index,
            final(self).constant_size == old(self).constant_size,
            final(self).temp_size == old(self).temp_size,
            final(self).temp_counter == old(self).temp_counter,
            final(self).total_const_variables == old(self).total_const_variables,
            final(self).parent_location == old(self).parent_location,
    {
        let constant_position: Option<usize> = find_value(&self.constants, &value);

        match constant_position {
            Some(position) => position,
            None => {
                let ghost before = self.constant_views();
                self.constants.push(VmObject::convert(value));
                assert(self.constant_views() =~= before.push(value@));
                self.constants.len() - 1
            },
        }
    }

    /// The slot recorded for a name; a name that is new is recorded with
    /// slot 0.
    pub fn add_variable(&mut self, name: &str) -> (slot: u8)
        ensures
            final(self).variable_views() == declared(old(self).variable_views(), name@),
            slot == match recorded_slot(old(self).variable_views(), name@) {
                Some(known) => known,
                None => 0u8,
            },
            final(self).constants == old(self).constants,
            final(self).memory == old(self).memory,
            final(self).stack == old(self).stack,
            final(self).index == old(self).index,
            final(self).constant_size == old(self).constant_size,
            final(self).temp_size == old(self).temp_size,
            final(self).temp_counter == old(self).temp_counter,
            final(self).total_const_variables == old(self).total_const_variables,
            final(self).parent_location == old(self).parent_location,
    {
        let result: Option<usize> = self.find_variable(name);
        match result {
            Some(location) => {
                proof {
                    let chosen = choose|i: int| first_named(self.variable_views(), name@, i);
                    first_named_is_unique(self.variable_views(), name@, chosen, location as int);
                }
                self.variables[location].1
            },
            _ => {
                let ghost before = self.variable_views();
                self.variables.push((crate::text::copy_text(name), 0));
                assert(self.variable_views() =~= before.push((name@, 0u8)));
                0
            },
        }
    }

    /// The slot recorded for a name.
    pub fn get_variable_location(&self, name: &str) -> (slot: Option<u8>)
        ensures
            slot == recorded_slot(self.variable_views(), name@),
    {
        let result: Option<usize> = self.find_variable(name);
        match result {
            Some(location) => {
                proof {
                    let chosen = choose|i: int| first_named(self.variable_views(), name@, i);
                    first_named_is_unique(self.variable_views(), name@, chosen, location as int);
                }
                Some(self.variables[location].1)
            },
            _ => None,
        }
    }

    /// The value in the slot of a variable, where the name is known and
    /// memory holds that slot.
    pub fn get_variable_value(&self, name: &str) -> (value: Option<Arc<BramaPrimative>>)
        ensures
            match recorded_slot(self.variable_views(), name@) {
                Some(slot) => if slot < self.memory@.len() {
                    value == Some(self.memory@[slot as int].value)
                } else {
                    value is None
                },
                None => value is None,
            },
    {
        match self.get_variable_location(name) {
            Some(loc) => {
                if (loc as usize) < self.memory.len() {
                    Some(self.memory[loc as usize].deref())
                } else {
                    None
                }
            },
            _ => None,
        }
    }

    /// The first slot of memory that holds `value`, where one byte can
    /// address it.
    pub fn get_constant_location(&self, value: Arc<BramaPrimative>) -> (slot: Option<u8>)
        ensures
            match slot {
                Some(found) => first_equal(self.memory_views(), value@, found as int),
                None => forall|i: int| first_equal(self.memory_views(), value@, i) ==> i > 255,
            },
    {
        match find_value(&self.memory, &value) {
            Some(number) => {
                if number <= 255 {
                    Some(number as u8)
                } else {
                    assert forall|i: int| first_equal(self.memory_views(), value@, i) implies i
                        > 255 by {
                        first_equal_is_unique(self.memory_views(), value@, i, number as int);
                    }
                    None
                }
            },
            _ => None,
        }
    }

    /// The first slot of memory that holds the function with this name,
    /// module path and owning module, where one byte can address it.
    pub fn get_function_constant(&self, name: String, path: Vec<String>, framework: String) -> (slot:
        Option<u8>)
        ensures
            match slot {
                Some(found) => first_function(
                    self.memory_views(),
                    name@,
                    path.deep_view(),
                    framework@,
                    found as int,
                ),
                None => forall|i: int|
                    first_function(self.memory_views(), name@, path.deep_view(), framework@, i)
                        ==> i > 255,
            },
    {
        let mut index: usize = 0;
        while index < self.memory.len()
            invariant
                index <= self.memory@.len(),
                forall|j: int|
                    0 <= j < index ==> !is_function(
                        #[trigger] self.memory_views()[j],
                        name@,
                        path.deep_view(),
                        framework@,
                    ),
            decreases self.memory@.len() - index,
        {
            if let BramaPrimative::Function(reference) = &*self.memory[index].value {
                if crate::text::same_text(reference.name.as_str(), name.as_str())
                    && crate::text::same_texts(&reference.path, &path) && crate::text::same_text(
                    reference.framework.as_str(),
                    framework.as_str(),
                ) {
                    if index <= 255 {
                        return Some(index as u8);
                    } else {
                        assert(first_function(
                            self.memory_views(),
                            name@,
                            path.deep_view(),
                            framework@,
                            index as int,
                        ));
                        assert forall|i: int|
                            first_function(
                                self.memory_views(),
                                name@,
                                path.deep_view(),
                                framework@,
                                i,
                            ) implies i > 255 by {
                            if i < index {
                                assert(!is_function(
                                    self.memory_views()[i],
                                    name@,
                                    path.deep_view(),
                                    framework@,
                                ));
                            }
                        }
                        return None;
                    }
                }
            }
            index += 1;
        }

        None
    }

    /// The first slot of memory that holds the class with this name, where
    /// one byte can address it. The module path and the owning module play
    /// no part.
    pub fn get_class_constant(&self, name: String, _path: Vec<String>, _framework: String) -> (slot:
        Option<u8>)
        ensures
            match slot {
                Some(found) => first_class(self.memory_views(), name@, found as int),
                None => forall|i: int| first_class(self.memory_views(), name@, i) ==> i > 255,
            },
    {
        let mut index: usize = 0;
        while index < self.memory.len()
            invariant
                index <= self.memory@.len(),
                forall|j: int|
                    0 <= j < index ==> #[trigger] self.memory_views()[j] != PrimativeView::Class(
                        name@,
                    ),
            decreases self.memory@.len() - index,
        {
            if let BramaPrimative::Class(reference) = &*self.memory[index].value {
                if crate::text::same_text(reference.name.as_str(), name.as_str()) {
                    if index <= 255 {
                        return Some(index as u8);
                    } else {
                        assert(first_class(self.memory_views(), name@, index as int));
                        assert forall|i: int| first_class(self.memory_views(), name@, i) implies i
                            > 255 by {
                            if i < index {
                                assert(self.memory_views()[i] != PrimativeView::Class(name@));
                            }
                        }
                        return None;
                    }
                }
            }
            index += 1;
        }

        None
    }
}

/// The mark of a slot in a listing of memory: `V` for the first slot behind
/// the constants, `T` for the first slot behind the variables, `C` for any
/// other.
pub open spec fn slot_mark(index: int, constants: int, variables: int) -> Seq<char> {
    if constants == index {
        "V"@
    } else if constants + variables == index {
        "T"@
    } else {
        "C"@
    }
}

/// The row of a slot in a listing of memory.
pub open spec fn memory_row(index: int, value: PrimativeView, constants: int, variables: int) -> Seq<char> {
    "║ "@ + slot_mark(index, constants, variables) + " ║ "@ + right_aligned(
        natural_text(index as nat),
        3,
    ) + " ║ "@ + padded(rendered(value, true), 28) + " ║\n"@
}

/// The rows of the first `count` slots of memory.
pub open spec fn memory_rows(memory: Seq<PrimativeView>, count: nat, constants: int, variables: int) -> Seq<char>
    decreases count,
{
    if count == 0 || count > memory.len() {
        Seq::empty()
    } else {
        memory_rows(memory, (count - 1) as nat, constants, variables) + memory_row(
            count - 1,
            memory[count - 1],
            constants,
            variables,
        )
    }
}

/// The row of a variable in a listing: its name and, between brackets, its
/// slot.
pub open spec fn variable_row(entry: (Seq<char>, u8)) -> Seq<char> {
    "║ "@ + padded(entry.0 + " ["@ + natural_text(entry.1 as nat) + "]"@, 38) + " ║\n"@
}

/// The rows of the first `count` variables.
pub open spec fn variable_rows(variables: Seq<(Seq<char>, u8)>, count: nat) -> Seq<char>
    decreases count,
{
    if count == 0 || count > variables.len() {
        Seq::empty()
    } else {
        variable_rows(variables, (count - 1) as nat) + variable_row(variables[count - 1])
    }
}

/// The row of a value in a listing of the stack.
pub open spec fn stack_row(value: PrimativeView) -> Seq<char> {
    "║ "@ + padded(rendered(value, true), 38) + " ║\n"@
}

/// The rows of the first `count` values of the stack.
pub open spec fn stack_rows(stack: Seq<PrimativeView>, count: nat) -> Seq<char>
    decreases count,
{
    if count == 0 || count > stack.len() {
        Seq::empty()
    } else {
        stack_rows(stack, (count - 1) as nat) + stack_row(stack[count - 1])
    }
}

/// The head of the listing of memory.
pub open spec fn memory_head() -> Seq<char> {
    "╔════════════════════════════════════════╗\n"@
        + "║               MEMORY DUMP              ║\n"@
        + "╠═══╦═════╦══════════════════════════════╣\n"@
}

/// The lines between the listing of memory and that of the variables.
pub open spec fn variable_head() -> Seq<char> {
    "╚═══╩═════╩══════════════════════════════╝\n"@
        + "╔════════════════════════════════════════╗\n"@
        + "║             VARIABLE DUMP              ║\n"@
        + "╠════════════════════════════════════════╣\n"@
}

/// The lines between the listing of the variables and that of the stack,
/// with the size of the stack.
pub open spec fn stack_head(size: nat) -> Seq<char> {
    "╚════════════════════════════════════════╝\n"@
        + "╔════════════════════════════════════════╗\n"@
        + "║                  STACK                 ║\n"@
        + "╠════════════════════════════════════════╣\n"@ + "║ Stack size: "@ + padded(
        natural_text(size),
        10,
    ) + "                 ║\n"@ + "╠════════════════════════════════════════╣\n"@
}

/// The last line of the listing.
pub open spec fn listing_foot() -> Seq<char> {
    "╚════════════════════════════════════════╝\n"@
}

/// The listing of a storage: its memory slot by slot, its variables with
/// their slots, and its stack.
pub open spec fn dumped(
    memory: Seq<PrimativeView>,
    constants: int,
    variables: Seq<(Seq<char>, u8)>,
    stack: Seq<PrimativeView>,
) -> Seq<char> {
    memory_head() + memory_rows(memory, memory.len(), constants, variables.len() as int)
        + variable_head() + variable_rows(variables, variables.len()) + stack_head(stack.len())
        + stack_rows(stack, stack.len()) + listing_foot()
}

/// Appends the row of a slot in a listing of memory.
pub fn push_memory_row(text: &mut String, index: usize, value: &VmObject, constants: usize, variables: usize)
    ensures
        final(text)@ == old(text)@ + memory_row(
            index as int,
            value@,
            constants as int,
            variables as int,
        ),
{
    let last_type: &str = if constants == index {
        "V"
    } else if index >= constants && variables == index - constants {
        "T"
    } else {
        "C"
    };
    crate::text::push_text(text, "║ ");
    crate::text::push_text(text, last_type);
    crate::text::push_text(text, " ║ ");
    let mut number: String = String::new();
    crate::text::push_natural(&mut number, index as u64);
    assert(number@ =~= natural_text(index as nat));
    crate::text::push_right_aligned(text, number.as_str(), 3);
    crate::text::push_text(text, " ║ ");
    let mut item: String = String::new();
    value.value.render(true, &mut item);
    assert(item@ =~= rendered(value@, true));
    crate::text::push_padded(text, item.as_str(), 28);
    crate::text::push_text(text, " ║\n");
    assert(final(text)@ =~= old(text)@ + memory_row(
        index as int,
        value@,
        constants as int,
        variables as int,
    ));
}

/// Appends the row of a variable in a listing.
pub fn push_variable_row(text: &mut String, name: &str, slot: u8)
    ensures
        final(text)@ == old(text)@ + variable_row((name@, slot)),
{
    let mut line: String = String::new();
    crate::text::push_text(&mut line, name);
    crate::text::push_text(&mut line, " [");
    crate::text::push_natural(&mut line, slot as u64);
    crate::text::push_text(&mut line, "]");
    assert(line@ =~= name@ + " ["@ + natural_text(slot as nat) + "]"@);
    crate::text::push_text(text, "║ ");
    crate::text::push_padded(text, line.as_str(), 38);
    crate::text::push_text(text, " ║\n");
    assert(final(text)@ =~= old(text)@ + variable_row((name@, slot)));
}

/// Appends the row of a value in a listing of the stack.
pub fn push_stack_row(text: &mut String, value: &VmObject)
    ensures
        final(text)@ == old(text)@ + stack_row(value@),
{
    let mut item: String = String::new();
    value.value.render(true, &mut item);
    assert(item@ =~= rendered(value@, true));
    crate::text::push_text(text, "║ ");
    crate::text::push_padded(text, item.as_str(), 38);
    crate::text::push_text(text, " ║\n");
    assert(final(text)@ =~= old(text)@ + stack_row(value@));
}

/// Appends the head of the listing of memory.
pub fn push_memory_head(text: &mut String)
    ensures
        final(text)@ == old(text)@ + memory_head(),
{
    crate::text::push_text(text, "╔════════════════════════════════════════╗\n");
    crate::text::push_text(text, "║               MEMORY DUMP              ║\n");
    crate::text::push_text(text, "╠═══╦═════╦══════════════════════════════╣\n");
    assert(final(text)@ =~= old(text)@ + memory_head());
}

/// Appends the lines between the listing of memory and that of the
/// variables.
pub fn push_variable_head(text: &mut String)
    ensures
        final(text)@ == old(text)@ + variable_head(),
{
    crate::text::push_text(text, "╚═══╩═════╩══════════════════════════════╝\n");
    crate::text::push_text(text, "╔════════════════════════════════════════╗\n");
    crate::text::push_text(text, "║             VARIABLE DUMP              ║\n");
    crate::text::push_text(text, "╠════════════════════════════════════════╣\n");
    assert(final(text)@ =~= old(text)@ + variable_head());
}

/// Appends the lines between the listing of the variables and that of the
/// stack.
pub fn push_stack_head(text: &mut String, size: usize)
    ensures
        final(text)@ == old(text)@ + stack_head(size as nat),
{
    crate::text::push_text(text, "╚════════════════════════════════════════╝\n");
    crate::text::push_text(text, "╔════════════════════════════════════════╗\n");
    crate::text::push_text(text, "║                  STACK                 ║\n");
    crate::text::push_text(text, "╠════════════════════════════════════════╣\n");
    crate::text::push_text(text, "║ Stack size: ");
    let mut number: String = String::new();
    crate::text::push_natural(&mut number, size as u64);
    assert(number@ =~= natural_text(size as nat));
    crate::text::push_padded(text, number.as_str(), 10);
    crate::text::push_text(text, "                 ║\n");
    crate::text::push_text(text, "╠════════════════════════════════════════╣\n");
    assert(final(text)@ =~= old(text)@ + stack_head(size as nat));
}

impl StaticStorage {
    /// The listing of the storage as a text: the host writes it out.
    pub fn dump(&self) -> (text: String)
        ensures
            text@ == dumped(
                self.memory_views(),
                self.constant_size as int,
                self.variable_views(),
                self.stack_views(),
            ),
    {
        let mut text: String = String::new();
        push_memory_head(&mut text);
        assert(text@ =~= memory_head());

        let consts: usize = self.constant_size as usize;
        let variables: usize = self.variables.len();
        let ghost memory = self.memory_views();

        let mut index: usize = 0;
        assert(text@ =~= memory_head() + memory_rows(memory, 0, consts as int, variables as int));
        while index < self.memory.len()
            invariant
                index <= self.memory@.len(),
                memory == self.memory_views(),
                text@ == memory_head() + memory_rows(
                    memory,
                    index as nat,
                    consts as int,
                    variables as int,
                ),
            decreases self.memory@.len() - index,
        {
            push_memory_row(&mut text, index, &self.memory[index], consts, variables);
            index += 1;
            assert(text@ =~= memory_head() + memory_rows(
                memory,
                index as nat,
                consts as int,
                variables as int,
            ));
        }

        push_variable_head(&mut text);
        let ghost second = text@;
        let ghost entries = self.variable_views();
        let mut place: usize = 0;
        assert(text@ =~= second + variable_rows(entries, 0));
        while place < self.variables.len()
            invariant
                place <= self.variables@.len(),
                entries == self.variable_views(),
                text@ == second + variable_rows(entries, place as nat),
            decreases self.variables@.len() - place,
        {
            push_variable_row(&mut text, self.variables[place].0.as_str(), self.variables[place].1);
            assert(entries[place as int] == (
                self.variables@[place as int].0@,
                self.variables@[place as int].1,
            ));
            place += 1;
            assert(text@ =~= second + variable_rows(entries, place as nat));
        }

        push_stack_head(&mut text, self.stack.len());
        let ghost fourth = text@;
        let ghost values = self.stack_views();
        let mut depth: usize = 0;
        assert(text@ =~= fourth + stack_rows(values, 0));
        while depth < self.stack.len()
            invariant
                depth <= self.stack@.len(),
                values == self.stack_views(),
                text@ == fourth + stack_rows(values, depth as nat),
            decreases self.stack@.len() - depth,
        {
            push_stack_row(&mut text, &self.stack[depth]);
            depth += 1;
            assert(text@ =~= fourth + stack_rows(values, depth as nat));
        }
        crate::text::push_text(&mut text, "╚════════════════════════════════════════╝\n");
        assert(text@ =~= dumped(
            self.memory_views(),
            self.constant_size as int,
            self.variable_views(),
            self.stack_views(),
        ));
        text
    }
}

} // verus!
