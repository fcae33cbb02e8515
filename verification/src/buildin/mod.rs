//! The built-in modules and what the core asks of a module.

use vstd::prelude::*;
use std::rc::Rc;
use crate::compiler::function::FunctionReference;
use crate::compiler::function::FunctionView;
use crate::compiler::function::reference_view;
use crate::compiler::function::share_reference;
use crate::compiler::value::ClassReference;

pub mod debug;

pub mod io;

verus! {

/// The methods of a module as pairs of a name and a reference.
pub open spec fn method_views(methods: Seq<(String, Rc<FunctionReference>)>) -> Seq<(Seq<char>, FunctionView)> {
    methods.map_values(|entry: (String, Rc<FunctionReference>)| (entry.0@, (*entry.1)@))
}

/// Place `i` is the first one that holds a method called `name`.
pub open spec fn first_method(methods: Seq<(Seq<char>, FunctionView)>, name: Seq<char>, i: int) -> bool {
    &&& 0 <= i < methods.len()
    &&& methods[i].0 == name
    &&& forall|j: int| 0 <= j < i ==> (#[trigger] methods[j]).0 != name
}

/// No method is called `name`.
pub open spec fn no_method(methods: Seq<(Seq<char>, FunctionView)>, name: Seq<char>) -> bool {
    forall|j: int| 0 <= j < methods.len() ==> (#[trigger] methods[j]).0 != name
}

/// What a lookup by name finds in a table of methods.
pub open spec fn found_method(
    methods: Seq<(Seq<char>, FunctionView)>,
    name: Seq<char>,
    found: Option<FunctionView>,
) -> bool {
    match found {
        Some(reference) => exists|i: int| #[trigger]
            first_method(methods, name, i) && methods[i].1 == reference,
        None => no_method(methods, name),
    }
}

/// The first method called `name` in a table.
pub fn find_method(methods: &Vec<(String, Rc<FunctionReference>)>, name: &str) -> (found: Option<
    Rc<FunctionReference>,
>)
    ensures
        found_method(
            method_views(methods@),
            name@,
            reference_view(found),
        ),
{
    let mut i: usize = 0;
    while i < methods.len()
        invariant
            i <= methods@.len(),
            forall|j: int| 0 <= j < i ==> (#[trigger] method_views(methods@)[j]).0 != name@,
        decreases methods@.len() - i,
    {
        if crate::text::same_text(methods[i].0.as_str(), name) {
            assert(first_method(method_views(methods@), name@, i as int));
            return Some(share_reference(&methods[i].1));
        }
        i += 1;
    }
    None
}

/// A copy of a table of methods.
pub fn copy_methods(methods: &Vec<(String, Rc<FunctionReference>)>) -> (copy: Vec<
    (String, Rc<FunctionReference>),
>)
    ensures
        method_views(copy@) == method_views(methods@),
{
    let mut copy: Vec<(String, Rc<FunctionReference>)> = Vec::new();
    let mut i: usize = 0;
    while i < methods.len()
        invariant
            i <= methods@.len(),
            method_views(copy@) == method_views(methods@).take(i as int),
        decreases methods@.len() - i,
    {
        let ghost before = method_views(copy@);
        let name: String = crate::text::copy_text(methods[i].0.as_str());
        let reference: Rc<FunctionReference> = share_reference(&methods[i].1);
        copy.push((name, reference));
        assert(method_views(copy@) =~= before.push(method_views(methods@)[i as int]));
        i += 1;
        assert(method_views(copy@) =~= method_views(methods@).take(i as int));
    }
    assert(method_views(methods@).take(methods@.len() as int) =~= method_views(methods@));
    copy
}

/// What the core asks of a module: a name, a path, its callables by name and
/// all together, and the modules and classes inside it.
pub trait Module {
    /// The name of the module.
    spec fn name_view(&self) -> Seq<char>;

    /// The path of the module.
    spec fn path_view(&self) -> Seq<Seq<char>>;

    /// The callables of the module, in the order in which they were
    /// registered.
    spec fn methods_view(&self) -> Seq<(Seq<char>, FunctionView)>;

    fn get_module_name(&self) -> (name: String)
        ensures
            name@ == self.name_view(),
    ;

    fn get_path(&self) -> (path: &Vec<String>)
        ensures
            path.deep_view() == self.path_view(),
    ;

    fn get_method(&self, name: &str) -> (method: Option<Rc<FunctionReference>>)
        ensures
            found_method(
                self.methods_view(),
                name@,
                reference_view(method),
            ),
    ;

    /// The module of this name inside the module.
    fn get_module(&self, name: &str) -> (module: Option<ModuleKind>)
        ensures
            module is None,
    ;

    fn get_methods(&self) -> (methods: Vec<(String, Rc<FunctionReference>)>)
        ensures
            method_views(methods@) == self.methods_view(),
    ;

    /// The modules inside the module.
    fn get_modules(&self) -> (modules: Vec<(String, ModuleKind)>)
        ensures
            modules@.len() == 0,
    ;

    /// The classes that the module declares.
    fn get_classes(&self) -> (classes: Vec<ClassReference>)
        ensures
            classes@.len() == 0,
    ;
}

/// The built-in modules.
#[derive(Clone, Copy, Debug, PartialEq, Eq, Structural)]
pub enum ModuleKind {
    Debug,
    Io,
}

} // verus!
