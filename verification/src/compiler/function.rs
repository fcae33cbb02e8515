//! References to callable things and the view that a native call gets of its
//! arguments.

use vstd::prelude::*;
use std::rc::Rc;
use crate::compiler::value::VmObject;
use crate::compiler::value::PrimativeView;
use crate::compiler::value::object_views;

verus! {

/// The native entry points that the built-in modules register.
#[derive(Clone, Copy, Debug, PartialEq, Eq, Structural)]
pub enum NativeCall {
    Assert,
    Print,
    PrintLine,
    Format,
    ReadLine,
}

/// A callable thing: its name, the path and the name of the module that
/// owns it, and its native entry point.
#[derive(Clone, Debug, PartialEq)]
pub struct FunctionReference {
    pub name: String,
    pub path: Vec<String>,
    pub framework: String,
    pub callback: NativeCall,
}

/// A function reference with its texts as sequences of characters.
pub struct FunctionView {
    pub name: Seq<char>,
    pub path: Seq<Seq<char>>,
    pub framework: Seq<char>,
    pub callback: NativeCall,
}

impl View for FunctionReference {
    type V = FunctionView;

    open spec fn view(&self) -> FunctionView {
        FunctionView {
            name: self.name@,
            path: self.path.deep_view(),
            framework: self.framework@,
            callback: self.callback,
        }
    }
}

/// Whether a reference is the one that a lookup by name, path and owning
/// module asks for.
pub open spec fn function_matches(
    reference: FunctionView,
    name: Seq<char>,
    path: Seq<Seq<char>>,
    framework: Seq<char>,
) -> bool {
    reference.name == name && reference.path == path && reference.framework
        == framework
}

/// What a lookup handed back, as a mathematical value.
pub open spec fn reference_view(found: Option<Rc<FunctionReference>>) -> Option<FunctionView> {
    match found {
        Some(reference) => Some((*reference)@),
        None => None,
    }
}

/// What a native call hands back: a value, or the message of a failure.
pub type NativeCallResult = Result<VmObject, String>;

/// A `NativeCallResult` as a mathematical value.
pub open spec fn native_result_view(result: NativeCallResult) -> Result<PrimativeView, Seq<char>> {
    match result {
        Ok(value) => Ok(value@),
        Err(message) => Err(message@),
    }
}

/// `Rc::clone` of the standard library: one more pointer to the same
/// allocation, so the reference behind it is the one behind the pointer
/// that is cloned.
#[verifier::external_body]
pub(crate) fn share_reference(reference: &Rc<FunctionReference>) -> (shared: Rc<FunctionReference>)
    ensures
        shared == *reference,
{
    reference.clone()
}

impl FunctionReference {
    /// A reference to a native entry point of the module at `path`.
    pub fn native_function(callback: NativeCall, name: String, path: Vec<String>, framework: String) -> (reference:
        Rc<FunctionReference>)
        ensures
            reference.name == name,
            reference.path == path,
            reference.framework == framework,
            reference.callback == callback,
    {
        Rc::new(FunctionReference { name, path, framework, callback })
    }
}

/// The view that a native call gets of its arguments: the topmost
/// `arg_size` values of the operand stack, the first argument deepest.
pub struct FunctionParameter<'a> {
    stack: &'a Vec<VmObject>,
    arg_size: u8,
}

impl<'a> FunctionParameter<'a> {
    #[verifier::type_invariant]
    spec fn inside(self) -> bool {
        self.arg_size <= self.stack@.len()
    }

    /// The stack that the arguments lie on.
    pub closed spec fn stack(self) -> Seq<VmObject> {
        self.stack@
    }

    /// The number of arguments.
    pub closed spec fn count(self) -> nat {
        self.arg_size as nat
    }

    /// The arguments, first to last.
    pub open spec fn arguments(self) -> Seq<VmObject> {
        self.stack().subrange(self.stack().len() - self.count(), self.stack().len() as int)
    }

    /// The arguments as mathematical values.
    pub open spec fn argument_views(self) -> Seq<PrimativeView> {
        object_views(self.arguments())
    }

    /// A view of the topmost `arg_size` values of `stack`, where the stack
    /// holds that many.
    pub fn new(stack: &'a Vec<VmObject>, arg_size: u8) -> (parameter: Option<FunctionParameter<'a>>)
        ensures
            match parameter {
                Some(made) => arg_size <= stack@.len() && made.stack() == stack@ && made.count()
                    == arg_size,
                None => arg_size > stack@.len(),
            },
    {
        if arg_size as usize <= stack.len() {
            Some(FunctionParameter { stack, arg_size })
        } else {
            None
        }
    }

    /// The number of arguments.
    pub fn length(&self) -> (count: u8)
        ensures
            count == self.count(),
            count <= self.stack().len(),
    {
        proof {
            use_type_invariant(self);
        }
        self.arg_size
    }

    /// The argument at place `index`, counted from 0.
    pub fn get(&self, index: u8) -> (argument: Option<&VmObject>)
        ensures
            match argument {
                Some(found) => index < self.count() && *found == self.arguments()[index as int],
                None => index >= self.count(),
            },
    {
        proof {
            use_type_invariant(self);
        }
        if index < self.arg_size {
            let base: usize = self.stack.len() - self.arg_size as usize;
            Some(&self.stack[base + index as usize])
        } else {
            None
        }
    }
}

} // verus!
