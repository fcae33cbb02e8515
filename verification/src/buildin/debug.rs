//! The module `hataayıklama`: assertions.

use vstd::prelude::*;
use std::rc::Rc;
use crate::buildin::Module;
use crate::buildin::ModuleKind;
use crate::buildin::method_views;
use crate::buildin::find_method;
use crate::buildin::copy_methods;
use crate::compiler::function::FunctionReference;
use crate::compiler::function::FunctionView;
use crate::compiler::function::FunctionParameter;
use crate::compiler::function::NativeCall;
use crate::compiler::function::NativeCallResult;
use crate::compiler::function::native_result_view;
use crate::compiler::value::ClassReference;
use crate::compiler::value::PrimativeView;
use crate::compiler::value::rendered;
use crate::compiler::value::truthy;
use crate::compiler::value::empty_object;

verus! {

/// The module `hataayıklama`.
pub struct DebugModule {
    methods: Vec<(String, Rc<FunctionReference>)>,
    path: Vec<String>,
}

/// What an assertion answers for its arguments. One argument must be true.
/// Two arguments must be equal; the failure writes both out. Any other
/// number of arguments fails.
pub open spec fn assertion(arguments: Seq<PrimativeView>) -> Result<PrimativeView, Seq<char>> {
    if arguments.len() == 1 {
        if truthy(arguments[0]) {
            Ok(PrimativeView::Empty)
        } else {
            Err("Assert failed"@)
        }
    } else if arguments.len() == 2 {
        if arguments[0] == arguments[1] {
            Ok(PrimativeView::Empty)
        } else {
            Err(
                "Assert failed (left: "@ + rendered(arguments[0], true) + ", right: "@ + rendered(
                    arguments[1],
                    true,
                ) + ")"@,
            )
        }
    } else {
        Err("Assert failed"@)
    }
}

impl Module for DebugModule {
    closed spec fn name_view(&self) -> Seq<char> {
        "hataayıklama"@
    }

    closed spec fn path_view(&self) -> Seq<Seq<char>> {
        self.path.deep_view()
    }

    closed spec fn methods_view(&self) -> Seq<(Seq<char>, FunctionView)> {
        method_views(self.methods@)
    }

    fn get_module_name(&self) -> (name: String) {
        crate::text::copy_text("hataayıklama")
    }

    fn get_path(&self) -> (path: &Vec<String>) {
        &self.path
    }

    fn get_method(&self, name: &str) -> (method: Option<Rc<FunctionReference>>) {
        find_method(&self.methods, name)
    }

    fn get_module(&self, _name: &str) -> (module: Option<ModuleKind>) {
        None
    }

    fn get_methods(&self) -> (methods: Vec<(String, Rc<FunctionReference>)>) {
        copy_methods(&self.methods)
    }

    fn get_modules(&self) -> (modules: Vec<(String, ModuleKind)>) {
        Vec::new()
    }

    fn get_classes(&self) -> (classes: Vec<ClassReference>) {
        Vec::new()
    }
}

impl DebugModule {
    /// The module with its one method, `doğrula`.
    pub fn new() -> (module: Rc<DebugModule>)
        ensures
            module.name_view() == "hataayıklama"@,
            module.path_view() == seq!["hataayıklama"@],
            module.methods_view() == seq![
                (
                    "doğrula"@,
                    FunctionView {
                        name: "doğrula"@,
                        path: seq!["hataayıklama"@],
                        framework: "hataayıklama"@,
                        callback: NativeCall::Assert,
                    },
                ),
            ],
    {
        let mut module = DebugModule { methods: Vec::new(), path: Vec::new() };
        module.path.push(crate::text::copy_text("hataayıklama"));
        assert(module.path.deep_view() =~= seq!["hataayıklama"@]);
        let mut path: Vec<String> = Vec::new();
        path.push(crate::text::copy_text("hataayıklama"));
        assert(path.deep_view() =~= seq!["hataayıklama"@]);
        let reference = FunctionReference::native_function(
            NativeCall::Assert,
            crate::text::copy_text("doğrula"),
            path,
            crate::text::copy_text("hataayıklama"),
        );
        module.methods.push((crate::text::copy_text("doğrula"), reference));
        assert(method_views(module.methods@) =~= seq![
            (
                "doğrula"@,
                FunctionView {
                    name: "doğrula"@,
                    path: seq!["hataayıklama"@],
                    framework: "hataayıklama"@,
                    callback: NativeCall::Assert,
                },
            ),
        ]);
        Rc::new(module)
    }

    /// The native entry of `doğrula`: an assertion on one or two arguments.
    pub fn assert_that(parameter: FunctionParameter) -> (result: NativeCallResult)
        ensures
            native_result_view(result) == assertion(parameter.argument_views()),
    {
        match parameter.length() {
            1 => {
                match parameter.get(0) {
                    Some(value) => match value.value.is_true() {
                        false => Err(crate::text::copy_text("Assert failed")),
                        true => Ok(empty_object()),
                    },
                    None => Err(crate::text::copy_text("Assert failed")),
                }
            },
            2 => {
                match (parameter.get(0), parameter.get(1)) {
                    (Some(left), Some(right)) => match left.value.equals(&right.value) {
                        false => {
                            let mut message: String = String::new();
                            crate::text::push_text(&mut message, "Assert failed (left: ");
                            left.value.render(true, &mut message);
                            crate::text::push_text(&mut message, ", right: ");
                            right.value.render(true, &mut message);
                            crate::text::push_text(&mut message, ")");
                            assert(message@ =~= "Assert failed (left: "@ + rendered(left@, true)
                                + ", right: "@ + rendered(right@, true) + ")"@);
                            Err(message)
                        },
                        true => Ok(empty_object()),
                    },
                    _ => Err(crate::text::copy_text("Assert failed")),
                }
            },
            _ => Err(crate::text::copy_text("Assert failed")),
        }
    }
}

} // verus!
