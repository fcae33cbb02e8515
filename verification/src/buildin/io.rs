//! The module `gç`: writing to the output and reading a line.

use vstd::prelude::*;
use std::rc::Rc;
use crate::buildin::Module;
use crate::buildin::ModuleKind;
use crate::buildin::method_views;
use crate::buildin::find_method;
use crate::buildin::copy_methods;
use crate::compiler::function::FunctionReference;
use crate::compiler::function::FunctionView;
use crate::compiler::function::FunctionParameter;
use crate::compiler::function::NativeCall;
use crate::compiler::function::NativeCallResult;
use crate::compiler::function::native_result_view;
use crate::compiler::value::ClassReference;
use crate::compiler::value::PrimativeView;
use crate::compiler::value::VmObject;
use crate::compiler::value::BramaPrimative;
use crate::compiler::value::rendered;
use crate::compiler::value::empty_object;

verus! {

/// The module `gç`.
pub struct IoModule {
    methods: Vec<(String, Rc<FunctionReference>)>,
    path: Vec<String>,
}

/// The first `count` arguments written out one after the other.
pub open spec fn written(arguments: Seq<PrimativeView>, count: nat) -> Seq<char>
    decreases count,
{
    if count == 0 || count > arguments.len() {
        Seq::empty()
    } else {
        written(arguments, (count - 1) as nat) + rendered(arguments[count - 1], false)
    }
}

/// What formatting answers: the one argument written out as a text; with
/// any other number of arguments, the empty value.
pub open spec fn formatted(arguments: Seq<PrimativeView>) -> PrimativeView {
    if arguments.len() == 1 {
        PrimativeView::Text(rendered(arguments[0], false))
    } else {
        PrimativeView::Empty
    }
}

/// What reading a line answers: the line without the blanks around it, or
/// the empty value where no line could be read.
pub open spec fn line_value(line: Option<Seq<char>>) -> PrimativeView {
    match line {
        Some(text) => PrimativeView::Text(crate::text::trimmed(text)),
        None => PrimativeView::Empty,
    }
}

/// The entry of a method table for the native `callback` under `name`.
pub open spec fn io_entry(name: Seq<char>, callback: NativeCall) -> (Seq<char>, FunctionView) {
    (name, FunctionView { name, path: seq!["gç"@], framework: "gç"@, callback })
}

/// The methods of the module, in the order in which they are registered.
pub open spec fn io_methods() -> Seq<(Seq<char>, FunctionView)> {
    seq![
        io_entry("satıroku"@, NativeCall::ReadLine),
        io_entry("satiroku"@, NativeCall::ReadLine),
        io_entry("yaz"@, NativeCall::Print),
        io_entry("satıryaz"@, NativeCall::PrintLine),
        io_entry("satiryaz"@, NativeCall::PrintLine),
        io_entry("biçimlendir"@, NativeCall::Format),
        io_entry("bicimlendir"@, NativeCall::Format),
    ]
}

impl Module for IoModule {
    closed spec fn name_view(&self) -> Seq<char> {
        "gç"@
    }

    closed spec fn path_view(&self) -> Seq<Seq<char>> {
        self.path.deep_view()
    }

    closed spec fn methods_view(&self) -> Seq<(Seq<char>, FunctionView)> {
        method_views(self.methods@)
    }

    fn get_module_name(&self) -> (name: String) {
        crate::text::copy_text("gç")
    }

    fn get_path(&self) -> (path: &Vec<String>) {
        &self.path
    }

    fn get_method(&self, name: &str) -> (method: Option<Rc<FunctionReference>>) {
        find_method(&self.methods, name)
    }

    fn get_module(&self, _name: &str) -> (module: Option<ModuleKind>) {
        None
    }

    fn get_methods(&self) -> (methods: Vec<(String, Rc<FunctionReference>)>) {
        copy_methods(&self.methods)
    }

    fn get_modules(&self) -> (modules: Vec<(String, ModuleKind)>) {
        Vec::new()
    }

    fn get_classes(&self) -> (classes: Vec<ClassReference>) {
        Vec::new()
    }
}

impl IoModule {
    /// Registers the native `callback` under `name`.
    fn register(&mut self, name: &str, callback: NativeCall)
        ensures
            final(self).path == old(self).path,
            method_views(final(self).methods@) == method_views(old(self).methods@).push(
                io_entry(name@, callback),
            ),
    {
        let mut path: Vec<String> = Vec::new();
        path.push(crate::text::copy_text("gç"));
        assert(path.deep_view() =~= seq!["gç"@]);
        let reference = FunctionReference::native_function(
            callback,
            crate::text::copy_text(name),
            path,
            crate::text::copy_text("gç"),
        );
        let ghost before = method_views(self.methods@);
        self.methods.push((crate::text::copy_text(name), reference));
        assert(method_views(self.methods@) =~= before.push(io_entry(name@, callback)));
    }

    /// The module with its methods, each under its name with and without
    /// Turkish letters.
    pub fn new() -> (module: Rc<IoModule>)
        ensures
            module.name_view() == "gç"@,
            module.path_view() == seq!["gç"@],
            module.methods_view() == io_methods(),
    {
        let mut module = IoModule { methods: Vec::new(), path: Vec::new() };
        module.path.push(crate::text::copy_text("gç"));
        assert(module.path.deep_view() =~= seq!["gç"@]);
        assert(method_views(module.methods@) =~= Seq::empty());

        module.register("satıroku", NativeCall::ReadLine);
        module.register("satiroku", NativeCall::ReadLine);
        module.register("yaz", NativeCall::Print);
        module.register("satıryaz", NativeCall::PrintLine);
        module.register("satiryaz", NativeCall::PrintLine);
        module.register("biçimlendir", NativeCall::Format);
        module.register("bicimlendir", NativeCall::Format);
        assert(method_views(module.methods@) =~= io_methods());
        Rc::new(module)
    }

    /// The value of a line that was read: the line without the blanks around
    /// it. Where no line could be read, the empty value.
    pub fn readline(line: Option<String>) -> (result: NativeCallResult)
        ensures
            native_result_view(result) == Ok::<PrimativeView, Seq<char>>(
                line_value(
                    match line {
                        Some(text) => Some(text@),
                        None => None,
                    },
                ),
            ),
    {
        match line {
            Some(line) => Ok(
                VmObject::from(BramaPrimative::Text(crate::text::trim_text(line.as_str()))),
            ),
            None => Ok(empty_object()),
        }
    }

    /// Appends the arguments, written out one after the other, to a buffer.
    fn collect(parameter: &FunctionParameter, buffer: &mut String)
        ensures
            final(buffer)@ == old(buffer)@ + written(
                parameter.argument_views(),
                parameter.count(),
            ),
    {
        let count: u8 = parameter.length();
        let mut i: u8 = 0;
        assert(buffer@ =~= old(buffer)@ + written(parameter.argument_views(), 0));
        while i < count
            invariant
                i <= count,
                count == parameter.count(),
                parameter.argument_views().len() == count,
                buffer@ == old(buffer)@ + written(parameter.argument_views(), i as nat),
            decreases count - i,
        {
            match parameter.get(i) {
                Some(arg) => {
                    arg.value.render(false, buffer);
                },
                None => {},
            }
            i += 1;
            assert(buffer@ =~= old(buffer)@ + written(parameter.argument_views(), i as nat));
        }
    }

    /// Writes the arguments, one after the other, to `sink`.
    pub fn print(parameter: FunctionParameter, sink: &mut String) -> (result: NativeCallResult)
        ensures
            native_result_view(result) == Ok::<PrimativeView, Seq<char>>(PrimativeView::Empty),
            final(sink)@ == old(sink)@ + written(parameter.argument_views(), parameter.count()),
    {
        let mut buffer: String = String::new();
        IoModule::collect(&parameter, &mut buffer);
        crate::text::push_text(sink, buffer.as_str());
        Ok(empty_object())
    }

    /// Writes the arguments, one after the other, and the end of a line to
    /// `sink`.
    pub fn printline(parameter: FunctionParameter, sink: &mut String) -> (result: NativeCallResult)
        ensures
            native_result_view(result) == Ok::<PrimativeView, Seq<char>>(PrimativeView::Empty),
            final(sink)@ == old(sink)@ + written(parameter.argument_views(), parameter.count())
                + "\r\n"@,
    {
        let mut buffer: String = String::new();
        IoModule::collect(&parameter, &mut buffer);

        crate::text::push_text(&mut buffer, "\r\n");

        crate::text::push_text(sink, buffer.as_str());
        Ok(empty_object())
    }

    /// The one argument written out as a text.
    pub fn format(parameter: FunctionParameter) -> (result: NativeCallResult)
        ensures
            native_result_view(result) == Ok::<PrimativeView, Seq<char>>(
                formatted(parameter.argument_views()),
            ),
    {
        if parameter.length() != 1 {
            return Ok(empty_object());
        }
        match parameter.get(0) {
            Some(value) => {
                let mut text: String = String::new();
                value.value.render(false, &mut text);
                assert(text@ =~= rendered(value@, false));
                Ok(VmObject::from(BramaPrimative::Text(text)))
            },
            None => Ok(empty_object()),
        }
    }
}

} // verus!
