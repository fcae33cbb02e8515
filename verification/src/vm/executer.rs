//! The pipeline from source text to a finished run.
//!
//! The library reads no file and writes to no console. A source that is a
//! file is read by the host, which hands the text over as code. What a
//! program writes goes into the captured output where that was asked for, and
//! to the host otherwise.

use vstd::prelude::*;
use crate::compiler::Compiled;
use crate::compiler::InterpreterCompiler;
use crate::compiler::Unit;
use crate::compiler::compiled;
use crate::compiler::unit_of;
use crate::compiler::code::Pool;
use crate::compiler::context::KaramelCompilerContext;
use crate::compiler::context::ScopeView;
use crate::compiler::context::builtin_tables;
use crate::compiler::value::PrimativeView;
use crate::compiler::value::VmObject;
use crate::compiler::value::object_views;
use crate::parser::Parser;
use crate::parser::filter_comments;
use crate::parser::scan::scanned_all;
use crate::parser::significant;
use crate::syntax::SyntaxParser;
use crate::syntax::grammar::program;
use crate::types::Token;
use crate::types::TokenView;
use crate::types::token_views;
use crate::vm::interpreter::HostRequest;
use crate::vm::interpreter::VmSignal;
use crate::vm::interpreter::captured;
use crate::vm::interpreter::memories_of;
use crate::vm::interpreter::run_vm;
use crate::vm::machine;
use crate::vm::machine::RequestView;
use crate::vm::machine::SignalView;
use crate::vm::machine::Stepped;
use crate::vm::machine::VmState;

verus! {

/// Where a program comes from: the text itself, or the name of a file.
pub enum ExecutionSource {
    Code(String),
    File(String),
}

/// What to run, and what to hand back: the tokens, and the captured
/// output.
pub struct ExecutionParameters {
    pub source: ExecutionSource,
    pub return_opcode: bool,
    pub return_output: bool,
}

/// What a run gave.
pub struct ExecutionStatus {
    pub compiled: bool,
    pub executed: bool,
    pub memory_output: Option<Vec<VmObject>>,
    pub stdout: Option<String>,
    pub stderr: Option<String>,
    pub opcodes: Option<Vec<Token>>,
    /// The message, the line and the column of the failure that ended the
    /// run.
    pub error: Option<(String, u32, u32)>,
}

/// An `ExecutionStatus` as a mathematical value.
pub struct StatusView {
    pub compiled: bool,
    pub executed: bool,
    pub memory_output: Option<Seq<PrimativeView>>,
    pub stdout: Option<Seq<char>>,
    pub stderr: Option<Seq<char>>,
    pub opcodes: Option<Seq<TokenView>>,
    pub error: Option<(Seq<char>, u32, u32)>,
}

impl View for ExecutionStatus {
    type V = StatusView;

    open spec fn view(&self) -> StatusView {
        StatusView {
            compiled: self.compiled,
            executed: self.executed,
            memory_output: match self.memory_output {
                Some(memory) => Some(object_views(memory@)),
                None => None,
            },
            stdout: captured(self.stdout),
            stderr: captured(self.stderr),
            opcodes: match self.opcodes {
                Some(tokens) => Some(token_views(tokens@)),
                None => None,
            },
            error: match self.error {
                Some(error) => Some((error.0@, error.1, error.2)),
                None => None,
            },
        }
    }
}

impl Default for ExecutionStatus {
    fn default() -> (status: ExecutionStatus)
        ensures
            status@ == (StatusView {
                compiled: false,
                executed: false,
                memory_output: None,
                stdout: None,
                stderr: None,
                opcodes: None,
                error: None,
            }),
    {
        ExecutionStatus {
            compiled: false,
            executed: false,
            memory_output: None,
            stdout: None,
            stderr: None,
            opcodes: None,
            error: None,
        }
    }
}

/// The message for a source that is a file.
pub open spec fn message_file() -> Seq<char> {
    "A file is read by the host"@
}

/// The message for a text of more characters than 32 bits can count.
pub open spec fn message_long() -> Seq<char> {
    "Text is too long"@
}

/// The message for a run that ended because it needed the host.
pub open spec fn message_host() -> Seq<char> {
    "The host is needed"@
}

/// The status of a run that ended before the program was compiled.
pub open spec fn rejected(error: (Seq<char>, u32, u32)) -> StatusView {
    StatusView {
        compiled: false,
        executed: false,
        memory_output: None,
        stdout: None,
        stderr: None,
        opcodes: None,
        error: Some(error),
    }
}

/// What compiling reads in a new context: no code, one scope without a
/// parent and with an empty storage, and the built-in modules.
pub open spec fn fresh_unit() -> Unit {
    Unit {
        opcodes: Seq::empty(),
        scopes: seq![ScopeView { variables: Seq::empty(), parent: None }],
        scope: 0,
        pool: Pool { constants: Seq::empty(), variables: Seq::empty(), temps: 0 },
        memory: Seq::empty(),
        temp_size: 0,
        constant_size: 0,
        tables: builtin_tables(),
    }
}

/// One round of a run without a host: the machine runs until it has to
/// stop; where it then asks for a line, it is told that none can be read.
pub open spec fn round(state: VmState) -> Stepped {
    let after = machine::ran(state);
    match after.signal {
        SignalView::Request(RequestView::ReadLine) => machine::line_given(after.state, None),
        _ => after,
    }
}

/// Whether a round ended so that the next can start: the program can go on,
/// and the cursor has moved forward inside the code.
pub open spec fn goes_on(state: VmState, after: Stepped) -> bool {
    &&& after.signal is Next || after.signal is Output
    &&& state.ip < after.state.ip <= state.opcodes.len()
    &&& after.state.opcodes == state.opcodes
}

/// A run without a host: what the program writes to the host is dropped,
/// and where it asks for a line, no line can be read. The run ends when the
/// program halts or fails, or asks the host for arithmetic.
pub open spec fn finished(state: VmState) -> Stepped
    decreases state.opcodes.len() - state.ip,
{
    let after = round(state);
    if goes_on(state, after) {
        finished(after.state)
    } else {
        after
    }
}

/// The state in which the machine starts on compiled code.
pub open spec fn initial(code: Compiled, return_output: bool) -> VmState {
    VmState {
        opcodes: code.opcodes,
        ip: 0,
        scope: 0,
        memories: seq![code.memory],
        stack: Seq::empty(),
        stdout: if return_output {
            Some(Seq::empty())
        } else {
            None
        },
    }
}

/// The captured errors of a new run: an empty text where output is
/// captured.
pub open spec fn no_errors(return_output: bool) -> Option<Seq<char>> {
    if return_output {
        Some(Seq::empty())
    } else {
        None
    }
}

/// The status of a program that was compiled and has run to `end`. After a
/// halt the status holds the memory of the running scope and, on request,
/// the tokens. After a fault it holds the message of the fault. Any other
/// end means that the host was needed. What was captured before the end is
/// kept in every case.
pub open spec fn concluded(end: Stepped, stderr: Option<Seq<char>>, tokens: Seq<TokenView>, return_opcode: bool) -> StatusView {
    match end.signal {
        SignalView::Halted => StatusView {
            compiled: true,
            executed: true,
            memory_output: if 0 <= end.state.scope < end.state.memories.len() {
                Some(end.state.memories[end.state.scope])
            } else {
                None
            },
            stdout: end.state.stdout,
            stderr,
            opcodes: if return_opcode {
                Some(tokens)
            } else {
                None
            },
            error: None,
        },
        SignalView::Fault(message) => StatusView {
            compiled: true,
            executed: false,
            memory_output: None,
            stdout: end.state.stdout,
            stderr,
            opcodes: None,
            error: Some((message, 0u32, 0u32)),
        },
        _ => StatusView {
            compiled: true,
            executed: false,
            memory_output: None,
            stdout: end.state.stdout,
            stderr,
            opcodes: None,
            error: Some((message_host(), 0u32, 0u32)),
        },
    }
}

/// What running a source text gives: the text is scanned, the tokens but
/// the comments are parsed, the tree is compiled in a new context, and the
/// code is run without a host. The first failure ends the run and is
/// reported with its place; a failure of the machine has no place.
pub open spec fn executed(data: Seq<char>, return_opcode: bool, return_output: bool) -> StatusView {
    if data.len() > u32::MAX {
        rejected((message_long(), 0u32, 0u32))
    } else {
        let scan = scanned_all(data, 0, Seq::empty());
        match scan.error {
            Some(error) => rejected(error),
            None => {
                let tree = program(significant(scan.tokens, scan.tokens.len()), 0, Seq::empty());
                match tree.result {
                    Err(error) => rejected(error),
                    Ok(node) => {
                        let code = compiled(node, fresh_unit());
                        match code.error {
                            Some(error) => rejected(error),
                            None => concluded(
                                finished(initial(code, return_output)),
                                no_errors(return_output),
                                scan.tokens,
                                return_opcode,
                            ),
                        }
                    },
                }
            },
        }
    }
}

/// A run that moves on leaves the code as it is and ends further on in it.
pub proof fn run_progresses(state: VmState)
    ensures
        machine::ran(state).state.opcodes == state.opcodes,
        machine::ran(state).state.scope == state.scope,
        machine::ran(state).state.memories.len() == state.memories.len(),
        state.ip <= machine::ran(state).state.ip,
        machine::ran(state).signal is Output ==> state.ip < machine::ran(state).state.ip
            <= state.opcodes.len(),
        !(machine::ran(state).signal is Next),
    decreases state.opcodes.len() - state.ip,
{
    let after = machine::stepped(state);
    machine::step_progresses(state);
    if after.signal is Next && state.ip < after.state.ip <= state.opcodes.len()
        && after.state.opcodes == state.opcodes {
        run_progresses(after.state);
    }
}

/// A status that reports a failure before the program was compiled.
pub fn reject(message: String, line: u32, column: u32) -> (status: ExecutionStatus)
    ensures
        status@ == rejected((message@, line, column)),
{
    ExecutionStatus {
        compiled: false,
        executed: false,
        memory_output: None,
        stdout: None,
        stderr: None,
        opcodes: None,
        error: Some((message, line, column)),
    }
}

/// A list of values of its own with the same values.
pub fn copy_objects(objects: &Vec<VmObject>) -> (copy: Vec<VmObject>)
    ensures
        copy@ == objects@,
{
    let mut copy: Vec<VmObject> = Vec::new();
    let mut i: usize = 0;
    while i < objects.len()
        invariant
            i <= objects@.len(),
            copy@ == objects@.take(i as int),
        decreases objects@.len() - i,
    {
        copy.push(objects[i].copy());
        i += 1;
        assert(copy@ =~= objects@.take(i as int));
    }
    assert(objects@.take(objects@.len() as int) =~= objects@);
    copy
}

/// A program that is compiled, with what is needed to run it and to report
/// on the run.
pub struct Execution {
    pub context: KaramelCompilerContext,
    pub tokens: Vec<Token>,
    pub return_opcode: bool,
    pub return_output: bool,
}

/// What getting a source text ready gives: the compiled program or the
/// failure.
pub open spec fn made_ready(data: Seq<char>) -> Result<(Compiled, Seq<TokenView>), (Seq<char>, u32, u32)> {
    if data.len() > u32::MAX {
        Err((message_long(), 0u32, 0u32))
    } else {
        let scan = scanned_all(data, 0, Seq::empty());
        match scan.error {
            Some(error) => Err(error),
            None => {
                let tree = program(significant(scan.tokens, scan.tokens.len()), 0, Seq::empty());
                match tree.result {
                    Err(error) => Err(error),
                    Ok(node) => {
                        let code = compiled(node, fresh_unit());
                        match code.error {
                            Some(error) => Err(error),
                            None => Ok((code, scan.tokens)),
                        }
                    },
                }
            },
        }
    }
}

impl Execution {
    /// The program starts on what compiling gave: the machine is at the start
    /// of the code with an empty stack, the one storage holds what compiling
    /// left in it, the modules are the built-in ones, and nothing is
    /// captured yet.
    pub open spec fn starts(&self, code: Compiled, tokens: Seq<TokenView>, return_opcode: bool, return_output: bool) -> bool {
        &&& self.context.state() == initial(code, return_output)
        &&& self.context.storages@.len() == 1
        &&& crate::compiler::holds(self.context.storages@[0], code)
        &&& self.context.modules.tables() == builtin_tables()
        &&& captured(self.context.stderr) == no_errors(return_output)
        &&& token_views(self.tokens@) == tokens
        &&& self.return_opcode == return_opcode
        &&& self.return_output == return_output
    }

    /// Scans, parses and compiles a source text in a new context.
    pub fn prepare(data: &str, return_opcode: bool, return_output: bool) -> (result: Result<
        Execution,
        (String, u32, u32),
    >)
        ensures
            match result {
                Ok(execution) => made_ready(data@) matches Ok(ready) && execution.starts(
                    ready.0,
                    ready.1,
                    return_opcode,
                    return_output,
                ),
                Err(error) => made_ready(data@) == Err::<
                    (Compiled, Seq<TokenView>),
                    (Seq<char>, u32, u32),
                >((error.0@, error.1, error.2)),
            },
    {
        let mut parser = Parser::new(data);
        match parser.parse() {
            Err(error) => {
                return Err(error);
            },
            _ => (),
        };
        let tokens: Vec<Token> = parser.tokens();

        let mut syntax = SyntaxParser::new(filter_comments(&tokens));
        let ast = match syntax.parse() {
            Ok(ast) => ast,
            Err(error) => {
                return Err((crate::text::copy_text(error.0), error.1, error.2));
            },
        };

        let opcode_compiler = InterpreterCompiler {  };
        let mut context: KaramelCompilerContext = KaramelCompilerContext::new();
        proof {
            assert(context.storages@[0].variable_views() =~= Seq::<(Seq<char>, u8)>::empty());
            assert(context.scopes()[0] == (ScopeView { variables: Seq::empty(), parent: None }));
            assert(unit_of(&context).scopes =~= fresh_unit().scopes);
            assert(unit_of(&context).pool.constants =~= fresh_unit().pool.constants);
            assert(unit_of(&context).pool.variables =~= fresh_unit().pool.variables);
            assert(unit_of(&context).memory =~= fresh_unit().memory);
            assert(unit_of(&context).opcodes =~= fresh_unit().opcodes);
            assert(unit_of(&context) == fresh_unit());
        }
        match opcode_compiler.compile(&ast, &mut context) {
            Ok(_) => {},
            Err(error) => {
                return Err((crate::text::copy_text(error.0), error.1, error.2));
            },
        }
        if return_output {
            context.stdout = Some(String::new());
            context.stderr = Some(String::new());
        }
        proof {
            let code = compiled(ast@, fresh_unit());
            assert(memories_of(context.storages@) =~= seq![code.memory]);
            assert(context.storages@[0].stack_views() =~= Seq::<PrimativeView>::empty());
            if return_output {
                assert(context.stdout->0@ =~= Seq::<char>::empty());
                assert(context.stderr->0@ =~= Seq::<char>::empty());
            }
        }
        Ok(Execution { context, tokens, return_opcode, return_output })
    }

    /// The status of the run that `signal` ended.
    pub fn conclude(self, signal: VmSignal) -> (status: ExecutionStatus)
        ensures
            status@ == concluded(
                Stepped { state: self.context.state(), signal: signal@ },
                captured(self.context.stderr),
                token_views(self.tokens@),
                self.return_opcode,
            ),
    {
        let scope: usize = self.context.storage_index;
        proof {
            assert(memories_of(self.context.storages@).len() == self.context.storages@.len());
            if scope < self.context.storages@.len() {
                assert(memories_of(self.context.storages@)[scope as int]
                    == self.context.storages@[scope as int].memory_views());
            }
        }
        match signal {
            VmSignal::Halted => {
                let memory: Option<Vec<VmObject>> = if scope < self.context.storages.len() {
                    Some(copy_objects(self.context.storages[scope].get_memory()))
                } else {
                    None
                };
                ExecutionStatus {
                    compiled: true,
                    executed: true,
                    memory_output: memory,
                    stdout: self.context.stdout,
                    stderr: self.context.stderr,
                    opcodes: if self.return_opcode {
                        Some(self.tokens)
                    } else {
                        None
                    },
                    error: None,
                }
            },
            VmSignal::Fault(message) => ExecutionStatus {
                compiled: true,
                executed: false,
                memory_output: None,
                stdout: self.context.stdout,
                stderr: self.context.stderr,
                opcodes: None,
                error: Some((message, 0, 0)),
            },
            _ => ExecutionStatus {
                compiled: true,
                executed: false,
                memory_output: None,
                stdout: self.context.stdout,
                stderr: self.context.stderr,
                opcodes: None,
                error: Some((crate::text::copy_text("The host is needed"), 0, 0)),
            },
        }
    }
}

/// Runs a source from scanning to the end of the run, without a host. A
/// source that is a file is not run: the host reads the file and hands the
/// text over as code.
pub fn code_executer(parameters: ExecutionParameters) -> (status: ExecutionStatus)
    ensures
        status@ == match parameters.source {
            ExecutionSource::Code(code) => executed(
                code@,
                parameters.return_opcode,
                parameters.return_output,
            ),
            ExecutionSource::File(_) => rejected((message_file(), 0u32, 0u32)),
        },
{
    match &parameters.source {
        ExecutionSource::Code(code) => execute(
            code.as_str(),
            parameters.return_opcode,
            parameters.return_output,
        ),
        ExecutionSource::File(_) => reject(
            crate::text::copy_text("A file is read by the host"),
            0,
            0,
        ),
    }
}

/// Runs a source text from scanning to the end of the run, without a host.
pub fn execute(data: &str, return_opcode: bool, return_output: bool) -> (status: ExecutionStatus)
    ensures
        status@ == executed(data@, return_opcode, return_output),
{
    let mut execution: Execution = match Execution::prepare(data, return_opcode, return_output) {
        Ok(execution) => execution,
        Err(error) => {
            return reject(error.0, error.1, error.2);
        },
    };
    let ghost start = execution.context.state();
    let ghost tokens = token_views(execution.tokens@);
    let ghost expected = executed(data@, return_opcode, return_output);
    assert(expected == concluded(
        finished(start),
        no_errors(return_output),
        tokens,
        return_opcode,
    ));
    loop
        invariant
            captured(execution.context.stderr) == no_errors(return_output),
            token_views(execution.tokens@) == tokens,
            execution.return_opcode == return_opcode,
            execution.return_output == return_output,
            expected == executed(data@, return_opcode, return_output),
            expected == concluded(
                finished(start),
                no_errors(return_output),
                tokens,
                return_opcode,
            ),
            finished(start) == finished(execution.context.state()),
        decreases execution.context.opcodes@.len() - execution.context.opcode_index,
    {
        let begin: usize = execution.context.opcode_index;
        let signal: VmSignal = execution.round();
        let go: bool = match signal {
            VmSignal::Next => true,
            VmSignal::Output(_) => true,
            _ => false,
        };
        if !go || execution.context.opcode_index <= begin || execution.context.opcode_index
            > execution.context.opcodes.len() {
            return execution.conclude(signal);
        }
    }
}

impl Execution {
    /// Runs one round without a host.
    pub fn round(&mut self) -> (signal: VmSignal)
        ensures
            final(self).context.moved(&old(self).context, signal, round(old(self).context.state())),
            final(self).tokens == old(self).tokens,
            final(self).return_opcode == old(self).return_opcode,
            final(self).return_output == old(self).return_output,
    {
        let signal: VmSignal = run_vm(&mut self.context);
        match signal {
            VmSignal::Request(HostRequest::ReadLine) => self.context.give_line(None),
            _ => signal,
        }
    }
}

} // verus!
