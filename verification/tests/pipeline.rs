use karamel::compiler::value::BramaPrimative;
use karamel::types::BramaOperatorType;
use karamel::types::BramaTokenType;
use karamel::vm::executer::code_executer;
use karamel::vm::executer::execute;
use karamel::vm::executer::reject;
use karamel::vm::executer::Execution;
use karamel::vm::executer::ExecutionParameters;
use karamel::vm::executer::ExecutionSource;
use karamel::vm::executer::ExecutionStatus;
use karamel::vm::interpreter::run_vm;
use karamel::vm::interpreter::HostRequest;
use karamel::vm::interpreter::VmSignal;
use karamel::compiler::value::VmObject;
use karamel::compiler::VmOpCode;

fn run(code: &str) -> ExecutionStatus {
    code_executer(ExecutionParameters {
        source: ExecutionSource::Code(code.to_string()),
        return_opcode: true,
        return_output: true,
    })
}

fn value_at(status: &ExecutionStatus, slot: usize) -> BramaPrimative {
    let memory = status.memory_output.as_ref().expect("memory");
    (*memory[slot].value).clone()
}

fn evaluate(expression: &str) -> BramaPrimative {
    let code = format!("sonuc = {}", expression);
    let mut execution = Execution::prepare(&code, false, true).expect(expression);
    assert_eq!(run_vm(&mut execution.context), VmSignal::Halted, "{}", expression);
    let value = execution.context.storages[0].get_variable_value("sonuc").expect("variable");
    (*value).clone()
}

fn failure(code: &str) -> (String, u32, u32) {
    let status = run(code);
    assert!(!status.executed);
    status.error.expect("error")
}

#[test]
fn multiplication_binds_tighter_than_addition() {
    let status = run("sonuc = 1+2*3");
    assert_eq!(status.error, None);
    assert!(status.compiled);
    assert!(status.executed);
    // constants 1, 2, 3, then the variable
    assert_eq!(value_at(&status, 3), BramaPrimative::Integer(7));
}

#[test]
fn parentheses_override_precedence() {
    let status = run("sonuc = (1+2)*3");
    assert!(status.executed);
    assert_eq!(value_at(&status, 3), BramaPrimative::Integer(9));
}

#[test]
fn subtraction_is_left_associative() {
    let status = run("sonuc = 10-3-2");
    assert!(status.executed);
    assert_eq!(value_at(&status, 3), BramaPrimative::Integer(5));
}

#[test]
fn list_length_is_the_number_of_items() {
    let status = run("boyut = ['erhan', 'barış', 1, doğru].uzunluk()\ngç::satıryaz(boyut)");
    assert_eq!(status.error, None);
    assert!(status.executed);
    assert_eq!(status.stdout, Some("4\r\n".to_string()));
    assert_eq!(status.stderr, Some("".to_string()));
    let status = run("x = ['a','b',1,true].uzunluk()");
    // constants: 'a', 'b', 1, true, "uzunluk", then x
    assert_eq!(value_at(&status, 5), BramaPrimative::Integer(4));
}

#[test]
fn the_literal_five_twice_is_one_constant() {
    let status = run("a = 5\nb = 5\nc = a + 5");
    assert!(status.executed);
    let memory = status.memory_output.as_ref().expect("memory");
    let fives = memory[..1].iter().filter(|object| *object.value == BramaPrimative::Integer(5)).count();
    assert_eq!(fives, 1);
    assert_eq!(memory.len(), 4);
    assert_eq!(value_at(&status, 1), BramaPrimative::Integer(5));
    assert_eq!(value_at(&status, 2), BramaPrimative::Integer(5));
    assert_eq!(value_at(&status, 3), BramaPrimative::Integer(10));
}

#[test]
fn expressions() {
    assert_eq!(evaluate("2 * 3 + 4 * 5"), BramaPrimative::Integer(26));
    assert_eq!(evaluate("2 * (3 + 4) * 5"), BramaPrimative::Integer(70));
    assert_eq!(evaluate("100 / 10 / 5"), BramaPrimative::Integer(2));
    assert_eq!(evaluate("17 % 5"), BramaPrimative::Integer(2));
    assert_eq!(evaluate("17 % 5 * 2"), BramaPrimative::Integer(7));
    assert_eq!(evaluate("-3 + 5"), BramaPrimative::Integer(2));
    assert_eq!(evaluate("1 - -1"), BramaPrimative::Integer(2));
    assert_eq!(evaluate("0x10 + 0b11 + 010"), BramaPrimative::Integer(27));
    assert_eq!(evaluate("'ab' + 'cd'"), BramaPrimative::Text("abcd".to_string()));
    assert_eq!(evaluate("1 < 2"), BramaPrimative::Bool(true));
    assert_eq!(evaluate("1 + 1 == 2"), BramaPrimative::Bool(true));
    assert_eq!(evaluate("1 + 1 != 2"), BramaPrimative::Bool(false));
    assert_eq!(evaluate("2 >= 3"), BramaPrimative::Bool(false));
    assert_eq!(evaluate("!(2 >= 3)"), BramaPrimative::Bool(true));
    assert_eq!(evaluate("'a' == 'a'"), BramaPrimative::Bool(true));
    assert_eq!(evaluate("[1, 2] == [1, 2]"), BramaPrimative::Bool(true));
    assert_eq!(evaluate("[1, 2] == [2, 1]"), BramaPrimative::Bool(false));
    assert_eq!(evaluate("[1, [2]].uzunluk() + 'abc'.uzunluk()"), BramaPrimative::Integer(5));
    assert_eq!(evaluate("gç::biçimlendir(12) + gç::bicimlendir('!')"), BramaPrimative::Text("12!".to_string()));
}

#[test]
fn and_answers_the_truth_of_both_sides() {
    assert_eq!(evaluate("1 && 2"), BramaPrimative::Bool(true));
    assert_eq!(evaluate("1 && 0"), BramaPrimative::Bool(false));
    assert_eq!(evaluate("0 && 1"), BramaPrimative::Bool(false));
    assert_eq!(evaluate("0 && 0"), BramaPrimative::Bool(false));
    assert_eq!(evaluate("1 > 0 && 'a' == 'a' && [1].uzunluk() == 1"), BramaPrimative::Bool(true));
}

#[test]
fn or_answers_the_truth_of_either_side() {
    assert_eq!(evaluate("1 || 2"), BramaPrimative::Bool(true));
    assert_eq!(evaluate("1 || 0"), BramaPrimative::Bool(true));
    assert_eq!(evaluate("0 || 1"), BramaPrimative::Bool(true));
    assert_eq!(evaluate("0 || 0"), BramaPrimative::Bool(false));
    assert_eq!(evaluate("0 || 0 && 1 || 5"), BramaPrimative::Bool(true));
}

#[test]
fn the_right_side_does_not_run_when_the_left_side_settles_the_answer() {
    let status = run("x = 0 && gç::biçimlendir(gç::yaz('sağ'))\ny = 1 || gç::biçimlendir(gç::yaz('sağ'))");
    assert_eq!(status.error, None);
    assert_eq!(status.stdout, Some("".to_string()));
    let status = run("x = 1 && gç::biçimlendir(gç::yaz('sağ'))");
    assert_eq!(status.stdout, Some("sağ".to_string()));
    // a fault on the right side does not happen either
    let status = run("x = 0 && 1 / 0");
    assert_eq!(status.error, None);
    assert!(status.executed);
}

#[test]
fn a_call_left_of_an_operator_runs_once() {
    let status = run("x = gç::biçimlendir(gç::yaz('bir')) + 'a' + 'b' + 'c'");
    assert_eq!(status.error, None);
    assert!(status.executed);
    assert_eq!(status.stdout, Some("bir".to_string()));
    let status = run("x = gç::yaz('bir') == gç::yaz('iki')\ngç::yaz(x)");
    assert_eq!(status.stdout, Some("biriki".to_string() + "doğru"));
}

#[test]
fn assertions_in_a_program() {
    let status = run("hataayıklama::doğrula(yanlış)");
    assert!(status.compiled);
    assert!(!status.executed);
    assert_eq!(status.error, Some(("Assert failed".to_string(), 0, 0)));
    assert_eq!(status.memory_output, None);

    let status = run("hataayıklama::doğrula(1,1)");
    assert!(status.executed);
    assert_eq!(status.error, None);

    let status = run("hataayıklama::doğrula(1,2)");
    assert!(!status.executed);
    let message = status.error.expect("error").0;
    assert_eq!(message, "Assert failed (left: 1, right: 2)");
    assert!(message.contains("left: 1"));
    assert!(message.contains("right: 2"));

    let status = run("hataayıklama::doğrula(10-3-2, 5)\nhataayıklama::doğrula(1+2*3, 7)\nhataayıklama::doğrula((1+2)*3, 9)");
    assert!(status.executed);
    assert_eq!(failure("hataayıklama::doğrula()").0, "Assert failed");
    assert_eq!(failure("hataayıklama::doğrula(1, 1, 1)").0, "Assert failed");
}

#[test]
fn output_before_a_fault_is_kept() {
    let status = run("gç::yaz('önce')\nhataayıklama::doğrula(0)\ngç::yaz('sonra')");
    assert!(status.compiled);
    assert!(!status.executed);
    assert_eq!(status.stdout, Some("önce".to_string()));
    assert_eq!(status.error, Some(("Assert failed".to_string(), 0, 0)));
    assert_eq!(status.opcodes, None);
}

#[test]
fn failures_before_the_run() {
    let status = run("a = 'açık");
    assert!(!status.compiled);
    assert!(!status.executed);
    assert_eq!(status.stdout, None);
    assert_eq!(status.stderr, None);
    assert_eq!(status.memory_output, None);
    assert_eq!(status.error, Some(("Missing string deliminator".to_string(), 0, 4)));
    assert_eq!(failure("a = 1 +"), ("Right side of expression not found".to_string(), 0, 6));
    assert_eq!(failure("a = 1\nb = a + c"), ("Variable not found".to_string(), 1, 8));
    assert_eq!(failure("a = 1\n b = yok::yaz()"), ("Function not found".to_string(), 1, 5));
    assert_eq!(failure("a = #"), ("Char not valid".to_string(), 0, 4));
}

#[test]
fn faults_of_the_machine_have_no_place() {
    assert_eq!(failure("a = 1 / 0"), ("Division by zero".to_string(), 0, 0));
    assert_eq!(failure("a = 1 + 'a'"), ("Invalid operands".to_string(), 0, 0));
    assert_eq!(failure("a = 9223372036854775807 + 1"), ("Integer overflow".to_string(), 0, 0));
    assert_eq!(failure("a = 5.uzunluk()"), ("Method not found".to_string(), 0, 0));
    assert_eq!(failure("a = [1].say()"), ("Method not found".to_string(), 0, 0));
}

#[test]
fn comments_play_no_part() {
    let status = run("// ilk satır\na = 1 /* bir */ + /* iki\n */ 2\ngç::yaz(a) // son");
    assert_eq!(status.error, None);
    assert_eq!(status.stdout, Some("3".to_string()));
}

#[test]
fn the_tokens_are_handed_back_on_request() {
    let status = run("a = 1 // x");
    let kinds: Vec<BramaTokenType> =
        status.opcodes.expect("tokens").into_iter().map(|token| token.token_type).collect();
    assert_eq!(
        kinds,
        vec![
            BramaTokenType::Symbol("a".to_string()),
            BramaTokenType::WhiteSpace(1),
            BramaTokenType::Operator(BramaOperatorType::Assign),
            BramaTokenType::WhiteSpace(1),
            BramaTokenType::Integer(1),
            BramaTokenType::WhiteSpace(1),
            BramaTokenType::Operator(BramaOperatorType::CommentLine),
        ]
    );
    let status = code_executer(ExecutionParameters {
        source: ExecutionSource::Code("a = 1".to_string()),
        return_opcode: false,
        return_output: false,
    });
    assert!(status.executed);
    assert_eq!(status.opcodes, None);
    assert_eq!(status.stdout, None);
    assert_eq!(status.stderr, None);
}

#[test]
fn without_a_host_output_that_is_not_captured_is_dropped() {
    let status = execute("gç::yaz('a')\ngç::satıryaz('b')\nx = 1", false, false);
    assert!(status.executed);
    assert_eq!(status.stdout, None);
    // constants: yaz, 'a', satıryaz, 'b', 1, then x
    assert_eq!(value_at(&status, 5), BramaPrimative::Integer(1));
}

#[test]
fn without_a_host_no_line_can_be_read() {
    let status = execute("x = gç::satıroku()\ngç::yaz(x)", false, true);
    assert!(status.executed);
    assert_eq!(status.stdout, Some("boş".to_string()));
}

#[test]
fn without_a_host_fractions_cannot_be_computed() {
    let status = execute("gç::yaz(1.5)\nx = 1.5 + 1", false, true);
    assert!(status.compiled);
    assert!(!status.executed);
    assert_eq!(status.stdout, Some("1.5".to_string()));
    assert_eq!(status.error, Some(("The host is needed".to_string(), 0, 0)));
}

#[test]
fn a_file_is_not_read_by_the_library() {
    let status = code_executer(ExecutionParameters {
        source: ExecutionSource::File("program.k".to_string()),
        return_opcode: true,
        return_output: true,
    });
    assert!(!status.compiled);
    assert!(!status.executed);
    assert_eq!(status.error, Some(("A file is read by the host".to_string(), 0, 0)));
}

#[test]
fn a_default_status_reports_nothing() {
    let status = ExecutionStatus::default();
    assert!(!status.compiled);
    assert!(!status.executed);
    assert_eq!(status.memory_output, None);
    assert_eq!(status.stdout, None);
    assert_eq!(status.stderr, None);
    assert_eq!(status.opcodes, None);
    assert_eq!(status.error, None);
    let status = reject("x".to_string(), 1, 2);
    assert_eq!(status.error, Some(("x".to_string(), 1, 2)));
    assert!(!status.compiled);
}

#[test]
fn a_host_serves_the_requests_of_a_run() {
    let mut execution =
        Execution::prepare("ad = gç::satıroku()\ngç::satıryaz('selam ', ad)\nx = 1.5 * 2", false, false)
            .expect("program");
    let mut written = String::new();
    let mut signal = run_vm(&mut execution.context);
    loop {
        signal = match signal {
            VmSignal::Next => run_vm(&mut execution.context),
            VmSignal::Output(text) => {
                written.push_str(&text);
                run_vm(&mut execution.context)
            }
            VmSignal::Request(HostRequest::ReadLine) => {
                execution.context.give_line(Some("  dünya\n".to_string()))
            }
            VmSignal::Request(HostRequest::Binary { opcode, left, right }) => {
                assert_eq!(opcode, VmOpCode::Multiply);
                let a: f64 = match &*left.value {
                    BramaPrimative::Double(digits) => digits.parse().expect("number"),
                    _ => panic!("left"),
                };
                let b: f64 = match &*right.value {
                    BramaPrimative::Integer(number) => *number as f64,
                    _ => panic!("right"),
                };
                execution.context.give_value(VmObject::from(BramaPrimative::Double(format!("{}", a * b))))
            }
            other => {
                signal = other;
                break;
            }
        };
    }
    assert_eq!(signal, VmSignal::Halted);
    assert_eq!(written, "selam dünya\r\n");
    let status = execution.conclude(signal);
    assert!(status.executed);
    assert_eq!(status.stdout, None);
    let memory = status.memory_output.expect("memory");
    assert!(memory.iter().any(|object| *object.value == BramaPrimative::Double("3".to_string())));
}

#[test]
fn preparing_reports_the_first_failure() {
    assert_eq!(
        Execution::prepare("a = (1", true, true).err(),
        Some(("Parentheses not closed".to_string(), 0, 5))
    );
    assert_eq!(
        Execution::prepare("a = b", true, true).err(),
        Some(("Variable not found".to_string(), 0, 4))
    );
    let execution = Execution::prepare("a = 1", true, true).expect("program");
    assert_eq!(execution.context.opcodes, vec![1, 0, 0, 2, 0, 1, 0]);
    assert_eq!(execution.context.stdout, Some("".to_string()));
    assert_eq!(execution.tokens.len(), 5);
}
