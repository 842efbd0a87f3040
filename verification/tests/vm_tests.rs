use loxvm::chunk::Chunk;
use loxvm::chunk::OpCode;
use loxvm::compiler::Numbers;
use loxvm::scanner::Scanner;
use loxvm::token_type::TokenType;
use loxvm::value::Function;
use loxvm::value::Value;
use loxvm::vm::InterpretResult;
use loxvm::vm::Signal;
use loxvm::vm::CLOCK;
use loxvm::vm::VM;

fn numbers_of(source: &str) -> Numbers {
    let mut scanner = Scanner::new();
    scanner.load(source.to_string());
    let mut numbers = Numbers::new();
    loop {
        let token = scanner.scan_token();
        if token._type == TokenType::TokenEOF {
            return numbers;
        }
        if token._type == TokenType::TokenNumber {
            let value: f64 = token.lexeme.parse().unwrap();
            numbers.insert(token.lexeme, value.to_bits());
        }
    }
}

struct Outcome {
    result: InterpretResult,
    printed: Vec<String>,
    errors: Vec<String>,
    stack_len: usize,
}

fn drive(vm: &mut VM, printed: &mut Vec<String>) -> InterpretResult {
    loop {
        match vm.run(1000) {
            Signal::Continue => {}
            Signal::Print(text) => printed.push(text),
            Signal::PrintNumber(bits) => printed.push(f64::from_bits(bits).to_string()),
            Signal::Arithmetic(op, left, right) => {
                let left = f64::from_bits(left);
                let right = f64::from_bits(right);
                let result = match op {
                    OpCode::OpAdd => left + right,
                    OpCode::OpSubtract => left - right,
                    OpCode::OpMultiply => left * right,
                    OpCode::OpDivide => left / right,
                    other => panic!("not arithmetic: {:?}", other),
                };
                vm.push(Value::Number(result.to_bits()));
            }
            Signal::Native(handle, arguments) => {
                assert_eq!(handle, CLOCK);
                assert!(arguments.is_empty());
                let now = std::time::SystemTime::now()
                    .duration_since(std::time::SystemTime::UNIX_EPOCH)
                    .unwrap();
                vm.push(Value::Number((now.as_millis() as f64).to_bits()));
            }
            Signal::Done(result) => return result,
        }
    }
}

fn run(source: &str) -> Outcome {
    let mut vm = VM::new();
    let mut printed = Vec::new();
    let loaded = vm.interpret(source.to_string(), numbers_of(source));
    if loaded == InterpretResult::InterpretCompilerError {
        return Outcome {
            result: loaded,
            printed,
            errors: vm.diagnostics().clone(),
            stack_len: vm.stack_len(),
        };
    }
    let result = drive(&mut vm, &mut printed);
    Outcome { result, printed, errors: vm.errors().clone(), stack_len: vm.stack_len() }
}

fn prints(source: &str) -> Vec<String> {
    let outcome = run(source);
    assert_eq!(outcome.errors, Vec::<String>::new());
    assert_eq!(outcome.result, InterpretResult::InterpretOk);
    assert_eq!(outcome.stack_len, 0);
    outcome.printed
}

fn fails(source: &str) -> Vec<String> {
    let outcome = run(source);
    assert_eq!(outcome.result, InterpretResult::InterpretRuntimeError);
    assert_eq!(outcome.stack_len, 0);
    outcome.errors
}

#[test]
fn prints_sum_with_product() {
    assert_eq!(prints("print 1 + 2 * 3;\0"), vec!["7"]);
}

#[test]
fn prints_grouped_sum_times() {
    assert_eq!(prints("print (1 + 2) * 3;\0"), vec!["9"]);
}

#[test]
fn prints_joined_strings() {
    assert_eq!(prints("print \"foo\" + \"bar\";\0"), vec!["foobar"]);
}

#[test]
fn inner_scope_shadows_global() {
    assert_eq!(prints("var a = 1; { var a = 2; print a; } print a;\0"), vec!["2", "1"]);
}

#[test]
fn recursive_function_computes_fibonacci() {
    assert_eq!(
        prints("fun fib(n){ if (n<2) return n; return fib(n-1)+fib(n-2);} print fib(10);\0"),
        vec!["55"]
    );
}

#[test]
fn while_loop_counts() {
    assert_eq!(prints("var i=0; while (i<3){ print i; i = i+1; }\0"), vec!["0", "1", "2"]);
}

#[test]
fn undefined_variable_is_a_runtime_error() {
    let errors = fails("print a;\0");
    assert_eq!(errors, vec!["Undefined variable a.", "[line 1] in script"]);
}

#[test]
fn negating_a_string_is_a_runtime_error() {
    let errors = fails("-\"x\";\0");
    assert_eq!(errors, vec!["Operand must be a number.", "[line 1] in script"]);
}

#[test]
fn wrong_argument_count_is_a_runtime_error() {
    let errors = fails("fun f(){} f(1);\0");
    assert_eq!(errors, vec!["Expected 0 arguments but got 1", "[line 1] in script"]);
}

#[test]
fn clock_is_not_negative() {
    assert_eq!(prints("print clock() >= 0;\0"), vec!["true"]);
}

#[test]
fn compile_error_is_reported_and_nothing_runs() {
    let outcome = run("print ;\0");
    assert_eq!(outcome.result, InterpretResult::InterpretCompilerError);
    assert_eq!(outcome.errors, vec!["[line 1] Error at ';' : Expect expression."]);
    assert!(outcome.printed.is_empty());
}

#[test]
fn for_loop_runs_its_clauses() {
    assert_eq!(
        prints("for (var i = 0; i < 3; i = i + 1) print i * 2;"),
        vec!["0", "2", "4"]
    );
}

#[test]
fn if_else_takes_one_branch() {
    assert_eq!(
        prints("if (1 < 2) print \"yes\"; else print \"no\"; if (nil) print 1; else print 2;"),
        vec!["yes", "2"]
    );
}

#[test]
fn and_or_yield_an_operand() {
    assert_eq!(
        prints("print nil and 1; print 1 and 2; print nil or 3; print 4 or 5; print false or false;"),
        vec!["nil", "2", "3", "4", "false"]
    );
}

#[test]
fn zero_and_empty_string_are_truthy() {
    assert_eq!(
        prints("if (0) print \"zero\"; if (\"\") print \"empty\"; print !0; print !nil; print !false;"),
        vec!["zero", "empty", "false", "true", "true"]
    );
}

#[test]
fn equality_compares_kind_and_content() {
    assert_eq!(
        prints(
            "print 1 == 1; print 1 == 2; print \"a\" == \"a\"; print \"a\" == \"b\"; \
             print nil == nil; print nil == false; print 1 == \"1\"; print 1 != 2; \
             print true == true; print 0/0 == 0/0; print 0 == -0;"
        ),
        vec![
            "true", "false", "true", "false", "true", "false", "false", "true", "true", "false",
            "true"
        ]
    );
}

#[test]
fn functions_compare_by_identity() {
    assert_eq!(
        prints("fun f() {} fun g() {} print f == f; print f == g; print clock == clock; print f == clock;"),
        vec!["true", "false", "true", "false"]
    );
}

#[test]
fn comparisons_order_numbers() {
    assert_eq!(
        prints(
            "print 1 < 2; print 2 < 1; print 2 > 1; print 1 >= 1; print 1 <= 0; \
             print -1 < 0; print -2 < -1; print -1 > -2; print 0 < -0; print 0.5 < 0.25;"
        ),
        vec!["true", "false", "true", "true", "false", "true", "true", "true", "false", "false"]
    );
}

#[test]
fn arithmetic_is_done_in_binary64() {
    assert_eq!(
        prints("print 7 / 2; print 1 - 3; print 2 * 2.5; print -(1 + 1); print 1 / 0;"),
        vec!["3.5", "-2", "5", "-2", "inf"]
    );
}

#[test]
fn values_print_in_their_display_form() {
    assert_eq!(
        prints("fun f() {} print f; print clock; print nil; print true; print \"text\"; print 1.5;"),
        vec!["f", "<native fn>", "nil", "true", "text", "1.5"]
    );
}

#[test]
fn function_returns_nil_without_return() {
    assert_eq!(prints("fun f() { 1; } print f(); fun g() { return; } print g();"), vec!["nil", "nil"]);
}

#[test]
fn function_sees_its_arguments_and_locals() {
    assert_eq!(
        prints(
            "fun add(a, b) { var c = a + b; return c; } \
             { var x = 10; print add(x, 5); print x; }"
        ),
        vec!["15", "10"]
    );
}

#[test]
fn assignment_yields_the_value() {
    assert_eq!(
        prints("var a = 1; var b = a = 2; print a; print b; { var c; c = b = 3; print c; print b; }"),
        vec!["2", "2", "3", "3"]
    );
}

#[test]
fn assigning_an_undefined_global_is_a_runtime_error() {
    assert_eq!(fails("a = 1;"), vec!["Undefined variable a", "[line 1] in script"]);
}

#[test]
fn adding_mixed_operands_is_a_runtime_error() {
    assert_eq!(fails("1 + \"a\";"), vec![
        "Operands must be two numbers or two strings.",
        "[line 1] in script"
    ]);
}

#[test]
fn arithmetic_on_other_than_numbers_is_a_runtime_error() {
    assert_eq!(fails("1 - nil;"), vec!["Operands must be numbers.", "[line 1] in script"]);
    assert_eq!(fails("\"a\" < 1;"), vec!["Operands must be numbers.", "[line 1] in script"]);
}

#[test]
fn calling_other_than_a_function_is_a_runtime_error() {
    assert_eq!(fails("var a = 1;\na();"), vec![
        "Can only call functions and classes.",
        "[line 2] in script"
    ]);
}

#[test]
fn runaway_recursion_overflows_the_frames() {
    let errors = fails("fun f() {\n f();\n}\nf();");
    assert_eq!(errors[0], "Stack overflow.");
    assert_eq!(errors.len(), 65);
    assert_eq!(errors[1], "[line 2] in f");
    assert_eq!(errors[63], "[line 2] in f");
    assert_eq!(errors[64], "[line 4] in script");
}

#[test]
fn exponent_has_no_instruction_in_the_machine() {
    assert_eq!(fails("1 ^ 2;"), vec!["Unknown opcode 19.", "[line 1] in script"]);
}

#[test]
fn globals_outlive_an_interpretation() {
    let mut vm = VM::new();
    let mut printed = Vec::new();
    let first = "var a = 41; fun next(n) { return n + 1; }";
    assert_eq!(vm.interpret(first.to_string(), numbers_of(first)), InterpretResult::InterpretOk);
    assert_eq!(drive(&mut vm, &mut printed), InterpretResult::InterpretOk);
    let second = "print next(a);";
    assert_eq!(vm.interpret(second.to_string(), numbers_of(second)), InterpretResult::InterpretOk);
    assert_eq!(drive(&mut vm, &mut printed), InterpretResult::InterpretOk);
    assert_eq!(printed, vec!["42"]);
    assert_eq!(vm.stack_len(), 0);
    assert_eq!(vm.frame_count(), 0);
}

#[test]
fn machine_without_a_script_has_nothing_to_run() {
    let mut vm = VM::new();
    assert!(matches!(vm.step(), Signal::Done(InterpretResult::InterpretOk)));
    assert!(matches!(vm.run(10), Signal::Done(InterpretResult::InterpretOk)));
}

#[test]
fn run_stops_when_the_limit_is_reached() {
    let mut vm = VM::new();
    let source = "while (true) {}";
    assert_eq!(vm.interpret(source.to_string(), numbers_of(source)), InterpretResult::InterpretOk);
    assert!(matches!(vm.run(1000), Signal::Continue));
    assert!(matches!(vm.run(0), Signal::Continue));
    assert_eq!(vm.frame_count(), 1);
}

#[test]
fn stack_routines_push_pop_and_peek() {
    let mut vm = VM::new();
    vm.push(Value::Number(1));
    vm.push(Value::String("a".to_string()));
    vm.push(Value::String("b".to_string()));
    assert_eq!(vm.peek(0), Value::String("b".to_string()));
    assert_eq!(vm.peek(2), Value::Number(1));
    assert_eq!(vm.peek(3), Value::Nil);
    vm.concatenate();
    assert_eq!(vm.stack_len(), 2);
    assert_eq!(vm.pop(), Value::String("ab".to_string()));
    assert_eq!(vm.pop(), Value::Number(1));
    assert_eq!(vm.stack_len(), 0);
}

#[test]
fn binary_op_compares_at_once_and_hands_arithmetic_over() {
    let mut vm = VM::new();
    vm.push(Value::Number(1f64.to_bits()));
    vm.push(Value::Number(2f64.to_bits()));
    assert!(matches!(vm.binary_op(OpCode::OpLess), Signal::Continue));
    assert_eq!(vm.pop(), Value::Bool(true));
    vm.push(Value::Number(1f64.to_bits()));
    vm.push(Value::Number(2f64.to_bits()));
    match vm.binary_op(OpCode::OpSubtract) {
        Signal::Arithmetic(OpCode::OpSubtract, left, right) => {
            assert_eq!(left, 1f64.to_bits());
            assert_eq!(right, 2f64.to_bits());
        }
        other => panic!("unexpected signal {:?}", other),
    }
    assert_eq!(vm.stack_len(), 0);
    vm.push(Value::Nil);
    vm.push(Value::Number(2f64.to_bits()));
    assert!(matches!(
        vm.binary_op(OpCode::OpGreater),
        Signal::Done(InterpretResult::InterpretRuntimeError)
    ));
    assert_eq!(vm.errors(), &vec!["Operands must be numbers.".to_string()]);
    assert_eq!(vm.stack_len(), 0);
}

#[test]
fn native_call_hands_the_arguments_over() {
    let mut vm = VM::new();
    vm.define_native("twice".to_string(), 7);
    let source = "print twice(21, \"x\");";
    assert_eq!(vm.interpret(source.to_string(), numbers_of(source)), InterpretResult::InterpretOk);
    match vm.run(100) {
        Signal::Native(7, arguments) => {
            assert_eq!(arguments, vec![Value::Number(21f64.to_bits()), Value::String("x".to_string())]);
            assert_eq!(vm.stack_len(), 1);
            vm.push(Value::Number(42f64.to_bits()));
        }
        other => panic!("unexpected signal {:?}", other),
    }
    assert!(matches!(vm.run(100), Signal::PrintNumber(bits) if bits == 42f64.to_bits()));
    assert!(matches!(vm.run(100), Signal::Done(InterpretResult::InterpretOk)));
}

fn run_code(code: Vec<u8>, constants: Vec<Value>) -> (Signal, VM) {
    let lines = vec![3; code.len()];
    let function = Function::new(0, Chunk { code, constants, lines }, None);
    let mut vm = VM::new();
    let handle = vm.define_function(function);
    vm.push(Value::Fun(handle));
    assert!(vm.call(handle, 0));
    let signal = vm.run(100);
    (signal, vm)
}

fn assert_runtime_error(code: Vec<u8>, constants: Vec<Value>, message: &str) {
    let (signal, vm) = run_code(code, constants);
    assert!(matches!(signal, Signal::Done(InterpretResult::InterpretRuntimeError)));
    assert_eq!(vm.errors()[0], message);
    assert_eq!(vm.stack_len(), 0);
    assert_eq!(vm.frame_count(), 0);
}

#[test]
fn unknown_opcode_byte_is_a_runtime_error() {
    let (signal, vm) = run_code(vec![1, 200, 28], vec![]);
    assert!(matches!(signal, Signal::Done(InterpretResult::InterpretRuntimeError)));
    assert_eq!(vm.errors(), &vec!["Unknown opcode 200.".to_string(), "[line 3] in script".to_string()]);
    assert_runtime_error(vec![29], vec![], "Unknown opcode 29.");
    assert_runtime_error(vec![255], vec![], "Unknown opcode 255.");
    assert_runtime_error(vec![7, 0], vec![], "Unknown opcode 7.");
    assert_runtime_error(vec![11, 0], vec![], "Unknown opcode 11.");
    assert_runtime_error(vec![20], vec![], "Unknown opcode 20.");
}

#[test]
fn malformed_bytecode_is_a_runtime_error() {
    // the code ends without a return
    assert_runtime_error(vec![1], vec![], "Malformed bytecode.");
    // the operand is missing
    assert_runtime_error(vec![0], vec![], "Malformed bytecode.");
    assert_runtime_error(vec![24, 0], vec![], "Malformed bytecode.");
    // no such constant
    assert_runtime_error(vec![0, 0, 28], vec![], "Malformed bytecode.");
    // no such slot
    assert_runtime_error(vec![5, 9, 28], vec![], "Malformed bytecode.");
    // a jump out of the code
    assert_runtime_error(vec![24, 1, 0, 28], vec![], "Malformed bytecode.");
    assert_runtime_error(vec![26, 0, 9, 28], vec![], "Malformed bytecode.");
    // nothing to pop
    assert_runtime_error(vec![4, 4, 28], vec![], "Malformed bytecode.");
    // the name of a global is not a string
    assert_runtime_error(vec![8, 0, 28], vec![Value::Nil], "Malformed bytecode.");
}

#[test]
fn instructions_work_on_the_stack_as_specified() {
    // true; false; equal; not -> true; print
    let (signal, mut vm) = run_code(vec![2, 3, 12, 21, 23, 1, 28], vec![]);
    assert!(matches!(signal, Signal::Print(text) if text == "true"));
    assert_eq!(vm.stack_len(), 1);
    assert!(matches!(vm.run(100), Signal::Done(InterpretResult::InterpretOk)));
    assert_eq!(vm.stack_len(), 0);
    // jump over a print
    let (signal, _) = run_code(vec![24, 0, 2, 1, 23, 1, 28], vec![]);
    assert!(matches!(signal, Signal::Done(InterpretResult::InterpretOk)));
    // jump if false does not pop
    let (signal, vm) = run_code(vec![3, 25, 0, 1, 200, 23], vec![]);
    assert!(matches!(signal, Signal::Print(text) if text == "false"));
    assert_eq!(vm.stack_len(), 1);
    // set local 0 overwrites the script's own slot
    let (signal, vm) = run_code(vec![1, 6, 0, 4, 5, 0, 23], vec![]);
    assert!(matches!(signal, Signal::Print(text) if text == "nil"));
    assert_eq!(vm.peek(0), Value::Nil);
    // a script prints as <script>
    let (signal, _) = run_code(vec![5, 0, 23], vec![]);
    assert!(matches!(signal, Signal::Print(text) if text == "<script>"));
    // define, set and get a global
    let name = Value::String("g".to_string());
    let (signal, _) = run_code(vec![2, 9, 0, 3, 10, 0, 4, 8, 0, 23], vec![name]);
    assert!(matches!(signal, Signal::Print(text) if text == "false"));
}

#[test]
fn step_executes_one_instruction() {
    let mut vm = VM::new();
    assert_eq!(vm.interpret("\n\nnil;".to_string(), Numbers::new()), InterpretResult::InterpretOk);
    assert!(matches!(vm.step(), Signal::Continue));
    assert_eq!(vm.stack_len(), 2);
    assert_eq!(vm.peek(0), Value::Nil);
    assert_eq!(vm.peek(1), Value::Fun(0));
    assert!(matches!(vm.step(), Signal::Continue));
    assert_eq!(vm.stack_len(), 1);
    assert!(matches!(vm.step(), Signal::Continue));
    assert!(matches!(vm.step(), Signal::Done(InterpretResult::InterpretOk)));
    assert_eq!(vm.stack_len(), 0);
}

#[test]
fn local_function_is_called_through_its_slot() {
    assert_eq!(
        prints("{ var a = 1; fun twice(n) { return n + n; } var b = twice(a + 1); print b; print a; }"),
        vec!["4", "1"]
    );
}

#[test]
fn nested_calls_and_loops_keep_their_locals() {
    let source = "
        fun sum(n) {
            var total = 0;
            for (var i = 1; i <= n; i = i + 1) {
                var square = i * i;
                total = total + square;
            }
            return total;
        }
        fun apply(f, x) { return f(x) + f(x + 1); }
        var i = 0;
        while (i < 3) {
            if (i == 1) { print apply(sum, i); } else print sum(i);
            i = i + 1;
        }
        print sum(10) > sum(9) and !(sum(2) == 4);
    ";
    assert_eq!(prints(source), vec!["0", "6", "5", "true"]);
}

#[test]
fn deep_recursion_below_the_frame_limit_runs() {
    let source = "fun down(n) { if (n == 0) return 0; return 1 + down(n - 1); } print down(62);";
    assert_eq!(prints(source), vec!["62"]);
    let errors = fails("fun down(n) { if (n == 0) return 0; return 1 + down(n - 1); } print down(63);");
    assert_eq!(errors[0], "Stack overflow.");
}

#[test]
fn runtime_error_in_a_function_lists_the_callers() {
    let source = "fun inner() {\n  return -nil;\n}\nfun outer() {\n  return inner();\n}\nouter();";
    assert_eq!(fails(source), vec![
        "Operand must be a number.",
        "[line 2] in inner",
        "[line 5] in outer",
        "[line 7] in script"
    ]);
}

#[test]
fn strings_are_values_of_their_own() {
    assert_eq!(
        prints("var a = \"x\"; var b = a + \"y\"; a = a + a; print a; print b; print a == \"xx\";"),
        vec!["xx", "xy", "true"]
    );
}
