use loxvm::chunk::OpCode;
use loxvm::compiler::Compiler;
use loxvm::compiler::Numbers;
use loxvm::debug::disassemble_chunk;
use loxvm::debug::Operand;
use loxvm::scanner::Scanner;
use loxvm::token_type::TokenType;
use loxvm::value::Function;
use loxvm::value::Value;

fn numbers_of(source: &str) -> Numbers {
    let mut scanner = Scanner::new();
    scanner.load(source.to_string());
    let mut numbers = Numbers::new();
    loop {
        let token = scanner.scan_token();
        if token._type == TokenType::TokenEOF {
            return numbers;
        }
        if token._type == TokenType::TokenNumber {
            let value: f64 = token.lexeme.parse().unwrap();
            numbers.insert(token.lexeme, value.to_bits());
        }
    }
}

fn compile(source: &str) -> (Option<Function>, Compiler) {
    let mut compiler = Compiler::new();
    let result = compiler.compile(source.to_string(), numbers_of(source));
    (result, compiler)
}

fn code(source: &str) -> Vec<u8> {
    compile(source).0.expect("compiles").chunk.code
}

fn errors(source: &str) -> Vec<String> {
    let (result, compiler) = compile(source);
    assert!(result.is_none());
    compiler.diagnostics
}

const CONSTANT: u8 = 0;
const NIL: u8 = 1;
const TRUE: u8 = 2;
const FALSE: u8 = 3;
const POP: u8 = 4;
const GET_LOCAL: u8 = 5;
const SET_LOCAL: u8 = 6;
const GET_GLOBAL: u8 = 8;
const DEFINE_GLOBAL: u8 = 9;
const SET_GLOBAL: u8 = 10;
const EQUAL: u8 = 12;
const GREATER: u8 = 13;
const LESS: u8 = 14;
const ADD: u8 = 15;
const SUBTRACT: u8 = 16;
const MULTIPLY: u8 = 17;
const DIVIDE: u8 = 18;
const NOT: u8 = 21;
const NEGATE: u8 = 22;
const PRINT: u8 = 23;
const JUMP: u8 = 24;
const JUMP_IF_FALSE: u8 = 25;
const LOOP: u8 = 26;
const CALL: u8 = 27;
const RETURN: u8 = 28;

#[test]
fn opcode_bytes_are_as_named() {
    assert_eq!(OpCode::OpConstant.byte(), CONSTANT);
    assert_eq!(OpCode::OpSetGlobal.byte(), SET_GLOBAL);
    assert_eq!(OpCode::OpReturn.byte(), RETURN);
    assert_eq!(OpCode::from_byte(LOOP), Some(OpCode::OpLoop));
    assert_eq!(OpCode::from_byte(29), None);
    assert_eq!(OpCode::from_byte(255), None);
}

#[test]
fn multiplication_binds_stronger_than_addition() {
    let (function, _) = compile("print 1 + 2 * 3;\0");
    let function = function.unwrap();
    assert_eq!(
        function.chunk.code,
        vec![CONSTANT, 0, CONSTANT, 1, CONSTANT, 2, MULTIPLY, ADD, PRINT, NIL, RETURN]
    );
    assert_eq!(
        function.chunk.constants,
        vec![
            Value::Number(1f64.to_bits()),
            Value::Number(2f64.to_bits()),
            Value::Number(3f64.to_bits())
        ]
    );
    assert_eq!(function.chunk.lines, vec![1; 11]);
    assert_eq!(function.arity, 0);
    assert_eq!(function.name, None);
}

#[test]
fn grouping_overrides_precedence() {
    assert_eq!(
        code("print (1 + 2) * 3;"),
        vec![CONSTANT, 0, CONSTANT, 1, ADD, CONSTANT, 2, MULTIPLY, PRINT, NIL, RETURN]
    );
}

#[test]
fn negated_comparisons_take_two_instructions() {
    assert_eq!(code("1 != 2;"), vec![CONSTANT, 0, CONSTANT, 1, EQUAL, NOT, POP, NIL, RETURN]);
    assert_eq!(code("1 >= 2;"), vec![CONSTANT, 0, CONSTANT, 1, LESS, NOT, POP, NIL, RETURN]);
    assert_eq!(code("1 <= 2;"), vec![CONSTANT, 0, CONSTANT, 1, GREATER, NOT, POP, NIL, RETURN]);
    assert_eq!(code("1 == 2;"), vec![CONSTANT, 0, CONSTANT, 1, EQUAL, POP, NIL, RETURN]);
    assert_eq!(code("1 > 2;"), vec![CONSTANT, 0, CONSTANT, 1, GREATER, POP, NIL, RETURN]);
    assert_eq!(code("1 - 2 / 3;"), vec![
        CONSTANT, 0, CONSTANT, 1, CONSTANT, 2, DIVIDE, SUBTRACT, POP, NIL, RETURN
    ]);
}

#[test]
fn unary_operators_and_literals() {
    assert_eq!(code("!true;"), vec![TRUE, NOT, POP, NIL, RETURN]);
    assert_eq!(code("-1;"), vec![CONSTANT, 0, NEGATE, POP, NIL, RETURN]);
    assert_eq!(code("false; nil;"), vec![FALSE, POP, NIL, POP, NIL, RETURN]);
}

#[test]
fn string_literal_loses_its_quotes() {
    let (function, _) = compile("print \"foo\";");
    let function = function.unwrap();
    assert_eq!(function.chunk.constants, vec![Value::String("foo".to_string())]);
}

#[test]
fn globals_are_named_by_constants() {
    let (function, _) = compile("var a = 1; a = 2; print a;");
    let function = function.unwrap();
    assert_eq!(
        function.chunk.code,
        vec![
            CONSTANT, 1, DEFINE_GLOBAL, 0, CONSTANT, 3, SET_GLOBAL, 2, POP, GET_GLOBAL, 4, PRINT,
            NIL, RETURN
        ]
    );
    assert_eq!(function.chunk.constants[0], Value::String("a".to_string()));
    assert_eq!(function.chunk.constants[2], Value::String("a".to_string()));
}

#[test]
fn variable_without_initializer_is_nil() {
    assert_eq!(code("var a;"), vec![NIL, DEFINE_GLOBAL, 0, NIL, RETURN]);
}

#[test]
fn locals_live_in_stack_slots_and_are_popped_at_scope_end() {
    assert_eq!(
        code("{ var a = 1; var b = 2; print a + b; a = b; }"),
        vec![
            CONSTANT, 0, CONSTANT, 1, GET_LOCAL, 1, GET_LOCAL, 2, ADD, PRINT, GET_LOCAL, 2,
            SET_LOCAL, 1, POP, POP, POP, NIL, RETURN
        ]
    );
}

#[test]
fn inner_local_shadows_outer() {
    assert_eq!(
        code("{ var a = 1; { var a = 2; print a; } print a; }"),
        vec![
            CONSTANT, 0, CONSTANT, 1, GET_LOCAL, 2, PRINT, POP, GET_LOCAL, 1, PRINT, POP, NIL,
            RETURN
        ]
    );
}

#[test]
fn if_else_jumps_are_patched() {
    // 0: TRUE; 1: JIF -> 7+... ; 4: POP; 5: c0 print; 8: JUMP; 11: POP; 12: c1 print
    assert_eq!(
        code("if (true) print 1; else print 2;"),
        vec![
            TRUE, JUMP_IF_FALSE, 0, 7, POP, CONSTANT, 0, PRINT, JUMP, 0, 4, POP, CONSTANT, 1,
            PRINT, NIL, RETURN
        ]
    );
    assert_eq!(
        code("if (true) print 1;"),
        vec![TRUE, JUMP_IF_FALSE, 0, 7, POP, CONSTANT, 0, PRINT, JUMP, 0, 1, POP, NIL, RETURN]
    );
}

#[test]
fn while_loops_back_to_its_condition() {
    assert_eq!(
        code("while (false) print 1;"),
        vec![
            FALSE, JUMP_IF_FALSE, 0, 7, POP, CONSTANT, 0, PRINT, LOOP, 0, 11, POP, NIL, RETURN
        ]
    );
}

#[test]
fn for_with_all_clauses() {
    // for (var i = 0; i < 1; i = i + 1) print i;
    assert_eq!(
        code("for (var i = 0; i < 1; i = i + 1) print i;"),
        vec![
            CONSTANT, 0, // i = 0 in slot 1
            GET_LOCAL, 1, CONSTANT, 1, LESS, // 2: condition
            JUMP_IF_FALSE, 0, 21, POP, // 7: exit -> 31
            JUMP, 0, 11, // 11: over the increment -> 25
            GET_LOCAL, 1, CONSTANT, 2, ADD, SET_LOCAL, 1, POP, // 14: increment
            LOOP, 0, 23, // 22: back to 2
            GET_LOCAL, 1, PRINT, // 25: body
            LOOP, 0, 17, // 28: back to 14
            POP, // 31
            POP, // end of scope: i
            NIL, RETURN
        ]
    );
}

#[test]
fn for_without_clauses() {
    assert_eq!(code("for (;;) print 1;"), vec![CONSTANT, 0, PRINT, LOOP, 0, 6, NIL, RETURN]);
}

#[test]
fn and_or_short_circuit() {
    assert_eq!(
        code("true and false;"),
        vec![TRUE, JUMP_IF_FALSE, 0, 2, POP, FALSE, POP, NIL, RETURN]
    );
    assert_eq!(
        code("true or false;"),
        vec![TRUE, JUMP_IF_FALSE, 0, 3, JUMP, 0, 2, POP, FALSE, POP, NIL, RETURN]
    );
}

#[test]
fn function_declaration_compiles_to_a_function_constant() {
    let (function, compiler) = compile("fun add(a, b) { return a + b; } print add(1, 2);");
    let function = function.unwrap();
    assert_eq!(
        function.chunk.code,
        vec![
            CONSTANT, 1, DEFINE_GLOBAL, 0, GET_GLOBAL, 2, CONSTANT, 3, CONSTANT, 4, CALL, 2, PRINT,
            NIL, RETURN
        ]
    );
    assert_eq!(function.chunk.constants[1], Value::Fun(0));
    assert_eq!(compiler.functions.len(), 1);
    let add = &compiler.functions[0];
    assert_eq!(add.arity, 2);
    assert_eq!(add.name, Some("add".to_string()));
    assert_eq!(add.chunk.code, vec![GET_LOCAL, 0, GET_LOCAL, 1, ADD, RETURN, NIL, RETURN]);
}

#[test]
fn lines_follow_the_source() {
    let (function, _) = compile("print 1;\nprint 2;\n");
    assert_eq!(function.unwrap().chunk.lines, vec![1, 1, 1, 2, 2, 2, 3, 3]);
    let (function, _) = compile("print\n1\n;");
    assert_eq!(function.unwrap().chunk.lines, vec![2, 2, 3, 3, 3]);
}

#[test]
fn reports_missing_expression() {
    assert_eq!(errors("print ;"), vec!["[line 1] Error at ';' : Expect expression."]);
}

#[test]
fn reports_error_at_end() {
    assert_eq!(errors("print 1"), vec!["[line 1] Error at end : Expect ';' after value."]);
}

#[test]
fn reports_scanner_errors_without_location() {
    assert_eq!(errors("print @;"), vec!["[line 1] Error: Unexpected Character."]);
}

#[test]
fn reports_invalid_assignment_target() {
    assert_eq!(errors("var a; var b; a + b = 1;"), vec![
        "[line 1] Error at '=' : Invalid assignment target."
    ]);
}

#[test]
fn reports_return_at_top_level() {
    assert_eq!(errors("return 1;"), vec![
        "[line 1] Error at 'return' : Can't return from top-level code."
    ]);
}

#[test]
fn reports_redeclaration_in_one_scope() {
    assert_eq!(errors("{ var a; var a; }"), vec![
        "[line 1] Error at 'a' : Already variable with name in this scope."
    ]);
}

#[test]
fn reports_local_read_in_its_own_initializer() {
    assert_eq!(errors("{ var a = a; }"), vec![
        "[line 1] Error at 'a' : Can't read local variable in its own initializer."
    ]);
}

#[test]
fn recovers_at_the_next_statement() {
    assert_eq!(errors("print ;\nprint ;\nvar 1;"), vec![
        "[line 1] Error at ';' : Expect expression.",
        "[line 2] Error at ';' : Expect expression.",
        "[line 3] Error at '1' : Expect variable name."
    ]);
}

#[test]
fn reports_number_without_value() {
    let mut compiler = Compiler::new();
    let result = compiler.compile("print 1;".to_string(), Numbers::new());
    assert!(result.is_none());
    assert_eq!(compiler.diagnostics, vec!["[line 1] Error at '1' : Expect value of number."]);
}

#[test]
fn reports_too_many_constants() {
    let mut source = String::new();
    for i in 0..257 {
        source.push_str(&format!("{};", i));
    }
    let found = errors(&source);
    assert_eq!(found, vec!["[line 1] Error at '256' : Too many constants in one chunk."]);
}

#[test]
fn accepts_256_constants() {
    let mut source = String::new();
    for i in 0..256 {
        source.push_str(&format!("{};", i));
    }
    let (function, _) = compile(&source);
    assert_eq!(function.unwrap().chunk.constants.len(), 256);
}

#[test]
fn reports_too_many_arguments() {
    let mut source = String::from("f(");
    for i in 0..256 {
        if i > 0 {
            source.push(',');
        }
        source.push_str("nil");
    }
    source.push_str(");");
    let found = errors(&source);
    assert_eq!(found, vec!["[line 1] Error at 'nil' : Can't have more than 255 arguments."]);
}

#[test]
fn reports_too_many_parameters() {
    let mut source = String::from("fun f(");
    for i in 0..256 {
        if i > 0 {
            source.push(',');
        }
        source.push_str(&format!("p{}", i));
    }
    source.push_str(") {}");
    let found = errors(&source);
    assert_eq!(found, vec!["[line 1] Error at 'p255' : Can't have more than 255 paramenters."]);
}

#[test]
fn reports_jump_over_too_much_code() {
    let mut source = String::from("if (true) {");
    for _ in 0..22000 {
        source.push_str("nil;nil;");
    }
    source.push_str("}");
    let found = errors(&source);
    assert_eq!(found, vec!["[line 1] Error at '}' : Too much code to jump over."]);
}

#[test]
fn reports_loop_body_too_large() {
    let mut source = String::from("while (true) {");
    for _ in 0..22000 {
        source.push_str("nil;nil;");
    }
    source.push_str("}");
    let found = errors(&source);
    assert_eq!(found, vec!["[line 1] Error at '}' : Loop body too large."]);
}

#[test]
fn empty_script_returns_nil() {
    assert_eq!(code(""), vec![NIL, RETURN]);
    assert_eq!(code("\0"), vec![NIL, RETURN]);
}

#[test]
fn exponent_operator_has_its_instruction() {
    assert_eq!(code("1 ^ 2;"), vec![CONSTANT, 0, CONSTANT, 1, 19, POP, NIL, RETURN]);
}

#[test]
fn compiled_functions_keep_their_handles_across_compilations() {
    let mut compiler = Compiler::new();
    let first = compiler.compile("fun a() {}".to_string(), Numbers::new()).unwrap();
    let second = compiler.compile("fun b() {}".to_string(), Numbers::new()).unwrap();
    assert_eq!(first.chunk.constants[1], Value::Fun(0));
    assert_eq!(second.chunk.constants[1], Value::Fun(1));
    assert_eq!(compiler.functions[1].name, Some("b".to_string()));
}

fn first_error(source: &str) -> String {
    errors(source).remove(0)
}

#[test]
fn each_syntax_error_has_its_message() {
    assert_eq!(first_error("(1;"), "[line 1] Error at ';' : Expect ')' after expression.");
    assert_eq!(first_error("f(1;"), "[line 1] Error at ';' : Expect ')' after arguments.");
    assert_eq!(first_error("fun f() { return 1 }"), "[line 1] Error at '}' : Expect ';' after return value.");
    assert_eq!(first_error("var a = 1"), "[line 1] Error at end : Expect ';' after variable declaration.");
    assert_eq!(first_error("if true) nil;"), "[line 1] Error at 'true' : Expect '(' after 'if'.");
    assert_eq!(first_error("if (true nil;"), "[line 1] Error at 'nil' : Expect ')' after condition");
    assert_eq!(first_error("while true) nil;"), "[line 1] Error at 'true' : Expect '(' after 'while'.");
    assert_eq!(first_error("while (true nil;"), "[line 1] Error at 'nil' : Expect ')' after condition");
    assert_eq!(first_error("for ;;) nil;"), "[line 1] Error at ';' : Expect '(' after 'for'.");
    assert_eq!(first_error("for (;true) nil;"), "[line 1] Error at ')' : Expect ';' after loop condition.");
    assert_eq!(first_error("for (;;nil; nil;"), "[line 1] Error at ';' : Expect ')' after for clauses.");
    assert_eq!(first_error("{ nil;"), "[line 1] Error at end : Expect '}' after block.");
    assert_eq!(first_error("fun (a) {}"), "[line 1] Error at '(' : Expect function name.");
    assert_eq!(first_error("fun f a) {}"), "[line 1] Error at 'a' : Expect '(' after function name.");
    assert_eq!(first_error("fun f(1) {}"), "[line 1] Error at '1' : Expect parameter name.");
    assert_eq!(first_error("fun f(a {}"), "[line 1] Error at '{' : Expect ')' after parameters.");
    assert_eq!(first_error("fun f(a) nil;"), "[line 1] Error at 'nil' : Expect '{' after function body.");
    assert_eq!(first_error("print \"abc;"), "[line 1] Error: Unterminated String.");
    assert_eq!(first_error("print a\n\n+;"), "[line 3] Error at ';' : Expect expression.");
}

#[test]
fn reports_too_many_locals() {
    let mut source = String::from("{");
    for i in 0..256 {
        source.push_str(&format!("var v{};", i));
    }
    source.push_str("}");
    let (function, _) = compile(&source);
    assert_eq!(function.unwrap().chunk.code.len(), 256 + 256 + 2);
    let mut source = String::from("{");
    for i in 0..257 {
        source.push_str(&format!("var v{};", i));
    }
    source.push_str("}");
    assert_eq!(errors(&source), vec![
        "[line 1] Error at 'v256' : Too many local variables in function"
    ]);
}

#[test]
fn compiled_chunks_are_well_formed() {
    let source = "
        var total = 0;
        fun add(a, b) { var c = a + b; if (c > 10 or c < 0) return c; else return -c; }
        for (var i = 0; i < 3; i = i + 1) { total = total + add(i, \"x\" == \"y\"); }
        while (total < 5 and true) total = total + 1;
        print total;
    ";
    let (script, compiler) = compile(source);
    let mut functions = compiler.functions;
    functions.push(script.unwrap());
    assert_eq!(functions.len(), 2);
    for function in &functions {
        let chunk = &function.chunk;
        assert_eq!(chunk.code.len(), chunk.lines.len());
        assert!(chunk.constants.len() <= 256);
        let instructions = disassemble_chunk(chunk);
        let mut starts = vec![false; chunk.code.len() + 1];
        let mut end = 0;
        for instruction in &instructions {
            assert_eq!(instruction.offset, end);
            assert!(instruction.op.is_some());
            starts[instruction.offset] = true;
            end = instruction.next;
        }
        assert_eq!(end, chunk.code.len());
        starts[end] = true;
        for instruction in &instructions {
            match instruction.operand {
                Operand::Constant(index) => assert!((index as usize) < chunk.constants.len()),
                Operand::Jump(_, target) => assert!(starts[target.unwrap()]),
                _ => {}
            }
        }
        let len = chunk.code.len();
        assert_eq!(&chunk.code[len - 2..], &[NIL, RETURN]);
    }
}

#[test]
fn scope_end_pops_exactly_its_locals() {
    let outer = code("{ var a; { var b; var c; } var d; }");
    assert_eq!(outer, vec![NIL, NIL, NIL, POP, POP, NIL, POP, POP, NIL, RETURN]);
}

#[test]
fn parameters_are_locals_of_the_function() {
    let (_, compiler) = compile("fun f(a, b) { var c = b; { var d = a; print c + d; } }");
    let f = &compiler.functions[0];
    assert_eq!(f.arity, 2);
    assert_eq!(
        f.chunk.code,
        vec![GET_LOCAL, 1, GET_LOCAL, 0, GET_LOCAL, 2, GET_LOCAL, 3, ADD, PRINT, POP, NIL, RETURN]
    );
}
