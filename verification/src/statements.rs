//! Statements and declarations, and the compilation of a whole script.
//!
//! As in [`crate::expressions`], the first half of this file says what each
//! routine makes of a state and the second half holds the routines.

use vstd::prelude::*;
use vstd::string::*;
use crate::chunk::is_jump_site;
use crate::chunk::is_prefix;
use crate::chunk::lemma_prefix_push;
use crate::chunk::OpCode;
use crate::chunk::width_of;
use crate::compiler::Compiler;
use crate::compiler::CompilerView;
use crate::compiler::ContextView;
use crate::compiler::CurrCompiler;
use crate::compiler::FunctionType;
use crate::compiler::Local;
use crate::compiler::LocalView;
use crate::compiler::Numbers;
use crate::compiler::Parser;
use crate::compiler::ParserView;
use crate::compiler::undefined_token;
use crate::model::lemma_well_formed_consistent;
use crate::scanner::Scanner;
use crate::scanner::ScannerView;
use crate::scanner::Token;
use crate::token_type::TokenType;
use crate::value::Function;
use crate::value::FunctionView;
use crate::value::Value;
use crate::value::ValueView;

verus! {

broadcast use crate::chunk::group_code_prefix;

/// The outcome of the condition clause of a `for`: the state after it and,
/// if there is a condition, where the jump out of the loop stands.
pub ghost struct ForCondition {
    pub state: CompilerView,
    pub exit: Option<int>,
}

/// The outcome of the increment clause of a `for`: the state after it and
/// where the body jumps back to.
pub ghost struct ForIncrement {
    pub state: CompilerView,
    pub loop_start: int,
}

impl CompilerView {
    /// `print`, after the keyword: the value, then the instruction that
    /// prints it.
    #[verifier::opaque]
    pub open spec fn print_statement(self, fuel: nat) -> CompilerView
        decreases fuel,
    {
        if fuel == 0 {
            self
        } else {
            self.expression((fuel - 1) as nat).consume(
                TokenType::TokenSemicolon,
                "Expect ';' after value."@,
            ).emit_byte(OpCode::OpPrint.spec_byte())
        }
    }

    /// An expression as a statement: its value is dropped.
    #[verifier::opaque]
    pub open spec fn expression_statement(self, fuel: nat) -> CompilerView
        decreases fuel,
    {
        if fuel == 0 {
            self
        } else {
            self.expression((fuel - 1) as nat).consume(
                TokenType::TokenSemicolon,
                "Expect ';' after value."@,
            ).emit_byte(OpCode::OpPop.spec_byte())
        }
    }

    /// `return`, after the keyword: the value, or `nil` where none is given,
    /// then the return. At the top level of a script it is an error.
    #[verifier::opaque]
    pub open spec fn return_statement(self, fuel: nat) -> CompilerView
        decreases fuel,
    {
        if fuel == 0 {
            self
        } else {
            let checked = if self.context.fun_type == FunctionType::TypeScript {
                self.error("Can't return from top-level code."@)
            } else {
                self
            };
            if checked.check(TokenType::TokenSemicolon) {
                checked.advance().emit_return()
            } else {
                checked.expression((fuel - 1) as nat).consume(
                    TokenType::TokenSemicolon,
                    "Expect ';' after return value."@,
                ).emit_byte(OpCode::OpReturn.spec_byte())
            }
        }
    }

    /// `var`, after the keyword: the name, the initializer or `nil` where
    /// none is given, then the definition of the variable.
    #[verifier::opaque]
    pub open spec fn var_declaration(self, fuel: nat) -> CompilerView
        decreases fuel,
    {
        if fuel == 0 {
            self
        } else {
            let named = self.parse_variable("Expect variable name."@);
            let initialized = if named.check(TokenType::TokenEqual) {
                named.advance().expression((fuel - 1) as nat)
            } else {
                named.emit_byte(OpCode::OpNil.spec_byte())
            };
            initialized.consume(
                TokenType::TokenSemicolon,
                "Expect ';' after variable declaration."@,
            ).define_variable(self.variable_index("Expect variable name."@))
        }
    }

    /// `if`, after the keyword. The condition stays on the stack for the jump
    /// that tests it, and is dropped at the start of either branch.
    #[verifier::opaque]
    pub open spec fn if_statement(self, fuel: nat) -> CompilerView
        decreases fuel,
    {
        if fuel == 0 {
            self
        } else {
            let condition = self.consume(
                TokenType::TokenLeftParen,
                "Expect '(' after 'if'."@,
            ).expression((fuel - 1) as nat).consume(
                TokenType::TokenRightParen,
                "Expect ')' after condition"@,
            );
            let then_branch = condition.emit_jump(OpCode::OpJumpIfFalse.spec_byte()).emit_byte(
                OpCode::OpPop.spec_byte(),
            ).statement((fuel - 1) as nat);
            let joined = then_branch.emit_jump(OpCode::OpJump.spec_byte()).patch_jump(
                condition.jump_site(),
            ).emit_byte(OpCode::OpPop.spec_byte());
            let else_branch = if joined.check(TokenType::TokenElse) {
                joined.advance().statement((fuel - 1) as nat)
            } else {
                joined
            };
            else_branch.patch_jump(then_branch.jump_site())
        }
    }

    /// `while`, after the keyword: the condition, a jump out of the loop if
    /// it is false, the body, and a jump back to the condition.
    #[verifier::opaque]
    pub open spec fn while_statement(self, fuel: nat) -> CompilerView
        decreases fuel,
    {
        if fuel == 0 {
            self
        } else {
            let condition = self.consume(
                TokenType::TokenLeftParen,
                "Expect '(' after 'while'."@,
            ).expression((fuel - 1) as nat).consume(
                TokenType::TokenRightParen,
                "Expect ')' after condition"@,
            );
            condition.emit_jump(OpCode::OpJumpIfFalse.spec_byte()).emit_byte(
                OpCode::OpPop.spec_byte(),
            ).statement((fuel - 1) as nat).emit_loop(self.code().len() as int).patch_jump(
                condition.jump_site(),
            ).emit_byte(OpCode::OpPop.spec_byte())
        }
    }

    /// The initializer clause of a `for`, after the `(`: nothing, a variable
    /// declaration or an expression.
    #[verifier::opaque]
    pub open spec fn for_initializer(self, fuel: nat) -> CompilerView
        decreases fuel,
    {
        if fuel == 0 {
            self
        } else if self.check(TokenType::TokenSemicolon) {
            self.advance()
        } else if self.check(TokenType::TokenVar) {
            self.advance().var_declaration((fuel - 1) as nat)
        } else {
            self.expression_statement((fuel - 1) as nat)
        }
    }

    /// The condition clause of a `for`: nothing, or an expression, a jump out
    /// of the loop if it is false, and the drop of its value.
    #[verifier::opaque]
    pub open spec fn for_condition(self, fuel: nat) -> ForCondition
        decreases fuel,
    {
        if fuel == 0 {
            ForCondition { state: self, exit: None }
        } else if self.check(TokenType::TokenSemicolon) {
            ForCondition { state: self.advance(), exit: None }
        } else {
            let condition = self.expression((fuel - 1) as nat).consume(
                TokenType::TokenSemicolon,
                "Expect ';' after loop condition."@,
            );
            ForCondition {
                state: condition.emit_jump(OpCode::OpJumpIfFalse.spec_byte()).emit_byte(
                    OpCode::OpPop.spec_byte(),
                ),
                exit: Some(condition.jump_site()),
            }
        }
    }

    /// The increment clause of a `for`, where the loop starts at
    /// `loop_start`: nothing, or a jump over the increment to the body, the
    /// increment, and a jump back to the start of the loop. The body then
    /// jumps back to the increment.
    #[verifier::opaque]
    pub open spec fn for_increment(self, loop_start: int, fuel: nat) -> ForIncrement
        decreases fuel,
    {
        if fuel == 0 {
            ForIncrement { state: self, loop_start }
        } else if self.check(TokenType::TokenRightParen) {
            ForIncrement { state: self.advance(), loop_start }
        } else {
            let jumped = self.emit_jump(OpCode::OpJump.spec_byte());
            ForIncrement {
                state: jumped.expression((fuel - 1) as nat).emit_byte(
                    OpCode::OpPop.spec_byte(),
                ).consume(TokenType::TokenRightParen, "Expect ')' after for clauses."@).emit_loop(
                    loop_start,
                ).patch_jump(self.jump_site()),
                loop_start: jumped.code().len() as int,
            }
        }
    }

    /// `for`, after the keyword. The whole statement is a scope of its own.
    #[verifier::opaque]
    pub open spec fn for_statement(self, fuel: nat) -> CompilerView
        decreases fuel,
    {
        if fuel == 0 {
            self
        } else {
            let initialized = self.begin_scope().consume(
                TokenType::TokenLeftParen,
                "Expect '(' after 'for'."@,
            ).for_initializer((fuel - 1) as nat);
            let condition = initialized.for_condition((fuel - 1) as nat);
            let increment = condition.state.for_increment(
                initialized.code().len() as int,
                (fuel - 1) as nat,
            );
            let body = increment.state.statement((fuel - 1) as nat).emit_loop(
                increment.loop_start,
            );
            (match condition.exit {
                Some(site) => body.patch_jump(site).emit_byte(OpCode::OpPop.spec_byte()),
                None => body,
            }).end_scope()
        }
    }

    /// The declarations of a block, up to its `}` or the end of the input.
    #[verifier::opaque]
    pub open spec fn block_items(self, fuel: nat) -> CompilerView
        decreases fuel,
    {
        if fuel == 0 {
            self
        } else if !self.check(TokenType::TokenRightBrace) && !self.check(TokenType::TokenEOF) {
            self.declaration((fuel - 1) as nat).block_items((fuel - 1) as nat)
        } else {
            self
        }
    }

    /// A block, after its `{`.
    #[verifier::opaque]
    pub open spec fn block(self, fuel: nat) -> CompilerView
        decreases fuel,
    {
        if fuel == 0 {
            self
        } else {
            self.block_items((fuel - 1) as nat).consume(
                TokenType::TokenRightBrace,
                "Expect '}' after block."@,
            )
        }
    }

    /// A statement, chosen by its first token. A block is a scope.
    #[verifier::opaque]
    pub open spec fn statement(self, fuel: nat) -> CompilerView
        decreases fuel,
    {
        if fuel == 0 {
            self
        } else if self.check(TokenType::TokenPrint) {
            self.advance().print_statement((fuel - 1) as nat)
        } else if self.check(TokenType::TokenFor) {
            self.advance().for_statement((fuel - 1) as nat)
        } else if self.check(TokenType::TokenIf) {
            self.advance().if_statement((fuel - 1) as nat)
        } else if self.check(TokenType::TokenReturn) {
            self.advance().return_statement((fuel - 1) as nat)
        } else if self.check(TokenType::TokenWhile) {
            self.advance().while_statement((fuel - 1) as nat)
        } else if self.check(TokenType::TokenLeftBrace) {
            self.advance().begin_scope().block((fuel - 1) as nat).end_scope()
        } else {
            self.expression_statement((fuel - 1) as nat)
        }
    }

    /// A declaration: of a function, of a variable, or a statement. After an
    /// error the parser skips to where a statement may start.
    #[verifier::opaque]
    pub open spec fn declaration(self, fuel: nat) -> CompilerView
        decreases fuel,
    {
        if fuel == 0 {
            self
        } else {
            let declared = if self.check(TokenType::TokenFun) {
                self.advance().fun_declaration((fuel - 1) as nat)
            } else if self.check(TokenType::TokenVar) {
                self.advance().var_declaration((fuel - 1) as nat)
            } else {
                self.statement((fuel - 1) as nat)
            };
            if declared.parser.panic_mode {
                declared.synchronize()
            } else {
                declared
            }
        }
    }

    /// `fun`, after the keyword: the name, which is usable at once so that
    /// the function can call itself, then the function, then the definition
    /// of the variable that holds it.
    #[verifier::opaque]
    pub open spec fn fun_declaration(self, fuel: nat) -> CompilerView
        decreases fuel,
    {
        if fuel == 0 {
            self
        } else {
            self.parse_variable("Expect function name."@).mark_initialized().function(
                FunctionType::TypeFunction,
                (fuel - 1) as nat,
            ).define_variable(self.variable_index("Expect function name."@))
        }
    }

    /// Counts one more parameter, up to 256. More than 255 are an error.
    #[verifier::opaque]
    pub open spec fn count_parameter(self) -> CompilerView {
        let arity = self.context.function.arity;
        let counted = CompilerView {
            context: ContextView {
                function: FunctionView {
                    arity: if arity <= 255 {
                        (arity + 1) as usize
                    } else {
                        arity
                    },
                    ..self.context.function
                },
                ..self.context
            },
            ..self
        };
        if counted.context.function.arity > 255 {
            counted.error_at_current("Can't have more than 255 paramenters."@)
        } else {
            counted
        }
    }

    /// The parameters of a function, up to the `)`: each becomes a local of
    /// the function.
    #[verifier::opaque]
    pub open spec fn parameters(self, fuel: nat) -> CompilerView
        decreases fuel,
    {
        if fuel == 0 {
            self
        } else {
            let counted = self.count_parameter();
            let defined = counted.parse_variable("Expect parameter name."@).define_variable(
                counted.variable_index("Expect parameter name."@),
            );
            if defined.check(TokenType::TokenComma) {
                defined.advance().parameters((fuel - 1) as nat)
            } else {
                defined
            }
        }
    }

    /// The state in which the compilation of a function starts whose name
    /// has just been consumed: a context of its own, in which nothing is
    /// compiled yet.
    #[verifier::opaque]
    pub open spec fn enter_function(self, fun_type: FunctionType) -> CompilerView {
        let fresh = ContextView::fresh(fun_type);
        CompilerView {
            context: ContextView {
                function: FunctionView {
                    name: if fun_type != FunctionType::TypeScript {
                        Some(self.parser.previous.lexeme)
                    } else {
                        None
                    },
                    ..fresh.function
                },
                ..fresh
            },
            ..self
        }
    }

    /// The state in which the compilation goes on after a function: the
    /// function joins the finished functions, and the context is the one
    /// that the function was met in.
    #[verifier::opaque]
    pub open spec fn leave_function(self, enclosing: ContextView) -> CompilerView {
        CompilerView {
            context: enclosing,
            functions: self.functions.push(self.context.function),
            ..self
        }
    }

    /// The parameter list and the body of a function, in the function's own
    /// context, which is a scope. The body ends with the return of `nil`.
    #[verifier::opaque]
    pub open spec fn function_body(self, fuel: nat) -> CompilerView
        decreases fuel,
    {
        if fuel == 0 {
            self
        } else {
            let opened = self.begin_scope().consume(
                TokenType::TokenLeftParen,
                "Expect '(' after function name."@,
            );
            let listed = if !opened.check(TokenType::TokenRightParen) {
                opened.parameters((fuel - 1) as nat)
            } else {
                opened
            };
            listed.consume(TokenType::TokenRightParen, "Expect ')' after parameters."@).consume(
                TokenType::TokenLeftBrace,
                "Expect '{' after function body."@,
            ).block((fuel - 1) as nat).emit_return()
        }
    }

    /// A function, after its name: the parameters and the body are compiled
    /// in a context of their own. The finished function becomes a constant
    /// of the enclosing function, which loads it.
    #[verifier::opaque]
    pub open spec fn function(self, fun_type: FunctionType, fuel: nat) -> CompilerView
        decreases fuel,
    {
        if fuel == 0 {
            self
        } else {
            let finished = self.enter_function(fun_type).function_body((fuel - 1) as nat);
            finished.leave_function(self.context).emit_constant(
                ValueView::Fun(finished.functions.len() as usize),
            )
        }
    }

    /// The declarations of a script, up to the end of the input.
    #[verifier::opaque]
    pub open spec fn script_items(self, fuel: nat) -> CompilerView
        decreases fuel,
    {
        if fuel == 0 {
            self
        } else if self.check(TokenType::TokenEOF) {
            self.advance()
        } else {
            self.declaration((fuel - 1) as nat).script_items((fuel - 1) as nat)
        }
    }
}

/// Whether the code ends with the return of `nil`.
pub open spec fn ends_with_return(code: Seq<u8>) -> bool {
    &&& code.len() >= 2
    &&& code[code.len() - 2] == OpCode::OpNil.spec_byte()
    &&& code[code.len() - 1] == OpCode::OpReturn.spec_byte()
}

/// The local in slot 0 of a script, which stands for the script itself.
pub open spec fn reserved_local() -> LocalView {
    LocalView { name: undefined_token(), depth: Some(0usize) }
}

/// The state in which the compilation of a script starts: nothing is read
/// and nothing is written yet, no error is reported, and the functions
/// compiled earlier are kept.
pub open spec fn initial_state(
    functions: Seq<FunctionView>,
    source: Seq<char>,
    numbers: Map<Seq<char>, u64>,
) -> CompilerView {
    CompilerView {
        parser: ParserView {
            current: undefined_token(),
            previous: undefined_token(),
            had_error: false,
            panic_mode: false,
        },
        scanner: ScannerView::fresh(source),
        context: ContextView {
            locals: seq![reserved_local()],
            ..ContextView::fresh(FunctionType::TypeScript)
        },
        functions,
        numbers,
        diagnostics: seq![],
    }
}

/// A bound on the depth of calls that suffices for a script of the given
/// length.
pub open spec fn script_fuel(source: Seq<char>) -> nat {
    32 * (source.len() + 2)
}

/// The state in which the compilation of a script ends: the first token is
/// read, the declarations are compiled up to the end of the input, and the
/// return of `nil` is appended.
pub open spec fn compiled(
    functions: Seq<FunctionView>,
    source: Seq<char>,
    numbers: Map<Seq<char>, u64>,
) -> CompilerView {
    initial_state(functions, source, numbers).advance().script_items(
        script_fuel(source),
    ).emit_return()
}

/// The state in which the compilation of a script starts is well formed.
pub proof fn lemma_initial_state(
    functions: Seq<FunctionView>,
    source: Seq<char>,
    numbers: Map<Seq<char>, u64>,
)
    requires
        forall|i: int| 0 <= i < functions.len() ==> (#[trigger] functions[i]).chunk.well_formed(),
    ensures
        initial_state(functions, source, numbers).well_formed(),
        initial_state(functions, source, numbers).settled(),
{
    reveal(CompilerView::well_formed);
    reveal(CompilerView::consistent);
    reveal(CompilerView::locals_ordered);
}

/// The state in which the compilation of a function starts is well formed,
/// and as much is left to read as before.
pub proof fn lemma_enter_function(state: CompilerView, fun_type: FunctionType)
    requires
        state.well_formed(),
    ensures
        state.enter_function(fun_type).well_formed(),
        state.enter_function(fun_type).settled(),
        state.enter_function(fun_type).measure() == state.measure(),
        state.enter_function(fun_type).scanner == state.scanner,
        state.enter_function(fun_type).numbers == state.numbers,
        state.enter_function(fun_type).functions == state.functions,
        state.enter_function(fun_type).context.scope_depth == 0,
{
    reveal(CompilerView::well_formed);
    reveal(CompilerView::consistent);
    reveal(CompilerView::locals_ordered);
    reveal(CompilerView::enter_function);
}

/// The state in which the compilation goes on after a function is well
/// formed, if the state after the function and the state before it are.
pub proof fn lemma_leave_function(state: CompilerView, enclosing: CompilerView)
    requires
        state.well_formed(),
        enclosing.well_formed(),
    ensures
        state.leave_function(enclosing.context).well_formed(),
        state.leave_function(enclosing.context).measure() == state.measure(),
        state.leave_function(enclosing.context).scanner == state.scanner,
        state.leave_function(enclosing.context).numbers == state.numbers,
        state.leave_function(enclosing.context).functions == state.functions.push(
            state.context.function,
        ),
        state.leave_function(enclosing.context).context == enclosing.context,
{
    reveal(CompilerView::well_formed);
    reveal(CompilerView::consistent);
    reveal(CompilerView::locals_ordered);
    reveal(CompilerView::leave_function);
}

/// In a well-formed state the chunk that is being written and those of the
/// finished functions are well formed.
pub proof fn lemma_chunks_well_formed(state: CompilerView)
    requires
        state.well_formed(),
    ensures
        state.chunk().well_formed(),
        forall|i: int|
            0 <= i < state.functions.len() ==> (#[trigger] state.functions[i]).chunk.well_formed(),
        state.parser.had_error == (state.diagnostics.len() > 0),
{
    reveal(CompilerView::well_formed);
    reveal(CompilerView::consistent);
}

impl Compiler {
    /// Compiles `print`, whose keyword has just been consumed.
    fn print_statement(&mut self, Ghost(fuel): Ghost<nat>)
        requires
            old(self)@.well_formed(),
            fuel >= old(self)@.budget(3),
        ensures
            final(self)@ == old(self)@.print_statement(fuel),
            final(self)@.well_formed(),
            old(self)@.continues(final(self)@),
            old(self)@.keeps_locals(final(self)@),
        decreases fuel,
    {
        proof {
            reveal(CompilerView::print_statement);
            reveal(CompilerView::expression);
            lemma_simple();
        }
        self.expression(Ghost((fuel - 1) as nat));
        self.consume(TokenType::TokenSemicolon, "Expect ';' after value.");
        self.emit_byte(OpCode::OpPrint.byte());
    }

    /// Compiles an expression that stands as a statement.
    fn expression_statement(&mut self, Ghost(fuel): Ghost<nat>)
        requires
            old(self)@.well_formed(),
            fuel >= old(self)@.budget(3),
        ensures
            final(self)@ == old(self)@.expression_statement(fuel),
            final(self)@.well_formed(),
            old(self)@.continues(final(self)@),
            old(self)@.keeps_locals(final(self)@),
            old(self)@.parser.current._type != TokenType::TokenEOF ==> final(self)@.measure() < old(self)@.measure(),
        decreases fuel,
    {
        proof {
            reveal(CompilerView::expression_statement);
            reveal(CompilerView::expression);
            lemma_simple();
        }
        self.expression(Ghost((fuel - 1) as nat));
        self.consume(TokenType::TokenSemicolon, "Expect ';' after value.");
        self.emit_byte(OpCode::OpPop.byte());
    }

    /// Compiles `return`, whose keyword has just been consumed.
    fn return_statement(&mut self, Ghost(fuel): Ghost<nat>)
        requires
            old(self)@.well_formed(),
            fuel >= old(self)@.budget(3),
        ensures
            final(self)@ == old(self)@.return_statement(fuel),
            final(self)@.well_formed(),
            old(self)@.continues(final(self)@),
            old(self)@.keeps_locals(final(self)@),
        decreases fuel,
    {
        proof {
            reveal(CompilerView::return_statement);
            reveal(CompilerView::expression);
            lemma_simple();
        }
        if self.curr_compiler.fun_type == FunctionType::TypeScript {
            self.error("Can't return from top-level code.");
        }
        if self.matching(TokenType::TokenSemicolon) {
            self.emit_return();
        } else {
            self.expression(Ghost((fuel - 1) as nat));
            self.consume(TokenType::TokenSemicolon, "Expect ';' after return value.");
            self.emit_byte(OpCode::OpReturn.byte());
        }
    }

    /// Compiles `var`, whose keyword has just been consumed.
    fn var_declaration(&mut self, Ghost(fuel): Ghost<nat>)
        requires
            old(self)@.well_formed(),
            old(self)@.settled(),
            fuel >= old(self)@.budget(3),
        ensures
            final(self)@ == old(self)@.var_declaration(fuel),
            final(self)@.well_formed(),
            final(self)@.settled(),
            old(self)@.continues(final(self)@),
        decreases fuel,
    {
        proof {
            reveal(CompilerView::var_declaration);
            reveal(CompilerView::expression);
            lemma_simple();
        }
        let global = self.parse_variable("Expect variable name.");
        if self.matching(TokenType::TokenEqual) {
            self.expression(Ghost((fuel - 1) as nat));
        } else {
            self.emit_byte(OpCode::OpNil.byte());
        }
        self.consume(TokenType::TokenSemicolon, "Expect ';' after variable declaration.");
        self.define_variable(global);
    }

    /// Compiles `if`, whose keyword has just been consumed.
    fn if_statement(&mut self, Ghost(fuel): Ghost<nat>)
        requires
            old(self)@.well_formed(),
            old(self)@.settled(),
            fuel >= old(self)@.budget(5),
        ensures
            final(self)@ == old(self)@.if_statement(fuel),
            final(self)@.well_formed(),
            final(self)@.settled(),
            old(self)@.continues(final(self)@),
        decreases fuel,
    {
        proof {
            reveal(CompilerView::if_statement);
            reveal(CompilerView::expression);
            reveal(CompilerView::statement);
            lemma_simple();
        }
        self.consume(TokenType::TokenLeftParen, "Expect '(' after 'if'.");
        self.expression(Ghost((fuel - 1) as nat));
        self.consume(TokenType::TokenRightParen, "Expect ')' after condition");
        let then_jump = self.emit_jump(OpCode::OpJumpIfFalse.byte());
        self.emit_byte(OpCode::OpPop.byte());
        self.statement(Ghost((fuel - 1) as nat));
        let else_jump = self.emit_jump(OpCode::OpJump.byte());
        self.patch_jump(then_jump);
        self.emit_byte(OpCode::OpPop.byte());
        if self.matching(TokenType::TokenElse) {
            self.statement(Ghost((fuel - 1) as nat));
        }
        self.patch_jump(else_jump);
    }

    /// Compiles `while`, whose keyword has just been consumed.
    fn while_statement(&mut self, Ghost(fuel): Ghost<nat>)
        requires
            old(self)@.well_formed(),
            old(self)@.settled(),
            fuel >= old(self)@.budget(5),
        ensures
            final(self)@ == old(self)@.while_statement(fuel),
            final(self)@.well_formed(),
            final(self)@.settled(),
            old(self)@.continues(final(self)@),
        decreases fuel,
    {
        proof {
            reveal(CompilerView::while_statement);
            reveal(CompilerView::expression);
            reveal(CompilerView::statement);
            lemma_simple();
        }
        let loop_start = self.curr_compiler.function.chunk.code.len();
        self.consume(TokenType::TokenLeftParen, "Expect '(' after 'while'.");
        self.expression(Ghost((fuel - 1) as nat));
        self.consume(TokenType::TokenRightParen, "Expect ')' after condition");
        let exit_jump = self.emit_jump(OpCode::OpJumpIfFalse.byte());
        self.emit_byte(OpCode::OpPop.byte());
        self.statement(Ghost((fuel - 1) as nat));
        self.emit_loop(loop_start);
        self.patch_jump(exit_jump);
        self.emit_byte(OpCode::OpPop.byte());
    }

    /// Compiles the initializer clause of a `for`.
    fn for_initializer(&mut self, Ghost(fuel): Ghost<nat>)
        requires
            old(self)@.well_formed(),
            old(self)@.settled(),
            fuel >= old(self)@.budget(4),
        ensures
            final(self)@ == old(self)@.for_initializer(fuel),
            final(self)@.well_formed(),
            final(self)@.settled(),
            old(self)@.continues(final(self)@),
        decreases fuel,
    {
        proof {
            reveal(CompilerView::for_initializer);
            reveal(CompilerView::var_declaration);
            reveal(CompilerView::expression_statement);
        }
        if self.matching(TokenType::TokenSemicolon) {
            // No initializer
        } else if self.matching(TokenType::TokenVar) {
            self.var_declaration(Ghost((fuel - 1) as nat));
        } else {
            self.expression_statement(Ghost((fuel - 1) as nat));
        }
    }

    /// Compiles the condition clause of a `for` and returns where the jump
    /// out of the loop stands, if there is a condition.
    fn for_condition(&mut self, Ghost(fuel): Ghost<nat>) -> (exit: Option<usize>)
        requires
            old(self)@.well_formed(),
            fuel >= old(self)@.budget(3),
        ensures
            final(self)@ == old(self)@.for_condition(fuel).state,
            match exit {
                Some(site) => old(self)@.for_condition(fuel).exit == Some(site as int)
                    && is_jump_site(final(self)@.code(), site as int) && old(self)@.code().len()
                    < site && site + 2 <= final(self)@.code().len(),
                None => old(self)@.for_condition(fuel).exit is None,
            },
            final(self)@.well_formed(),
            old(self)@.continues(final(self)@),
            old(self)@.keeps_locals(final(self)@),
        decreases fuel,
    {
        proof {
            reveal(CompilerView::for_condition);
            reveal(CompilerView::expression);
            lemma_simple();
        }
        if self.matching(TokenType::TokenSemicolon) {
            None
        } else {
            self.expression(Ghost((fuel - 1) as nat));
            self.consume(TokenType::TokenSemicolon, "Expect ';' after loop condition.");
            // Jump out of the loop if the condition is false
            let exit_jump = self.emit_jump(OpCode::OpJumpIfFalse.byte());
            self.emit_byte(OpCode::OpPop.byte());
            Some(exit_jump)
        }
    }

    /// Compiles the increment clause of a `for` and returns where the body
    /// jumps back to.
    fn for_increment(&mut self, loop_start: usize, Ghost(fuel): Ghost<nat>) -> (start: usize)
        requires
            old(self)@.well_formed(),
            loop_start <= old(self)@.code().len(),
            fuel >= old(self)@.budget(3),
        ensures
            final(self)@ == old(self)@.for_increment(loop_start as int, fuel).state,
            start == old(self)@.for_increment(loop_start as int, fuel).loop_start,
            start <= final(self)@.code().len(),
            final(self)@.well_formed(),
            old(self)@.continues(final(self)@),
            old(self)@.keeps_locals(final(self)@),
        decreases fuel,
    {
        proof {
            reveal(CompilerView::for_increment);
            reveal(CompilerView::expression);
            lemma_simple();
        }
        if self.matching(TokenType::TokenRightParen) {
            loop_start
        } else {
            let body_jump = self.emit_jump(OpCode::OpJump.byte());
            let increment_start = self.curr_compiler.function.chunk.code.len();
            self.expression(Ghost((fuel - 1) as nat));
            self.emit_byte(OpCode::OpPop.byte());
            self.consume(TokenType::TokenRightParen, "Expect ')' after for clauses.");
            self.emit_loop(loop_start);
            self.patch_jump(body_jump);
            increment_start
        }
    }

    /// Compiles `for`, whose keyword has just been consumed.
    fn for_statement(&mut self, Ghost(fuel): Ghost<nat>)
        requires
            old(self)@.well_formed(),
            old(self)@.settled(),
            fuel >= old(self)@.budget(5),
        ensures
            final(self)@ == old(self)@.for_statement(fuel),
            final(self)@.well_formed(),
            final(self)@.settled(),
            old(self)@.continues(final(self)@),
        decreases fuel,
    {
        proof {
            reveal(CompilerView::for_statement);
            reveal(CompilerView::for_initializer);
            reveal(CompilerView::for_condition);
            reveal(CompilerView::for_increment);
            reveal(CompilerView::statement);
            lemma_simple();
        }
        self.begin_scope();
        self.consume(TokenType::TokenLeftParen, "Expect '(' after 'for'.");
        self.for_initializer(Ghost((fuel - 1) as nat));
        let loop_start = self.curr_compiler.function.chunk.code.len();
        let exit_jump = self.for_condition(Ghost((fuel - 1) as nat));
        let loop_start = self.for_increment(loop_start, Ghost((fuel - 1) as nat));
        self.statement(Ghost((fuel - 1) as nat));
        self.emit_loop(loop_start);
        match exit_jump {
            Some(exit) => {
                self.patch_jump(exit);
                self.emit_byte(OpCode::OpPop.byte());
            },
            None => {},
        }
        self.end_scope();
    }

    /// Compiles the declarations of a block and its `}`.
    fn block(&mut self, Ghost(fuel): Ghost<nat>)
        requires
            old(self)@.well_formed(),
            old(self)@.settled(),
            fuel >= old(self)@.budget(7),
        ensures
            final(self)@ == old(self)@.block(fuel),
            final(self)@.well_formed(),
            final(self)@.settled(),
            old(self)@.continues(final(self)@),
        decreases fuel,
    {
        proof {
            reveal(CompilerView::block);
            reveal(CompilerView::block_items);
        }
        let ghost mut left = (fuel - 1) as nat;
        while !self.check(TokenType::TokenRightBrace) && !self.check(TokenType::TokenEOF)
            invariant
                self@.well_formed(),
                self@.settled(),
                old(self)@.continues(self@),
                left < fuel,
                left >= self@.budget(6),
                self@.block_items(left) == old(self)@.block_items((fuel - 1) as nat),
            decreases left,
        {
            proof {
                reveal(CompilerView::block_items);
                reveal(CompilerView::declaration);
            }
            self.declaration(Ghost((left - 1) as nat));
            proof {
                left = (left - 1) as nat;
            }
        }
        self.consume(TokenType::TokenRightBrace, "Expect '}' after block.");
    }

    /// Compiles a statement.
    fn statement(&mut self, Ghost(fuel): Ghost<nat>)
        requires
            old(self)@.well_formed(),
            old(self)@.settled(),
            fuel >= old(self)@.budget(4),
        ensures
            final(self)@ == old(self)@.statement(fuel),
            final(self)@.well_formed(),
            final(self)@.settled(),
            old(self)@.continues(final(self)@),
            old(self)@.parser.current._type != TokenType::TokenEOF ==> final(self)@.measure() < old(self)@.measure(),
        decreases fuel,
    {
        proof {
            reveal(CompilerView::statement);
            reveal(CompilerView::print_statement);
            reveal(CompilerView::for_statement);
            reveal(CompilerView::if_statement);
            reveal(CompilerView::return_statement);
            reveal(CompilerView::while_statement);
            reveal(CompilerView::block);
            reveal(CompilerView::expression_statement);
        }
        match self.parser.current._type {
            TokenType::TokenPrint => {
                self.advance();
                self.print_statement(Ghost((fuel - 1) as nat));
            },
            TokenType::TokenFor => {
                self.advance();
                self.for_statement(Ghost((fuel - 1) as nat));
            },
            TokenType::TokenIf => {
                self.advance();
                self.if_statement(Ghost((fuel - 1) as nat));
            },
            TokenType::TokenReturn => {
                self.advance();
                self.return_statement(Ghost((fuel - 1) as nat));
            },
            TokenType::TokenWhile => {
                self.advance();
                self.while_statement(Ghost((fuel - 1) as nat));
            },
            TokenType::TokenLeftBrace => {
                self.advance();
                self.begin_scope();
                self.block(Ghost((fuel - 1) as nat));
                self.end_scope();
            },
            _ => {
                self.expression_statement(Ghost((fuel - 1) as nat));
            },
        }
    }

    /// Compiles a declaration.
    #[verifier::rlimit(40)]
    fn declaration(&mut self, Ghost(fuel): Ghost<nat>)
        requires
            old(self)@.well_formed(),
            old(self)@.settled(),
            fuel >= old(self)@.budget(5),
        ensures
            final(self)@ == old(self)@.declaration(fuel),
            final(self)@.well_formed(),
            final(self)@.settled(),
            old(self)@.continues(final(self)@),
            old(self)@.parser.current._type != TokenType::TokenEOF ==> final(self)@.measure() < old(self)@.measure(),
        decreases fuel,
    {
        proof {
            reveal(CompilerView::declaration);
            reveal(CompilerView::fun_declaration);
            reveal(CompilerView::var_declaration);
            reveal(CompilerView::statement);
        }
        match self.parser.current._type {
            TokenType::TokenFun => {
                self.advance();
                self.fun_declaration(Ghost((fuel - 1) as nat));
            },
            TokenType::TokenVar => {
                self.advance();
                self.var_declaration(Ghost((fuel - 1) as nat));
            },
            _ => {
                self.statement(Ghost((fuel - 1) as nat));
            },
        }
        if self.parser.panic_mode {
            self.synchronize();
        }
    }

    /// Compiles `fun`, whose keyword has just been consumed.
    fn fun_declaration(&mut self, Ghost(fuel): Ghost<nat>)
        requires
            old(self)@.well_formed(),
            old(self)@.settled(),
            fuel >= old(self)@.budget(10),
        ensures
            final(self)@ == old(self)@.fun_declaration(fuel),
            final(self)@.well_formed(),
            final(self)@.settled(),
            old(self)@.continues(final(self)@),
        decreases fuel,
    {
        proof {
            reveal(CompilerView::fun_declaration);
            reveal(CompilerView::function);
        }
        let global = self.parse_variable("Expect function name.");
        proof {
            lemma_well_formed_consistent(self@);
        }
        self.mark_initialized();
        self.function(FunctionType::TypeFunction, Ghost((fuel - 1) as nat));
        self.define_variable(global);
    }

    /// Counts one more parameter of the function that is being compiled.
    fn count_parameter(&mut self)
        requires
            old(self)@.well_formed(),
        ensures
            final(self)@ == old(self)@.count_parameter(),
            final(self)@.well_formed(),
            old(self)@.follows(final(self)@),
            final(self)@.context.function.name == old(self)@.context.function.name,
            old(self)@.keeps_locals(final(self)@),
    {
        proof {
            reveal(CompilerView::well_formed);
            reveal(CompilerView::consistent);
            reveal(CompilerView::locals_ordered);
            reveal(CompilerView::count_parameter);
        }
        if self.curr_compiler.function.arity <= 255 {
            self.curr_compiler.function.arity += 1;
        }
        if self.curr_compiler.function.arity > 255 {
            self.error_at_current("Can't have more than 255 paramenters.");
        }
    }

    /// Compiles the parameters of a function.
    fn parameters(&mut self, Ghost(fuel): Ghost<nat>)
        requires
            old(self)@.well_formed(),
            old(self)@.settled(),
            fuel >= old(self)@.budget(1),
        ensures
            final(self)@ == old(self)@.parameters(fuel),
            final(self)@.well_formed(),
            final(self)@.settled(),
            old(self)@.follows(final(self)@),
            final(self)@.context.function.name == old(self)@.context.function.name,
    {
        let ghost mut left = fuel;
        loop
            invariant_except_break
                left >= self@.budget(1),
                self@.parameters(left) == old(self)@.parameters(fuel),
            invariant
                self@.well_formed(),
                self@.settled(),
                old(self)@.follows(self@),
                self@.context.function.name == old(self)@.context.function.name,
            ensures
                self@ == old(self)@.parameters(fuel),
            decreases left,
        {
            proof {
                reveal(CompilerView::parameters);
            }
            self.count_parameter();
            let constant = self.parse_variable("Expect parameter name.");
            self.define_variable(constant);
            if !self.matching(TokenType::TokenComma) {
                break ;
            }
            proof {
                left = (left - 1) as nat;
            }
        }
    }

    /// Starts the compilation of a function whose name has just been
    /// consumed: the function gets a context of its own. Returns the context
    /// of the enclosing function.
    fn enter_function(&mut self, fun_type: FunctionType) -> (enclosing: CurrCompiler)
        requires
            old(self)@.well_formed(),
        ensures
            final(self)@ == old(self)@.enter_function(fun_type),
            enclosing@ == old(self)@.context,
            final(self)@.well_formed(),
            final(self)@.settled(),
            final(self)@.measure() == old(self)@.measure(),
            final(self)@.scanner == old(self)@.scanner,
            final(self)@.numbers == old(self)@.numbers,
            final(self)@.functions == old(self)@.functions,
            final(self)@.context.scope_depth == 0,
    {
        proof {
            lemma_enter_function(self@, fun_type);
            reveal(CompilerView::enter_function);
        }
        let mut context = CurrCompiler::new(fun_type);
        // If function is not the main "script" function, assign name to that function using previous lexeme
        if fun_type != FunctionType::TypeScript {
            context.function.name = Some(self.parser.previous.lexeme.clone());
        }
        core::mem::swap(&mut self.curr_compiler, &mut context);
        context
    }

    /// Ends the compilation of a function: the function joins the finished
    /// functions, and the compilation goes on in the context of the
    /// enclosing function. Returns the handle of the function.
    fn leave_function(&mut self, enclosing: CurrCompiler, Ghost(before): Ghost<CompilerView>) -> (handle:
        usize)
        requires
            old(self)@.well_formed(),
            before.well_formed(),
            before.context == enclosing@,
        ensures
            final(self)@ == old(self)@.leave_function(enclosing@),
            handle == old(self)@.functions.len(),
            final(self)@.well_formed(),
            final(self)@.measure() == old(self)@.measure(),
            final(self)@.scanner == old(self)@.scanner,
            final(self)@.numbers == old(self)@.numbers,
            final(self)@.functions == old(self)@.functions.push(old(self)@.context.function),
            final(self)@.context == enclosing@,
    {
        proof {
            lemma_leave_function(self@, before);
            reveal(CompilerView::leave_function);
        }
        let mut context = enclosing;
        core::mem::swap(&mut self.curr_compiler, &mut context);
        let handle = self.functions.len();
        self.functions.push(context.function);
        assert(self@.functions =~= old(self)@.functions.push(old(self)@.context.function));
        handle
    }

    /// Compiles the parameter list and the body of a function, up to the
    /// return that ends it.
    fn function_body(&mut self, Ghost(fuel): Ghost<nat>)
        requires
            old(self)@.well_formed(),
            old(self)@.settled(),
            fuel >= old(self)@.budget(8),
        ensures
            final(self)@ == old(self)@.function_body(fuel),
            final(self)@.well_formed(),
            old(self)@.follows(final(self)@),
        decreases fuel,
    {
        proof {
            reveal(CompilerView::function_body);
            reveal(CompilerView::parameters);
            reveal(CompilerView::block);
        }
        self.begin_scope();
        self.consume(TokenType::TokenLeftParen, "Expect '(' after function name.");
        if !self.check(TokenType::TokenRightParen) {
            self.parameters(Ghost((fuel - 1) as nat));
        }
        self.consume(TokenType::TokenRightParen, "Expect ')' after parameters.");
        self.consume(TokenType::TokenLeftBrace, "Expect '{' after function body.");
        self.block(Ghost((fuel - 1) as nat));
        self.emit_return();
    }

    /// Compiles a function whose name has just been consumed: its parameters
    /// and its body, in a context of their own.
    fn function(&mut self, fun_type: FunctionType, Ghost(fuel): Ghost<nat>)
        requires
            old(self)@.well_formed(),
            fuel >= old(self)@.budget(9),
        ensures
            final(self)@ == old(self)@.function(fun_type, fuel),
            final(self)@.well_formed(),
            old(self)@.continues(final(self)@),
            old(self)@.keeps_locals(final(self)@),
        decreases fuel,
    {
        proof {
            reveal(CompilerView::function);
            reveal(CompilerView::function_body);
        }
        let enclosing = self.enter_function(fun_type);
        self.function_body(Ghost((fuel - 1) as nat));
        let ghost finished = self@;
        let handle = self.leave_function(enclosing, Ghost(old(self)@));
        assert(is_prefix(old(self)@.functions, self@.functions)) by {
            lemma_prefix_push(old(self)@.functions, finished.functions, finished.context.function);
        }
        self.emit_constant(Value::Fun(handle));
    }

    /// Compiles the declarations of a script, up to the end of the input.
    #[verifier::rlimit(40)]
    fn script_items(&mut self, Ghost(fuel): Ghost<nat>)
        requires
            old(self)@.well_formed(),
            old(self)@.settled(),
            fuel >= old(self)@.budget(6),
        ensures
            final(self)@ == old(self)@.script_items(fuel),
            final(self)@.well_formed(),
            old(self)@.continues(final(self)@),
    {
        let ghost mut left = fuel;
        loop
            invariant_except_break
                left >= self@.budget(6),
                self@.settled(),
                self@.script_items(left) == old(self)@.script_items(fuel),
            invariant
                self@.well_formed(),
                old(self)@.continues(self@),
            ensures
                self@ == old(self)@.script_items(fuel),
            decreases left,
        {
            proof {
                reveal(CompilerView::script_items);
                reveal(CompilerView::declaration);
            }
            if self.check(TokenType::TokenEOF) {
                self.advance();
                break ;
            }
            self.declaration(Ghost((left - 1) as nat));
            proof {
                left = (left - 1) as nat;
            }
        }
    }

    /// Ends the compilation of the script: appends the return of `nil`, and
    /// returns the function.
    fn end_compiler(&mut self) -> (function: Function)
        requires
            old(self)@.well_formed(),
        ensures
            final(self)@ == old(self)@.emit_return(),
            function@ == final(self)@.context.function,
            final(self)@.well_formed(),
            old(self)@.continues(final(self)@),
            ends_with_return(function@.chunk.code),
    {
        proof {
            reveal(CompilerView::emit_byte);
        }
        self.emit_return();
        self.curr_compiler.function.clone()
    }

    /// A compiler that has compiled nothing.
    pub fn new() -> (r: Compiler)
        ensures
            r@ == (CompilerView {
                context: ContextView::fresh(FunctionType::TypeScript),
                ..initial_state(seq![], seq![], Map::<Seq<char>, u64>::empty())
            }),
    {
        let r = Compiler {
            parser: Parser::new(),
            scanner: Scanner::new(),
            curr_compiler: CurrCompiler::new(FunctionType::TypeScript),
            functions: Vec::new(),
            numbers: Numbers::new(),
            diagnostics: Vec::new(),
        };
        assert(r@.functions =~= seq![]);
        assert(r@.diagnostics =~= seq![]);
        r
    }

    /// Compiles a script.
    ///
    /// `numbers` holds the value of each number literal of `source`. The
    /// result is the script as a function without a name and without
    /// parameters, or `None` if an error was reported; the errors are then
    /// in `diagnostics`. The functions that the script declares are added to
    /// `functions`, where the function values among the constants find them.
    pub fn compile(&mut self, source: String, numbers: Numbers) -> (result: Option<Function>)
        requires
            forall|i: int|
                0 <= i < old(self)@.functions.len() ==> (#[trigger] old(self)@.functions[i]).chunk.well_formed(),
        ensures
            final(self)@ == compiled(old(self)@.functions, source@, numbers@),
            match result {
                Some(function) => final(self)@.diagnostics.len() == 0 && function@ == final(self)@.context.function && function@.chunk.well_formed() && function@.arity == 0
                    && function@.name is None && ends_with_return(function@.chunk.code),
                None => final(self)@.diagnostics.len() > 0,
            },
            forall|i: int|
                0 <= i < final(self)@.functions.len() ==> (#[trigger] final(self)@.functions[i]).chunk.well_formed(),
            is_prefix(old(self)@.functions, final(self)@.functions),
    {
        self.scanner.load(source);
        self.parser = Parser::new();
        self.curr_compiler = CurrCompiler::new(FunctionType::TypeScript);
        // the compiler implicitly claims stack slot zero for the VM's own internal use
        self.curr_compiler.locals.push(
            Local {
                name: Token { _type: TokenType::Undefined, lexeme: String::new(), line: 0 },
                depth: Some(0),
            },
        );
        self.numbers = numbers;
        self.diagnostics = Vec::new();
        proof {
            lemma_initial_state(old(self)@.functions, source@, numbers@);
            assert(self@.context.locals =~= seq![reserved_local()]);
            assert(self@.diagnostics =~= Seq::<Seq<char>>::empty());
            assert(self@ == initial_state(old(self)@.functions, source@, numbers@));
        }
        self.advance();
        self.script_items(Ghost(script_fuel(source@)));
        let function = self.end_compiler();
        proof {
            lemma_chunks_well_formed(self@);
        }
        if self.parser.had_error {
            return None;
        }
        Some(function)
    }
}

/// The instructions without operands that statements end with take one byte
/// each.
proof fn lemma_simple()
    ensures
        width_of(OpCode::OpNil.spec_byte()) == 1,
        width_of(OpCode::OpPop.spec_byte()) == 1,
        width_of(OpCode::OpPrint.spec_byte()) == 1,
        width_of(OpCode::OpReturn.spec_byte()) == 1,
{
}

} // verus!
