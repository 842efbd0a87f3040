//! What the compiler does, step by step, as functions on its state.
//!
//! Each function here says what one routine of the compiler makes of a state:
//! the state after it and, where the routine returns something, that value.
//! The routines themselves are in [`crate::emitter`] and the parsing modules;
//! each is proved to compute the function of the same name.

use vstd::prelude::*;
use crate::chunk::ChunkView;
use crate::chunk::is_prefix;
use crate::chunk::OpCode;
use crate::chunk::patched;
use crate::compiler::CompilerView;
use crate::compiler::ContextView;
use crate::compiler::LocalView;
use crate::compiler::ParserView;
use crate::scanner::char_at;
use crate::scanner::scan;
use crate::scanner::TokenView;
use crate::text::decimal_text;
use crate::token_type::TokenType;
use crate::value::FunctionView;
use crate::value::ValueView;

verus! {

/// Where an error is: nothing for an error token, whose text is the message
/// itself, `at end` for the end of the input, else the token's text.
pub open spec fn location_text(token: TokenView) -> Seq<char> {
    if token._type == TokenType::TokenEOF {
        " at end "@
    } else if token._type == TokenType::TokenError {
        ""@
    } else {
        " at '"@ + token.lexeme + "' "@
    }
}

/// The line that reports an error at a token.
pub open spec fn diagnostic_text(token: TokenView, message: Seq<char>) -> Seq<char> {
    "[line "@ + decimal_text(token.line as nat) + "] Error"@ + location_text(token) + ": "@
        + message
}

/// The high byte of a 16-bit jump distance. A distance that does not fit
/// keeps its low 16 bits.
pub open spec fn high_byte(distance: int) -> u8 {
    ((distance / 256) % 256) as u8
}

/// The low byte of a jump distance.
pub open spec fn low_byte(distance: int) -> u8 {
    (distance % 256) as u8
}

/// Whether a local of the given name is already declared in the innermost
/// scope: among the locals from the newest back to the first that belongs to
/// an enclosing scope.
pub open spec fn declared_in_scope(locals: Seq<LocalView>, name: Seq<char>, depth: usize) -> bool
    decreases locals.len(),
{
    if locals.len() == 0 {
        false
    } else {
        let last = locals.last();
        if last.depth is Some && last.depth->0 < depth {
            false
        } else {
            last.name.lexeme == name || declared_in_scope(locals.drop_last(), name, depth)
        }
    }
}

/// The index of the newest local of the given name, if there is one.
pub open spec fn find_local(locals: Seq<LocalView>, name: Seq<char>) -> Option<int>
    decreases locals.len(),
{
    if locals.len() == 0 {
        None
    } else if locals.last().name.lexeme == name {
        Some(locals.len() - 1)
    } else {
        find_local(locals.drop_last(), name)
    }
}

/// Whether the input ends at the scanner's position.
pub open spec fn char_at_end(state: CompilerView) -> bool {
    char_at(state.scanner.source, state.scanner.current) == '\0'
}

/// Whether a token can start a statement: error recovery stops before it.
pub open spec fn starts_statement(kind: TokenType) -> bool {
    kind == TokenType::TokenClass || kind == TokenType::TokenFun || kind == TokenType::TokenVar
        || kind == TokenType::TokenFor || kind == TokenType::TokenIf || kind
        == TokenType::TokenWhile || kind == TokenType::TokenPrint || kind
        == TokenType::TokenReturn
}

impl CompilerView {
    /// The code of the function that is being compiled.
    pub open spec fn code(self) -> Seq<u8> {
        self.context.function.chunk.code
    }

    /// The bytecode of the function that is being compiled.
    pub open spec fn chunk(self) -> ChunkView {
        self.context.function.chunk
    }

    /// The state with another chunk for the function that is being compiled.
    pub open spec fn with_chunk(self, chunk: ChunkView) -> CompilerView {
        CompilerView {
            context: ContextView {
                function: FunctionView { chunk, ..self.context.function },
                ..self.context
            },
            ..self
        }
    }

    /// The state with other locals.
    pub open spec fn with_locals(self, locals: Seq<LocalView>) -> CompilerView {
        CompilerView { context: ContextView { locals, ..self.context }, ..self }
    }

    /// How much is left to read: the characters after the scanner's
    /// position, and one more while the current token is not the end of the
    /// input. Consuming a token makes it smaller.
    pub open spec fn measure(self) -> int {
        let unread = self.scanner.source.len() - self.scanner.current;
        (if unread > 0 {
            unread
        } else {
            0
        }) + if self.parser.current._type != TokenType::TokenEOF {
            1int
        } else {
            0int
        }
    }

    /// Reports an error at a token, unless an earlier error of the same
    /// statement is still being recovered from.
    #[verifier::opaque]
    pub open spec fn error_at(self, token: TokenView, message: Seq<char>) -> CompilerView {
        if self.parser.panic_mode {
            self
        } else {
            CompilerView {
                parser: ParserView { panic_mode: true, had_error: true, ..self.parser },
                diagnostics: self.diagnostics.push(diagnostic_text(token, message)),
                ..self
            }
        }
    }

    /// Reports an error at the token consumed last.
    pub open spec fn error(self, message: Seq<char>) -> CompilerView {
        self.error_at(self.parser.previous, message)
    }

    /// Reports an error at the current token.
    pub open spec fn error_at_current(self, message: Seq<char>) -> CompilerView {
        self.error_at(self.parser.current, message)
    }

    /// Makes the next token that is not an error token the current one, and
    /// reports each error token on the way.
    pub open spec fn next_token(self) -> CompilerView
        decreases self.scanner.source.len() - self.scanner.current,
    {
        let scanned = scan(self.scanner.source, self.scanner.current, self.scanner.line);
        let read = CompilerView {
            scanner: self.scanner.after_scan(),
            parser: ParserView { current: scanned.token, ..self.parser },
            ..self
        };
        if scanned.token._type == TokenType::TokenError && self.scanner.current < scanned.current
            <= self.scanner.source.len() {
            proof {
                reveal(CompilerView::error_at);
            }
            read.error_at_current(scanned.token.lexeme).next_token()
        } else {
            read
        }
    }

    /// Consumes the current token.
    #[verifier::opaque]
    pub open spec fn advance(self) -> CompilerView {
        (CompilerView {
            parser: ParserView { previous: self.parser.current, ..self.parser },
            ..self
        }).next_token()
    }

    /// Whether the current token is of the given kind.
    pub open spec fn check(self, kind: TokenType) -> bool {
        self.parser.current._type == kind
    }

    /// Consumes the current token if it is of the given kind.
    pub open spec fn matching(self, kind: TokenType) -> CompilerView {
        if self.check(kind) {
            self.advance()
        } else {
            self
        }
    }

    /// Consumes the current token if it is of the given kind, and reports an
    /// error at it if not.
    pub open spec fn consume(self, kind: TokenType, message: Seq<char>) -> CompilerView {
        if self.check(kind) {
            self.advance()
        } else {
            self.error_at_current(message)
        }
    }

    /// Skips tokens up to where a statement may start: after a `;`, or before
    /// a token that starts a statement.
    pub open spec fn skip_to_statement(self) -> CompilerView
        decreases self.measure(),
    {
        if self.parser.current._type == TokenType::TokenEOF || self.parser.previous._type
            == TokenType::TokenSemicolon || starts_statement(self.parser.current._type) {
            self
        } else {
            let next = self.advance();
            if 0 <= next.measure() < self.measure() {
                next.skip_to_statement()
            } else {
                next
            }
        }
    }

    /// Ends the recovery from an error: further errors are reported again,
    /// from the next statement on.
    #[verifier::opaque]
    pub open spec fn synchronize(self) -> CompilerView {
        (CompilerView {
            parser: ParserView { panic_mode: false, ..self.parser },
            ..self
        }).skip_to_statement()
    }

    /// Appends one byte of code, on the line of the token consumed last.
    #[verifier::opaque]
    pub open spec fn emit_byte(self, byte: u8) -> CompilerView {
        self.with_chunk(
            ChunkView {
                code: self.chunk().code.push(byte),
                lines: self.chunk().lines.push(self.parser.previous.line),
                ..self.chunk()
            },
        )
    }

    /// Appends two bytes of code.
    pub open spec fn emit_bytes(self, first: u8, second: u8) -> CompilerView {
        self.emit_byte(first).emit_byte(second)
    }

    /// Appends the return of `nil`.
    pub open spec fn emit_return(self) -> CompilerView {
        self.emit_byte(OpCode::OpNil.spec_byte()).emit_byte(OpCode::OpReturn.spec_byte())
    }

    /// Appends a jump whose distance is not known yet.
    pub open spec fn emit_jump(self, instruction: u8) -> CompilerView {
        self.emit_byte(instruction).emit_byte(0xff).emit_byte(0xff)
    }

    /// Where the operand of a jump stands that is emitted in this state.
    pub open spec fn jump_site(self) -> int {
        self.code().len() as int + 1
    }

    /// Appends a jump back to `loop_start`. The distance is counted from
    /// behind the operand; one that does not fit in 16 bits is an error.
    pub open spec fn emit_loop(self, loop_start: int) -> CompilerView {
        let begun = self.emit_byte(OpCode::OpLoop.spec_byte());
        let offset = begun.code().len() - loop_start + 2;
        let checked = if offset > 0xffff {
            begun.error("Loop body too large."@)
        } else {
            begun
        };
        checked.emit_byte(high_byte(offset)).emit_byte(low_byte(offset))
    }

    /// Fills in the distance of the forward jump whose operand stands at
    /// `site`: from behind the operand to the end of the code. A distance
    /// that does not fit in 16 bits is an error.
    #[verifier::opaque]
    pub open spec fn patch_jump(self, site: int) -> CompilerView {
        let jump = self.code().len() - site - 2;
        let checked = if jump > 0xffff {
            self.error("Too much code to jump over."@)
        } else {
            self
        };
        checked.with_chunk(
            ChunkView {
                code: patched(self.code(), site, high_byte(jump), low_byte(jump)),
                ..self.chunk()
            },
        )
    }

    /// Adds a constant, unless the chunk is full, which is an error.
    #[verifier::opaque]
    pub open spec fn make_constant(self, value: ValueView) -> CompilerView {
        if self.chunk().constants.len() >= 256 {
            self.error("Too many constants in one chunk."@)
        } else {
            self.with_chunk(
                ChunkView { constants: self.chunk().constants.push(value), ..self.chunk() },
            )
        }
    }

    /// The index of the constant that `make_constant` adds in this state; 0
    /// if the chunk is full.
    pub open spec fn constant_index(self) -> u8 {
        if self.chunk().constants.len() >= 256 {
            0
        } else {
            self.chunk().constants.len() as u8
        }
    }

    /// Adds a constant and appends the instruction that loads it.
    pub open spec fn emit_constant(self, value: ValueView) -> CompilerView {
        self.make_constant(value).emit_bytes(OpCode::OpConstant.spec_byte(), self.constant_index())
    }

    /// Adds the name of a variable as a constant.
    pub open spec fn identifier_constant(self, name: TokenView) -> CompilerView {
        self.make_constant(ValueView::String(name.lexeme))
    }

    /// Enters a scope.
    #[verifier::opaque]
    pub open spec fn begin_scope(self) -> CompilerView {
        CompilerView {
            context: ContextView {
                scope_depth: if self.context.scope_depth < usize::MAX {
                    (self.context.scope_depth + 1) as usize
                } else {
                    self.context.scope_depth
                },
                ..self.context
            },
            ..self
        }
    }

    /// Drops the locals of the scopes deeper than `depth` from the end of the
    /// locals, with one `OpPop` for each. A local whose initializer was never
    /// finished goes with them.
    pub open spec fn pop_locals(self, depth: usize) -> CompilerView
        decreases self.context.locals.len(),
    {
        let locals = self.context.locals;
        if locals.len() > 0 && (locals.last().depth is None || locals.last().depth->0 > depth) {
            self.emit_byte(OpCode::OpPop.spec_byte()).with_locals(locals.drop_last()).pop_locals(
                depth,
            )
        } else {
            self
        }
    }

    /// Leaves the innermost scope: its locals are dropped, with one `OpPop`
    /// for each, and the depth goes back by one.
    #[verifier::opaque]
    pub open spec fn end_scope(self) -> CompilerView {
        let depth = if self.context.scope_depth > 0 {
            (self.context.scope_depth - 1) as usize
        } else {
            0
        };
        let popped = self.pop_locals(depth);
        CompilerView { context: ContextView { scope_depth: depth, ..popped.context }, ..popped }
    }

    /// Adds a local that is not initialized yet, unless there are 257
    /// already, which is an error.
    #[verifier::opaque]
    pub open spec fn add_local(self, name: TokenView) -> CompilerView {
        if self.context.locals.len() > 256 {
            self.error("Too many local variables in function"@)
        } else {
            self.with_locals(self.context.locals.push(LocalView { name, depth: None }))
        }
    }

    /// Declares the variable named by the token consumed last. At the top
    /// level nothing is done: globals are found by name when the program
    /// runs. In a scope the variable becomes a local; a second variable of
    /// one name in one scope is an error.
    pub open spec fn declare_variable(self) -> CompilerView {
        if self.context.scope_depth == 0 {
            self
        } else {
            let name = self.parser.previous;
            let checked = if declared_in_scope(
                self.context.locals,
                name.lexeme,
                self.context.scope_depth,
            ) {
                self.error("Already variable with name in this scope."@)
            } else {
                self
            };
            checked.add_local(name)
        }
    }

    /// Looks a name up among the locals, the newest first. A local that is
    /// found before its initializer is finished is an error.
    #[verifier::opaque]
    pub open spec fn resolve_local(self, name: TokenView) -> CompilerView {
        match find_local(self.context.locals, name.lexeme) {
            Some(index) => if self.context.locals[index].depth is None {
                self.error("Can't read local variable in its own initializer."@)
            } else {
                self
            },
            None => self,
        }
    }

    /// Marks the newest local as initialized, in the current scope.
    #[verifier::opaque]
    pub open spec fn mark_initialized(self) -> CompilerView {
        let locals = self.context.locals;
        if self.context.scope_depth == 0 || locals.len() == 0 {
            self
        } else {
            self.with_locals(
                locals.update(
                    locals.len() - 1,
                    LocalView { depth: Some(self.context.scope_depth), ..locals.last() },
                ),
            )
        }
    }

    /// Makes the variable that was declared last usable: a global is defined
    /// by an instruction that names it, a local is marked as initialized.
    pub open spec fn define_variable(self, global: u8) -> CompilerView {
        if self.context.scope_depth == 0 {
            self.emit_bytes(OpCode::OpDefineGlobal.spec_byte(), global)
        } else {
            self.mark_initialized()
        }
    }

    /// Reads the name of a variable that is being declared, and declares it.
    pub open spec fn parse_variable(self, message: Seq<char>) -> CompilerView {
        let declared = self.consume(TokenType::TokenIdentifier, message).declare_variable();
        if declared.context.scope_depth == 0 {
            declared.identifier_constant(declared.parser.previous)
        } else {
            declared
        }
    }

    /// The operand that names the variable which `parse_variable` reads in
    /// this state: the index of its name among the constants for a global, 0
    /// for a local.
    pub open spec fn variable_index(self, message: Seq<char>) -> u8 {
        let declared = self.consume(TokenType::TokenIdentifier, message).declare_variable();
        if declared.context.scope_depth == 0 {
            declared.constant_index()
        } else {
            0
        }
    }
}

impl CompilerView {
    /// The locals are in order: only the newest may lack its depth, the
    /// depths do not fall from older to newer locals, and none is deeper than
    /// the current scope.
    #[verifier::opaque]
    pub open spec fn locals_ordered(self) -> bool {
        let locals = self.context.locals;
        &&& locals.len() <= 257
        &&& forall|i: int| 0 <= i < locals.len() - 1 ==> (#[trigger] locals[i]).depth is Some
        &&& forall|i: int, j: int|
            0 <= i <= j < locals.len() && (#[trigger] locals[i]).depth is Some && (
            #[trigger] locals[j]).depth is Some ==> locals[i].depth->0 <= locals[j].depth->0
        &&& forall|i: int|
            0 <= i < locals.len() && (#[trigger] locals[i]).depth is Some ==> locals[i].depth->0
                <= self.context.scope_depth
    }

    /// Every local is initialized: no initializer is being compiled.
    pub open spec fn settled(self) -> bool {
        self.context.locals.len() > 0 ==> self.context.locals.last().depth is Some
    }

    /// What holds of the compiler's state whatever the current token is: the
    /// scanner is within its text, the chunk that is being written and those
    /// of the finished functions are well formed but for an instruction that
    /// is being appended, the locals are in order, and an error has been met
    /// exactly if one was reported.
    #[verifier::opaque]
    pub open spec fn consistent(self) -> bool {
        &&& self.scanner.in_bounds()
        &&& self.chunk().code.len() == self.chunk().lines.len()
        &&& self.chunk().constants.len() <= 256
        &&& forall|i: int|
            0 <= i < self.functions.len() ==> (#[trigger] self.functions[i]).chunk.well_formed()
        &&& self.locals_ordered()
        &&& self.parser.had_error == (self.diagnostics.len() > 0)
        &&& self.parser.panic_mode ==> self.parser.had_error
    }

    /// What holds of the compiler's state between two routines: it is
    /// consistent, the code is a sequence of whole instructions, and the
    /// current token is the one that the scanner read last, never an error
    /// token.
    #[verifier::opaque]
    pub open spec fn well_formed(self) -> bool {
        &&& self.consistent()
        &&& self.chunk().well_formed()
        &&& self.parser.current._type != TokenType::TokenError
        &&& self.parser.current._type == TokenType::TokenEOF ==> char_at(
            self.scanner.source,
            self.scanner.current,
        ) == '\0'
    }

    /// Whether a later state has the locals and the scope depth of this one.
    pub open spec fn keeps_locals(self, later: CompilerView) -> bool {
        &&& later.context.locals == self.context.locals
        &&& later.context.scope_depth == self.context.scope_depth
    }

    /// What holds of a later state of one compilation with respect to an
    /// earlier one: the text and the number table are the same, no more is
    /// left to read, the code that was there still is, at the start of the
    /// code, and so are the finished functions, under their handles.
    pub open spec fn follows(self, later: CompilerView) -> bool {
        &&& later.scanner.source == self.scanner.source
        &&& later.numbers == self.numbers
        &&& later.measure() <= self.measure()
        &&& is_prefix(self.code(), later.code())
        &&& self.code().len() <= later.code().len()
        &&& self.chunk().constants.len() <= later.chunk().constants.len()
        &&& later.context.fun_type == self.context.fun_type
        &&& is_prefix(self.functions, later.functions)
    }

    /// What holds of a later state with respect to an earlier one in the
    /// body of one function: what `follows` says, and the name and the
    /// number of parameters of the function are the same.
    pub open spec fn continues(self, later: CompilerView) -> bool {
        &&& self.follows(later)
        &&& later.context.function.arity == self.context.function.arity
        &&& later.context.function.name == self.context.function.name
    }
}

/// A well-formed state is consistent.
pub proof fn lemma_well_formed_consistent(state: CompilerView)
    requires
        state.well_formed(),
    ensures
        state.consistent(),
{
    reveal(CompilerView::well_formed);
}

/// The two operand bytes of a jump hold its distance: read as a 16-bit
/// number, high byte first, they give back a distance that fits in 16 bits.
pub proof fn jump_bytes_hold_the_distance(distance: int)
    requires
        0 <= distance <= 0xffff,
    ensures
        high_byte(distance) * 256 + low_byte(distance) == distance,
{
}

/// After a forward jump is patched, its operand holds the distance from
/// behind the operand to the end of the code.
pub proof fn patched_jump_spans_the_code(state: CompilerView, site: int)
    requires
        0 <= site,
        site + 2 <= state.code().len(),
        state.code().len() - site - 2 <= 0xffff,
    ensures
        ({
            let code = state.patch_jump(site).code();
            &&& code.len() == state.code().len()
            &&& code[site] * 256 + code[site + 1] == code.len() - (site + 2)
            &&& state.patch_jump(site).diagnostics == state.diagnostics
        }),
{
    reveal(CompilerView::patch_jump);
    jump_bytes_hold_the_distance(state.code().len() - site - 2);
}

} // verus!
