//! The compiler's basic routines: reading tokens, reporting errors, writing
//! code and constants, and keeping track of scopes and locals.

use vstd::prelude::*;
use vstd::string::*;
use crate::chunk::byte_is_jump;
use crate::chunk::byte_names_constant;
use crate::chunk::is_jump_site;
use crate::chunk::is_prefix;
use crate::chunk::lemma_jump_site_patch;
use crate::chunk::lemma_reaches_agree;
use crate::chunk::lemma_valid_append;
use crate::chunk::lemma_valid_more_constants;
use crate::chunk::lemma_valid_patch;
use crate::chunk::lemma_valid_reaches_end;
use crate::chunk::lemma_width_bounds;
use crate::chunk::OpCode;
use crate::chunk::patched;
use crate::chunk::width_of;
use crate::compiler::Compiler;
use crate::compiler::CompilerView;
use crate::compiler::Local;
use crate::compiler::LocalView;
use crate::model::char_at_end;
use crate::model::declared_in_scope;
use crate::model::find_local;
use crate::model::high_byte;
use crate::model::low_byte;
use crate::scanner::lemma_scan_at_end;
use crate::scanner::lemma_scan_bounds;
use crate::scanner::Token;
use crate::text::decimal;
use crate::token_type::TokenType;
use crate::value::Value;

verus! {

broadcast use crate::chunk::group_code_prefix;

impl Compiler {
    /// Reports an error at a token, unless an earlier error of the same
    /// statement is still being recovered from.
    pub fn error_at(&mut self, token: &Token, message: &str)
        ensures
            final(self)@ == old(self)@.error_at(token@, message@),
            old(self)@.consistent() ==> final(self)@.consistent(),
            old(self)@.well_formed() ==> final(self)@.well_formed(),
            old(self)@.continues(final(self)@),
            final(self)@.context == old(self)@.context,
    {
        proof {
            reveal(CompilerView::well_formed);
            reveal(CompilerView::consistent);
            reveal(CompilerView::locals_ordered);
            reveal(is_prefix);
            reveal(CompilerView::error_at);
        }
        if self.parser.panic_mode {
            return ;
        }
        self.parser.panic_mode = true;
        let location = if token._type == TokenType::TokenEOF {
            String::from_str(" at end ")
        } else if token._type == TokenType::TokenError {
            String::from_str("")
        } else {
            String::from_str(" at '").concat(token.lexeme.as_str()).concat("' ")
        };
        let line = String::from_str("[line ").concat(decimal(token.line).as_str()).concat(
            "] Error",
        ).concat(location.as_str()).concat(": ").concat(message);
        self.diagnostics.push(line);
        self.parser.had_error = true;
        assert(self@.diagnostics =~= old(self)@.diagnostics.push(line@));
    }

    /// Reports an error at the current token.
    pub fn error_at_current(&mut self, message: &str)
        ensures
            final(self)@ == old(self)@.error_at_current(message@),
            old(self)@.consistent() ==> final(self)@.consistent(),
            old(self)@.well_formed() ==> final(self)@.well_formed(),
            old(self)@.continues(final(self)@),
            final(self)@.context == old(self)@.context,
    {
        proof {
            reveal(CompilerView::well_formed);
            reveal(CompilerView::consistent);
            reveal(CompilerView::locals_ordered);
            reveal(is_prefix);
            reveal(CompilerView::error_at);
            reveal(CompilerView::advance);
        }
        let token = self.parser.current.clone();
        self.error_at(&token, message);
    }

    /// Reports an error at the token consumed last.
    pub fn error(&mut self, message: &str)
        ensures
            final(self)@ == old(self)@.error(message@),
            old(self)@.consistent() ==> final(self)@.consistent(),
            old(self)@.well_formed() ==> final(self)@.well_formed(),
            old(self)@.continues(final(self)@),
            final(self)@.context == old(self)@.context,
    {
        proof {
            reveal(CompilerView::well_formed);
            reveal(CompilerView::consistent);
            reveal(CompilerView::locals_ordered);
            reveal(is_prefix);
            reveal(CompilerView::error_at);
        }
        let token = self.parser.previous.clone();
        self.error_at(&token, message);
    }

    /// Consumes the current token: the scanner's next token that is not an
    /// error token becomes the current one, and each error token on the way
    /// is reported.
    pub fn advance(&mut self)
        requires
            old(self)@.well_formed(),
        ensures
            final(self)@ == old(self)@.advance(),
            final(self)@.well_formed(),
            old(self)@.continues(final(self)@),
            final(self)@.context == old(self)@.context,
            final(self)@.parser.previous == old(self)@.parser.current,
            old(self)@.parser.current._type != TokenType::TokenEOF ==> final(self)@.measure() < old(self)@.measure(),
    {
        proof {
            reveal(CompilerView::well_formed);
            reveal(CompilerView::consistent);
            reveal(CompilerView::locals_ordered);
            reveal(is_prefix);
            reveal(CompilerView::error_at);
            reveal(CompilerView::advance);
        }
        self.parser.previous = self.parser.current.clone();
        let ghost start = self@;
        loop
            invariant_except_break
                self@.next_token() == start.next_token(),
                self@.consistent(),
            invariant
                self@.chunk().well_formed(),
                self@.context == start.context,
                self@.parser.previous == start.parser.previous,
                self@.functions == start.functions,
                self@.scanner.source == start.scanner.source,
                self@.numbers == start.numbers,
                start.scanner.current <= self@.scanner.current,
                start.parser.current._type == TokenType::TokenEOF ==> char_at_end(self@),
            ensures
                self@ == start.next_token(),
                self@.well_formed(),
                start.parser.current._type != TokenType::TokenEOF ==> start.scanner.current
                    < self@.scanner.current || self@.parser.current._type == TokenType::TokenEOF,
            decreases self@.scanner.source.len() - self@.scanner.current,
        {
            proof {
                reveal(CompilerView::well_formed);
                reveal(CompilerView::consistent);
                reveal(CompilerView::locals_ordered);
                reveal(is_prefix);
                reveal(CompilerView::error_at);
                reveal(CompilerView::advance);
            }
            proof {
                lemma_scan_bounds(self@.scanner.source, self@.scanner.current, self@.scanner.line);
                if char_at_end(self@) {
                    lemma_scan_at_end(
                        self@.scanner.source,
                        self@.scanner.current,
                        self@.scanner.line,
                    );
                }
            }
            self.parser.current = self.scanner.scan_token();
            if self.parser.current._type != TokenType::TokenError {
                break ;
            }
            let message = self.parser.current.lexeme.clone();
            self.error_at_current(message.as_str());
        }
    }

    /// Whether the current token is of the given kind.
    pub fn check(&self, kind: TokenType) -> (r: bool)
        ensures
            r == self@.check(kind),
    {
        proof {
            reveal(CompilerView::well_formed);
            reveal(CompilerView::consistent);
            reveal(CompilerView::locals_ordered);
            reveal(is_prefix);
        }
        self.parser.current._type == kind
    }

    /// Consumes the current token if it is of the given kind.
    pub fn matching(&mut self, kind: TokenType) -> (r: bool)
        requires
            old(self)@.well_formed(),
        ensures
            r == old(self)@.check(kind),
            final(self)@ == old(self)@.matching(kind),
            final(self)@.well_formed(),
            old(self)@.continues(final(self)@),
            final(self)@.context == old(self)@.context,
            r && kind != TokenType::TokenEOF ==> final(self)@.measure() < old(self)@.measure(),
    {
        proof {
            reveal(CompilerView::well_formed);
            reveal(CompilerView::consistent);
            reveal(CompilerView::locals_ordered);
            reveal(is_prefix);
            reveal(CompilerView::error_at);
            reveal(CompilerView::advance);
        }
        if !self.check(kind) {
            return false;
        }
        self.advance();
        true
    }

    /// Consumes the current token if it is of the given kind, and reports an
    /// error at it if not.
    pub fn consume(&mut self, kind: TokenType, message: &str)
        requires
            old(self)@.well_formed(),
        ensures
            final(self)@ == old(self)@.consume(kind, message@),
            final(self)@.well_formed(),
            old(self)@.continues(final(self)@),
            final(self)@.context == old(self)@.context,
    {
        proof {
            reveal(CompilerView::well_formed);
            reveal(CompilerView::consistent);
            reveal(CompilerView::locals_ordered);
            reveal(is_prefix);
            reveal(CompilerView::error_at);
            reveal(CompilerView::advance);
        }
        if self.parser.current._type == kind {
            self.advance();
            return ;
        }
        self.error_at_current(message);
    }

    /// Ends the recovery from an error: skips tokens up to where a statement
    /// may start.
    pub fn synchronize(&mut self)
        requires
            old(self)@.well_formed(),
        ensures
            final(self)@ == old(self)@.synchronize(),
            final(self)@.well_formed(),
            old(self)@.continues(final(self)@),
            final(self)@.context == old(self)@.context,
    {
        proof {
            reveal(CompilerView::well_formed);
            reveal(CompilerView::consistent);
            reveal(CompilerView::locals_ordered);
            reveal(is_prefix);
            reveal(CompilerView::advance);
            reveal(CompilerView::synchronize);
        }
        self.parser.panic_mode = false;
        let ghost start = self@;
        while self.parser.current._type != TokenType::TokenEOF
            invariant
                self@.well_formed(),
                start.continues(self@),
                self@.context == start.context,
                self@.skip_to_statement() == start.skip_to_statement(),
            ensures
                self@.well_formed(),
                start.continues(self@),
                self@.context == start.context,
                self@ == start.skip_to_statement(),
            decreases self@.measure(),
        {
            proof {
                reveal(CompilerView::well_formed);
                reveal(CompilerView::consistent);
                reveal(CompilerView::locals_ordered);
                reveal(is_prefix);
                reveal(CompilerView::advance);
                reveal(CompilerView::synchronize);
            }
            if self.parser.previous._type == TokenType::TokenSemicolon {
                break ;
            }
            match self.parser.current._type {
                TokenType::TokenClass
                | TokenType::TokenFun
                | TokenType::TokenVar
                | TokenType::TokenFor
                | TokenType::TokenIf
                | TokenType::TokenWhile
                | TokenType::TokenPrint
                | TokenType::TokenReturn => {
                    break ;
                },
                _ => {},
            }
            self.advance();
        }
    }
}

impl Compiler {
    /// Appends one byte of code, on the line of the token consumed last.
    pub fn emit_byte(&mut self, byte: u8)
        ensures
            final(self)@ == old(self)@.emit_byte(byte),
            old(self)@.keeps_locals(final(self)@),
            old(self)@.consistent() ==> final(self)@.consistent(),
            old(self)@.well_formed() && width_of(byte) == 1 ==> final(self)@.well_formed(),
            old(self)@.continues(final(self)@),
    {
        proof {
            reveal(CompilerView::well_formed);
            reveal(CompilerView::consistent);
            reveal(CompilerView::locals_ordered);
            reveal(is_prefix);
            reveal(CompilerView::emit_byte);
            reveal(CompilerView::make_constant);
        }
        proof {
            if old(self)@.well_formed() && width_of(byte) == 1 {
                lemma_valid_append(
                    old(self)@.code(),
                    old(self)@.chunk().constants.len() as int,
                    0,
                    seq![byte],
                );
                assert(old(self)@.code() + seq![byte] =~= old(self)@.code().push(byte));
            }
        }
        self.curr_compiler.function.chunk.write_chunk(byte, self.parser.previous.line);
    }

    /// Appends two bytes of code: an instruction and its operand, or two
    /// instructions without operands.
    pub fn emit_bytes(&mut self, first: u8, second: u8)
        ensures
            final(self)@ == old(self)@.emit_bytes(first, second),
            old(self)@.keeps_locals(final(self)@),
            old(self)@.consistent() ==> final(self)@.consistent(),
            old(self)@.well_formed() && (width_of(first) == 1 && width_of(second) == 1 || width_of(
                first,
            ) == 2 && (byte_names_constant(first) ==> second < old(self)@.chunk().constants.len()))
                ==> final(self)@.well_formed(),
            old(self)@.continues(final(self)@),
    {
        proof {
            reveal(CompilerView::well_formed);
            reveal(CompilerView::consistent);
            reveal(CompilerView::locals_ordered);
            reveal(is_prefix);
            reveal(CompilerView::emit_byte);
            reveal(CompilerView::make_constant);
        }
        proof {
            let code = old(self)@.code();
            let constants = old(self)@.chunk().constants.len() as int;
            if old(self)@.well_formed() {
                if width_of(first) == 1 && width_of(second) == 1 {
                    lemma_valid_append(code, constants, 0, seq![first]);
                    assert(code + seq![first] =~= code.push(first));
                    lemma_valid_append(code.push(first), constants, 0, seq![second]);
                    assert(code.push(first) + seq![second] =~= code.push(first).push(second));
                } else if width_of(first) == 2 && (byte_names_constant(first) ==> second
                    < constants) {
                    lemma_valid_append(code, constants, 0, seq![first, second]);
                    assert(code + seq![first, second] =~= code.push(first).push(second));
                }
            }
        }
        self.emit_byte(first);
        self.emit_byte(second);
    }

    /// Appends the return of `nil`.
    pub fn emit_return(&mut self)
        requires
            old(self)@.well_formed(),
        ensures
            final(self)@ == old(self)@.emit_return(),
            old(self)@.keeps_locals(final(self)@),
            final(self)@.well_formed(),
            old(self)@.continues(final(self)@),
    {
        proof {
            reveal(CompilerView::well_formed);
            reveal(CompilerView::consistent);
            reveal(CompilerView::locals_ordered);
            reveal(is_prefix);
            reveal(is_jump_site);
            reveal(CompilerView::emit_byte);
        }
        self.emit_bytes(OpCode::OpNil.byte(), OpCode::OpReturn.byte());
    }

    /// Appends a jump whose distance is not known yet, and returns where its
    /// operand stands.
    pub fn emit_jump(&mut self, instruction: u8) -> (site: usize)
        requires
            old(self)@.well_formed(),
            byte_is_jump(instruction),
        ensures
            final(self)@ == old(self)@.emit_jump(instruction),
            old(self)@.keeps_locals(final(self)@),
            site == old(self)@.jump_site(),
            final(self)@.well_formed(),
            old(self)@.continues(final(self)@),
            is_jump_site(final(self)@.code(), site as int),
            final(self)@.code().len() == old(self)@.code().len() + 3,
    {
        proof {
            reveal(CompilerView::well_formed);
            reveal(CompilerView::consistent);
            reveal(CompilerView::locals_ordered);
            reveal(is_prefix);
            reveal(is_jump_site);
            reveal(CompilerView::emit_byte);
            reveal(CompilerView::make_constant);
        }
        proof {
            let code = old(self)@.code();
            let constants = old(self)@.chunk().constants.len() as int;
            lemma_width_bounds(instruction);
            lemma_valid_append(code, constants, 0, seq![instruction, 0xff, 0xff]);
            assert(code + seq![instruction, 0xff, 0xff] =~= code.push(instruction).push(0xff).push(
                0xff,
            ));
            lemma_valid_reaches_end(code, constants, 0);
            lemma_reaches_agree(
                code,
                code.push(instruction).push(0xff).push(0xff),
                0,
                code.len() as int,
            );
        }
        self.emit_byte(instruction);
        self.emit_byte(0xff);
        self.emit_byte(0xff);
        self.curr_compiler.function.chunk.code.len() - 2
    }

    /// Appends a jump back to `loop_start`.
    pub fn emit_loop(&mut self, loop_start: usize)
        requires
            old(self)@.well_formed(),
            loop_start <= old(self)@.code().len(),
        ensures
            final(self)@ == old(self)@.emit_loop(loop_start as int),
            old(self)@.keeps_locals(final(self)@),
            final(self)@.well_formed(),
            old(self)@.continues(final(self)@),
    {
        proof {
            reveal(CompilerView::well_formed);
            reveal(CompilerView::consistent);
            reveal(CompilerView::locals_ordered);
            reveal(is_prefix);
            reveal(is_jump_site);
            reveal(CompilerView::error_at);
            reveal(CompilerView::emit_byte);
            reveal(CompilerView::make_constant);
        }
        self.emit_byte(OpCode::OpLoop.byte());
        let offset: u128 = (self.curr_compiler.function.chunk.code.len() - loop_start) as u128 + 2;
        if offset > 0xffff {
            self.error("Loop body too large.");
        }
        let high = ((offset / 256) % 256) as u8;
        let low = (offset % 256) as u8;
        proof {
            let code = old(self)@.code();
            let constants = old(self)@.chunk().constants.len() as int;
            let byte = OpCode::OpLoop.spec_byte();
            lemma_valid_append(code, constants, 0, seq![byte, high, low]);
            assert(code + seq![byte, high, low] =~= code.push(byte).push(high).push(low));
        }
        self.emit_byte(high);
        self.emit_byte(low);
    }

    /// Fills in the distance of the forward jump whose operand stands at
    /// `site`: from behind the operand to the end of the code.
    pub fn patch_jump(&mut self, site: usize)
        requires
            old(self)@.well_formed(),
            is_jump_site(old(self)@.code(), site as int),
        ensures
            final(self)@ == old(self)@.patch_jump(site as int),
            old(self)@.keeps_locals(final(self)@),
            final(self)@.well_formed(),
            final(self)@.measure() == old(self)@.measure(),
            final(self)@.scanner == old(self)@.scanner,
            final(self)@.numbers == old(self)@.numbers,
            final(self)@.context.fun_type == old(self)@.context.fun_type,
            final(self)@.code() == patched(
                old(self)@.code(),
                site as int,
                high_byte(old(self)@.code().len() - site - 2),
                low_byte(old(self)@.code().len() - site - 2),
            ),
            final(self)@.chunk().constants == old(self)@.chunk().constants,
            final(self)@.context.function.arity == old(self)@.context.function.arity,
            final(self)@.context.function.name == old(self)@.context.function.name,
            final(self)@.functions == old(self)@.functions,
            forall|other: int|
                other != site && is_jump_site(old(self)@.code(), other) ==> is_jump_site(
                    final(self)@.code(),
                    other,
                ),
    {
        proof {
            reveal(CompilerView::well_formed);
            reveal(CompilerView::consistent);
            reveal(CompilerView::locals_ordered);
            reveal(is_prefix);
            reveal(is_jump_site);
            reveal(CompilerView::error_at);
            reveal(CompilerView::patch_jump);
            reveal(CompilerView::make_constant);
        }
        // -2 to adjust for the bytecode for the jump offset itself
        let jump = self.curr_compiler.function.chunk.code.len() - site - 2;
        if jump > 0xffff {
            self.error("Too much code to jump over.");
        }
        let high = ((jump / 256) % 256) as u8;
        let low = (jump % 256) as u8;
        proof {
            let code = old(self)@.code();
            let constants = old(self)@.chunk().constants.len() as int;
            lemma_valid_patch(code, constants, 0, site as int, high, low);
            assert forall|other: int| other != site && is_jump_site(code, other) implies is_jump_site(
                patched(code, site as int, high, low),
                other,
            ) by {
                lemma_jump_site_patch(code, other, site as int, high, low);
            }
        }
        self.curr_compiler.function.chunk.code[site] = high;
        self.curr_compiler.function.chunk.code[site + 1] = low;
        assert(self@.code() =~= patched(old(self)@.code(), site as int, high, low));
    }

    /// Adds a constant and returns its index. A chunk holds 256 constants;
    /// one more is an error, and 0 is returned.
    pub fn make_constant(&mut self, value: Value) -> (index: u8)
        requires
            old(self)@.consistent(),
        ensures
            final(self)@ == old(self)@.make_constant(value@),
            old(self)@.keeps_locals(final(self)@),
            index == old(self)@.constant_index(),
            final(self)@.consistent(),
            old(self)@.well_formed() ==> final(self)@.well_formed(),
            old(self)@.continues(final(self)@),
            final(self)@.code() == old(self)@.code(),
            index < final(self)@.chunk().constants.len(),
    {
        proof {
            reveal(CompilerView::well_formed);
            reveal(CompilerView::consistent);
            reveal(CompilerView::locals_ordered);
            reveal(is_prefix);
            reveal(CompilerView::error_at);
            reveal(CompilerView::make_constant);
        }
        if self.curr_compiler.function.chunk.constants.len() >= 256 {
            self.error("Too many constants in one chunk.");
            return 0;
        }
        proof {
            if old(self)@.well_formed() {
                lemma_valid_more_constants(
                    old(self)@.code(),
                    old(self)@.chunk().constants.len() as int,
                    old(self)@.chunk().constants.len() as int + 1,
                    0,
                );
            }
        }
        self.curr_compiler.function.chunk.add_constant(value)
    }

    /// Adds a constant and appends the instruction that loads it.
    pub fn emit_constant(&mut self, value: Value)
        requires
            old(self)@.well_formed(),
        ensures
            final(self)@ == old(self)@.emit_constant(value@),
            old(self)@.keeps_locals(final(self)@),
            final(self)@.well_formed(),
            old(self)@.continues(final(self)@),
    {
        proof {
            reveal(CompilerView::well_formed);
            reveal(CompilerView::consistent);
            reveal(CompilerView::locals_ordered);
            reveal(is_prefix);
            reveal(CompilerView::emit_byte);
            reveal(CompilerView::make_constant);
        }
        let constant = self.make_constant(value);
        self.emit_operand(OpCode::OpConstant, constant);
    }

    /// Appends an instruction that names a constant, and the index of the
    /// constant.
    pub fn emit_operand(&mut self, instruction: OpCode, constant: u8)
        requires
            old(self)@.well_formed(),
            instruction.operand_width() == 1,
            instruction.names_constant() ==> constant < old(self)@.chunk().constants.len(),
        ensures
            final(self)@ == old(self)@.emit_bytes(instruction.spec_byte(), constant),
            old(self)@.keeps_locals(final(self)@),
            final(self)@.well_formed(),
            old(self)@.continues(final(self)@),
    {
        proof {
            reveal(CompilerView::well_formed);
            reveal(CompilerView::consistent);
            reveal(CompilerView::locals_ordered);
            reveal(is_prefix);
            reveal(CompilerView::emit_byte);
            reveal(CompilerView::make_constant);
        }
        self.emit_bytes(instruction.byte(), constant);
    }

    /// Adds the name of a variable as a constant and returns its index.
    pub fn identifier_constant(&mut self, name: &Token) -> (index: u8)
        requires
            old(self)@.consistent(),
        ensures
            final(self)@ == old(self)@.identifier_constant(name@),
            old(self)@.keeps_locals(final(self)@),
            index == old(self)@.constant_index(),
            final(self)@.consistent(),
            old(self)@.well_formed() ==> final(self)@.well_formed(),
            old(self)@.continues(final(self)@),
            final(self)@.code() == old(self)@.code(),
            index < final(self)@.chunk().constants.len(),
    {
        proof {
            reveal(CompilerView::well_formed);
            reveal(CompilerView::consistent);
            reveal(CompilerView::locals_ordered);
            reveal(is_prefix);
            reveal(CompilerView::make_constant);
        }
        self.make_constant(Value::String(name.lexeme.clone()))
    }
}

impl Compiler {
    /// Enters a scope.
    pub fn begin_scope(&mut self)
        ensures
            final(self)@ == old(self)@.begin_scope(),
            final(self)@.context.locals == old(self)@.context.locals,
            final(self)@.context.scope_depth >= old(self)@.context.scope_depth,
            old(self)@.context.scope_depth == 0 ==> final(self)@.context.scope_depth > 0,
            old(self)@.well_formed() ==> final(self)@.well_formed(),
            old(self)@.settled() ==> final(self)@.settled(),
            old(self)@.continues(final(self)@),
    {
        proof {
            reveal(CompilerView::well_formed);
            reveal(CompilerView::consistent);
            reveal(CompilerView::locals_ordered);
            reveal(is_prefix);
            reveal(CompilerView::begin_scope);
        }
        if self.curr_compiler.scope_depth < usize::MAX {
            self.curr_compiler.scope_depth += 1;
        }
    }

    /// Leaves the innermost scope. Afterwards no local is deeper than the
    /// scope that is current then, and the code has one more `OpPop` for each
    /// local that was dropped.
    pub fn end_scope(&mut self)
        requires
            old(self)@.well_formed(),
        ensures
            final(self)@ == old(self)@.end_scope(),
            final(self)@.well_formed(),
            final(self)@.settled(),
            old(self)@.continues(final(self)@),
            forall|i: int|
                0 <= i < final(self)@.context.locals.len() ==> {
                    &&& (#[trigger] final(self)@.context.locals[i]).depth is Some
                    &&& final(self)@.context.locals[i].depth->0 <= final(self)@.context.scope_depth
                },
            ({
                let dropped = old(self)@.context.locals.len() - final(self)@.context.locals.len();
                &&& 0 <= dropped
                &&& final(self)@.context.locals == old(self)@.context.locals.take(
                    final(self)@.context.locals.len() as int,
                )
                &&& final(self)@.code() == old(self)@.code() + Seq::new(
                    dropped as nat,
                    |i: int| OpCode::OpPop.spec_byte(),
                )
            }),
    {
        proof {
            reveal(CompilerView::well_formed);
            reveal(CompilerView::consistent);
            reveal(CompilerView::locals_ordered);
            reveal(is_prefix);
            reveal(CompilerView::error_at);
            reveal(CompilerView::emit_byte);
            reveal(CompilerView::end_scope);
        }
        let depth = if self.curr_compiler.scope_depth > 0 {
            self.curr_compiler.scope_depth - 1
        } else {
            0
        };
        let ghost start = self@;
        assert(start.context.locals.take(start.context.locals.len() as int)
            =~= start.context.locals);
        assert(start.code() + Seq::new(0, |i: int| OpCode::OpPop.spec_byte()) =~= start.code());
        // Pop any local variables declared at the scope depth we just left
        loop
            invariant
                self@.well_formed(),
                start.continues(self@),
                self@.pop_locals(depth) == start.pop_locals(depth),
                self@.context.scope_depth == start.context.scope_depth,
                self@.context.locals.len() <= start.context.locals.len(),
                self@.context.locals == start.context.locals.take(
                    self@.context.locals.len() as int,
                ),
                self@.code() == start.code() + Seq::new(
                    (start.context.locals.len() - self@.context.locals.len()) as nat,
                    |i: int| OpCode::OpPop.spec_byte(),
                ),
            ensures
                self@ == start.pop_locals(depth),
                self@.context.locals.len() > 0 ==> self@.context.locals.last().depth is Some
                    && self@.context.locals.last().depth->0 <= depth,
            decreases self@.context.locals.len(),
        {
            proof {
                reveal(CompilerView::well_formed);
                reveal(CompilerView::consistent);
                reveal(CompilerView::locals_ordered);
                reveal(is_prefix);
                reveal(CompilerView::error_at);
                reveal(CompilerView::emit_byte);
                reveal(CompilerView::end_scope);
            }
            let count = self.curr_compiler.locals.len();
            if count == 0 {
                break ;
            }
            assert(self@.context.locals.last() == self.curr_compiler.locals@[count - 1]@);
            match self.curr_compiler.locals[count - 1].depth {
                Some(local_depth) => {
                    if local_depth <= depth {
                        break ;
                    }
                },
                None => {},
            }
            let ghost before = self@;
            self.emit_byte(OpCode::OpPop.byte());
            self.curr_compiler.locals.pop();
            proof {
                assert(self@.context.locals =~= before.context.locals.drop_last());
                assert(self@.context.locals =~= start.context.locals.take(
                    self@.context.locals.len() as int,
                ));
                assert(self@.code() =~= start.code() + Seq::new(
                    (start.context.locals.len() - self@.context.locals.len()) as nat,
                    |i: int| OpCode::OpPop.spec_byte(),
                ));
                lemma_width_bounds(OpCode::OpPop.spec_byte());
            }
        }
        self.curr_compiler.scope_depth = depth;
    }

    /// Adds a local that is not initialized yet. A function has room for 257
    /// locals; one more is an error.
    pub fn add_local(&mut self, name: Token)
        requires
            old(self)@.consistent(),
            old(self)@.settled(),
        ensures
            final(self)@ == old(self)@.add_local(name@),
            final(self)@.consistent(),
            old(self)@.well_formed() ==> final(self)@.well_formed(),
            old(self)@.continues(final(self)@),
            final(self)@.code() == old(self)@.code(),
    {
        proof {
            reveal(CompilerView::well_formed);
            reveal(CompilerView::consistent);
            reveal(CompilerView::locals_ordered);
            reveal(is_prefix);
            reveal(CompilerView::error_at);
            reveal(CompilerView::add_local);
        }
        if self.curr_compiler.locals.len() > 256 {
            self.error("Too many local variables in function");
            return ;
        }
        let local = Local { depth: None, name };
        self.curr_compiler.locals.push(local);
        assert(self@.context.locals =~= old(self)@.context.locals.push(local@));
    }

    /// Whether two tokens spell the same name.
    pub fn identifier_equal(&self, a: &Token, b: &Token) -> (r: bool)
        ensures
            r == (a@.lexeme == b@.lexeme),
    {
        proof {
            reveal(CompilerView::well_formed);
            reveal(CompilerView::consistent);
            reveal(CompilerView::locals_ordered);
            reveal(is_prefix);
            reveal(CompilerView::error_at);
        }
        a.lexeme == b.lexeme
    }

    /// Looks a name up among the locals, the newest first, and returns the
    /// slot of the local that is found. A local that is found before its
    /// initializer is finished is an error.
    pub fn resolve_local(&mut self, name: &Token) -> (slot: Option<usize>)
        requires
            old(self)@.consistent(),
        ensures
            final(self)@ == old(self)@.resolve_local(name@),
            old(self)@.keeps_locals(final(self)@),
            match slot {
                Some(index) => find_local(old(self)@.context.locals, name@.lexeme) == Some(
                    index as int,
                ),
                None => find_local(old(self)@.context.locals, name@.lexeme) is None,
            },
            slot matches Some(index) ==> index <= 256,
            slot is None ==> final(self)@ == old(self)@,
            final(self)@.consistent(),
            old(self)@.well_formed() ==> final(self)@.well_formed(),
            old(self)@.continues(final(self)@),
            final(self)@.chunk() == old(self)@.chunk(),
    {
        proof {
            reveal(CompilerView::well_formed);
            reveal(CompilerView::consistent);
            reveal(CompilerView::locals_ordered);
            reveal(is_prefix);
            reveal(CompilerView::error_at);
            reveal(CompilerView::advance);
            reveal(CompilerView::resolve_local);
        }
        let mut i = self.curr_compiler.locals.len();
        let ghost locals = self@.context.locals;
        assert(locals.take(i as int) =~= locals);
        while i > 0
            invariant
                self@ == old(self)@,
                self@.consistent(),
                locals == self@.context.locals,
                i <= locals.len(),
                find_local(locals.take(i as int), name@.lexeme) == find_local(locals, name@.lexeme),
            decreases i,
        {
            proof {
                reveal(CompilerView::well_formed);
                reveal(CompilerView::consistent);
                reveal(CompilerView::locals_ordered);
                reveal(is_prefix);
                reveal(CompilerView::error_at);
                reveal(CompilerView::advance);
                reveal(CompilerView::resolve_local);
            }
            i -= 1;
            assert(locals.take(i + 1).last() == self.curr_compiler.locals@[i as int]@);
            assert(locals.take(i + 1).drop_last() =~= locals.take(i as int));
            if self.identifier_equal(name, &self.curr_compiler.locals[i].name) {
                if self.curr_compiler.locals[i].depth.is_none() {
                    self.error("Can't read local variable in its own initializer.");
                }
                return Some(i);
            }
        }
        None
    }

    /// Declares the variable named by the token consumed last. At the top
    /// level nothing is done. In a scope the variable becomes a local; a
    /// second variable of one name in one scope is an error.
    pub fn declare_variable(&mut self)
        requires
            old(self)@.consistent(),
            old(self)@.settled(),
        ensures
            final(self)@ == old(self)@.declare_variable(),
            final(self)@.consistent(),
            old(self)@.well_formed() ==> final(self)@.well_formed(),
            old(self)@.continues(final(self)@),
            final(self)@.code() == old(self)@.code(),
    {
        proof {
            reveal(CompilerView::well_formed);
            reveal(CompilerView::consistent);
            reveal(CompilerView::locals_ordered);
            reveal(is_prefix);
            reveal(CompilerView::error_at);
            reveal(CompilerView::add_local);
        }
        // Global variables are implicitly declared
        if self.curr_compiler.scope_depth == 0 {
            return ;
        }
        let name = self.parser.previous.clone();
        let mut i = self.curr_compiler.locals.len();
        let ghost locals = self@.context.locals;
        let depth = self.curr_compiler.scope_depth;
        let mut found = false;
        assert(locals.take(i as int) =~= locals);
        while i > 0
            invariant_except_break
                !found,
                declared_in_scope(locals.take(i as int), name@.lexeme, depth) == declared_in_scope(
                    locals,
                    name@.lexeme,
                    depth,
                ),
            invariant
                self@ == old(self)@,
                locals == self@.context.locals,
                i <= locals.len(),
            ensures
                found == declared_in_scope(locals, name@.lexeme, depth),
            decreases i,
        {
            proof {
                reveal(CompilerView::well_formed);
                reveal(CompilerView::consistent);
                reveal(CompilerView::locals_ordered);
                reveal(is_prefix);
                reveal(CompilerView::error_at);
                reveal(CompilerView::add_local);
            }
            i -= 1;
            assert(locals.take(i + 1).last() == self.curr_compiler.locals@[i as int]@);
            assert(locals.take(i + 1).drop_last() =~= locals.take(i as int));
            let local = &self.curr_compiler.locals[i];
            match local.depth {
                Some(local_depth) => {
                    if local_depth < depth {
                        break ;
                    }
                },
                None => {},
            }
            if self.identifier_equal(&name, &local.name) {
                found = true;
                break ;
            }
        }
        if found {
            self.error("Already variable with name in this scope.");
        }
        self.add_local(name);
    }

    /// Marks the newest local as initialized, in the current scope.
    pub fn mark_initialized(&mut self)
        requires
            old(self)@.consistent(),
        ensures
            final(self)@ == old(self)@.mark_initialized(),
            final(self)@.context.scope_depth == old(self)@.context.scope_depth,
            final(self)@.chunk() == old(self)@.chunk(),
            final(self)@.consistent(),
            old(self)@.well_formed() ==> final(self)@.well_formed(),
            old(self)@.continues(final(self)@),
            old(self)@.settled() || old(self)@.context.scope_depth > 0 ==> final(self)@.settled(),
            final(self)@.code() == old(self)@.code(),
    {
        proof {
            reveal(CompilerView::well_formed);
            reveal(CompilerView::consistent);
            reveal(CompilerView::locals_ordered);
            reveal(is_prefix);
            reveal(CompilerView::mark_initialized);
        }
        if self.curr_compiler.scope_depth == 0 {
            return ;
        }
        let count = self.curr_compiler.locals.len();
        if count == 0 {
            return ;
        }
        let depth = self.curr_compiler.scope_depth;
        let ghost before = self@.context.locals;
        assert(before.last() == self.curr_compiler.locals@[count - 1]@);
        self.curr_compiler.locals[count - 1].depth = Some(depth);
        assert(self@.context.locals =~= before.update(
            count - 1,
            LocalView { depth: Some(depth), ..before.last() },
        ));
    }

    /// Makes the variable that was declared last usable: a global is defined
    /// by an instruction that names it, a local is marked as initialized.
    pub fn define_variable(&mut self, global: u8)
        requires
            old(self)@.well_formed(),
            old(self)@.context.scope_depth == 0 ==> global < old(self)@.chunk().constants.len(),
        ensures
            final(self)@ == old(self)@.define_variable(global),
            final(self)@.context.scope_depth == old(self)@.context.scope_depth,
            final(self)@.well_formed(),
            old(self)@.continues(final(self)@),
            old(self)@.settled() || old(self)@.context.scope_depth > 0 ==> final(self)@.settled(),
    {
        proof {
            reveal(CompilerView::well_formed);
            reveal(CompilerView::consistent);
            reveal(CompilerView::locals_ordered);
            reveal(is_prefix);
            reveal(CompilerView::emit_byte);
            reveal(CompilerView::make_constant);
            reveal(CompilerView::mark_initialized);
        }
        if self.curr_compiler.scope_depth == 0 {
            self.emit_operand(OpCode::OpDefineGlobal, global);
        } else {
            self.mark_initialized();
        }
    }

    /// Reads the name of a variable that is being declared, and declares it.
    /// Returns the operand that names the variable: the index of its name
    /// among the constants for a global, 0 for a local.
    pub fn parse_variable(&mut self, message: &str) -> (index: u8)
        requires
            old(self)@.well_formed(),
            old(self)@.settled(),
        ensures
            final(self)@ == old(self)@.parse_variable(message@),
            index == old(self)@.variable_index(message@),
            final(self)@.well_formed(),
            old(self)@.continues(final(self)@),
            final(self)@.context.scope_depth == old(self)@.context.scope_depth,
            final(self)@.context.scope_depth == 0 ==> index < final(self)@.chunk().constants.len()
                && final(self)@.settled(),
    {
        proof {
            reveal(CompilerView::well_formed);
            reveal(CompilerView::consistent);
            reveal(CompilerView::locals_ordered);
            reveal(is_prefix);
            reveal(CompilerView::error_at);
            reveal(CompilerView::advance);
            reveal(CompilerView::make_constant);
            reveal(CompilerView::add_local);
        }
        self.consume(TokenType::TokenIdentifier, message);
        self.declare_variable();
        if self.curr_compiler.scope_depth == 0 {
            let name = self.parser.previous.clone();
            self.identifier_constant(&name)
        } else {
            0
        }
    }
}

} // verus!
