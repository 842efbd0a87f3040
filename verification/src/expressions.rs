//! Expressions: a Pratt parser that writes code as it reads.
//!
//! The first half of this file says what each routine makes of a state, the
//! second half holds the routines. The routines call each other in turn, so
//! their statements carry a bound on the depth of the calls, `fuel`. A bound
//! that covers what is left to read (see [`CompilerView::budget`]) is never
//! used up.

use vstd::prelude::*;
use vstd::string::*;
use crate::chunk::OpCode;
use crate::chunk::width_of;
use crate::compiler::Compiler;
use crate::compiler::CompilerView;
use crate::model::find_local;
use crate::model::lemma_well_formed_consistent;
use crate::precedence::Precedence;
use crate::rules::get_rule;
use crate::rules::operators_have_infix_rules;
use crate::rules::ParseFn;
use crate::rules::rule_of;
use crate::scanner::Token;
use crate::scanner::TokenView;
use crate::token_type::TokenType;
use crate::value::Value;
use crate::value::ValueView;

verus! {

broadcast use crate::chunk::group_code_prefix;

/// The content of a string literal: its text without the quotes.
pub open spec fn string_content(lexeme: Seq<char>) -> Seq<char> {
    if lexeme.len() >= 2 {
        lexeme.subrange(1, lexeme.len() - 1)
    } else {
        seq![]
    }
}

/// The operand byte that names a local: its slot, of which only the low
/// eight bits fit.
pub open spec fn slot_byte(slot: int) -> u8 {
    (slot % 256) as u8
}

impl CompilerView {
    /// A bound on the depth of calls that suffices for a routine of the given
    /// rank in this state.
    pub open spec fn budget(self, rank: nat) -> int {
        32 * self.measure() + rank
    }

    /// An expression: it is parsed at the weakest level that binds at all.
    #[verifier::opaque]
    pub open spec fn expression(self, fuel: nat) -> CompilerView
        decreases fuel,
    {
        if fuel == 0 {
            self
        } else {
            self.parse_precedence(Precedence::PrecAssignment, (fuel - 1) as nat)
        }
    }

    /// An expression whose operators bind at least as strongly as
    /// `precedence`. The first token must start an expression; then each
    /// operator that binds strongly enough takes what was parsed so far as
    /// its left operand. A `=` that is left over where an assignment could
    /// stand has no variable before it, which is an error.
    #[verifier::opaque]
    pub open spec fn parse_precedence(self, precedence: Precedence, fuel: nat) -> CompilerView
        decreases fuel,
    {
        if fuel == 0 {
            self
        } else {
            let advanced = self.advance();
            match rule_of(advanced.parser.previous._type).prefix {
                None => advanced.error("Expect expression."@),
                Some(rule) => {
                    let can_assign = precedence.rank() <= Precedence::PrecAssignment.rank();
                    let tail = advanced.prefix_rule(rule, can_assign, (fuel - 1) as nat).infix_loop(
                        precedence,
                        can_assign,
                        (fuel - 1) as nat,
                    );
                    if can_assign && tail.check(TokenType::TokenEqual) {
                        tail.advance().error("Invalid assignment target."@)
                    } else {
                        tail
                    }
                },
            }
        }
    }

    /// The operators that follow an operand: as long as the current token
    /// binds at least as strongly as `precedence`, it is consumed and its
    /// infix routine takes over.
    #[verifier::opaque]
    pub open spec fn infix_loop(self, precedence: Precedence, can_assign: bool, fuel: nat)
        -> CompilerView
        decreases fuel,
    {
        if fuel == 0 {
            self
        } else if precedence.rank() <= rule_of(self.parser.current._type).precedence.rank() {
            let advanced = self.advance();
            match rule_of(advanced.parser.previous._type).infix {
                Some(rule) => advanced.infix_rule(rule, can_assign, (fuel - 1) as nat).infix_loop(
                    precedence,
                    can_assign,
                    (fuel - 1) as nat,
                ),
                None => advanced,
            }
        } else {
            self
        }
    }

    /// The routine for a token that starts an expression.
    #[verifier::opaque]
    pub open spec fn prefix_rule(self, rule: ParseFn, can_assign: bool, fuel: nat) -> CompilerView
        decreases fuel,
    {
        if fuel == 0 {
            self
        } else {
            match rule {
                ParseFn::Grouping => self.grouping((fuel - 1) as nat),
                ParseFn::Unary => self.unary((fuel - 1) as nat),
                ParseFn::Variable => self.variable(can_assign, (fuel - 1) as nat),
                ParseFn::String => self.string(),
                ParseFn::Number => self.number(),
                ParseFn::Literal => self.literal(),
                _ => self,
            }
        }
    }

    /// The routine for a token that follows an operand.
    #[verifier::opaque]
    pub open spec fn infix_rule(self, rule: ParseFn, can_assign: bool, fuel: nat) -> CompilerView
        decreases fuel,
    {
        if fuel == 0 {
            self
        } else {
            match rule {
                ParseFn::Call => self.call((fuel - 1) as nat),
                ParseFn::Binary => self.binary((fuel - 1) as nat),
                ParseFn::And => self.and_((fuel - 1) as nat),
                ParseFn::Or => self.or_((fuel - 1) as nat),
                _ => self,
            }
        }
    }

    /// A parenthesized expression, after its `(`.
    #[verifier::opaque]
    pub open spec fn grouping(self, fuel: nat) -> CompilerView
        decreases fuel,
    {
        if fuel == 0 {
            self
        } else {
            self.expression((fuel - 1) as nat).consume(
                TokenType::TokenRightParen,
                "Expect ')' after expression."@,
            )
        }
    }

    /// A number literal: its value is looked up in the number table and
    /// becomes a constant. A numeral that the table lacks is an error.
    #[verifier::opaque]
    pub open spec fn number(self) -> CompilerView {
        let text = self.parser.previous.lexeme;
        if self.numbers.contains_key(text) {
            self.emit_constant(ValueView::Number(self.numbers[text]))
        } else {
            self.error("Expect value of number."@)
        }
    }

    /// A string literal: its content becomes a constant.
    #[verifier::opaque]
    pub open spec fn string(self) -> CompilerView {
        self.emit_constant(ValueView::String(string_content(self.parser.previous.lexeme)))
    }

    /// `false`, `nil` or `true`.
    #[verifier::opaque]
    pub open spec fn literal(self) -> CompilerView {
        match self.parser.previous._type {
            TokenType::TokenFalse => self.emit_byte(OpCode::OpFalse.spec_byte()),
            TokenType::TokenNil => self.emit_byte(OpCode::OpNil.spec_byte()),
            TokenType::TokenTrue => self.emit_byte(OpCode::OpTrue.spec_byte()),
            _ => self,
        }
    }

    /// The instruction of a unary operator, after its operand.
    #[verifier::opaque]
    pub open spec fn unary_operator(self, operator: TokenType) -> CompilerView {
        match operator {
            TokenType::TokenBang => self.emit_byte(OpCode::OpNot.spec_byte()),
            TokenType::TokenMinus => self.emit_byte(OpCode::OpNegate.spec_byte()),
            _ => self,
        }
    }

    /// A unary operator, after the operator token: the operand, then the
    /// operator's instruction.
    #[verifier::opaque]
    pub open spec fn unary(self, fuel: nat) -> CompilerView
        decreases fuel,
    {
        if fuel == 0 {
            self
        } else {
            self.parse_precedence(Precedence::PrecUnary, (fuel - 1) as nat).unary_operator(
                self.parser.previous._type,
            )
        }
    }

    /// The instructions of a binary operator, after its operands. `!=`, `>=`
    /// and `<=` are the negations of `==`, `<` and `>`.
    #[verifier::opaque]
    pub open spec fn binary_operator(self, operator: TokenType) -> CompilerView {
        match operator {
            TokenType::TokenBangEqual => self.emit_bytes(
                OpCode::OpEqual.spec_byte(),
                OpCode::OpNot.spec_byte(),
            ),
            TokenType::TokenEqualEqual => self.emit_byte(OpCode::OpEqual.spec_byte()),
            TokenType::TokenGreater => self.emit_byte(OpCode::OpGreater.spec_byte()),
            TokenType::TokenGreaterEqual => self.emit_bytes(
                OpCode::OpLess.spec_byte(),
                OpCode::OpNot.spec_byte(),
            ),
            TokenType::TokenLess => self.emit_byte(OpCode::OpLess.spec_byte()),
            TokenType::TokenLessEqual => self.emit_bytes(
                OpCode::OpGreater.spec_byte(),
                OpCode::OpNot.spec_byte(),
            ),
            TokenType::TokenPlus => self.emit_byte(OpCode::OpAdd.spec_byte()),
            TokenType::TokenMinus => self.emit_byte(OpCode::OpSubtract.spec_byte()),
            TokenType::TokenStar => self.emit_byte(OpCode::OpMultiply.spec_byte()),
            TokenType::TokenSlash => self.emit_byte(OpCode::OpDivide.spec_byte()),
            TokenType::TokenCarat => self.emit_byte(OpCode::OpExponent.spec_byte()),
            _ => self,
        }
    }

    /// A binary operator, after the operator token: the right operand, in
    /// which only operators bind that are stronger than this one, then the
    /// operator's instructions.
    #[verifier::opaque]
    pub open spec fn binary(self, fuel: nat) -> CompilerView
        decreases fuel,
    {
        if fuel == 0 {
            self
        } else {
            let operator = self.parser.previous._type;
            self.parse_precedence(
                Precedence::of_rank(rule_of(operator).precedence.rank() + 1),
                (fuel - 1) as nat,
            ).binary_operator(operator)
        }
    }

    /// The arguments of a call after the first `count`, up to the `)`: the
    /// state after them and how many there are in all. At most 255 are
    /// counted; one more is an error.
    #[verifier::opaque]
    pub open spec fn arguments(self, count: u8, fuel: nat) -> (CompilerView, u8)
        decreases fuel,
    {
        if fuel == 0 {
            (self, count)
        } else {
            let parsed = self.expression((fuel - 1) as nat);
            let counted = if count == 255 {
                (parsed.error("Can't have more than 255 arguments."@), count)
            } else {
                (parsed, (count + 1) as u8)
            };
            if counted.0.check(TokenType::TokenComma) {
                counted.0.advance().arguments(counted.1, (fuel - 1) as nat)
            } else {
                counted
            }
        }
    }

    /// The argument list of a call, after its `(`: the state after the `)`
    /// and the number of arguments.
    #[verifier::opaque]
    pub open spec fn argument_list(self, fuel: nat) -> (CompilerView, u8)
        decreases fuel,
    {
        if fuel == 0 {
            (self, 0)
        } else {
            let listed = if self.check(TokenType::TokenRightParen) {
                (self, 0u8)
            } else {
                self.arguments(0, (fuel - 1) as nat)
            };
            (
                listed.0.consume(TokenType::TokenRightParen, "Expect ')' after arguments."@),
                listed.1,
            )
        }
    }

    /// A call, after the `(`: the arguments, then the call instruction with
    /// their number.
    #[verifier::opaque]
    pub open spec fn call(self, fuel: nat) -> CompilerView
        decreases fuel,
    {
        if fuel == 0 {
            self
        } else {
            let listed = self.argument_list((fuel - 1) as nat);
            listed.0.emit_bytes(OpCode::OpCall.spec_byte(), listed.1)
        }
    }

    /// `and`, after the operator token. If the left operand is falsey it is
    /// the result and the right operand is jumped over; else it is dropped
    /// and the right operand is the result.
    #[verifier::opaque]
    pub open spec fn and_(self, fuel: nat) -> CompilerView
        decreases fuel,
    {
        if fuel == 0 {
            self
        } else {
            self.emit_jump(OpCode::OpJumpIfFalse.spec_byte()).emit_byte(
                OpCode::OpPop.spec_byte(),
            ).parse_precedence(Precedence::PrecAnd, (fuel - 1) as nat).patch_jump(self.jump_site())
        }
    }

    /// `or`, after the operator token. If the left operand is falsey it is
    /// dropped and the right operand is the result; else it is the result and
    /// the right operand is jumped over.
    #[verifier::opaque]
    pub open spec fn or_(self, fuel: nat) -> CompilerView
        decreases fuel,
    {
        if fuel == 0 {
            self
        } else {
            let else_jump = self.emit_jump(OpCode::OpJumpIfFalse.spec_byte());
            else_jump.emit_jump(OpCode::OpJump.spec_byte()).patch_jump(self.jump_site()).emit_byte(
                OpCode::OpPop.spec_byte(),
            ).parse_precedence(Precedence::PrecOr, (fuel - 1) as nat).patch_jump(
                else_jump.jump_site(),
            )
        }
    }

    /// A variable, after its name: see `named_variable`.
    #[verifier::opaque]
    pub open spec fn variable(self, can_assign: bool, fuel: nat) -> CompilerView
        decreases fuel,
    {
        if fuel == 0 {
            self
        } else {
            self.named_variable(self.parser.previous, can_assign, (fuel - 1) as nat)
        }
    }

    /// A use of the variable `name`. The newest local of that name is meant
    /// if there is one, else the global of that name, whose name becomes a
    /// constant. If a `=` follows where an assignment can stand, the
    /// expression after it is assigned to the variable; else the variable is
    /// read.
    #[verifier::opaque]
    pub open spec fn named_variable(self, name: TokenView, can_assign: bool, fuel: nat)
        -> CompilerView
        decreases fuel,
    {
        if fuel == 0 {
            self
        } else {
            let slot = find_local(self.context.locals, name.lexeme);
            let resolved = match slot {
                Some(_) => self.resolve_local(name),
                None => self.identifier_constant(name),
            };
            let operand = match slot {
                Some(index) => slot_byte(index),
                None => self.constant_index(),
            };
            if can_assign && resolved.check(TokenType::TokenEqual) {
                resolved.advance().expression((fuel - 1) as nat).emit_bytes(
                    if slot is Some {
                        OpCode::OpSetLocal.spec_byte()
                    } else {
                        OpCode::OpSetGlobal.spec_byte()
                    },
                    operand,
                )
            } else {
                resolved.emit_bytes(
                    if slot is Some {
                        OpCode::OpGetLocal.spec_byte()
                    } else {
                        OpCode::OpGetGlobal.spec_byte()
                    },
                    operand,
                )
            }
        }
    }
}

impl CompilerView {
    /// The operators at the root of what `parse_precedence` parses at
    /// `precedence`: the tokens that its loop consumes as infix operators,
    /// each of which takes all that was parsed before it as its left
    /// operand.
    pub open spec fn root_operators(self, precedence: Precedence, can_assign: bool, fuel: nat)
        -> Seq<TokenType>
        decreases fuel,
    {
        if fuel == 0 {
            seq![]
        } else if precedence.rank() <= rule_of(self.parser.current._type).precedence.rank() {
            let advanced = self.advance();
            match rule_of(advanced.parser.previous._type).infix {
                Some(rule) => seq![self.parser.current._type] + advanced.infix_rule(
                    rule,
                    can_assign,
                    (fuel - 1) as nat,
                ).root_operators(precedence, can_assign, (fuel - 1) as nat),
                None => seq![],
            }
        } else {
            seq![]
        }
    }
}

/// Parsing is precedence-correct: no operator at the root of an expression
/// that is parsed at some precedence binds more weakly than that precedence.
pub proof fn root_operators_bind_strongly_enough(
    state: CompilerView,
    precedence: Precedence,
    can_assign: bool,
    fuel: nat,
    i: int,
)
    requires
        0 <= i < state.root_operators(precedence, can_assign, fuel).len(),
    ensures
        rule_of(state.root_operators(precedence, can_assign, fuel)[i]).precedence.rank()
            >= precedence.rank(),
    decreases fuel,
{
    if fuel > 0 && precedence.rank() <= rule_of(state.parser.current._type).precedence.rank() {
        let advanced = state.advance();
        match rule_of(advanced.parser.previous._type).infix {
            Some(rule) => {
                if i > 0 {
                    root_operators_bind_strongly_enough(
                        advanced.infix_rule(rule, can_assign, (fuel - 1) as nat),
                        precedence,
                        can_assign,
                        (fuel - 1) as nat,
                        i - 1,
                    );
                }
            },
            None => {},
        }
    }
}

impl Compiler {
    /// Compiles an expression.
    pub(crate) fn expression(&mut self, Ghost(fuel): Ghost<nat>)
        requires
            old(self)@.well_formed(),
            fuel >= old(self)@.budget(2),
        ensures
            final(self)@ == old(self)@.expression(fuel),
            final(self)@.well_formed(),
            old(self)@.continues(final(self)@),
            old(self)@.keeps_locals(final(self)@),
            old(self)@.parser.current._type != TokenType::TokenEOF ==> final(self)@.measure() < old(self)@.measure(),
        decreases fuel,
    {
        proof {
            reveal(CompilerView::expression);
            reveal(CompilerView::parse_precedence);
        }
        self.parse_precedence(Precedence::PrecAssignment, Ghost((fuel - 1) as nat));
    }

    /// Compiles an expression whose operators bind at least as strongly as
    /// `precedence`.
    pub(crate) fn parse_precedence(&mut self, precedence: Precedence, Ghost(fuel): Ghost<nat>)
        requires
            old(self)@.well_formed(),
            precedence != Precedence::PrecNone,
            fuel >= old(self)@.budget(1),
        ensures
            final(self)@ == old(self)@.parse_precedence(precedence, fuel),
            final(self)@.well_formed(),
            old(self)@.continues(final(self)@),
            old(self)@.keeps_locals(final(self)@),
            old(self)@.parser.current._type != TokenType::TokenEOF ==> final(self)@.measure() < old(self)@.measure(),
        decreases fuel,
    {
        proof {
            reveal(CompilerView::parse_precedence);
            reveal(CompilerView::infix_loop);
            reveal(CompilerView::prefix_rule);
            reveal(CompilerView::infix_rule);
        }
        self.advance();
        let prefix = get_rule(self.parser.previous._type).prefix;
        let can_assign = precedence.level() <= Precedence::PrecAssignment.level();
        match prefix {
            Some(rule) => {
                self.prefix_rule(rule, can_assign, Ghost((fuel - 1) as nat));
            },
            None => {
                self.error("Expect expression.");
                return ;
            },
        }
        let ghost operand = self@;
        let ghost mut left = (fuel - 1) as nat;
        while precedence.level() <= get_rule(self.parser.current._type).precedence.level()
            invariant
                self@.well_formed(),
                old(self)@.continues(self@),
                old(self)@.keeps_locals(self@),
                self@.measure() < old(self)@.measure(),
                precedence != Precedence::PrecNone,
                left < fuel,
                left >= self@.budget(1),
                self@.infix_loop(precedence, can_assign, left) == operand.infix_loop(
                    precedence,
                    can_assign,
                    (fuel - 1) as nat,
                ),
            decreases left,
        {
            proof {
                reveal(CompilerView::infix_loop);
                reveal(CompilerView::infix_rule);
                operators_have_infix_rules(self@.parser.current._type);
            }
            self.advance();
            match get_rule(self.parser.previous._type).infix {
                Some(rule) => {
                    self.infix_rule(rule, can_assign, Ghost((left - 1) as nat));
                },
                None => {},
            }
            proof {
                left = (left - 1) as nat;
            }
        }
        if can_assign && self.matching(TokenType::TokenEqual) {
            self.error("Invalid assignment target.");
        }
    }

    /// Runs the routine for a token that starts an expression.
    fn prefix_rule(&mut self, rule: ParseFn, can_assign: bool, Ghost(fuel): Ghost<nat>)
        requires
            old(self)@.well_formed(),
            fuel >= old(self)@.budget(6),
        ensures
            final(self)@ == old(self)@.prefix_rule(rule, can_assign, fuel),
            final(self)@.well_formed(),
            old(self)@.continues(final(self)@),
            old(self)@.keeps_locals(final(self)@),
        decreases fuel,
    {
        proof {
            reveal(CompilerView::prefix_rule);
            reveal(CompilerView::grouping);
            reveal(CompilerView::unary);
            reveal(CompilerView::variable);
        }
        match rule {
            ParseFn::Grouping => self.grouping(can_assign, Ghost((fuel - 1) as nat)),
            ParseFn::Unary => self.unary(can_assign, Ghost((fuel - 1) as nat)),
            ParseFn::Variable => self.variable(can_assign, Ghost((fuel - 1) as nat)),
            ParseFn::String => self.string(can_assign),
            ParseFn::Number => self.number(can_assign),
            ParseFn::Literal => self.literal(can_assign),
            _ => {},
        }
    }

    /// Runs the routine for a token that follows an operand.
    fn infix_rule(&mut self, rule: ParseFn, can_assign: bool, Ghost(fuel): Ghost<nat>)
        requires
            old(self)@.well_formed(),
            fuel >= old(self)@.budget(6),
        ensures
            final(self)@ == old(self)@.infix_rule(rule, can_assign, fuel),
            final(self)@.well_formed(),
            old(self)@.continues(final(self)@),
            old(self)@.keeps_locals(final(self)@),
        decreases fuel,
    {
        proof {
            reveal(CompilerView::infix_rule);
            reveal(CompilerView::call);
            reveal(CompilerView::binary);
            reveal(CompilerView::and_);
            reveal(CompilerView::or_);
        }
        match rule {
            ParseFn::Call => self.call(can_assign, Ghost((fuel - 1) as nat)),
            ParseFn::Binary => self.binary(can_assign, Ghost((fuel - 1) as nat)),
            ParseFn::And => self.and_(can_assign, Ghost((fuel - 1) as nat)),
            ParseFn::Or => self.or_(can_assign, Ghost((fuel - 1) as nat)),
            _ => {},
        }
    }

    /// Compiles a parenthesized expression whose `(` has been consumed.
    fn grouping(&mut self, _can_assign: bool, Ghost(fuel): Ghost<nat>)
        requires
            old(self)@.well_formed(),
            fuel >= old(self)@.budget(3),
        ensures
            final(self)@ == old(self)@.grouping(fuel),
            final(self)@.well_formed(),
            old(self)@.continues(final(self)@),
            old(self)@.keeps_locals(final(self)@),
        decreases fuel,
    {
        proof {
            reveal(CompilerView::grouping);
            reveal(CompilerView::expression);
        }
        self.expression(Ghost((fuel - 1) as nat));
        self.consume(TokenType::TokenRightParen, "Expect ')' after expression.");
    }

    /// Compiles the number literal that has just been consumed.
    fn number(&mut self, _can_assign: bool)
        requires
            old(self)@.well_formed(),
        ensures
            final(self)@ == old(self)@.number(),
            final(self)@.well_formed(),
            old(self)@.continues(final(self)@),
            old(self)@.keeps_locals(final(self)@),
    {
        proof {
            reveal(CompilerView::number);
        }
        match self.numbers.get(self.parser.previous.lexeme.as_str()) {
            Some(bits) => self.emit_constant(Value::Number(bits)),
            None => self.error("Expect value of number."),
        }
    }

    /// Compiles the string literal that has just been consumed.
    fn string(&mut self, _can_assign: bool)
        requires
            old(self)@.well_formed(),
        ensures
            final(self)@ == old(self)@.string(),
            final(self)@.well_formed(),
            old(self)@.continues(final(self)@),
            old(self)@.keeps_locals(final(self)@),
    {
        proof {
            reveal(CompilerView::string);
        }
        let lexeme = self.parser.previous.lexeme.as_str();
        let length = lexeme.unicode_len();
        let content = if length >= 2 {
            String::from_str(lexeme.substring_char(1, length - 1))
        } else {
            let empty = String::new();
            assert(empty@ =~= seq![]);
            empty
        };
        self.emit_constant(Value::String(content));
    }

    /// Compiles the `false`, `nil` or `true` that has just been consumed.
    fn literal(&mut self, _can_assign: bool)
        requires
            old(self)@.well_formed(),
        ensures
            final(self)@ == old(self)@.literal(),
            final(self)@.well_formed(),
            old(self)@.continues(final(self)@),
            old(self)@.keeps_locals(final(self)@),
    {
        proof {
            reveal(CompilerView::literal);
        }
        proof {
            lemma_simple_instructions();
        }
        match self.parser.previous._type {
            TokenType::TokenFalse => self.emit_byte(OpCode::OpFalse.byte()),
            TokenType::TokenNil => self.emit_byte(OpCode::OpNil.byte()),
            TokenType::TokenTrue => self.emit_byte(OpCode::OpTrue.byte()),
            _ => {},
        }
    }

    /// Compiles a unary operator whose token has just been consumed.
    fn unary(&mut self, _can_assign: bool, Ghost(fuel): Ghost<nat>)
        requires
            old(self)@.well_formed(),
            fuel >= old(self)@.budget(2),
        ensures
            final(self)@ == old(self)@.unary(fuel),
            final(self)@.well_formed(),
            old(self)@.continues(final(self)@),
            old(self)@.keeps_locals(final(self)@),
        decreases fuel,
    {
        proof {
            reveal(CompilerView::unary);
            reveal(CompilerView::unary_operator);
            reveal(CompilerView::parse_precedence);
        }
        let operator_type = self.parser.previous._type;
        // Compile the operand.
        self.parse_precedence(Precedence::PrecUnary, Ghost((fuel - 1) as nat));
        proof {
            lemma_simple_instructions();
        }
        // Emit the operator instruction
        match operator_type {
            TokenType::TokenBang => self.emit_byte(OpCode::OpNot.byte()),
            TokenType::TokenMinus => self.emit_byte(OpCode::OpNegate.byte()),
            _ => {},
        }
    }

    /// Compiles a binary operator whose token has just been consumed.
    fn binary(&mut self, _can_assign: bool, Ghost(fuel): Ghost<nat>)
        requires
            old(self)@.well_formed(),
            fuel >= old(self)@.budget(2),
        ensures
            final(self)@ == old(self)@.binary(fuel),
            final(self)@.well_formed(),
            old(self)@.continues(final(self)@),
            old(self)@.keeps_locals(final(self)@),
        decreases fuel,
    {
        proof {
            reveal(CompilerView::binary);
            reveal(CompilerView::binary_operator);
            reveal(CompilerView::parse_precedence);
        }
        let operator_type = self.parser.previous._type;
        let rule = get_rule(operator_type);
        proof {
            operators_have_infix_rules(operator_type);
        }
        self.parse_precedence(rule.precedence.next(), Ghost((fuel - 1) as nat));
        proof {
            lemma_simple_instructions();
        }
        match operator_type {
            TokenType::TokenBangEqual => self.emit_bytes(
                OpCode::OpEqual.byte(),
                OpCode::OpNot.byte(),
            ),
            TokenType::TokenEqualEqual => self.emit_byte(OpCode::OpEqual.byte()),
            TokenType::TokenGreater => self.emit_byte(OpCode::OpGreater.byte()),
            TokenType::TokenGreaterEqual => self.emit_bytes(
                OpCode::OpLess.byte(),
                OpCode::OpNot.byte(),
            ),
            TokenType::TokenLess => self.emit_byte(OpCode::OpLess.byte()),
            TokenType::TokenLessEqual => self.emit_bytes(
                OpCode::OpGreater.byte(),
                OpCode::OpNot.byte(),
            ),
            TokenType::TokenPlus => self.emit_byte(OpCode::OpAdd.byte()),
            TokenType::TokenMinus => self.emit_byte(OpCode::OpSubtract.byte()),
            TokenType::TokenStar => self.emit_byte(OpCode::OpMultiply.byte()),
            TokenType::TokenSlash => self.emit_byte(OpCode::OpDivide.byte()),
            TokenType::TokenCarat => self.emit_byte(OpCode::OpExponent.byte()),
            _ => {},
        }
    }

    /// Compiles a call whose `(` has just been consumed.
    fn call(&mut self, _can_assign: bool, Ghost(fuel): Ghost<nat>)
        requires
            old(self)@.well_formed(),
            fuel >= old(self)@.budget(5),
        ensures
            final(self)@ == old(self)@.call(fuel),
            final(self)@.well_formed(),
            old(self)@.continues(final(self)@),
            old(self)@.keeps_locals(final(self)@),
        decreases fuel,
    {
        proof {
            reveal(CompilerView::call);
            reveal(CompilerView::argument_list);
        }
        let arg_count = self.argument_list(Ghost((fuel - 1) as nat));
        self.emit_operand(OpCode::OpCall, arg_count);
    }

    /// Compiles the arguments of a call up to the `)` and returns how many
    /// there are.
    fn argument_list(&mut self, Ghost(fuel): Ghost<nat>) -> (count: u8)
        requires
            old(self)@.well_formed(),
            fuel >= old(self)@.budget(4),
        ensures
            final(self)@ == old(self)@.argument_list(fuel).0,
            count == old(self)@.argument_list(fuel).1,
            final(self)@.well_formed(),
            old(self)@.continues(final(self)@),
            old(self)@.keeps_locals(final(self)@),
        decreases fuel,
    {
        proof {
            reveal(CompilerView::argument_list);
            reveal(CompilerView::arguments);
            reveal(CompilerView::expression);
        }
        let mut arg_count: u8 = 0;
        if !self.check(TokenType::TokenRightParen) {
            let ghost mut left = (fuel - 1) as nat;
            loop
                invariant_except_break
                    left >= self@.budget(3),
                    self@.arguments(arg_count, left) == old(self)@.arguments(
                        0,
                        (fuel - 1) as nat,
                    ),
                invariant
                    self@.well_formed(),
                    old(self)@.continues(self@),
                    old(self)@.keeps_locals(self@),
                    left < fuel,
                ensures
                    self@.well_formed(),
                    old(self)@.continues(self@),
                    old(self)@.keeps_locals(self@),
                    (self@, arg_count) == old(self)@.arguments(0, (fuel - 1) as nat),
                decreases left,
            {
                proof {
                    reveal(CompilerView::arguments);
                    reveal(CompilerView::expression);
                }
                self.expression(Ghost((left - 1) as nat));
                if arg_count == 255 {
                    self.error("Can't have more than 255 arguments.");
                } else {
                    arg_count += 1;
                }
                if !self.matching(TokenType::TokenComma) {
                    break ;
                }
                proof {
                    left = (left - 1) as nat;
                }
            }
        }
        self.consume(TokenType::TokenRightParen, "Expect ')' after arguments.");
        arg_count
    }

    /// Compiles `and`, whose left operand has been compiled and whose token
    /// has just been consumed.
    fn and_(&mut self, _can_assign: bool, Ghost(fuel): Ghost<nat>)
        requires
            old(self)@.well_formed(),
            fuel >= old(self)@.budget(2),
        ensures
            final(self)@ == old(self)@.and_(fuel),
            final(self)@.well_formed(),
            old(self)@.continues(final(self)@),
            old(self)@.keeps_locals(final(self)@),
        decreases fuel,
    {
        proof {
            reveal(CompilerView::and_);
            reveal(CompilerView::parse_precedence);
        }
        let end_jump = self.emit_jump(OpCode::OpJumpIfFalse.byte());
        let ghost jumped = self@;
        proof {
            lemma_simple_instructions();
        }
        self.emit_byte(OpCode::OpPop.byte());
        self.parse_precedence(Precedence::PrecAnd, Ghost((fuel - 1) as nat));
        self.patch_jump(end_jump);
    }

    /// Compiles `or`, whose left operand has been compiled and whose token
    /// has just been consumed.
    fn or_(&mut self, _can_assign: bool, Ghost(fuel): Ghost<nat>)
        requires
            old(self)@.well_formed(),
            fuel >= old(self)@.budget(2),
        ensures
            final(self)@ == old(self)@.or_(fuel),
            final(self)@.well_formed(),
            old(self)@.continues(final(self)@),
            old(self)@.keeps_locals(final(self)@),
        decreases fuel,
    {
        proof {
            reveal(CompilerView::or_);
            reveal(CompilerView::parse_precedence);
        }
        let else_jump = self.emit_jump(OpCode::OpJumpIfFalse.byte());
        let ghost first = self@;
        let end_jump = self.emit_jump(OpCode::OpJump.byte());
        proof {
            lemma_simple_instructions();
        }
        self.patch_jump(else_jump);
        let ghost patched = self@;
        self.emit_byte(OpCode::OpPop.byte());
        self.parse_precedence(Precedence::PrecOr, Ghost((fuel - 1) as nat));
        self.patch_jump(end_jump);
    }

    /// Compiles a use of the variable whose name has just been consumed.
    fn variable(&mut self, can_assign: bool, Ghost(fuel): Ghost<nat>)
        requires
            old(self)@.well_formed(),
            fuel >= old(self)@.budget(4),
        ensures
            final(self)@ == old(self)@.variable(can_assign, fuel),
            final(self)@.well_formed(),
            old(self)@.continues(final(self)@),
            old(self)@.keeps_locals(final(self)@),
        decreases fuel,
    {
        proof {
            reveal(CompilerView::variable);
            reveal(CompilerView::named_variable);
        }
        let name = self.parser.previous.clone();
        self.named_variable(name, can_assign, Ghost((fuel - 1) as nat));
    }

    /// Compiles a use of the variable `name`: an assignment if a `=` follows
    /// where one can stand, else a read.
    fn named_variable(&mut self, name: Token, can_assign: bool, Ghost(fuel): Ghost<nat>)
        requires
            old(self)@.well_formed(),
            fuel >= old(self)@.budget(3),
        ensures
            final(self)@ == old(self)@.named_variable(name@, can_assign, fuel),
            final(self)@.well_formed(),
            old(self)@.continues(final(self)@),
            old(self)@.keeps_locals(final(self)@),
        decreases fuel,
    {
        proof {
            reveal(CompilerView::named_variable);
            reveal(CompilerView::expression);
        }
        proof {
            lemma_well_formed_consistent(self@);
        }
        let (get_op, set_op, arg) = match self.resolve_local(&name) {
            Some(slot) => (OpCode::OpGetLocal, OpCode::OpSetLocal, (slot % 256) as u8),
            None => {
                let index = self.identifier_constant(&name);
                (OpCode::OpGetGlobal, OpCode::OpSetGlobal, index)
            },
        };
        if can_assign && self.matching(TokenType::TokenEqual) {
            self.expression(Ghost((fuel - 1) as nat));
            self.emit_operand(set_op, arg);
        } else {
            self.emit_operand(get_op, arg);
        }
    }
}

/// The instructions without operands take one byte each.
proof fn lemma_simple_instructions()
    ensures
        width_of(OpCode::OpFalse.spec_byte()) == 1,
        width_of(OpCode::OpNil.spec_byte()) == 1,
        width_of(OpCode::OpTrue.spec_byte()) == 1,
        width_of(OpCode::OpNot.spec_byte()) == 1,
        width_of(OpCode::OpNegate.spec_byte()) == 1,
        width_of(OpCode::OpEqual.spec_byte()) == 1,
        width_of(OpCode::OpGreater.spec_byte()) == 1,
        width_of(OpCode::OpLess.spec_byte()) == 1,
        width_of(OpCode::OpAdd.spec_byte()) == 1,
        width_of(OpCode::OpSubtract.spec_byte()) == 1,
        width_of(OpCode::OpMultiply.spec_byte()) == 1,
        width_of(OpCode::OpDivide.spec_byte()) == 1,
        width_of(OpCode::OpExponent.spec_byte()) == 1,
        width_of(OpCode::OpPop.spec_byte()) == 1,
        width_of(OpCode::OpPrint.spec_byte()) == 1,
        width_of(OpCode::OpReturn.spec_byte()) == 1,
{
}

} // verus!
