//! The stack machine.
//!
//! The machine executes one instruction per [`VM::step`]. What a step does is
//! stated by [`VMView::step`], a function from the state of the machine to
//! the state after the instruction and a signal. A signal other than
//! `Continue` hands work to the embedding program: text to print, two
//! numbers to add, subtract, multiply or divide, or a native function to
//! call. The embedding program pushes the result of the arithmetic or the
//! call on the stack and goes on stepping.

use vstd::hash_map::StringHashMap;
use vstd::prelude::*;
use vstd::string::*;
use crate::chunk::ChunkView;
use crate::chunk::instructions_are_whole;
use crate::chunk::is_instruction_start;
use crate::chunk::is_prefix;
use crate::chunk::OpCode;
use crate::chunk::reaches;
use crate::compiler::Compiler;
use crate::compiler::CompilerView;
use crate::compiler::function_views;
use crate::compiler::Numbers;
use crate::number;
use crate::statements::compiled;
use crate::text::decimal;
use crate::text::decimal_text;
use crate::text::text_views;
use crate::value::Function;
use crate::value::FunctionView;
use crate::value::Value;
use crate::value::ValueView;
use crate::value::views;

verus! {

broadcast use crate::chunk::group_code_prefix;

/// How an interpretation ended.
#[derive(Debug, PartialEq, Eq, Clone, Copy, Structural)]
pub enum InterpretResult {
    InterpretOk,
    InterpretCompilerError,
    InterpretRuntimeError,
}

/// The activation of a function: the handle of the function, the index of
/// the next code byte to execute, and the index of the stack slot where the
/// function's locals start.
#[derive(Debug, PartialEq, Eq, Clone, Copy, Structural)]
pub struct CallFrame {
    pub function: usize,
    pub ip: usize,
    pub slots: usize,
}

/// The most frames that a machine holds.
pub const FRAMES_MAX: usize = 64;

/// The handle of the native function `clock`.
pub const CLOCK: usize = 0;

/// What the machine hands to the embedding program after a step.
#[derive(Debug)]
pub enum Signal {
    /// Nothing: the next instruction can be executed.
    Continue,
    /// A line of text to print.
    Print(String),
    /// A number to print on a line.
    PrintNumber(u64),
    /// Two numbers to operate on, the left one first. The operation is
    /// `OpAdd`, `OpSubtract`, `OpMultiply` or `OpDivide`; its result is to be
    /// pushed on the stack as a number.
    Arithmetic(OpCode, u64, u64),
    /// A native function to call, by its handle, with its arguments. What it
    /// returns is to be pushed on the stack.
    Native(usize, Vec<Value>),
    /// The end of the execution.
    Done(InterpretResult),
}

/// What a [`Signal`] stands for.
pub ghost enum SignalView {
    Continue,
    Print(Seq<char>),
    PrintNumber(u64),
    Arithmetic(OpCode, u64, u64),
    Native(usize, Seq<ValueView>),
    Done(InterpretResult),
}

impl View for Signal {
    type V = SignalView;

    open spec fn view(&self) -> SignalView {
        match self {
            Signal::Continue => SignalView::Continue,
            Signal::Print(text) => SignalView::Print(text@),
            Signal::PrintNumber(bits) => SignalView::PrintNumber(*bits),
            Signal::Arithmetic(op, left, right) => SignalView::Arithmetic(*op, *left, *right),
            Signal::Native(handle, arguments) => SignalView::Native(*handle, views(arguments@)),
            Signal::Done(result) => SignalView::Done(*result),
        }
    }
}

/// The state of a machine.
pub ghost struct VMView {
    /// The activations, the newest last.
    pub frames: Seq<CallFrame>,
    /// The operand stack, the top last.
    pub stack: Seq<ValueView>,
    /// The compiled functions, by handle.
    pub functions: Seq<FunctionView>,
    /// The global variables.
    pub globals: Map<Seq<char>, ValueView>,
    /// The lines of the runtime errors reported so far.
    pub errors: Seq<Seq<char>>,
    /// The errors that the compiler reported in the last interpretation.
    pub diagnostics: Seq<Seq<char>>,
}

/// The outcome of a step: the state after it, and the signal.
pub ghost struct Step {
    pub vm: VMView,
    pub signal: SignalView,
}

/// What a value is printed as; `None` for a number, which the embedding
/// program prints.
pub open spec fn display_text(value: ValueView, functions: Seq<FunctionView>) -> Option<
    Seq<char>,
> {
    match value {
        ValueView::Number(_) => None,
        ValueView::Bool(b) => Some(
            if b {
                "true"@
            } else {
                "false"@
            },
        ),
        ValueView::String(text) => Some(text),
        ValueView::Nil => Some("nil"@),
        ValueView::Fun(handle) => Some(
            if handle < functions.len() && functions[handle as int].name is Some {
                functions[handle as int].name->0
            } else {
                "<script>"@
            },
        ),
        ValueView::Native(_) => Some("<native fn>"@),
    }
}

/// The line of a stack trace for one frame: the line of the instruction that
/// the frame was executing, and the name of its function.
pub open spec fn trace_line(frame: CallFrame, functions: Seq<FunctionView>) -> Seq<char> {
    let known = frame.function < functions.len();
    let lines = functions[frame.function as int].chunk.lines;
    let line = if known && 1 <= frame.ip <= lines.len() {
        lines[frame.ip - 1]
    } else {
        0
    };
    let name = if known && functions[frame.function as int].name is Some {
        functions[frame.function as int].name->0
    } else {
        "script"@
    };
    "[line "@ + decimal_text(line as nat) + "] in "@ + name
}

/// The stack trace of the frames, the newest first.
pub open spec fn trace(frames: Seq<CallFrame>, functions: Seq<FunctionView>) -> Seq<Seq<char>>
    decreases frames.len(),
{
    if frames.len() == 0 {
        seq![]
    } else {
        seq![trace_line(frames.last(), functions)] + trace(frames.drop_last(), functions)
    }
}

/// The message for a call with the wrong number of arguments.
pub open spec fn arity_message(arity: usize, count: usize) -> Seq<char> {
    "Expected "@ + decimal_text(arity as nat) + " arguments but got "@ + decimal_text(
        count as nat,
    )
}

/// The message for a byte that stands for no instruction the machine has.
pub open spec fn opcode_message(byte: u8) -> Seq<char> {
    "Unknown opcode "@ + decimal_text(byte as nat) + "."@
}

impl VMView {
    /// The chunks of all functions are well formed.
    pub open spec fn well_formed(self) -> bool {
        forall|i: int|
            0 <= i < self.functions.len() ==> (#[trigger] self.functions[i]).chunk.well_formed()
    }

    /// The value `distance` below the top of the stack; `nil` where the
    /// stack is not that deep.
    pub open spec fn peek(self, distance: int) -> ValueView {
        if 0 <= distance < self.stack.len() {
            self.stack[self.stack.len() - 1 - distance]
        } else {
            ValueView::Nil
        }
    }

    /// The state with a value pushed.
    pub open spec fn push(self, value: ValueView) -> VMView {
        VMView { stack: self.stack.push(value), ..self }
    }

    /// The state with the top `count` values dropped.
    pub open spec fn drop(self, count: int) -> VMView {
        VMView { stack: self.stack.take(self.stack.len() - count), ..self }
    }

    /// The state with the newest frame at another instruction.
    pub open spec fn at(self, ip: usize) -> VMView {
        VMView {
            frames: self.frames.update(
                self.frames.len() - 1,
                CallFrame { ip, ..self.frames.last() },
            ),
            ..self
        }
    }

    /// The chunk of the function that the newest frame executes.
    pub open spec fn chunk(self) -> ChunkView {
        self.functions[self.frames.last().function as int].chunk
    }

    /// The outcome of a runtime error: the message and the stack trace are
    /// reported, the stack and the frames are cleared, and the execution
    /// ends.
    pub open spec fn fail(self, message: Seq<char>) -> Step {
        Step {
            vm: VMView {
                frames: seq![],
                stack: seq![],
                errors: self.errors + seq![message] + trace(self.frames, self.functions),
                ..self
            },
            signal: SignalView::Done(InterpretResult::InterpretRuntimeError),
        }
    }

    /// The outcome of an instruction that leaves nothing to the embedding
    /// program.
    pub open spec fn go_on(self) -> Step {
        Step { vm: self, signal: SignalView::Continue }
    }

    /// The outcome of a call of a function with `count` arguments: a new
    /// frame whose slots start at the first argument, or at the function
    /// itself for a script. The wrong number of arguments and a 65th frame
    /// are errors.
    pub open spec fn call(self, function: usize, count: usize) -> Step {
        if function >= self.functions.len() || self.stack.len() < count + 1 {
            self.fail("Malformed bytecode."@)
        } else if count != self.functions[function as int].arity {
            self.fail(arity_message(self.functions[function as int].arity, count))
        } else if self.frames.len() >= FRAMES_MAX {
            self.fail("Stack overflow."@)
        } else {
            let slots = if self.functions[function as int].name is None {
                self.stack.len() - count - 1
            } else {
                self.stack.len() - count
            };
            (VMView {
                frames: self.frames.push(CallFrame { function, ip: 0, slots: slots as usize }),
                ..self
            }).go_on()
        }
    }

    /// The outcome of a call of a value with `count` arguments. A function
    /// gets a frame. A native is handed to the embedding program with its
    /// arguments, and it and they leave the stack. Anything else cannot be
    /// called.
    pub open spec fn call_value(self, callee: ValueView, count: usize) -> Step {
        match callee {
            ValueView::Fun(function) => self.call(function, count),
            ValueView::Native(native) => if self.stack.len() < count + 1 {
                self.fail("Malformed bytecode."@)
            } else {
                Step {
                    vm: self.drop(count + 1),
                    signal: SignalView::Native(
                        native,
                        self.stack.subrange(self.stack.len() - count, self.stack.len() as int),
                    ),
                }
            },
            _ => self.fail("Can only call functions and classes."@),
        }
    }

    /// The outcome of a comparison or of arithmetic on the two values on top
    /// of the stack, which must be numbers. A comparison is decided at once;
    /// arithmetic is handed to the embedding program.
    pub open spec fn binary_op(self, op: OpCode) -> Step {
        match (self.peek(1), self.peek(0)) {
            (ValueView::Number(left), ValueView::Number(right)) => match op {
                OpCode::OpGreater => self.drop(2).push(
                    ValueView::Bool(number::number_less(right, left)),
                ).go_on(),
                OpCode::OpLess => self.drop(2).push(
                    ValueView::Bool(number::number_less(left, right)),
                ).go_on(),
                OpCode::OpAdd | OpCode::OpSubtract | OpCode::OpMultiply | OpCode::OpDivide => Step {
                    vm: self.drop(2),
                    signal: SignalView::Arithmetic(op, left, right),
                },
                _ => self.drop(2).go_on(),
            },
            _ => self.fail("Operands must be numbers."@),
        }
    }

    /// The outcome of `OpAdd`: two strings are joined, two numbers are
    /// handed to the embedding program to add.
    pub open spec fn add(self) -> Step {
        match (self.peek(1), self.peek(0)) {
            (ValueView::String(left), ValueView::String(right)) => self.drop(2).push(
                ValueView::String(left + right),
            ).go_on(),
            (ValueView::Number(_), ValueView::Number(_)) => self.binary_op(OpCode::OpAdd),
            _ => self.fail("Operands must be two numbers or two strings."@),
        }
    }

    /// The outcome of `OpReturn`: the frame ends, and the value on top of
    /// the stack takes the place of the function and what was above it. When
    /// the last frame ends, the execution does, with nothing left on the
    /// stack from the script's own slot on.
    pub open spec fn do_return(self) -> Step {
        if self.stack.len() == 0 {
            self.fail("Malformed bytecode."@)
        } else {
            let frame = self.frames.last();
            let base = if frame.slots < self.stack.len() {
                frame.slots as int
            } else {
                self.stack.len() - 1
            };
            if self.frames.len() == 1 {
                Step {
                    vm: VMView {
                        frames: self.frames.drop_last(),
                        stack: self.stack.take(base),
                        ..self
                    },
                    signal: SignalView::Done(InterpretResult::InterpretOk),
                }
            } else {
                (VMView {
                    frames: self.frames.drop_last(),
                    stack: self.stack.take(
                        if base > 0 {
                            base - 1
                        } else {
                            0
                        },
                    ).push(self.peek(0)),
                    ..self
                }).go_on()
            }
        }
    }

    /// The name of a global variable: the constant at `index`, which must be
    /// a string.
    pub open spec fn global_name(self, index: int) -> Option<Seq<char>> {
        if 0 <= index < self.chunk().constants.len() {
            match self.chunk().constants[index] {
                ValueView::String(name) => Some(name),
                _ => None,
            }
        } else {
            None
        }
    }

    /// The outcome of the instruction `op` with the operand `operand`, in a
    /// state whose newest frame stands behind the instruction.
    pub open spec fn execute(self, op: OpCode, operand: int) -> Step {
        let frame = self.frames.last();
        match op {
            OpCode::OpConstant => if operand < self.chunk().constants.len() {
                self.push(self.chunk().constants[operand]).go_on()
            } else {
                self.fail("Malformed bytecode."@)
            },
            OpCode::OpNil => self.push(ValueView::Nil).go_on(),
            OpCode::OpTrue => self.push(ValueView::Bool(true)).go_on(),
            OpCode::OpFalse => self.push(ValueView::Bool(false)).go_on(),
            OpCode::OpPop => if self.stack.len() > 0 {
                self.drop(1).go_on()
            } else {
                self.fail("Malformed bytecode."@)
            },
            OpCode::OpGetLocal => if frame.slots + operand < self.stack.len() {
                self.push(self.stack[frame.slots + operand]).go_on()
            } else {
                self.fail("Malformed bytecode."@)
            },
            OpCode::OpSetLocal => if frame.slots + operand < self.stack.len() {
                (VMView {
                    stack: self.stack.update(frame.slots + operand, self.peek(0)),
                    ..self
                }).go_on()
            } else {
                self.fail("Malformed bytecode."@)
            },
            OpCode::OpGetGlobal => match self.global_name(operand) {
                Some(name) => if self.globals.contains_key(name) {
                    self.push(self.globals[name]).go_on()
                } else {
                    self.fail("Undefined variable "@ + name + "."@)
                },
                None => self.fail("Malformed bytecode."@),
            },
            OpCode::OpDefineGlobal => match self.global_name(operand) {
                Some(name) => if self.stack.len() > 0 {
                    (VMView { globals: self.globals.insert(name, self.peek(0)), ..self }).drop(
                        1,
                    ).go_on()
                } else {
                    self.fail("Malformed bytecode."@)
                },
                None => self.fail("Malformed bytecode."@),
            },
            OpCode::OpSetGlobal => match self.global_name(operand) {
                Some(name) => if self.globals.contains_key(name) {
                    (VMView { globals: self.globals.insert(name, self.peek(0)), ..self }).go_on()
                } else {
                    self.fail("Undefined variable "@ + name)
                },
                None => self.fail("Malformed bytecode."@),
            },
            OpCode::OpEqual => if self.stack.len() >= 2 {
                self.drop(2).push(ValueView::Bool(self.peek(0).equals(self.peek(1)))).go_on()
            } else {
                self.fail("Malformed bytecode."@)
            },
            OpCode::OpGreater | OpCode::OpLess | OpCode::OpSubtract | OpCode::OpMultiply | OpCode::OpDivide => {
                self.binary_op(op)
            },
            OpCode::OpAdd => self.add(),
            OpCode::OpNot => if self.stack.len() > 0 {
                self.drop(1).push(ValueView::Bool(self.peek(0).is_falsey())).go_on()
            } else {
                self.fail("Malformed bytecode."@)
            },
            OpCode::OpNegate => match self.peek(0) {
                ValueView::Number(bits) => self.drop(1).push(
                    ValueView::Number(number::number_negated(bits)),
                ).go_on(),
                _ => self.fail("Operand must be a number."@),
            },
            OpCode::OpPrint => if self.stack.len() > 0 {
                Step {
                    vm: self.drop(1),
                    signal: match self.peek(0) {
                        ValueView::Number(bits) => SignalView::PrintNumber(bits),
                        value => SignalView::Print(display_text(value, self.functions)->0),
                    },
                }
            } else {
                self.fail("Malformed bytecode."@)
            },
            OpCode::OpJump => if frame.ip + operand <= self.chunk().code.len() {
                self.at((frame.ip + operand) as usize).go_on()
            } else {
                self.fail("Malformed bytecode."@)
            },
            OpCode::OpJumpIfFalse => if !self.peek(0).is_falsey() {
                self.go_on()
            } else if frame.ip + operand <= self.chunk().code.len() {
                self.at((frame.ip + operand) as usize).go_on()
            } else {
                self.fail("Malformed bytecode."@)
            },
            OpCode::OpLoop => if operand <= frame.ip {
                self.at((frame.ip - operand) as usize).go_on()
            } else {
                self.fail("Malformed bytecode."@)
            },
            OpCode::OpCall => self.call_value(self.peek(operand), operand as usize),
            OpCode::OpReturn => self.do_return(),
            _ => self.fail(opcode_message(op.spec_byte())),
        }
    }

    /// The operand of the instruction `op` that stands at `at` in the code:
    /// nothing counts as 0, two bytes are a 16-bit number with the high byte
    /// first.
    pub open spec fn operand(code: Seq<u8>, at: int, op: OpCode) -> int {
        if op.operand_width() == 1 {
            code[at + 1] as int
        } else if op.operand_width() == 2 {
            code[at + 1] * 256 + code[at + 2]
        } else {
            0
        }
    }

    /// The outcome of one step: the instruction at the newest frame's
    /// position is read, the frame moves behind it, and the instruction is
    /// executed. A machine without a frame has nothing to execute. A byte
    /// that stands for no instruction is an error, and so is code that ends
    /// within an instruction.
    pub open spec fn step(self) -> Step {
        if self.frames.len() == 0 {
            Step { vm: self, signal: SignalView::Done(InterpretResult::InterpretOk) }
        } else {
            let frame = self.frames.last();
            if frame.function >= self.functions.len() || frame.ip >= self.chunk().code.len() {
                self.fail("Malformed bytecode."@)
            } else {
                let code = self.chunk().code;
                match OpCode::spec_from_byte(code[frame.ip as int]) {
                    None => self.at((frame.ip + 1) as usize).fail(
                        opcode_message(code[frame.ip as int]),
                    ),
                    Some(op) => if frame.ip + 1 + op.operand_width() > code.len() {
                        self.fail("Malformed bytecode."@)
                    } else {
                        self.at((frame.ip + 1 + op.operand_width()) as usize).execute(
                            op,
                            VMView::operand(code, frame.ip as int, op),
                        )
                    },
                }
            }
        }
    }

    /// The outcome of up to `limit` steps: the steps end with the first
    /// signal other than `Continue`.
    pub open spec fn run(self, limit: nat) -> Step
        decreases limit,
    {
        if limit == 0 {
            self.go_on()
        } else {
            let first = self.step();
            if first.signal is Continue {
                first.vm.run((limit - 1) as nat)
            } else {
                first
            }
        }
    }
}

/// The state of a machine after the compilation of a script has ended in
/// the state `compiled`. If errors were reported there is nothing to run.
/// Else the script joins the functions, the stack holds the script, and the
/// only frame is the script's, at its first instruction.
pub open spec fn loaded(vm: VMView, compiled: CompilerView) -> VMView {
    if compiled.diagnostics.len() > 0 {
        VMView {
            frames: seq![],
            stack: seq![],
            functions: compiled.functions,
            diagnostics: compiled.diagnostics,
            ..vm
        }
    } else {
        let handle = compiled.functions.len() as usize;
        VMView {
            frames: seq![CallFrame { function: handle, ip: 0, slots: 0 }],
            stack: seq![ValueView::Fun(handle)],
            functions: compiled.functions.push(compiled.context.function),
            diagnostics: compiled.diagnostics,
            ..vm
        }
    }
}

/// The machine: the frames, the operand stack, the compiler with the
/// functions it has compiled, the global variables, and the lines of the
/// runtime errors reported so far.
pub struct VM {
    frames: Vec<CallFrame>,
    stack: Vec<Value>,
    compiler: Compiler,
    globals: StringHashMap<Value>,
    errors: Vec<String>,
}

/// The views of the values of a map.
pub open spec fn value_views(globals: Map<Seq<char>, Value>) -> Map<Seq<char>, ValueView> {
    Map::new(|name: Seq<char>| globals.contains_key(name), |name: Seq<char>| globals[name]@)
}

impl View for VM {
    type V = VMView;

    closed spec fn view(&self) -> VMView {
        VMView {
            frames: self.frames@,
            stack: views(self.stack@),
            functions: function_views(self.compiler.functions@),
            globals: value_views(self.globals@),
            errors: text_views(self.errors@),
            diagnostics: self.compiler@.diagnostics,
        }
    }
}

impl VM {
    /// A machine that has run nothing. Its only global is the native
    /// function `clock`.
    pub fn new() -> (vm: VM)
        ensures
            vm@ == (VMView {
                frames: seq![],
                stack: seq![],
                functions: seq![],
                globals: Map::<Seq<char>, ValueView>::empty().insert(
                    "clock"@,
                    ValueView::Native(CLOCK),
                ),
                errors: seq![],
                diagnostics: seq![],
            }),
    {
        let mut vm = VM {
            frames: Vec::new(),
            stack: Vec::new(),
            compiler: Compiler::new(),
            globals: StringHashMap::new(),
            errors: Vec::new(),
        };
        assert(vm@.globals =~= Map::<Seq<char>, ValueView>::empty());
        vm.define_native(String::from_str("clock"), CLOCK);
        assert(vm@.stack =~= seq![]);
        assert(vm@.errors =~= seq![]);
        assert(vm@.functions =~= seq![]);
        assert(vm@.globals =~= Map::<Seq<char>, ValueView>::empty().insert(
            "clock"@,
            ValueView::Native(CLOCK),
        ));
        vm
    }

    /// Makes a native function known under a name: the global of that name
    /// becomes the native with the given handle.
    pub fn define_native(&mut self, name: String, handle: usize)
        ensures
            final(self)@ == (VMView {
                globals: old(self)@.globals.insert(name@, ValueView::Native(handle)),
                ..old(self)@
            }),
    {
        self.globals.insert(name, Value::Native(handle));
        assert(self@.globals =~= old(self)@.globals.insert(name@, ValueView::Native(handle)));
    }

    /// Makes a compiled function known to the machine and returns its
    /// handle.
    pub fn define_function(&mut self, function: Function) -> (handle: usize)
        ensures
            handle == old(self)@.functions.len(),
            final(self)@ == (VMView {
                functions: old(self)@.functions.push(function@),
                ..old(self)@
            }),
    {
        let handle = self.compiler.functions.len();
        self.compiler.functions.push(function);
        assert(self@.functions =~= old(self)@.functions.push(function@));
        handle
    }

    /// The lines of the runtime errors reported so far.
    pub fn errors(&self) -> (lines: &Vec<String>)
        ensures
            text_views(lines@) == self@.errors,
    {
        &self.errors
    }

    /// The errors that the compiler reported in the last interpretation.
    pub fn diagnostics(&self) -> (lines: &Vec<String>)
        ensures
            text_views(lines@) == self@.diagnostics,
    {
        &self.compiler.diagnostics
    }

    /// The compiled functions, by handle.
    pub fn functions(&self) -> (functions: &Vec<Function>)
        ensures
            function_views(functions@) == self@.functions,
    {
        &self.compiler.functions
    }

    /// The number of values on the stack.
    pub fn stack_len(&self) -> (r: usize)
        ensures
            r == self@.stack.len(),
    {
        self.stack.len()
    }

    /// The number of frames.
    pub fn frame_count(&self) -> (r: usize)
        ensures
            r == self@.frames.len(),
    {
        self.frames.len()
    }

    /// Pushes a value on the stack.
    pub fn push(&mut self, value: Value)
        ensures
            final(self)@ == old(self)@.push(value@),
    {
        self.stack.push(value);
        assert(self@.stack =~= old(self)@.stack.push(value@));
    }

    /// Pops the value on top of the stack.
    pub fn pop(&mut self) -> (value: Value)
        requires
            old(self)@.stack.len() > 0,
        ensures
            value@ == old(self)@.peek(0),
            final(self)@ == old(self)@.drop(1),
    {
        let value = self.stack.pop().unwrap();
        assert(self@.stack =~= old(self)@.stack.take(old(self)@.stack.len() - 1));
        value
    }

    /// The value `distance` below the top of the stack; `nil` where the
    /// stack is not that deep.
    pub fn peek(&self, distance: usize) -> (value: Value)
        ensures
            value@ == self@.peek(distance as int),
    {
        let len = self.stack.len();
        if distance < len {
            self.stack[len - 1 - distance].clone()
        } else {
            Value::Nil
        }
    }

    /// Drops the top `count` values of the stack.
    fn drop_values(&mut self, count: usize)
        requires
            count <= old(self)@.stack.len(),
        ensures
            final(self)@ == old(self)@.drop(count as int),
    {
        let len = self.stack.len();
        self.stack.truncate(len - count);
        assert(self@.stack =~= old(self)@.stack.take(old(self)@.stack.len() - count));
    }

    /// What a value is printed as; `None` for a number.
    pub fn display(&self, value: &Value) -> (text: Option<String>)
        ensures
            match text {
                Some(text) => display_text(value@, self@.functions) == Some(text@),
                None => display_text(value@, self@.functions) is None,
            },
    {
        match value {
            Value::Number(_) => None,
            Value::Bool(b) => Some(
                if *b {
                    String::from_str("true")
                } else {
                    String::from_str("false")
                },
            ),
            Value::String(text) => Some(text.clone()),
            Value::Nil => Some(String::from_str("nil")),
            Value::Fun(handle) => {
                if *handle < self.compiler.functions.len() {
                    match &self.compiler.functions[*handle].name {
                        Some(name) => Some(name.clone()),
                        None => Some(String::from_str("<script>")),
                    }
                } else {
                    Some(String::from_str("<script>"))
                }
            },
            Value::Native(_) => Some(String::from_str("<native fn>")),
        }
    }

    /// The line of a stack trace for one frame.
    fn trace_line(&self, frame: CallFrame) -> (line: String)
        ensures
            line@ == trace_line(frame, self@.functions),
    {
        let known = frame.function < self.compiler.functions.len();
        let mut number: usize = 0;
        let mut name = String::from_str("script");
        if known {
            let function = &self.compiler.functions[frame.function];
            if 1 <= frame.ip && frame.ip <= function.chunk.lines.len() {
                number = function.chunk.lines[frame.ip - 1];
            }
            match &function.name {
                Some(text) => {
                    name = text.clone();
                },
                None => {},
            }
        }
        String::from_str("[line ").concat(decimal(number).as_str()).concat("] in ").concat(
            name.as_str(),
        )
    }

    /// Reports a runtime error: the message, then the stack trace, the
    /// newest frame first. The stack and the frames are cleared.
    pub fn runtime_error(&mut self, message: &str)
        ensures
            final(self)@ == old(self)@.fail(message@).vm,
    {
        self.errors.push(String::from_str(message));
        let mut i = self.frames.len();
        let ghost frames = self@.frames;
        let ghost functions = self@.functions;
        let ghost target = old(self)@.errors + seq![message@] + trace(frames, functions);
        assert(frames.take(i as int) =~= frames);
        assert(self@.errors =~= old(self)@.errors + seq![message@]);
        while i > 0
            invariant
                i <= frames.len(),
                self@.frames == frames,
                self@.functions == functions,
                self@.stack == old(self)@.stack,
                self@.globals == old(self)@.globals,
                self@.diagnostics == old(self)@.diagnostics,
                self@.errors + trace(frames.take(i as int), functions) == target,
            decreases i,
        {
            i -= 1;
            let line = self.trace_line(self.frames[i]);
            proof {
                assert(frames.take(i + 1).drop_last() =~= frames.take(i as int));
                assert(frames.take(i + 1).last() == frames[i as int]);
                assert((self@.errors + seq![line@]) + trace(frames.take(i as int), functions)
                    =~= self@.errors + trace(frames.take(i + 1), functions));
            }
            let ghost before = self@.errors;
            self.errors.push(line);
            proof {
                assert(self@.errors =~= before + seq![line@]);
            }
        }
        assert(self@.errors =~= target);
        self.stack.clear();
        self.frames.clear();
        assert(self@.stack =~= seq![]);
        assert(self@.frames =~= seq![]);
    }

    /// Ends the execution with a runtime error.
    fn fail(&mut self, message: &str) -> (signal: Signal)
        ensures
            (Step { vm: final(self)@, signal: signal@ }) == old(self)@.fail(message@),
    {
        self.runtime_error(message);
        Signal::Done(InterpretResult::InterpretRuntimeError)
    }
}

impl VM {
    /// Starts a call of a function with `arg_count` arguments, which are on
    /// top of the stack, above the function. Returns whether the function
    /// got a frame; if not, a runtime error has been reported.
    pub fn call(&mut self, function: usize, arg_count: usize) -> (called: bool)
        ensures
            (Step {
                vm: final(self)@,
                signal: if called {
                    SignalView::Continue
                } else {
                    SignalView::Done(InterpretResult::InterpretRuntimeError)
                },
            }) == old(self)@.call(function, arg_count),
    {
        if function >= self.compiler.functions.len() || self.stack.len() <= arg_count {
            self.runtime_error("Malformed bytecode.");
            return false;
        }
        let arity = self.compiler.functions[function].arity;
        if arg_count != arity {
            let message = String::from_str("Expected ").concat(decimal(arity).as_str()).concat(
                " arguments but got ",
            ).concat(decimal(arg_count).as_str());
            self.runtime_error(message.as_str());
            return false;
        }
        if self.frames.len() >= FRAMES_MAX {
            self.runtime_error("Stack overflow.");
            return false;
        }
        let slots = if self.compiler.functions[function].name.is_none() {
            self.stack.len() - arg_count - 1
        } else {
            self.stack.len() - arg_count
        };
        self.frames.push(CallFrame { function, ip: 0, slots });
        true
    }

    /// Calls a value with `arg_count` arguments, which are on top of the
    /// stack, above the value.
    pub fn call_value(&mut self, callee: Value, arg_count: usize) -> (signal: Signal)
        ensures
            (Step { vm: final(self)@, signal: signal@ }) == old(self)@.call_value(
                callee@,
                arg_count,
            ),
    {
        match callee {
            Value::Fun(function) => {
                if self.call(function, arg_count) {
                    Signal::Continue
                } else {
                    Signal::Done(InterpretResult::InterpretRuntimeError)
                }
            },
            Value::Native(native) => {
                let len = self.stack.len();
                if len <= arg_count {
                    return self.fail("Malformed bytecode.");
                }
                let mut arguments: Vec<Value> = Vec::new();
                let mut i = len - arg_count;
                assert(self@.stack.len() == len);
                assert(views(arguments@) =~= self@.stack.subrange(len - arg_count, i as int));
                while i < len
                    invariant
                        len == self.stack.len(),
                        arg_count < len,
                        len - arg_count <= i <= len,
                        self@ == old(self)@,
                        views(arguments@) == self@.stack.subrange(len - arg_count, i as int),
                    decreases len - i,
                {
                    let ghost before = arguments@;
                    let value = self.stack[i].clone();
                    arguments.push(value);
                    i += 1;
                    assert(self@.stack.len() == len);
                    assert(self@.stack[i - 1] == value@);
                    assert(views(arguments@) =~= views(before).push(value@));
                    assert(views(arguments@) =~= self@.stack.subrange(len - arg_count, i as int));
                }
                self.drop_values(arg_count + 1);
                Signal::Native(native, arguments)
            },
            _ => self.fail("Can only call functions and classes."),
        }
    }

    /// Compares or operates on the two numbers on top of the stack.
    pub fn binary_op(&mut self, op: OpCode) -> (signal: Signal)
        ensures
            (Step { vm: final(self)@, signal: signal@ }) == old(self)@.binary_op(op),
    {
        match (self.peek(1), self.peek(0)) {
            (Value::Number(left), Value::Number(right)) => {
                self.drop_values(2);
                match op {
                    OpCode::OpGreater => {
                        self.push(Value::Bool(number::less(right, left)));
                        Signal::Continue
                    },
                    OpCode::OpLess => {
                        self.push(Value::Bool(number::less(left, right)));
                        Signal::Continue
                    },
                    OpCode::OpAdd
                    | OpCode::OpSubtract
                    | OpCode::OpMultiply
                    | OpCode::OpDivide => Signal::Arithmetic(op, left, right),
                    _ => Signal::Continue,
                }
            },
            _ => self.fail("Operands must be numbers."),
        }
    }

    /// Joins the two strings on top of the stack.
    pub fn concatenate(&mut self)
        requires
            old(self)@.peek(0) is String,
            old(self)@.peek(1) is String,
        ensures
            final(self)@ == old(self)@.drop(2).push(
                ValueView::String(old(self)@.peek(1)->String_0 + old(self)@.peek(0)->String_0),
            ),
    {
        match (self.peek(1), self.peek(0)) {
            (Value::String(left), Value::String(right)) => {
                self.drop_values(2);
                self.push(Value::String(left.concat(right.as_str())));
            },
            _ => {},
        }
    }

    /// Executes `OpAdd`.
    fn add(&mut self) -> (signal: Signal)
        ensures
            (Step { vm: final(self)@, signal: signal@ }) == old(self)@.add(),
    {
        match (self.peek(1), self.peek(0)) {
            (Value::String(_), Value::String(_)) => {
                self.concatenate();
                Signal::Continue
            },
            (Value::Number(_), Value::Number(_)) => self.binary_op(OpCode::OpAdd),
            _ => self.fail("Operands must be two numbers or two strings."),
        }
    }

    /// Executes `OpReturn`.
    fn do_return(&mut self) -> (signal: Signal)
        requires
            old(self)@.frames.len() > 0,
        ensures
            (Step { vm: final(self)@, signal: signal@ }) == old(self)@.do_return(),
    {
        let len = self.stack.len();
        if len == 0 {
            return self.fail("Malformed bytecode.");
        }
        let result = self.peek(0);
        let frame = self.frames.pop().unwrap();
        assert(self@.frames =~= old(self)@.frames.drop_last());
        let base = if frame.slots < len {
            frame.slots
        } else {
            len - 1
        };
        if self.frames.len() == 0 {
            self.stack.truncate(base);
            assert(self@.stack =~= old(self)@.stack.take(base as int));
            return Signal::Done(InterpretResult::InterpretOk);
        }
        let keep = if base > 0 {
            base - 1
        } else {
            0
        };
        self.stack.truncate(keep);
        self.stack.push(result);
        assert(self@.stack =~= old(self)@.stack.take(keep as int).push(old(self)@.peek(0)));
        Signal::Continue
    }

    /// Moves the newest frame to another instruction.
    fn jump_to(&mut self, ip: usize)
        requires
            old(self)@.frames.len() > 0,
        ensures
            final(self)@ == old(self)@.at(ip),
    {
        let last = self.frames.len() - 1;
        self.frames[last].ip = ip;
        assert(self@.frames =~= old(self)@.frames.update(
            last as int,
            CallFrame { ip, ..old(self)@.frames.last() },
        ));
    }

    /// The name of a global variable: the constant at `index` of the chunk
    /// that is being executed, which must be a string.
    fn global_name(&self, index: usize) -> (name: Option<String>)
        requires
            self@.frames.len() > 0,
            self@.frames.last().function < self@.functions.len(),
        ensures
            match name {
                Some(text) => self@.global_name(index as int) == Some(text@),
                None => self@.global_name(index as int) is None,
            },
    {
        let frame = self.frames[self.frames.len() - 1];
        let constants = &self.compiler.functions[frame.function].chunk.constants;
        assert(self@.chunk().constants == views(constants@));
        if index < constants.len() {
            match &constants[index] {
                Value::String(name) => Some(name.clone()),
                _ => None,
            }
        } else {
            None
        }
    }

    /// Executes an instruction that reads, defines or sets a global.
    fn execute_global(&mut self, op: OpCode, operand: usize) -> (signal: Signal)
        requires
            old(self)@.frames.len() > 0,
            old(self)@.frames.last().function < old(self)@.functions.len(),
            op == OpCode::OpGetGlobal || op == OpCode::OpDefineGlobal || op == OpCode::OpSetGlobal,
        ensures
            (Step { vm: final(self)@, signal: signal@ }) == old(self)@.execute(op, operand as int),
    {
        let name = match self.global_name(operand) {
            Some(name) => name,
            None => {
                return self.fail("Malformed bytecode.");
            },
        };
        match op {
            OpCode::OpGetGlobal => {
                let found = match self.globals.get(name.as_str()) {
                    Some(value) => Some(value.clone()),
                    None => None,
                };
                match found {
                    Some(value) => {
                        self.push(value);
                        Signal::Continue
                    },
                    None => {
                        let message = String::from_str("Undefined variable ").concat(
                            name.as_str(),
                        ).concat(".");
                        self.fail(message.as_str())
                    },
                }
            },
            OpCode::OpDefineGlobal => {
                if self.stack.len() == 0 {
                    return self.fail("Malformed bytecode.");
                }
                let value = self.pop();
                let ghost before = self@;
                self.globals.insert(name, value);
                assert(self@.globals =~= before.globals.insert(name@, value@));
                Signal::Continue
            },
            _ => {
                if self.globals.contains_key(name.as_str()) {
                    let value = self.peek(0);
                    self.globals.insert(name, value);
                    assert(self@.globals =~= old(self)@.globals.insert(name@, value@));
                    Signal::Continue
                } else {
                    let message = String::from_str("Undefined variable ").concat(name.as_str());
                    self.fail(message.as_str())
                }
            },
        }
    }

    /// Executes an instruction that reads or sets a local.
    fn execute_local(&mut self, op: OpCode, operand: usize) -> (signal: Signal)
        requires
            old(self)@.frames.len() > 0,
            op == OpCode::OpGetLocal || op == OpCode::OpSetLocal,
            operand < 256,
        ensures
            (Step { vm: final(self)@, signal: signal@ }) == old(self)@.execute(op, operand as int),
    {
        let frame = self.frames[self.frames.len() - 1];
        let len = self.stack.len();
        if frame.slots >= len || operand >= len - frame.slots {
            return self.fail("Malformed bytecode.");
        }
        let slot = frame.slots + operand;
        if op == OpCode::OpGetLocal {
            let value = self.stack[slot].clone();
            self.push(value);
        } else {
            let value = self.peek(0);
            self.stack[slot] = value;
            assert(self@.stack =~= old(self)@.stack.update(slot as int, old(self)@.peek(0)));
        }
        Signal::Continue
    }

    /// Executes a jump.
    fn execute_jump(&mut self, op: OpCode, operand: usize) -> (signal: Signal)
        requires
            old(self)@.frames.len() > 0,
            old(self)@.frames.last().function < old(self)@.functions.len(),
            op == OpCode::OpJump || op == OpCode::OpJumpIfFalse || op == OpCode::OpLoop,
            operand < 65536,
        ensures
            (Step { vm: final(self)@, signal: signal@ }) == old(self)@.execute(op, operand as int),
    {
        let frame = self.frames[self.frames.len() - 1];
        let length = self.compiler.functions[frame.function].chunk.code.len();
        match op {
            OpCode::OpLoop => {
                if operand <= frame.ip {
                    self.jump_to(frame.ip - operand);
                    Signal::Continue
                } else {
                    self.fail("Malformed bytecode.")
                }
            },
            _ => {
                if op == OpCode::OpJumpIfFalse && !self.peek(0).is_falsey() {
                    Signal::Continue
                } else if frame.ip <= length && operand <= length - frame.ip {
                    self.jump_to(frame.ip + operand);
                    Signal::Continue
                } else {
                    self.fail("Malformed bytecode.")
                }
            },
        }
    }

    /// Executes an instruction that works on the top of the stack alone.
    fn execute_simple(&mut self, op: OpCode) -> (signal: Signal)
        requires
            old(self)@.frames.len() > 0,
            op == OpCode::OpNil || op == OpCode::OpTrue || op == OpCode::OpFalse || op
                == OpCode::OpPop || op == OpCode::OpEqual || op == OpCode::OpNot || op
                == OpCode::OpNegate || op == OpCode::OpPrint,
        ensures
            (Step { vm: final(self)@, signal: signal@ }) == old(self)@.execute(op, 0),
    {
        match op {
            OpCode::OpNil => {
                self.push(Value::Nil);
                Signal::Continue
            },
            OpCode::OpTrue => {
                self.push(Value::Bool(true));
                Signal::Continue
            },
            OpCode::OpFalse => {
                self.push(Value::Bool(false));
                Signal::Continue
            },
            OpCode::OpPop => {
                if self.stack.len() == 0 {
                    return self.fail("Malformed bytecode.");
                }
                self.drop_values(1);
                Signal::Continue
            },
            OpCode::OpEqual => {
                if self.stack.len() < 2 {
                    return self.fail("Malformed bytecode.");
                }
                let b = self.peek(0);
                let a = self.peek(1);
                self.drop_values(2);
                self.push(Value::Bool(b == a));
                Signal::Continue
            },
            OpCode::OpNot => {
                if self.stack.len() == 0 {
                    return self.fail("Malformed bytecode.");
                }
                let value = self.pop();
                self.push(Value::Bool(value.is_falsey()));
                Signal::Continue
            },
            OpCode::OpNegate => {
                match self.peek(0) {
                    Value::Number(bits) => {
                        self.drop_values(1);
                        self.push(Value::Number(number::negate(bits)));
                        Signal::Continue
                    },
                    _ => self.fail("Operand must be a number."),
                }
            },
            _ => {
                if self.stack.len() == 0 {
                    return self.fail("Malformed bytecode.");
                }
                let value = self.pop();
                match value {
                    Value::Number(bits) => Signal::PrintNumber(bits),
                    _ => match self.display(&value) {
                        Some(text) => Signal::Print(text),
                        None => Signal::Continue,
                    },
                }
            },
        }
    }

    /// Executes the instruction `op` with the operand `operand`, behind
    /// which the newest frame stands.
    fn execute(&mut self, op: OpCode, operand: usize) -> (signal: Signal)
        requires
            old(self)@.frames.len() > 0,
            old(self)@.frames.last().function < old(self)@.functions.len(),
            operand < 65536,
            op.operand_width() == 1 ==> operand < 256,
            op.operand_width() == 0 ==> operand == 0,
        ensures
            (Step { vm: final(self)@, signal: signal@ }) == old(self)@.execute(op, operand as int),
    {
        match op {
            OpCode::OpConstant => {
                let frame = self.frames[self.frames.len() - 1];
                let constants = &self.compiler.functions[frame.function].chunk.constants;
                assert(self@.chunk().constants == views(constants@));
                if operand < constants.len() {
                    let value = constants[operand].clone();
                    self.push(value);
                    Signal::Continue
                } else {
                    self.fail("Malformed bytecode.")
                }
            },
            OpCode::OpNil
            | OpCode::OpTrue
            | OpCode::OpFalse
            | OpCode::OpPop
            | OpCode::OpEqual
            | OpCode::OpNot
            | OpCode::OpNegate
            | OpCode::OpPrint => self.execute_simple(op),
            OpCode::OpGetLocal | OpCode::OpSetLocal => self.execute_local(op, operand),
            OpCode::OpGetGlobal | OpCode::OpDefineGlobal | OpCode::OpSetGlobal => {
                self.execute_global(op, operand)
            },
            OpCode::OpGreater
            | OpCode::OpLess
            | OpCode::OpSubtract
            | OpCode::OpMultiply
            | OpCode::OpDivide => self.binary_op(op),
            OpCode::OpAdd => self.add(),
            OpCode::OpJump | OpCode::OpJumpIfFalse | OpCode::OpLoop => {
                self.execute_jump(op, operand)
            },
            OpCode::OpCall => {
                let callee = self.peek(operand);
                self.call_value(callee, operand)
            },
            OpCode::OpReturn => self.do_return(),
            _ => {
                let message = String::from_str("Unknown opcode ").concat(
                    decimal(op.byte() as usize).as_str(),
                ).concat(".");
                self.fail(message.as_str())
            },
        }
    }

    /// Executes one instruction.
    pub fn step(&mut self) -> (signal: Signal)
        ensures
            (Step { vm: final(self)@, signal: signal@ }) == old(self)@.step(),
            final(self)@.functions == old(self)@.functions,
    {
        proof {
            step_keeps_functions(self@);
        }
        if self.frames.len() == 0 {
            return Signal::Done(InterpretResult::InterpretOk);
        }
        let frame = self.frames[self.frames.len() - 1];
        if frame.function >= self.compiler.functions.len() {
            return self.fail("Malformed bytecode.");
        }
        let code = &self.compiler.functions[frame.function].chunk.code;
        assert(self@.chunk().code == code@);
        if frame.ip >= code.len() {
            return self.fail("Malformed bytecode.");
        }
        let byte = code[frame.ip];
        let op = match OpCode::from_byte(byte) {
            Some(op) => op,
            None => {
                let message = String::from_str("Unknown opcode ").concat(
                    decimal(byte as usize).as_str(),
                ).concat(".");
                self.jump_to(frame.ip + 1);
                return self.fail(message.as_str());
            },
        };
        let width = op.operands();
        if code.len() - frame.ip <= width {
            return self.fail("Malformed bytecode.");
        }
        let operand: usize = if width == 1 {
            code[frame.ip + 1] as usize
        } else if width == 2 {
            (code[frame.ip + 1] as usize) * 256 + code[frame.ip + 2] as usize
        } else {
            0
        };
        self.jump_to(frame.ip + 1 + width);
        self.execute(op, operand)
    }

    /// Executes instructions up to the first that hands something to the
    /// embedding program or ends the execution, but at most `limit`.
    pub fn run(&mut self, limit: usize) -> (signal: Signal)
        ensures
            (Step { vm: final(self)@, signal: signal@ }) == old(self)@.run(limit as nat),
            final(self)@.functions == old(self)@.functions,
    {
        let mut left = limit;
        while left > 0
            invariant
                self@.run(left as nat) == old(self)@.run(limit as nat),
                self@.functions == old(self)@.functions,
            decreases left,
        {
            let signal = self.step();
            match signal {
                Signal::Continue => {},
                _ => {
                    return signal;
                },
            }
            left -= 1;
        }
        Signal::Continue
    }

    /// Compiles a script and makes the machine ready to run it: the stack
    /// holds the script, and the only frame is the script's. The functions
    /// that were compiled before keep their handles, so that the values of
    /// the globals stay meaningful.
    ///
    /// `numbers` holds the value of each number literal of `source`. If the
    /// script does not compile, the result is `InterpretCompilerError`, the
    /// compiler's errors are in `diagnostics`, and there is nothing to run.
    pub fn interpret(&mut self, source: String, numbers: Numbers) -> (result: InterpretResult)
        requires
            old(self)@.well_formed(),
        ensures
            final(self)@.well_formed(),
            final(self)@ == loaded(old(self)@, compiled(old(self)@.functions, source@, numbers@)),
            is_prefix(old(self)@.functions, final(self)@.functions),
            result == if final(self)@.diagnostics.len() > 0 {
                InterpretResult::InterpretCompilerError
            } else {
                InterpretResult::InterpretOk
            },
    {
        self.stack.clear();
        self.frames.clear();
        assert(self@.stack =~= seq![]);
        assert(self@.frames =~= seq![]);
        match self.compiler.compile(source, numbers) {
            None => InterpretResult::InterpretCompilerError,
            Some(function) => {
                let handle = self.compiler.functions.len();
                let ghost before = self@.functions;
                self.compiler.functions.push(function);
                assert(self@.functions =~= before.push(function@));
                self.stack.push(Value::Fun(handle));
                self.frames.push(CallFrame { function: handle, ip: 0, slots: 0 });
                assert(self@.stack =~= seq![ValueView::Fun(handle)]);
                assert(self@.frames =~= seq![CallFrame { function: handle, ip: 0, slots: 0 }]);
                InterpretResult::InterpretOk
            },
        }
    }
}

/// A step compiles nothing and forgets nothing that was compiled: the
/// functions, the globals' names and the compiler's errors are the same after
/// it, and errors are only added.
pub proof fn step_keeps_functions(vm: VMView)
    ensures
        vm.step().vm.functions == vm.functions,
        vm.step().vm.diagnostics == vm.diagnostics,
        vm.step().vm.well_formed() == vm.well_formed(),
        is_prefix(vm.errors, vm.step().vm.errors),
        forall|name: Seq<char>|
            vm.globals.contains_key(name) ==> vm.step().vm.globals.contains_key(name),
{
    reveal(is_prefix);
    if vm.frames.len() > 0 {
        let frame = vm.frames.last();
        if frame.function < vm.functions.len() && frame.ip < vm.chunk().code.len() {
            let code = vm.chunk().code;
            match OpCode::spec_from_byte(code[frame.ip as int]) {
                None => {},
                Some(op) => {
                    if frame.ip + 1 + op.operand_width() <= code.len() {
                        let moved = vm.at((frame.ip + 1 + op.operand_width()) as usize);
                        let operand = VMView::operand(code, frame.ip as int, op);
                        let next = moved.execute(op, operand);
                        assert(next.vm.functions == vm.functions);
                        assert(is_prefix(vm.errors, next.vm.errors));
                    }
                },
            }
        }
    }
}

/// The machine finds the instructions of a well-formed chunk whole: where the
/// newest frame stands at the start of an instruction that the machine
/// knows, the operand is there, a constant that the instruction names exists,
/// and the frame moves to the start of the next instruction or to the end of
/// the code.
pub proof fn well_formed_code_is_read_whole(vm: VMView)
    requires
        vm.frames.len() > 0,
        vm.frames.last().function < vm.functions.len(),
        vm.chunk().well_formed(),
        is_instruction_start(vm.chunk().code, vm.frames.last().ip as int),
        OpCode::spec_from_byte(vm.chunk().code[vm.frames.last().ip as int]) is Some,
    ensures
        ({
            let code = vm.chunk().code;
            let ip = vm.frames.last().ip as int;
            let op = OpCode::spec_from_byte(code[ip])->0;
            &&& ip + 1 + op.operand_width() <= code.len()
            &&& op.names_constant() ==> VMView::operand(code, ip, op) < vm.chunk().constants.len()
            &&& reaches(code, 0, ip + 1 + op.operand_width())
            &&& vm.step() == vm.at((ip + 1 + op.operand_width()) as usize).execute(
                op,
                VMView::operand(code, ip, op),
            )
        }),
{
    instructions_are_whole(vm.chunk(), vm.frames.last().ip as int);
}

/// Whether the oldest frame, if there is one, has the bottom of the stack as
/// its first slot, as the frame of a script has that `interpret` starts.
pub open spec fn script_at_bottom(vm: VMView) -> bool {
    vm.frames.len() > 0 ==> vm.frames[0].slots == 0
}

/// Calls and returns leave the stack as they found it: a step keeps the
/// script's frame at the bottom of the stack, and when a step ends the
/// execution, be it by the script's return or by an error, nothing is left on
/// the stack.
pub proof fn step_keeps_script_at_bottom(vm: VMView)
    requires
        vm.frames.len() > 0,
        script_at_bottom(vm),
    ensures
        script_at_bottom(vm.step().vm),
        vm.step().signal is Done ==> vm.step().vm.stack.len() == 0 && vm.step().vm.frames.len()
            == 0,
{
    let frame = vm.frames.last();
    if frame.function < vm.functions.len() && frame.ip < vm.chunk().code.len() {
        let code = vm.chunk().code;
        match OpCode::spec_from_byte(code[frame.ip as int]) {
            None => {},
            Some(op) => {
                if frame.ip + 1 + op.operand_width() <= code.len() {
                    let moved = vm.at((frame.ip + 1 + op.operand_width()) as usize);
                    assert(moved.frames[0].slots == 0);
                    let operand = VMView::operand(code, frame.ip as int, op);
                    let next = moved.execute(op, operand);
                    assert(script_at_bottom(next.vm));
                }
            },
        }
    }
}

/// A run of the script that `interpret` has loaded ends with an empty
/// stack, however many steps it takes.
pub proof fn run_leaves_stack_empty(vm: VMView, limit: nat)
    requires
        vm.frames.len() > 0,
        script_at_bottom(vm),
    ensures
        script_at_bottom(vm.run(limit).vm),
        vm.run(limit).signal is Done ==> vm.run(limit).vm.stack.len() == 0,
    decreases limit,
{
    if limit > 0 {
        step_keeps_script_at_bottom(vm);
        let first = vm.step();
        if first.signal is Continue {
            if first.vm.frames.len() > 0 {
                run_leaves_stack_empty(first.vm, (limit - 1) as nat);
            } else {
                lemma_nothing_to_run(first.vm, (limit - 1) as nat);
            }
        }
    }
}

/// A machine without a frame does nothing.
proof fn lemma_nothing_to_run(vm: VMView, limit: nat)
    requires
        vm.frames.len() == 0,
    ensures
        vm.run(limit).vm == vm,
{
}

} // verus!
