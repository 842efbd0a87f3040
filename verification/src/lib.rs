//! A bytecode compiler and stack machine for a small dynamically typed
//! scripting language.
//!
//! A source text is scanned, parsed and compiled to bytecode in a single
//! pass; the machine then executes that bytecode one instruction at a time.
//! Everything that needs floating point, a clock or a terminal is left to the
//! embedding program: the compiler takes the values of the number literals
//! from a table that the embedding program fills, and the machine stops with
//! a [`vm::Signal`] whenever there is something to print, to add, subtract,
//! multiply or divide, or a native function to call.
//!
//! The modules, from the leaves up:
//!
//! - [`token_type`], [`scanner`]: tokens, and the scanner that reads them.
//! - [`precedence`], [`rules`]: the binding strengths of the operators and
//!   the table of parse rules.
//! - [`number`], [`value`], [`ordering`]: numbers as bit patterns, the values
//!   of the language, their equality and their order.
//! - [`chunk`]: the instruction set, and the bytecode of a function.
//! - [`compiler`], [`model`], [`emitter`], [`expressions`], [`statements`]:
//!   the compiler. Its state is in the first, what its routines do is stated
//!   in the second as functions on that state, and the routines are in the
//!   last three.
//! - [`vm`]: the machine.
//! - [`debug`]: the disassembler.
//! - [`text`]: decimal numerals and the order of texts.

pub mod chunk;
pub mod compiler;
pub mod debug;
pub mod emitter;
pub mod expressions;
pub mod model;
pub mod number;
pub mod ordering;
pub mod precedence;
pub mod rules;
pub mod scanner;
pub mod statements;
pub mod text;
pub mod token_type;
pub mod value;
pub mod vm;
