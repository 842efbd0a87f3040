//! The compiler's state: the parser's two tokens, the function being
//! compiled with its local variables, the finished functions, and the
//! diagnostics reported so far.

use vstd::hash_map::StringHashMap;
use vstd::prelude::*;
use vstd::string::*;
use crate::chunk::Chunk;
use crate::chunk::ChunkView;
use crate::scanner::Scanner;
use crate::scanner::ScannerView;
use crate::scanner::Token;
use crate::scanner::TokenView;
use crate::text::text_views;
use crate::token_type::TokenType;
use crate::value::Function;
use crate::value::FunctionView;

verus! {

/// The parser's window on the token stream, and whether an error was met.
pub struct Parser {
    /// The token that is looked at next.
    pub current: Token,
    /// The token that was consumed last.
    pub previous: Token,
    /// Whether any error was reported.
    pub had_error: bool,
    /// Whether errors are being held back until the next statement.
    pub panic_mode: bool,
}

/// What a [`Parser`] stands for.
pub ghost struct ParserView {
    pub current: TokenView,
    pub previous: TokenView,
    pub had_error: bool,
    pub panic_mode: bool,
}

impl View for Parser {
    type V = ParserView;

    open spec fn view(&self) -> ParserView {
        ParserView {
            current: self.current@,
            previous: self.previous@,
            had_error: self.had_error,
            panic_mode: self.panic_mode,
        }
    }
}

/// The token that a parser holds before it has read anything.
pub open spec fn undefined_token() -> TokenView {
    TokenView { _type: TokenType::Undefined, lexeme: seq![], line: 0 }
}

impl Parser {
    /// A parser that has read nothing and met no error.
    pub fn new() -> (r: Parser)
        ensures
            r@ == (ParserView {
                current: undefined_token(),
                previous: undefined_token(),
                had_error: false,
                panic_mode: false,
            }),
    {
        Parser {
            current: Token { _type: TokenType::Undefined, lexeme: String::new(), line: 0 },
            previous: Token { _type: TokenType::Undefined, lexeme: String::new(), line: 0 },
            had_error: false,
            panic_mode: false,
        }
    }
}

/// Whether a function body or the top level of a script is being compiled.
#[derive(Debug, PartialEq, Eq, Clone, Copy, Structural)]
pub enum FunctionType {
    TypeFunction,
    TypeScript,
}

/// A local variable: the token that names it and the depth of the scope it
/// belongs to. Without a depth the variable is declared but its initializer
/// is still being compiled.
pub struct Local {
    pub name: Token,
    pub depth: Option<usize>,
}

/// What a [`Local`] stands for.
pub ghost struct LocalView {
    pub name: TokenView,
    pub depth: Option<usize>,
}

impl View for Local {
    type V = LocalView;

    open spec fn view(&self) -> LocalView {
        LocalView { name: self.name@, depth: self.depth }
    }
}

/// The views of a sequence of locals.
pub open spec fn local_views(locals: Seq<Local>) -> Seq<LocalView> {
    locals.map_values(|local: Local| local@)
}

/// The views of a sequence of functions.
pub open spec fn function_views(functions: Seq<Function>) -> Seq<FunctionView> {
    functions.map_values(|function: Function| function@)
}

/// What is known of the function that is being compiled.
pub struct CurrCompiler {
    pub function: Function,
    pub locals: Vec<Local>,
    pub fun_type: FunctionType,
    pub scope_depth: usize,
}

/// What a [`CurrCompiler`] stands for.
pub ghost struct ContextView {
    pub function: FunctionView,
    pub locals: Seq<LocalView>,
    pub fun_type: FunctionType,
    pub scope_depth: usize,
}

impl View for CurrCompiler {
    type V = ContextView;

    open spec fn view(&self) -> ContextView {
        ContextView {
            function: self.function@,
            locals: local_views(self.locals@),
            fun_type: self.fun_type,
            scope_depth: self.scope_depth,
        }
    }
}

impl ContextView {
    /// The context of a function of which nothing has been compiled yet.
    pub open spec fn fresh(fun_type: FunctionType) -> ContextView {
        ContextView {
            function: FunctionView {
                arity: 0,
                chunk: ChunkView { code: seq![], constants: seq![], lines: seq![] },
                name: None,
            },
            locals: seq![],
            fun_type,
            scope_depth: 0,
        }
    }
}

impl CurrCompiler {
    /// The context of a function of which nothing has been compiled yet.
    pub fn new(fun_type: FunctionType) -> (r: CurrCompiler)
        ensures
            r@ == ContextView::fresh(fun_type),
    {
        let r = CurrCompiler {
            function: Function::new(0, Chunk::new(), None),
            locals: Vec::new(),
            fun_type,
            scope_depth: 0,
        };
        assert(r@.locals =~= seq![]);
        r
    }
}

/// The values of the number literals of a source text, by their text.
///
/// The library does not read numerals itself: the embedding program converts
/// each to the binary64 it denotes and enters its bit pattern here.
pub struct Numbers {
    values: StringHashMap<u64>,
}

impl View for Numbers {
    type V = Map<Seq<char>, u64>;

    closed spec fn view(&self) -> Map<Seq<char>, u64> {
        self.values@
    }
}

impl Numbers {
    /// An empty table.
    pub fn new() -> (r: Numbers)
        ensures
            r@ == Map::<Seq<char>, u64>::empty(),
    {
        Numbers { values: StringHashMap::new() }
    }

    /// Enters the value of a numeral, in place of an earlier one if there is
    /// one.
    pub fn insert(&mut self, text: String, bits: u64)
        ensures
            final(self)@ == old(self)@.insert(text@, bits),
    {
        self.values.insert(text, bits);
    }

    /// The value of a numeral, if it has been entered.
    pub fn get(&self, text: &str) -> (r: Option<u64>)
        ensures
            r == (if self@.contains_key(text@) {
                Some(self@[text@])
            } else {
                None
            }),
    {
        match self.values.get(text) {
            Some(bits) => Some(*bits),
            None => None,
        }
    }
}

/// The compiler.
pub struct Compiler {
    pub parser: Parser,
    pub scanner: Scanner,
    pub curr_compiler: CurrCompiler,
    pub functions: Vec<Function>,
    pub numbers: Numbers,
    pub diagnostics: Vec<String>,
}

/// What a [`Compiler`] stands for.
pub ghost struct CompilerView {
    pub parser: ParserView,
    pub scanner: ScannerView,
    pub context: ContextView,
    /// The functions compiled so far; a function value is an index into them.
    pub functions: Seq<FunctionView>,
    pub numbers: Map<Seq<char>, u64>,
    /// The errors reported so far, one line each.
    pub diagnostics: Seq<Seq<char>>,
}

impl View for Compiler {
    type V = CompilerView;

    open spec fn view(&self) -> CompilerView {
        CompilerView {
            parser: self.parser@,
            scanner: self.scanner@,
            context: self.curr_compiler@,
            functions: function_views(self.functions@),
            numbers: self.numbers@,
            diagnostics: text_views(self.diagnostics@),
        }
    }
}

} // verus!
