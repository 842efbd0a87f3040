//! The values that a program computes with, and compiled functions.

use vstd::prelude::*;
use vstd::std_specs::cmp::PartialEqSpecImpl;
use vstd::std_specs::convert::FromSpecImpl;
use crate::chunk::Chunk;
use crate::chunk::ChunkView;
use crate::number;

verus! {

/// A value of the language.
///
/// A number is an IEEE 754 binary64 bit pattern (see [`crate::number`]). A
/// function or a native is a handle: the index under which the machine keeps
/// it.
#[derive(Debug)]
pub enum Value {
    Bool(bool),
    Number(u64),
    String(String),
    Fun(usize),
    Native(usize),
    Nil,
}

/// What a [`Value`] stands for: the same, with a string as its characters.
pub ghost enum ValueView {
    Bool(bool),
    Number(u64),
    String(Seq<char>),
    Fun(usize),
    Native(usize),
    Nil,
}

impl View for Value {
    type V = ValueView;

    open spec fn view(&self) -> ValueView {
        match self {
            Value::Bool(b) => ValueView::Bool(*b),
            Value::Number(bits) => ValueView::Number(*bits),
            Value::String(text) => ValueView::String(text@),
            Value::Fun(handle) => ValueView::Fun(*handle),
            Value::Native(handle) => ValueView::Native(*handle),
            Value::Nil => ValueView::Nil,
        }
    }
}

impl ValueView {
    /// Only `nil` and `false` count as false.
    pub open spec fn is_falsey(self) -> bool {
        match self {
            ValueView::Bool(b) => !b,
            ValueView::Nil => true,
            _ => false,
        }
    }

    /// Everything that is not falsey counts as true.
    pub open spec fn is_truthy(self) -> bool {
        match self {
            ValueView::Bool(b) => b,
            ValueView::Nil => false,
            _ => true,
        }
    }

    /// Equality of values: the same kind and the same content. Numbers are
    /// equal as binary64 numbers, strings by their characters, functions and
    /// natives by their handle.
    pub open spec fn equals(self, other: ValueView) -> bool {
        match (self, other) {
            (ValueView::Bool(a), ValueView::Bool(b)) => a == b,
            (ValueView::Number(a), ValueView::Number(b)) => number::number_equal(a, b),
            (ValueView::String(a), ValueView::String(b)) => a == b,
            (ValueView::Fun(a), ValueView::Fun(b)) => a == b,
            (ValueView::Native(a), ValueView::Native(b)) => a == b,
            (ValueView::Nil, ValueView::Nil) => true,
            _ => false,
        }
    }

    /// Whether two values are of the same kind.
    pub open spec fn same_kind(self, other: ValueView) -> bool {
        match (self, other) {
            (ValueView::Bool(_), ValueView::Bool(_)) => true,
            (ValueView::Number(_), ValueView::Number(_)) => true,
            (ValueView::String(_), ValueView::String(_)) => true,
            (ValueView::Fun(_), ValueView::Fun(_)) => true,
            (ValueView::Native(_), ValueView::Native(_)) => true,
            (ValueView::Nil, ValueView::Nil) => true,
            _ => false,
        }
    }
}

/// The views of a sequence of values.
pub open spec fn views(values: Seq<Value>) -> Seq<ValueView> {
    values.map_values(|v: Value| v@)
}

impl PartialEq for Value {
    fn eq(&self, other: &Value) -> (r: bool) {
        match (self, other) {
            (Value::Bool(a), Value::Bool(b)) => *a == *b,
            (Value::Number(a), Value::Number(b)) => number::equal(*a, *b),
            (Value::String(a), Value::String(b)) => *a == *b,
            (Value::Fun(a), Value::Fun(b)) => *a == *b,
            (Value::Native(a), Value::Native(b)) => *a == *b,
            (Value::Nil, Value::Nil) => true,
            _ => false,
        }
    }
}

impl PartialEqSpecImpl for Value {
    open spec fn obeys_eq_spec() -> bool {
        true
    }

    open spec fn eq_spec(&self, other: &Value) -> bool {
        self@.equals(other@)
    }
}

impl From<bool> for Value {
    fn from(b: bool) -> (r: Value) {
        Value::Bool(b)
    }
}

impl FromSpecImpl<bool> for Value {
    open spec fn obeys_from_spec() -> bool {
        true
    }

    open spec fn from_spec(b: bool) -> Value {
        Value::Bool(b)
    }
}

impl From<String> for Value {
    fn from(text: String) -> (r: Value) {
        Value::String(text)
    }
}

impl FromSpecImpl<String> for Value {
    open spec fn obeys_from_spec() -> bool {
        true
    }

    open spec fn from_spec(text: String) -> Value {
        Value::String(text)
    }
}

impl Value {
    /// The boolean that the value is.
    pub fn as_bool(self) -> (r: bool)
        requires
            self is Bool,
        ensures
            self == Value::Bool(r),
    {
        match self {
            Value::Bool(b) => b,
            _ => false,
        }
    }

    /// The bit pattern of the number that the value is.
    pub fn as_number(self) -> (r: u64)
        requires
            self is Number,
        ensures
            self == Value::Number(r),
    {
        match self {
            Value::Number(bits) => bits,
            _ => 0,
        }
    }

    /// The text of the string that the value is.
    pub fn as_string(self) -> (r: String)
        requires
            self is String,
        ensures
            self == Value::String(r),
    {
        match self {
            Value::String(text) => text,
            _ => String::new(),
        }
    }

    /// The handle of the function that the value is.
    pub fn as_function(self) -> (r: usize)
        requires
            self is Fun,
        ensures
            self == Value::Fun(r),
    {
        match self {
            Value::Fun(handle) => handle,
            _ => 0,
        }
    }

    /// Whether the value counts as false: `nil` and `false` do, nothing else.
    pub fn is_falsey(&self) -> (r: bool)
        ensures
            r == self@.is_falsey(),
    {
        match self {
            Value::Bool(b) => !*b,
            Value::Nil => true,
            _ => false,
        }
    }

}

impl Clone for Value {
    fn clone(&self) -> (r: Value)
        ensures
            r == *self,
    {
        match self {
            Value::Bool(b) => Value::Bool(*b),
            Value::Number(bits) => Value::Number(*bits),
            Value::String(text) => Value::String(text.clone()),
            Value::Fun(handle) => Value::Fun(*handle),
            Value::Native(handle) => Value::Native(*handle),
            Value::Nil => Value::Nil,
        }
    }
}

/// Whether the value is a number.
pub fn is_number(value: Value) -> (r: bool)
    ensures
        r == (value is Number),
{
    match value {
        Value::Number(_) => true,
        _ => false,
    }
}

/// Whether the value is a string.
pub fn is_string(value: Value) -> (r: bool)
    ensures
        r == (value is String),
{
    match value {
        Value::String(_) => true,
        _ => false,
    }
}

/// Whether the value is `nil`.
pub fn is_nil(value: Value) -> (r: bool)
    ensures
        r == (value is Nil),
{
    match value {
        Value::Nil => true,
        _ => false,
    }
}

/// Whether the value is a boolean.
pub fn is_bool(value: Value) -> (r: bool)
    ensures
        r == (value is Bool),
{
    match value {
        Value::Bool(_) => true,
        _ => false,
    }
}

/// A native function, as the embedding program provides it: it is called
/// with the number of its arguments and the arguments, and returns a value.
///
/// The machine does not call natives itself. It hands each call to the
/// embedding program as a [`crate::vm::Signal::Native`], and the embedding program
/// pushes what the native returns.
pub trait NativeFn {
    fn fun_call(&self, arg_count: usize, args: &[Value]) -> Value;
}

/// A compiled function: the number of its parameters, its bytecode and its
/// name. The top level of a script is a function without a name and without
/// parameters.
#[derive(Debug)]
pub struct Function {
    pub arity: usize,
    pub chunk: Chunk,
    pub name: Option<String>,
}

/// What a [`Function`] stands for.
pub ghost struct FunctionView {
    pub arity: usize,
    pub chunk: ChunkView,
    pub name: Option<Seq<char>>,
}

impl View for Function {
    type V = FunctionView;

    open spec fn view(&self) -> FunctionView {
        FunctionView {
            arity: self.arity,
            chunk: self.chunk@,
            name: match self.name {
                Some(text) => Some(text@),
                None => None,
            },
        }
    }
}

impl Function {
    /// A function of the given arity, bytecode and name.
    pub fn new(arity: usize, chunk: Chunk, name: Option<String>) -> (r: Function)
        ensures
            r.arity == arity,
            r.chunk == chunk,
            r.name == name,
    {
        Function { arity, chunk, name }
    }
}

impl Clone for Function {
    fn clone(&self) -> (r: Function)
        ensures
            r@ == self@,
    {
        let name = match &self.name {
            Some(text) => Some(text.clone()),
            None => None,
        };
        Function { arity: self.arity, chunk: self.chunk.clone(), name }
    }
}

/// A value is falsey exactly when it is not truthy.
pub proof fn truthiness_is_total(x: ValueView)
    ensures
        x.is_truthy() == !x.is_falsey(),
        x.is_falsey() <==> (x is Nil || x == ValueView::Bool(false)),
{
}

/// Equality of values is symmetric and holds only within one kind. It holds
/// of a value with itself, unless the value is a number that is a NaN.
pub proof fn equality_laws(x: ValueView, y: ValueView)
    ensures
        x.equals(y) == y.equals(x),
        x.equals(y) ==> x.same_kind(y),
        !(x matches ValueView::Number(bits) && number::is_nan(bits)) ==> x.equals(x),
        (x is Fun || x is Native) ==> (x.equals(y) <==> x == y),
{
}

} // verus!
