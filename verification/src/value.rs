//! Runtime values: nil, booleans, numbers, strings, user functions and
//! native functions.

use vstd::prelude::*;
use crate::number::Number;
use crate::syntax::{Stmt, StmtView};
use crate::text::join3;
use crate::token::{clone_tokens, token_views, Token, TokenView};

verus! {

/// The functions that the host provides.
#[derive(Debug, Clone, Copy, PartialEq, Eq, Structural)]
pub enum NativeFunction {
    /// `clock()`: the seconds since the Unix epoch, as a number.
    Clock,
}

impl NativeFunction {
    /// The number of arguments the function takes.
    pub open spec fn parameters(self) -> nat {
        match self {
            NativeFunction::Clock => 0,
        }
    }

    /// The name the function is printed under.
    pub open spec fn title(self) -> Seq<char> {
        match self {
            NativeFunction::Clock => "Clock"@,
        }
    }

    /// The number of arguments the function takes.
    pub fn arity(&self) -> (r: usize)
        ensures
            r == self.parameters(),
    {
        match self {
            NativeFunction::Clock => 0,
        }
    }

    /// The name the function is printed under.
    pub fn name(&self) -> (r: &'static str)
        ensures
            r@ == self.title(),
    {
        match self {
            NativeFunction::Clock => "Clock",
        }
    }
}

/// A user-defined function: its declaration and its closure, the scope in
/// effect where it was declared, by its index in the environment.
#[derive(Debug)]
pub struct Function {
    pub name: Token,
    pub parameters: Vec<Token>,
    pub body: Vec<Stmt>,
    pub closure: usize,
}

/// The mathematical model of a [`Function`].
pub struct FunctionView {
    pub name: TokenView,
    pub parameters: Seq<TokenView>,
    pub body: Seq<StmtView>,
    pub closure: nat,
}

impl View for Function {
    type V = FunctionView;

    open spec fn view(&self) -> FunctionView {
        FunctionView {
            name: self.name@,
            parameters: token_views(self.parameters@),
            body: Stmt::models(self.body@),
            closure: self.closure as nat,
        }
    }
}

impl Function {
    /// The number of arguments the function takes.
    pub fn arity(&self) -> (r: usize)
        ensures
            r == self@.parameters.len(),
    {
        self.parameters.len()
    }
}

impl Clone for Function {
    fn clone(&self) -> (r: Function)
        ensures
            r@ == self@,
    {
        Function {
            name: self.name.clone(),
            parameters: clone_tokens(&self.parameters),
            body: Stmt::duplicate_all(&self.body),
            closure: self.closure,
        }
    }
}

/// A runtime value.
#[derive(Debug)]
pub enum Value {
    Boolean(bool),
    Nil,
    Number(Number),
    String(String),
    Function(Function),
    NativeFunction(NativeFunction),
}

/// The mathematical model of a [`Value`].
pub enum ValueView {
    Boolean(bool),
    Nil,
    Number(Number),
    String(Seq<char>),
    Function(FunctionView),
    NativeFunction(NativeFunction),
}

impl View for Value {
    type V = ValueView;

    open spec fn view(&self) -> ValueView {
        match self {
            Value::Boolean(b) => ValueView::Boolean(*b),
            Value::Nil => ValueView::Nil,
            Value::Number(n) => ValueView::Number(*n),
            Value::String(text) => ValueView::String(text@),
            Value::Function(f) => ValueView::Function(f@),
            Value::NativeFunction(f) => ValueView::NativeFunction(*f),
        }
    }
}

/// What `print` writes for a value: text, or a number for the host to
/// render in decimal.
#[derive(Debug, PartialEq, Eq)]
pub enum Output {
    Text(String),
    Number(Number),
}

/// The mathematical model of an [`Output`].
pub enum OutputView {
    Text(Seq<char>),
    Number(Number),
}

impl View for Output {
    type V = OutputView;

    open spec fn view(&self) -> OutputView {
        match self {
            Output::Text(text) => OutputView::Text(text@),
            Output::Number(n) => OutputView::Number(*n),
        }
    }
}

impl ValueView {
    /// Truthiness: `false` and `nil` are false; everything else is true,
    /// zero and the empty string included.
    pub open spec fn truthy(self) -> bool {
        match self {
            ValueView::Boolean(b) => b,
            ValueView::Nil => false,
            _ => true,
        }
    }

    /// Equality of values: values of different variants are never equal;
    /// numbers compare as IEEE-754 doubles, strings by their characters,
    /// user functions by the text of their names, native functions by tag.
    pub open spec fn equals(self, other: ValueView) -> bool {
        match (self, other) {
            (ValueView::Boolean(a), ValueView::Boolean(b)) => a == b,
            (ValueView::Nil, ValueView::Nil) => true,
            (ValueView::Number(a), ValueView::Number(b)) => a.equal(b),
            (ValueView::String(a), ValueView::String(b)) => a == b,
            (ValueView::Function(a), ValueView::Function(b)) => a.name.lexeme == b.name.lexeme,
            (ValueView::NativeFunction(a), ValueView::NativeFunction(b)) => a == b,
            _ => false,
        }
    }

    /// The message for a value that is used as a number and is none.
    pub open spec fn not_a_number(self) -> Seq<char> {
        match self {
            ValueView::Boolean(_) => "Cannot convert boolean to number."@,
            ValueView::Nil => "Cannot convert nil to number."@,
            ValueView::Number(_) => Seq::empty(),
            ValueView::String(_) => "Cannot convert string to number."@,
            ValueView::Function(_) => "Cannot convert function to number."@,
            ValueView::NativeFunction(_) => "Cannot convert native function to number."@,
        }
    }

    /// The value as a number, or the message that says why it is none.
    pub open spec fn number(self) -> Result<Number, Seq<char>> {
        match self {
            ValueView::Number(n) => Ok(n),
            _ => Err(self.not_a_number()),
        }
    }

    /// What `print` writes for the value.
    pub open spec fn output(self) -> OutputView {
        match self {
            ValueView::Boolean(b) => OutputView::Text(
                if b {
                    "true"@
                } else {
                    "false"@
                },
            ),
            ValueView::Nil => OutputView::Text("nil"@),
            ValueView::Number(n) => OutputView::Number(n),
            ValueView::String(text) => OutputView::Text(text),
            ValueView::Function(f) => OutputView::Text("<fn "@ + f.name.lexeme + ">"@),
            ValueView::NativeFunction(f) => OutputView::Text("<native fn "@ + f.title() + ">"@),
        }
    }

    /// Whether every scope the value refers to has an index below `bound`.
    pub open spec fn within(self, bound: nat) -> bool {
        match self {
            ValueView::Function(f) => f.closure < bound,
            _ => true,
        }
    }
}

impl Value {
    /// Truthiness: `false` and `nil` are false; everything else is true.
    pub fn to_boolean(&self) -> (r: bool)
        ensures
            r == self@.truthy(),
    {
        match self {
            Value::Boolean(b) => *b,
            Value::Nil => false,
            _ => true,
        }
    }

    /// The value as a number; an error message if it is none.
    pub fn to_number(&self) -> (r: Result<Number, String>)
        ensures
            match self@.number() {
                Ok(n) => r == Ok::<Number, String>(n),
                Err(message) => r matches Err(text) && text@ == message,
            },
    {
        match self {
            Value::Boolean(_) => Err(String::from_str("Cannot convert boolean to number.")),
            Value::Nil => Err(String::from_str("Cannot convert nil to number.")),
            Value::Number(n) => Ok(*n),
            Value::String(_) => Err(String::from_str("Cannot convert string to number.")),
            Value::Function(_) => Err(String::from_str("Cannot convert function to number.")),
            Value::NativeFunction(_) => Err(
                String::from_str("Cannot convert native function to number."),
            ),
        }
    }

    /// Whether two values are equal.
    pub fn equals(&self, other: &Value) -> (r: bool)
        ensures
            r == self@.equals(other@),
    {
        match (self, other) {
            (Value::Boolean(a), Value::Boolean(b)) => *a == *b,
            (Value::Nil, Value::Nil) => true,
            (Value::Number(a), Value::Number(b)) => a.equals(*b),
            (Value::String(a), Value::String(b)) => *a == *b,
            (Value::Function(a), Value::Function(b)) => a.name.lexeme == b.name.lexeme,
            (Value::NativeFunction(a), Value::NativeFunction(b)) => match (a, b) {
                (NativeFunction::Clock, NativeFunction::Clock) => true,
            },
            _ => false,
        }
    }

    /// What `print` writes for the value.
    pub fn printed(&self) -> (r: Output)
        ensures
            r@ == self@.output(),
    {
        match self {
            Value::Boolean(b) => Output::Text(
                if *b {
                    String::from_str("true")
                } else {
                    String::from_str("false")
                },
            ),
            Value::Nil => Output::Text(String::from_str("nil")),
            Value::Number(n) => Output::Number(*n),
            Value::String(text) => Output::Text(text.clone()),
            Value::Function(f) => Output::Text(join3("<fn ", f.name.lexeme.as_str(), ">")),
            Value::NativeFunction(f) => Output::Text(join3("<native fn ", f.name(), ">")),
        }
    }
}

impl Clone for Value {
    fn clone(&self) -> (r: Value)
        ensures
            r@ == self@,
    {
        match self {
            Value::Boolean(b) => Value::Boolean(*b),
            Value::Nil => Value::Nil,
            Value::Number(n) => Value::Number(*n),
            Value::String(text) => Value::String(text.clone()),
            Value::Function(f) => Value::Function(f.clone()),
            Value::NativeFunction(f) => Value::NativeFunction(*f),
        }
    }
}

/// The models of a sequence of values, in order.
pub open spec fn value_views(values: Seq<Value>) -> Seq<ValueView> {
    values.map_values(|v: Value| v@)
}

} // verus!
