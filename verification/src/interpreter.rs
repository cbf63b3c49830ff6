//! The interpreter: the machine's state and its step, executable.
//!
//! An [`Interpreter`] is loaded with a program and then stepped by its host.
//! Each [`Interpreter::step`] makes exactly the transition that
//! [`crate::machine::step`] describes and tells the host what to do before
//! the next one.

use vstd::prelude::*;
use crate::environment::{Environment, ScopeView};
use crate::machine;
use crate::machine::{Action, ActionView, Arithmetic, Control, ControlView, Event, Frame, FrameView, MachineView, Request, frame_views, lemma_closed_like};
use crate::number::Number;
use crate::parser::Parser;
use crate::scanner::Scanner;
use crate::syntax::{BinaryOperator, Expr, Literal, LogicalOperator, Stmt, UnaryOperator};
use crate::text::decimal_string;
use crate::token::{token_views, Token};
use crate::value::{Function, NativeFunction, Value, ValueView, value_views};

verus! {

proof fn lemma_frames_pushed(stack: Seq<Frame>, frame: Frame)
    ensures
        frame_views(stack.push(frame)) == frame_views(stack).push(frame@),
{
    assert(frame_views(stack.push(frame)) =~= frame_views(stack).push(frame@));
}

proof fn lemma_frames_popped(stack: Seq<Frame>)
    requires
        stack.len() > 0,
    ensures
        frame_views(stack.drop_last()) == frame_views(stack).drop_last(),
        frame_views(stack).last() == stack.last()@,
{
    assert(frame_views(stack.drop_last()) =~= frame_views(stack).drop_last());
}

proof fn lemma_statements_popped(list: Seq<Stmt>)
    requires
        list.len() > 0,
    ensures
        Stmt::models(list.drop_last()) == Stmt::models(list).drop_last(),
        Stmt::models(list).last() == list.last()@,
{
    assert(Stmt::models(list.drop_last()) =~= Stmt::models(list).drop_last());
}

proof fn lemma_expressions_popped(list: Seq<Expr>)
    requires
        list.len() > 0,
    ensures
        Expr::models(list.drop_last()) == Expr::models(list).drop_last(),
        Expr::models(list).last() == list.last()@,
{
    assert(Expr::models(list.drop_last()) =~= Expr::models(list).drop_last());
}

/// What is closed under a bound stays closed when more scopes are made.
proof fn lemma_closed_grows(s: MachineView, heap: Seq<ScopeView>)
    requires
        s.closed(),
        heap.len() >= s.heap.len(),
    ensures
        (MachineView { heap, ..s }).closed(),
{
    lemma_closed_like(s, MachineView { heap, ..s });
}

/// The statements of a list in reverse order.
fn reversed_statements(list: Vec<Stmt>) -> (r: Vec<Stmt>)
    ensures
        Stmt::models(r@) == Stmt::models(list@).reverse(),
{
    let ghost whole = list@;
    let mut list = list;
    let mut out: Vec<Stmt> = Vec::new();
    while list.len() > 0
        invariant
            list.len() + out.len() == whole.len(),
            list@ == whole.subrange(0, list.len() as int),
            forall|j: int| 0 <= j < out.len() ==> out@[j] == whole[whole.len() - 1 - j],
        decreases list.len(),
    {
        let item = list.pop().unwrap();
        out.push(item);
    }
    assert(Stmt::models(out@) =~= Stmt::models(whole).reverse());
    out
}

/// The expressions of a list in reverse order.
fn reversed_expressions(list: Vec<Expr>) -> (r: Vec<Expr>)
    ensures
        Expr::models(r@) == Expr::models(list@).reverse(),
{
    let ghost whole = list@;
    let mut list = list;
    let mut out: Vec<Expr> = Vec::new();
    while list.len() > 0
        invariant
            list.len() + out.len() == whole.len(),
            list@ == whole.subrange(0, list.len() as int),
            forall|j: int| 0 <= j < out.len() ==> out@[j] == whole[whole.len() - 1 - j],
        decreases list.len(),
    {
        let item = list.pop().unwrap();
        out.push(item);
    }
    assert(Expr::models(out@) =~= Expr::models(whole).reverse());
    out
}

/// The message for a call with the wrong number of arguments.
fn arity_message(expected: usize, got: usize) -> (r: String)
    ensures
        r@ == machine::arity_mismatch(expected as nat, got as nat),
{
    let mut text = String::from_str("Expected ");
    text.append(decimal_string(expected).as_str());
    text.append(" arguments but got ");
    text.append(decimal_string(got).as_str());
    text.append(".");
    text
}

/// The arithmetic operation that a binary operator stands for, if it is one.
fn arithmetic(operator: BinaryOperator) -> (r: Option<Arithmetic>)
    ensures
        r == machine::arithmetic_of(operator),
{
    match operator {
        BinaryOperator::Add => Some(Arithmetic::Add),
        BinaryOperator::Subtract => Some(Arithmetic::Subtract),
        BinaryOperator::Multiply => Some(Arithmetic::Multiply),
        BinaryOperator::Divide => Some(Arithmetic::Divide),
        _ => None,
    }
}

/// The outcome of a comparison operator on two numbers.
fn compare(operator: BinaryOperator, left: Number, right: Number) -> (r: bool)
    ensures
        r == machine::compared(operator, left, right),
{
    match operator {
        BinaryOperator::Greater => right.less_than(left),
        BinaryOperator::GreaterEqual => right.at_most(left),
        BinaryOperator::Less => left.less_than(right),
        _ => left.at_most(right),
    }
}

/// An interpreter: the environment of a program, the scope of its top-level
/// statements, the current scope, and the state of the evaluation that is
/// under way. The native functions are bound in scope 0, which encloses the
/// top-level scope.
pub struct Interpreter {
    heap: Environment,
    environment: usize,
    scope: usize,
    control: Control,
    stack: Vec<Frame>,
}

impl View for Interpreter {
    type V = MachineView;

    closed spec fn view(&self) -> MachineView {
        MachineView {
            heap: self.heap@,
            top: self.environment as nat,
            scope: self.scope as nat,
            control: self.control@,
            stack: frame_views(self.stack@),
        }
    }
}

impl Interpreter {
    /// The interpreter's invariant: the environment is well formed, and
    /// every scope that the state names exists.
    pub closed spec fn inv(&self) -> bool {
        &&& self.heap.inv()
        &&& self@.closed()
    }

    /// What the invariant means for the model: every scope that the state
    /// or the environment names exists.
    pub proof fn lemma_inv(&self)
        requires
            self.inv(),
        ensures
            self@.closed(),
            crate::environment::nested(self@.heap),
            crate::environment::contained(self@.heap),
    {
        self.heap.lemma_inv();
    }

    /// An interpreter with nothing to run: a global scope that binds the
    /// native functions, and inside it an empty top-level scope.
    pub fn new() -> (r: Interpreter)
        ensures
            r.inv(),
            r@ == (MachineView {
                heap: crate::environment::enclosed(
                    crate::environment::defined(
                        seq![ScopeView { enclosing: None, bindings: Map::empty() }],
                        0,
                        "clock"@,
                        ValueView::NativeFunction(NativeFunction::Clock),
                    ),
                    0,
                ),
                top: 1,
                scope: 1,
                control: ControlView::Idle,
                stack: Seq::empty(),
            }),
    {
        let mut heap = Environment::new();
        heap.define(0, String::from_str("clock"), Value::NativeFunction(NativeFunction::Clock));
        let environment = heap.new_enclosed(0);
        let r = Interpreter {
            heap,
            environment,
            scope: environment,
            control: Control::Idle,
            stack: Vec::new(),
        };
        assert(frame_views(r.stack@) =~= Seq::empty());
        r
    }

    /// Scans and parses `code` and loads its statements to run at the top
    /// level. On a lexical or syntax error nothing is loaded and the
    /// interpreter stays as it was.
    pub fn parse_and_run(&mut self, code: &str) -> (r: Result<(), String>)
        requires
            old(self).inv(),
            code@.len() < usize::MAX,
        ensures
            final(self).inv(),
            match crate::scanner::scan(code@) {
                Ok(tokens) => match crate::grammar::parse(tokens) {
                    Ok(statements) => r is Ok && final(self)@ == machine::loaded(
                        old(self)@,
                        statements,
                    ),
                    Err(message) => r matches Err(text) && text@ == message && final(self)@ == old(
                        self,
                    )@,
                },
                Err(message) => r matches Err(text) && text@ == message && final(self)@ == old(
                    self,
                )@,
            },
    {
        let mut scanner = Scanner::new(String::from_str(code));
        let tokens = match scanner.scan_tokens() {
            Ok(tokens) => tokens,
            Err(message) => {
                return Err(message);
            },
        };
        let mut parser = Parser::new(tokens);
        let statements = match parser.parse() {
            Ok(statements) => statements,
            Err(message) => {
                return Err(message);
            },
        };
        self.run(statements);
        Ok(())
    }

    /// Loads `statements` to run at the top level. Whatever was running is
    /// dropped; the environment stays as it is.
    pub fn run(&mut self, statements: Vec<Stmt>)
        requires
            old(self).inv(),
        ensures
            final(self).inv(),
            final(self)@ == machine::loaded(old(self)@, Stmt::models(statements@)),
    {
        let pending = reversed_statements(statements);
        let mut stack: Vec<Frame> = Vec::new();
        stack.push(Frame::Sequence { pending });
        self.stack = stack;
        self.scope = self.environment;
        self.control = Control::Value(Value::Nil);
        assert(frame_views(self.stack@) =~= seq![
            FrameView::Sequence { pending: Stmt::models(statements@).reverse() },
        ]);
    }

    /// Makes one step: the statement, expression or value under control is
    /// taken one transition further, and the action says what the host is
    /// to do before the next step.
    pub fn step(&mut self, event: Event) -> (action: Action)
        requires
            old(self).inv(),
        ensures
            final(self).inv(),
            (final(self)@, action@) == machine::step(old(self)@, event),
    {
        let mut control = Control::Idle;
        core::mem::swap(&mut control, &mut self.control);
        proof {
            lemma_closed_like(old(self)@, self@);
        }
        match control {
            Control::Idle => Action::Finished,
            Control::Statement(statement) => statement.evaluate(self),
            Control::Expression(expression) => expression.evaluate(self),
            Control::Value(value) => {
                match self.pop() {
                    None => Action::Finished,
                    Some(frame) => self.resume(frame, value),
                }
            },
            Control::Returning(value) => {
                match self.pop() {
                    None => self.fail(String::from_str("return from top-level")),
                    Some(Frame::Call { saved }) => {
                        self.leave(saved);
                        self.proceed(Control::Value(value))
                    },
                    Some(_) => self.proceed(Control::Returning(value)),
                }
            },
            Control::Pending(request) => match event {
                Event::Number(n) => self.proceed(Control::Value(Value::Number(n))),
                Event::Resume => {
                    let again = request.clone();
                    self.control = Control::Pending(request);
                    Action::Request(again)
                },
            },
        }
    }

    /// Takes the innermost frame off the stack, if there is one.
    fn pop(&mut self) -> (r: Option<Frame>)
        requires
            old(self).inv(),
        ensures
            final(self).inv(),
            match r {
                Some(frame) => {
                    &&& old(self)@.stack.len() > 0
                    &&& frame@ == old(self)@.stack.last()
                    &&& frame@.within(old(self)@.heap.len())
                    &&& final(self)@ == (MachineView {
                        stack: old(self)@.stack.drop_last(),
                        ..old(self)@
                    })
                },
                None => old(self)@.stack.len() == 0 && final(self)@ == old(self)@,
            },
    {
        proof {
            if self.stack@.len() > 0 {
                lemma_frames_popped(self.stack@);
                assert(self@.stack[self@.stack.len() - 1].within(self@.heap.len()));
            }
        }
        let r = self.stack.pop();
        proof {
            if r.is_some() {
                let s = old(self)@;
                let t = self@;
                assert forall|i: int| 0 <= i < t.stack.len() implies (#[trigger] t.stack[i]).within(
                    t.heap.len(),
                ) by {
                    assert(s.stack[i].within(s.heap.len()));
                }
            }
        }
        r
    }

    /// Goes on with `control`.
    fn proceed(&mut self, control: Control) -> (action: Action)
        requires
            old(self).inv(),
            control@.within(old(self)@.heap.len()),
        ensures
            final(self).inv(),
            (final(self)@, action@) == machine::proceed(old(self)@, control@),
    {
        self.control = control;
        Action::Continue
    }

    /// Pushes `frame` and goes on with `control`.
    fn push(&mut self, frame: Frame, control: Control) -> (action: Action)
        requires
            old(self).inv(),
            frame@.within(old(self)@.heap.len()),
            control@.within(old(self)@.heap.len()),
        ensures
            final(self).inv(),
            (final(self)@, action@) == machine::push(old(self)@, frame@, control@),
    {
        proof {
            lemma_frames_pushed(self.stack@, frame);
        }
        self.stack.push(frame);
        self.control = control;
        Action::Continue
    }

    /// Asks the host for a number and waits for it.
    fn ask(&mut self, request: Request) -> (action: Action)
        requires
            old(self).inv(),
        ensures
            final(self).inv(),
            (final(self)@, action@) == machine::ask(old(self)@, request@),
    {
        let asked = request.clone();
        self.control = Control::Pending(request);
        Action::Request(asked)
    }

    /// Stops with a runtime error.
    fn fail(&mut self, message: String) -> (action: Action)
        requires
            old(self).inv(),
        ensures
            final(self).inv(),
            (final(self)@, action@) == machine::fail(old(self)@, message@),
    {
        self.control = Control::Idle;
        self.stack = Vec::new();
        self.scope = self.environment;
        assert(frame_views(self.stack@) =~= Seq::empty());
        Action::Failed(message)
    }

    /// Goes back to the scope `saved`.
    fn leave(&mut self, saved: usize)
        requires
            old(self).inv(),
            saved < old(self)@.heap.len(),
        ensures
            final(self).inv(),
            final(self)@ == (MachineView { scope: saved as nat, ..old(self)@ }),
    {
        self.scope = saved;
        proof {
            lemma_closed_like(old(self)@, self@);
        }
    }

    /// Binds `name` to `value` in `scope`.
    fn define(&mut self, scope: usize, name: String, value: Value)
        requires
            old(self).inv(),
            scope < old(self)@.heap.len(),
            value@.within(old(self)@.heap.len()),
        ensures
            final(self).inv(),
            final(self)@ == (MachineView {
                heap: crate::environment::defined(old(self)@.heap, scope as int, name@, value@),
                ..old(self)@
            }),
    {
        self.heap.define(scope, name, value);
        proof {
            lemma_closed_grows(old(self)@, self.heap@);
        }
    }

    /// Makes a new scope inside `outer` and returns its index.
    fn open_scope(&mut self, outer: usize) -> (inner: usize)
        requires
            old(self).inv(),
            outer < old(self)@.heap.len(),
        ensures
            final(self).inv(),
            inner == old(self)@.heap.len(),
            final(self)@ == (MachineView {
                heap: crate::environment::enclosed(old(self)@.heap, outer as nat),
                ..old(self)@
            }),
    {
        let inner = self.heap.new_enclosed(outer);
        proof {
            lemma_closed_grows(old(self)@, self.heap@);
        }
        inner
    }

    /// Runs `statements` in `scope`, behind the frame that restores the
    /// scope in which they were reached.
    fn enter(&mut self, boundary: Frame, statements: Vec<Stmt>, scope: usize) -> (action: Action)
        requires
            old(self).inv(),
            boundary@.within(old(self)@.heap.len()),
            scope < old(self)@.heap.len(),
        ensures
            final(self).inv(),
            final(self)@ == (MachineView {
                scope: scope as nat,
                stack: old(self)@.stack.push(boundary@).push(
                    FrameView::Sequence { pending: Stmt::models(statements@).reverse() },
                ),
                control: ControlView::Value(ValueView::Nil),
                ..old(self)@
            }),
            action@ == ActionView::Continue,
    {
        let pending = reversed_statements(statements);
        let body = Frame::Sequence { pending };
        proof {
            lemma_frames_pushed(self.stack@, boundary);
            lemma_frames_pushed(self.stack@.push(boundary), body);
        }
        self.stack.push(boundary);
        self.stack.push(body);
        self.scope = scope;
        self.control = Control::Value(Value::Nil);
        Action::Continue
    }

    /// Applies a binary operator to the values of its operands.
    fn operate(&mut self, operator: BinaryOperator, left: Value, right: Value) -> (action: Action)
        requires
            old(self).inv(),
        ensures
            final(self).inv(),
            (final(self)@, action@) == machine::operate(old(self)@, operator, left@, right@),
    {
        match operator {
            BinaryOperator::Equal => {
                let equal = left.equals(&right);
                self.proceed(Control::Value(Value::Boolean(equal)))
            },
            BinaryOperator::NotEqual => {
                let equal = left.equals(&right);
                self.proceed(Control::Value(Value::Boolean(!equal)))
            },
            _ => {
                match (operator, left, right) {
                    (BinaryOperator::Add, Value::String(a), Value::String(b)) => {
                        let mut joined = a;
                        joined.append(b.as_str());
                        self.proceed(Control::Value(Value::String(joined)))
                    },
                    (operator, left, right) => {
                        let a = match left.to_number() {
                            Ok(a) => a,
                            Err(message) => {
                                return self.fail(message);
                            },
                        };
                        let b = match right.to_number() {
                            Ok(b) => b,
                            Err(message) => {
                                return self.fail(message);
                            },
                        };
                        match arithmetic(operator) {
                            Some(operator) => self.ask(
                                Request::Arithmetic { operator, left: a, right: b },
                            ),
                            None => self.proceed(
                                Control::Value(Value::Boolean(compare(operator, a, b))),
                            ),
                        }
                    },
                }
            },
        }
    }

    /// Calls `callee` with the values of its arguments.
    fn apply(&mut self, callee: Value, arguments: Vec<Value>) -> (action: Action)
        requires
            old(self).inv(),
            callee@.within(old(self)@.heap.len()),
            forall|i: int|
                0 <= i < arguments.len() ==> (#[trigger] arguments@[i])@.within(
                    old(self)@.heap.len(),
                ),
        ensures
            final(self).inv(),
            (final(self)@, action@) == machine::apply(
                old(self)@,
                callee@,
                value_views(arguments@),
            ),
    {
        match callee {
            Value::Function(function) => {
                if function.parameters.len() != arguments.len() {
                    return self.fail(arity_message(function.parameters.len(), arguments.len()));
                }
                let saved = self.scope;
                let inner = self.open_scope(function.closure);
                let ghost opened = self@;
                let mut i: usize = 0;
                while i < function.parameters.len()
                    invariant
                        self.inv(),
                        i <= function.parameters.len(),
                        function.parameters.len() == arguments.len(),
                        inner < opened.heap.len(),
                        self@.heap.len() == opened.heap.len(),
                        forall|j: int|
                            0 <= j < arguments.len() ==> (#[trigger] arguments@[j])@.within(
                                opened.heap.len(),
                            ),
                        self@ == (MachineView {
                            heap: machine::bind(
                                opened.heap,
                                inner as int,
                                token_views(function.parameters@),
                                value_views(arguments@),
                                i as nat,
                            ),
                            ..opened
                        }),
                    decreases function.parameters.len() - i,
                {
                    let name = function.parameters[i].lexeme.clone();
                    let value = arguments[i].clone();
                    self.define(inner, name, value);
                    i += 1;
                }
                self.enter(Frame::Call { saved }, function.body, inner)
            },
            Value::NativeFunction(function) => {
                if function.arity() != arguments.len() {
                    return self.fail(arity_message(function.arity(), arguments.len()));
                }
                match function {
                    NativeFunction::Clock => self.ask(Request::Clock),
                }
            },
            _ => self.fail(String::from_str("Can only call functions and classes.")),
        }
    }

    /// Runs the next of the statements that are still pending, if any.
    fn next_statement(&mut self, pending: Vec<Stmt>) -> (action: Action)
        requires
            old(self).inv(),
        ensures
            final(self).inv(),
            (final(self)@, action@) == machine::resume(
                old(self)@,
                FrameView::Sequence { pending: Stmt::models(pending@) },
                ValueView::Nil,
            ),
    {
        let mut pending = pending;
        proof {
            if pending@.len() > 0 {
                lemma_statements_popped(pending@);
            }
        }
        match pending.pop() {
            None => self.proceed(Control::Value(Value::Nil)),
            Some(next) => self.push(Frame::Sequence { pending }, Control::Statement(next)),
        }
    }

    /// Goes on with a call once the value of the callee, or of one more
    /// argument, is there: evaluates the next argument, or makes the call.
    fn next_argument(&mut self, callee: Value, evaluated: Vec<Value>, pending: Vec<Expr>) -> (action:
        Action)
        requires
            old(self).inv(),
            callee@.within(old(self)@.heap.len()),
            forall|i: int|
                0 <= i < evaluated.len() ==> (#[trigger] evaluated@[i])@.within(
                    old(self)@.heap.len(),
                ),
        ensures
            final(self).inv(),
            (final(self)@, action@) == if pending.len() == 0 {
                machine::apply(old(self)@, callee@, value_views(evaluated@))
            } else {
                machine::push(
                    old(self)@,
                    FrameView::Argument {
                        callee: callee@,
                        evaluated: value_views(evaluated@),
                        pending: Expr::models(pending@).drop_last(),
                    },
                    ControlView::Expression(Expr::models(pending@).last()),
                )
            },
    {
        let mut pending = pending;
        proof {
            if pending@.len() > 0 {
                lemma_expressions_popped(pending@);
            }
        }
        match pending.pop() {
            None => self.apply(callee, evaluated),
            Some(next) => self.push(
                Frame::Argument { callee, evaluated, pending },
                Control::Expression(next),
            ),
        }
    }

    /// Assigns `value` to `name` from the current scope.
    fn assign(&mut self, name: Token, value: Value) -> (action: Action)
        requires
            old(self).inv(),
            value@.within(old(self)@.heap.len()),
        ensures
            final(self).inv(),
            (final(self)@, action@) == machine::resume(
                old(self)@,
                FrameView::Assign { name: name@ },
                value@,
            ),
    {
        let assigned = value.clone();
        match self.heap.assign(self.scope, &name, assigned) {
            Ok(()) => {
                proof {
                    crate::environment::lemma_resolve_finds_binding(
                        old(self)@.heap,
                        old(self)@.scope as int,
                        name@.lexeme,
                    );
                    lemma_closed_grows(old(self)@, self.heap@);
                }
                self.proceed(Control::Value(value))
            },
            Err(message) => self.fail(message),
        }
    }

    /// Goes on with a while statement once the value of its condition is
    /// there, or once its body has run.
    fn repeat(&mut self, condition: Expr, body: Stmt, tested: Option<bool>) -> (action: Action)
        requires
            old(self).inv(),
        ensures
            final(self).inv(),
            (final(self)@, action@) == match tested {
                Some(truthy) => if truthy {
                    machine::push(
                        old(self)@,
                        FrameView::Repeat { condition: condition@, body: body@ },
                        ControlView::Statement(body@),
                    )
                } else {
                    machine::proceed(old(self)@, ControlView::Value(ValueView::Nil))
                },
                None => machine::push(
                    old(self)@,
                    FrameView::Loop { condition: condition@, body: body@ },
                    ControlView::Expression(condition@),
                ),
            },
    {
        match tested {
            Some(truthy) => {
                if truthy {
                    let again = body.clone();
                    self.push(Frame::Repeat { condition, body }, Control::Statement(again))
                } else {
                    self.proceed(Control::Value(Value::Nil))
                }
            },
            None => {
                let test = condition.clone();
                self.push(Frame::Loop { condition, body }, Control::Expression(test))
            },
        }
    }

    /// Hands `value` to `frame`, which was just popped off the stack.
    fn resume(&mut self, frame: Frame, value: Value) -> (action: Action)
        requires
            old(self).inv(),
            frame@.within(old(self)@.heap.len()),
            value@.within(old(self)@.heap.len()),
        ensures
            final(self).inv(),
            (final(self)@, action@) == machine::resume(old(self)@, frame@, value@),
    {
        let ghost shape = frame@;
        match frame {
            Frame::Discard => self.proceed(Control::Value(Value::Nil)),
            Frame::Print => {
                self.control = Control::Value(Value::Nil);
                proof {
                    lemma_closed_like(old(self)@, self@);
                }
                Action::Print(value.printed())
            },
            Frame::Define { name } => {
                self.define(self.scope, name.lexeme, value);
                self.proceed(Control::Value(Value::Nil))
            },
            Frame::Branch { then_branch, else_branch } => {
                if value.to_boolean() {
                    self.proceed(Control::Statement(then_branch))
                } else {
                    match else_branch {
                        Some(branch) => self.proceed(Control::Statement(branch)),
                        None => self.proceed(Control::Value(Value::Nil)),
                    }
                }
            },
            Frame::Loop { condition, body } => self.repeat(
                condition,
                body,
                Some(value.to_boolean()),
            ),
            Frame::Repeat { condition, body } => self.repeat(condition, body, None),
            Frame::Return => self.proceed(Control::Returning(value)),
            Frame::Sequence { pending } => self.next_statement(pending),
            Frame::Scope { saved } => {
                self.leave(saved);
                self.proceed(Control::Value(Value::Nil))
            },
            Frame::Call { saved } => {
                self.leave(saved);
                self.proceed(Control::Value(Value::Nil))
            },
            Frame::Assign { name } => self.assign(name, value),
            Frame::Unary { operator } => match operator {
                UnaryOperator::Not => {
                    let truthy = value.to_boolean();
                    self.proceed(Control::Value(Value::Boolean(!truthy)))
                },
                UnaryOperator::Negate => match value.to_number() {
                    Ok(n) => self.proceed(Control::Value(Value::Number(n.negate()))),
                    Err(message) => self.fail(message),
                },
            },
            Frame::Left { operator, right } => self.push(
                Frame::Right { operator, left: value },
                Control::Expression(right),
            ),
            Frame::Right { operator, left } => self.operate(operator, left, value),
            Frame::Logical { operator, right } => {
                let decided = match operator {
                    LogicalOperator::Or => value.to_boolean(),
                    LogicalOperator::And => !value.to_boolean(),
                };
                if decided {
                    self.proceed(Control::Value(value))
                } else {
                    self.proceed(Control::Expression(right))
                }
            },
            Frame::Callee { arguments } => {
                let evaluated: Vec<Value> = Vec::new();
                assert(value_views(evaluated@) =~= Seq::empty());
                self.next_argument(value, evaluated, arguments)
            },
            Frame::Argument { callee, evaluated, pending } => {
                let mut evaluated = evaluated;
                let ghost before = evaluated@;
                evaluated.push(value);
                assert(value_views(evaluated@) =~= value_views(before).push(value@));
                assert forall|i: int| 0 <= i < evaluated.len() implies (#[trigger] evaluated@[i])@.within(
                    self@.heap.len(),
                ) by {
                    if i < before.len() {
                        assert(shape->evaluated == value_views(before));
                        assert(shape->evaluated[i].within(self@.heap.len()));
                    }
                }
                self.next_argument(callee, evaluated, pending)
            },
        }
    }
}

impl Stmt {
    /// Makes the first step of this statement on the interpreter: what
    /// [`machine::execute`] says for its state.
    pub fn evaluate(self, interpreter: &mut Interpreter) -> (action: Action)
        requires
            old(interpreter).inv(),
        ensures
            final(interpreter).inv(),
            (final(interpreter)@, action@) == machine::execute(old(interpreter)@, self@),
    {
        match self {
            Stmt::Expression(e) => interpreter.push(Frame::Discard, Control::Expression(e)),
            Stmt::Print(e) => interpreter.push(Frame::Print, Control::Expression(e)),
            Stmt::Var { name, initializer } => match initializer {
                Some(e) => interpreter.push(Frame::Define { name }, Control::Expression(e)),
                None => {
                    interpreter.define(interpreter.scope, name.lexeme, Value::Nil);
                    interpreter.proceed(Control::Value(Value::Nil))
                },
            },
            Stmt::Block(statements) => {
                let saved = interpreter.scope;
                let inner = interpreter.open_scope(saved);
                interpreter.enter(Frame::Scope { saved }, statements, inner)
            },
            Stmt::If { condition, then_branch, else_branch } => {
                let else_branch = match else_branch {
                    Some(branch) => Some(*branch),
                    None => None,
                };
                interpreter.push(
                    Frame::Branch { then_branch: *then_branch, else_branch },
                    Control::Expression(condition),
                )
            },
            Stmt::While { condition, body } => {
                let test = condition.clone();
                interpreter.push(Frame::Loop { condition, body: *body }, Control::Expression(test))
            },
            Stmt::Function { name, parameters, body } => {
                let text = name.lexeme.clone();
                let function = Function { name, parameters, body, closure: interpreter.scope };
                interpreter.define(interpreter.scope, text, Value::Function(function));
                interpreter.proceed(Control::Value(Value::Nil))
            },
            Stmt::Return { keyword, value } => match value {
                Some(e) => interpreter.push(Frame::Return, Control::Expression(e)),
                None => interpreter.proceed(Control::Returning(Value::Nil)),
            },
        }
    }
}

impl Expr {
    /// Makes the first step of this expression on the interpreter: what
    /// [`machine::evaluate`] says for its state.
    pub fn evaluate(self, interpreter: &mut Interpreter) -> (action: Action)
        requires
            old(interpreter).inv(),
        ensures
            final(interpreter).inv(),
            (final(interpreter)@, action@) == machine::evaluate(old(interpreter)@, self@),
    {
        match self {
            Expr::Literal(literal) => match literal {
                Literal::Nil => interpreter.proceed(Control::Value(Value::Nil)),
                Literal::Boolean(b) => interpreter.proceed(Control::Value(Value::Boolean(b))),
                Literal::String(text) => interpreter.proceed(Control::Value(Value::String(text))),
                Literal::Number(digits) => interpreter.ask(Request::Parse(digits)),
            },
            Expr::Grouping(inner) => interpreter.proceed(Control::Expression(*inner)),
            Expr::Variable(name) => match interpreter.heap.get(interpreter.scope, &name) {
                Ok(value) => interpreter.proceed(Control::Value(value)),
                Err(message) => interpreter.fail(message),
            },
            Expr::Assign { name, value } => interpreter.push(
                Frame::Assign { name },
                Control::Expression(*value),
            ),
            Expr::Unary { operator, right } => interpreter.push(
                Frame::Unary { operator },
                Control::Expression(*right),
            ),
            Expr::Binary { left, operator, right } => interpreter.push(
                Frame::Left { operator, right: *right },
                Control::Expression(*left),
            ),
            Expr::Logical { left, operator, right } => interpreter.push(
                Frame::Logical { operator, right: *right },
                Control::Expression(*left),
            ),
            Expr::Call { callee, paren, arguments } => {
                let pending = reversed_expressions(arguments);
                interpreter.push(
                    Frame::Callee { arguments: pending },
                    Control::Expression(*callee),
                )
            },
        }
    }
}

} // verus!
