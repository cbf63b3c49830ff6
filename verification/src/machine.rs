//! The evaluator as a machine: its states, and the step from one state to
//! the next.
//!
//! The machine evaluates a program in small steps. Its state is a control
//! (what to do next), a stack of frames (what to do with the result), the
//! current scope, and the environment. A statement yields `nil` when it is
//! done, so frames need not tell statements from expressions.
//!
//! What the machine cannot do itself it asks of its host: arithmetic on
//! numbers, the conversion of a number literal's digits, the clock, and
//! printing. A request leaves the machine pending until the host's answer
//! arrives as an event. The step is a function of state and event alone, so
//! evaluation is deterministic once the host's answers are given.

use vstd::prelude::*;
use crate::environment::{assigned, contained, defined, enclosed, lookup, undefined_variable, ScopeView};
use crate::number::Number;
use crate::syntax::{BinaryOperator, Expr, ExprView, LiteralView, LogicalOperator, Stmt, StmtView, UnaryOperator};
use crate::text::decimal;
use crate::token::{Token, TokenView};
use crate::value::{FunctionView, NativeFunction, Output, OutputView, Value, ValueView, value_views};

verus! {

/// The arithmetic that the host performs on numbers.
#[derive(Debug, Clone, Copy, PartialEq, Eq, Structural)]
pub enum Arithmetic {
    Add,
    Subtract,
    Multiply,
    Divide,
}

/// What the machine asks of its host. Each request is answered by a number.
#[derive(Debug, PartialEq, Eq)]
pub enum Request {
    /// The number that a literal's decimal digits denote.
    Parse(String),
    /// The result of an arithmetic operation on two numbers.
    Arithmetic { operator: Arithmetic, left: Number, right: Number },
    /// The seconds since the Unix epoch.
    Clock,
}

/// The mathematical model of a [`Request`].
pub enum RequestView {
    Parse(Seq<char>),
    Arithmetic { operator: Arithmetic, left: Number, right: Number },
    Clock,
}

impl View for Request {
    type V = RequestView;

    open spec fn view(&self) -> RequestView {
        match self {
            Request::Parse(digits) => RequestView::Parse(digits@),
            Request::Arithmetic { operator, left, right } => RequestView::Arithmetic {
                operator: *operator,
                left: *left,
                right: *right,
            },
            Request::Clock => RequestView::Clock,
        }
    }
}

impl Clone for Request {
    fn clone(&self) -> (r: Request)
        ensures
            r@ == self@,
    {
        match self {
            Request::Parse(digits) => Request::Parse(digits.clone()),
            Request::Arithmetic { operator, left, right } => Request::Arithmetic {
                operator: *operator,
                left: *left,
                right: *right,
            },
            Request::Clock => Request::Clock,
        }
    }
}

/// What the host hands to the machine with a step.
#[derive(Debug, Clone, Copy, PartialEq, Eq, Structural)]
pub enum Event {
    /// Nothing: the machine is to go on.
    Resume,
    /// The answer to the pending request.
    Number(Number),
}

/// What a step asks the host to do before the next step.
#[derive(Debug, PartialEq, Eq)]
pub enum Action {
    /// Nothing: step again.
    Continue,
    /// Answer the request with a number event.
    Request(Request),
    /// Write a line of output.
    Print(Output),
    /// The program has run to its end.
    Finished,
    /// The program was stopped by a runtime error, with its message.
    Failed(String),
}

/// The mathematical model of an [`Action`].
pub enum ActionView {
    Continue,
    Request(RequestView),
    Print(OutputView),
    Finished,
    Failed(Seq<char>),
}

impl View for Action {
    type V = ActionView;

    open spec fn view(&self) -> ActionView {
        match self {
            Action::Continue => ActionView::Continue,
            Action::Request(request) => ActionView::Request(request@),
            Action::Print(output) => ActionView::Print(output@),
            Action::Finished => ActionView::Finished,
            Action::Failed(message) => ActionView::Failed(message@),
        }
    }
}

/// What the machine does next.
#[derive(Debug)]
pub enum Control {
    /// Nothing is left to do.
    Idle,
    /// Execute a statement.
    Statement(Stmt),
    /// Evaluate an expression.
    Expression(Expr),
    /// Hand a value to the frame on top of the stack.
    Value(Value),
    /// Unwind to the nearest call boundary with a return value.
    Returning(Value),
    /// Wait for the host's answer to a request.
    Pending(Request),
}

/// The mathematical model of a [`Control`].
pub enum ControlView {
    Idle,
    Statement(StmtView),
    Expression(ExprView),
    Value(ValueView),
    Returning(ValueView),
    Pending(RequestView),
}

impl View for Control {
    type V = ControlView;

    open spec fn view(&self) -> ControlView {
        match self {
            Control::Idle => ControlView::Idle,
            Control::Statement(s) => ControlView::Statement(s@),
            Control::Expression(e) => ControlView::Expression(e@),
            Control::Value(v) => ControlView::Value(v@),
            Control::Returning(v) => ControlView::Returning(v@),
            Control::Pending(request) => ControlView::Pending(request@),
        }
    }
}

/// What is to be done with the value of the expression or statement that is
/// being evaluated. Lists of pending statements and arguments are held in
/// reverse, the next one last.
#[derive(Debug)]
#[allow(inconsistent_fields)]
pub enum Frame {
    /// An expression statement: drop the value.
    Discard,
    /// A print statement: print the value.
    Print,
    /// A variable declaration: bind the value to the name.
    Define { name: Token },
    /// An if statement: the value is the condition.
    Branch { then_branch: Stmt, else_branch: Option<Stmt> },
    /// A while statement: the value is the condition.
    Loop { condition: Expr, body: Stmt },
    /// A while statement whose body is running.
    Repeat { condition: Expr, body: Stmt },
    /// A return statement: the value is what is returned.
    Return,
    /// The statements of a block or a function body that are still to run.
    Sequence { pending: Vec<Stmt> },
    /// The end of a block: go back to the scope around it.
    Scope { saved: usize },
    /// A call boundary: go back to the caller's scope.
    Call { saved: usize },
    /// An assignment: assign the value to the name.
    Assign { name: Token },
    /// A unary operation: the value is the operand.
    Unary { operator: UnaryOperator },
    /// A binary operation: the value is the left operand.
    Left { operator: BinaryOperator, right: Expr },
    /// A binary operation: the value is the right operand.
    Right { operator: BinaryOperator, left: Value },
    /// A logical operation: the value is the left operand.
    Logical { operator: LogicalOperator, right: Expr },
    /// A call: the value is the callee.
    Callee { arguments: Vec<Expr> },
    /// A call: the value is the next argument.
    Argument { callee: Value, evaluated: Vec<Value>, pending: Vec<Expr> },
}

/// The mathematical model of a [`Frame`].
#[allow(inconsistent_fields)]
pub enum FrameView {
    Discard,
    Print,
    Define { name: TokenView },
    Branch { then_branch: StmtView, else_branch: Option<StmtView> },
    Loop { condition: ExprView, body: StmtView },
    Repeat { condition: ExprView, body: StmtView },
    Return,
    Sequence { pending: Seq<StmtView> },
    Scope { saved: nat },
    Call { saved: nat },
    Assign { name: TokenView },
    Unary { operator: UnaryOperator },
    Left { operator: BinaryOperator, right: ExprView },
    Right { operator: BinaryOperator, left: ValueView },
    Logical { operator: LogicalOperator, right: ExprView },
    Callee { arguments: Seq<ExprView> },
    Argument { callee: ValueView, evaluated: Seq<ValueView>, pending: Seq<ExprView> },
}

impl View for Frame {
    type V = FrameView;

    open spec fn view(&self) -> FrameView {
        match self {
            Frame::Discard => FrameView::Discard,
            Frame::Print => FrameView::Print,
            Frame::Define { name } => FrameView::Define { name: name@ },
            Frame::Branch { then_branch, else_branch } => FrameView::Branch {
                then_branch: then_branch@,
                else_branch: match else_branch {
                    Some(s) => Some(s@),
                    None => None,
                },
            },
            Frame::Loop { condition, body } => FrameView::Loop {
                condition: condition@,
                body: body@,
            },
            Frame::Repeat { condition, body } => FrameView::Repeat {
                condition: condition@,
                body: body@,
            },
            Frame::Return => FrameView::Return,
            Frame::Sequence { pending } => FrameView::Sequence { pending: Stmt::models(pending@) },
            Frame::Scope { saved } => FrameView::Scope { saved: *saved as nat },
            Frame::Call { saved } => FrameView::Call { saved: *saved as nat },
            Frame::Assign { name } => FrameView::Assign { name: name@ },
            Frame::Unary { operator } => FrameView::Unary { operator: *operator },
            Frame::Left { operator, right } => FrameView::Left {
                operator: *operator,
                right: right@,
            },
            Frame::Right { operator, left } => FrameView::Right { operator: *operator, left: left@ },
            Frame::Logical { operator, right } => FrameView::Logical {
                operator: *operator,
                right: right@,
            },
            Frame::Callee { arguments } => FrameView::Callee {
                arguments: Expr::models(arguments@),
            },
            Frame::Argument { callee, evaluated, pending } => FrameView::Argument {
                callee: callee@,
                evaluated: value_views(evaluated@),
                pending: Expr::models(pending@),
            },
        }
    }
}

/// The models of a stack of frames, bottom first.
pub open spec fn frame_views(stack: Seq<Frame>) -> Seq<FrameView> {
    stack.map_values(|f: Frame| f@)
}

/// The state of the machine.
pub struct MachineView {
    /// Every scope made so far.
    pub heap: Seq<ScopeView>,
    /// The scope in which top-level statements run.
    pub top: nat,
    /// The current scope.
    pub scope: nat,
    /// What to do next.
    pub control: ControlView,
    /// What to do with the result, innermost frame last.
    pub stack: Seq<FrameView>,
}

impl ControlView {
    /// Whether every scope that the control refers to has an index below
    /// `bound`.
    pub open spec fn within(self, bound: nat) -> bool {
        match self {
            ControlView::Value(v) => v.within(bound),
            ControlView::Returning(v) => v.within(bound),
            _ => true,
        }
    }
}

impl FrameView {
    /// Whether every scope that the frame refers to has an index below
    /// `bound`.
    pub open spec fn within(self, bound: nat) -> bool {
        match self {
            FrameView::Scope { saved } => saved < bound,
            FrameView::Call { saved } => saved < bound,
            FrameView::Right { operator, left } => left.within(bound),
            FrameView::Argument { callee, evaluated, pending } => callee.within(bound) && forall|
                i: int,
            | 0 <= i < evaluated.len() ==> (#[trigger] evaluated[i]).within(bound),
            _ => true,
        }
    }
}

impl MachineView {
    /// Whether everything in the state that names a scope names one that
    /// exists.
    pub open spec fn closed(self) -> bool {
        &&& self.top < self.heap.len()
        &&& self.scope < self.heap.len()
        &&& self.control.within(self.heap.len())
        &&& forall|i: int|
            0 <= i < self.stack.len() ==> (#[trigger] self.stack[i]).within(self.heap.len())
    }

    /// The state with nothing to do next.
    pub open spec fn idle(self) -> MachineView {
        MachineView { control: ControlView::Idle, ..self }
    }
}

/// Go on with `control`.
pub open spec fn proceed(s: MachineView, control: ControlView) -> (MachineView, ActionView) {
    (MachineView { control, ..s }, ActionView::Continue)
}

/// Push `frame` and go on with `control`.
pub open spec fn push(s: MachineView, frame: FrameView, control: ControlView) -> (
    MachineView,
    ActionView,
) {
    (MachineView { control, stack: s.stack.push(frame), ..s }, ActionView::Continue)
}

/// Ask the host for a number and wait for it.
pub open spec fn ask(s: MachineView, request: RequestView) -> (MachineView, ActionView) {
    (MachineView { control: ControlView::Pending(request), ..s }, ActionView::Request(request))
}

/// Stop with a runtime error: what was being evaluated is dropped, and the
/// machine is back in the top-level scope with nothing to do. The
/// environment stays as it is.
pub open spec fn fail(s: MachineView, message: Seq<char>) -> (MachineView, ActionView) {
    (
        MachineView { control: ControlView::Idle, stack: Seq::empty(), scope: s.top, ..s },
        ActionView::Failed(message),
    )
}

/// The message for a call with the wrong number of arguments.
pub open spec fn arity_mismatch(expected: nat, got: nat) -> Seq<char> {
    "Expected "@ + decimal(expected) + " arguments but got "@ + decimal(got) + "."@
}

/// The message for a call of something that is no function.
pub open spec fn not_callable() -> Seq<char> {
    "Can only call functions and classes."@
}

/// The message for a return statement outside any function.
pub open spec fn return_outside_function() -> Seq<char> {
    "return from top-level"@
}

/// The first step of a statement.
pub open spec fn execute(s: MachineView, statement: StmtView) -> (MachineView, ActionView) {
    match statement {
        StmtView::Expression(e) => push(s, FrameView::Discard, ControlView::Expression(e)),
        StmtView::Print(e) => push(s, FrameView::Print, ControlView::Expression(e)),
        StmtView::Var { name, initializer } => match initializer {
            Some(e) => push(s, FrameView::Define { name }, ControlView::Expression(e)),
            None => proceed(
                MachineView {
                    heap: defined(s.heap, s.scope as int, name.lexeme, ValueView::Nil),
                    ..s
                },
                ControlView::Value(ValueView::Nil),
            ),
        },
        StmtView::Block(statements) => (
            MachineView {
                heap: enclosed(s.heap, s.scope),
                scope: s.heap.len(),
                stack: s.stack.push(FrameView::Scope { saved: s.scope }).push(
                    FrameView::Sequence { pending: statements.reverse() },
                ),
                control: ControlView::Value(ValueView::Nil),
                ..s
            },
            ActionView::Continue,
        ),
        StmtView::If { condition, then_branch, else_branch } => push(
            s,
            FrameView::Branch {
                then_branch: *then_branch,
                else_branch: match else_branch {
                    Some(branch) => Some(*branch),
                    None => None,
                },
            },
            ControlView::Expression(condition),
        ),
        StmtView::While { condition, body } => push(
            s,
            FrameView::Loop { condition, body: *body },
            ControlView::Expression(condition),
        ),
        StmtView::Function { name, parameters, body } => proceed(
            MachineView {
                heap: defined(
                    s.heap,
                    s.scope as int,
                    name.lexeme,
                    ValueView::Function(FunctionView { name, parameters, body, closure: s.scope }),
                ),
                ..s
            },
            ControlView::Value(ValueView::Nil),
        ),
        StmtView::Return { keyword, value } => match value {
            Some(e) => push(s, FrameView::Return, ControlView::Expression(e)),
            None => proceed(s, ControlView::Returning(ValueView::Nil)),
        },
    }
}

/// The first step of an expression.
pub open spec fn evaluate(s: MachineView, expression: ExprView) -> (MachineView, ActionView) {
    match expression {
        ExprView::Literal(literal) => match literal {
            LiteralView::Nil => proceed(s, ControlView::Value(ValueView::Nil)),
            LiteralView::Boolean(b) => proceed(s, ControlView::Value(ValueView::Boolean(b))),
            LiteralView::String(text) => proceed(s, ControlView::Value(ValueView::String(text))),
            LiteralView::Number(digits) => ask(s, RequestView::Parse(digits)),
        },
        ExprView::Grouping(inner) => proceed(s, ControlView::Expression(*inner)),
        ExprView::Variable(name) => match lookup(s.heap, s.scope as int, name.lexeme) {
            Some(value) => proceed(s, ControlView::Value(value)),
            None => fail(s, undefined_variable(name.lexeme)),
        },
        ExprView::Assign { name, value } => push(
            s,
            FrameView::Assign { name },
            ControlView::Expression(*value),
        ),
        ExprView::Unary { operator, right } => push(
            s,
            FrameView::Unary { operator },
            ControlView::Expression(*right),
        ),
        ExprView::Binary { left, operator, right } => push(
            s,
            FrameView::Left { operator, right: *right },
            ControlView::Expression(*left),
        ),
        ExprView::Logical { left, operator, right } => push(
            s,
            FrameView::Logical { operator, right: *right },
            ControlView::Expression(*left),
        ),
        ExprView::Call { callee, paren, arguments } => push(
            s,
            FrameView::Callee { arguments: arguments.reverse() },
            ControlView::Expression(*callee),
        ),
    }
}

/// The arithmetic operation that a binary operator stands for, if it is one.
pub open spec fn arithmetic_of(operator: BinaryOperator) -> Option<Arithmetic> {
    match operator {
        BinaryOperator::Add => Some(Arithmetic::Add),
        BinaryOperator::Subtract => Some(Arithmetic::Subtract),
        BinaryOperator::Multiply => Some(Arithmetic::Multiply),
        BinaryOperator::Divide => Some(Arithmetic::Divide),
        _ => None,
    }
}

/// The outcome of a comparison operator on two numbers.
pub open spec fn compared(operator: BinaryOperator, left: Number, right: Number) -> bool {
    match operator {
        BinaryOperator::Greater => right.less(left),
        BinaryOperator::GreaterEqual => right.less(left) || right.equal(left),
        BinaryOperator::Less => left.less(right),
        _ => left.less(right) || left.equal(right),
    }
}

/// A binary operator applied to the values of its operands. `+` adds two
/// numbers or joins two strings; the other arithmetic operators and the
/// comparisons take two numbers; equality takes any two values.
pub open spec fn operate(s: MachineView, operator: BinaryOperator, left: ValueView, right: ValueView) -> (
    MachineView,
    ActionView,
) {
    match operator {
        BinaryOperator::Equal => proceed(
            s,
            ControlView::Value(ValueView::Boolean(left.equals(right))),
        ),
        BinaryOperator::NotEqual => proceed(
            s,
            ControlView::Value(ValueView::Boolean(!left.equals(right))),
        ),
        _ => if operator == BinaryOperator::Add && left is String && right is String {
            proceed(s, ControlView::Value(ValueView::String(left->String_0 + right->String_0)))
        } else {
            match left.number() {
                Ok(a) => match right.number() {
                    Ok(b) => match arithmetic_of(operator) {
                        Some(arithmetic) => ask(
                            s,
                            RequestView::Arithmetic { operator: arithmetic, left: a, right: b },
                        ),
                        None => proceed(
                            s,
                            ControlView::Value(ValueView::Boolean(compared(operator, a, b))),
                        ),
                    },
                    Err(message) => fail(s, message),
                },
                Err(message) => fail(s, message),
            }
        },
    }
}

/// The environment after the first `count` parameters are bound to their
/// arguments in `scope`.
pub open spec fn bind(
    heap: Seq<ScopeView>,
    scope: int,
    parameters: Seq<TokenView>,
    arguments: Seq<ValueView>,
    count: nat,
) -> Seq<ScopeView>
    decreases count,
{
    if count == 0 {
        heap
    } else {
        defined(
            bind(heap, scope, parameters, arguments, (count - 1) as nat),
            scope,
            parameters[count - 1].lexeme,
            arguments[count - 1],
        )
    }
}

/// A call of `callee` with the values of its arguments. A user function
/// runs its body in a new scope inside its closure, with the parameters
/// bound to the arguments; a native function is asked of the host.
pub open spec fn apply(s: MachineView, callee: ValueView, arguments: Seq<ValueView>) -> (
    MachineView,
    ActionView,
) {
    match callee {
        ValueView::Function(f) => if f.parameters.len() != arguments.len() {
            fail(s, arity_mismatch(f.parameters.len(), arguments.len()))
        } else {
            (
                MachineView {
                    heap: bind(
                        enclosed(s.heap, f.closure),
                        s.heap.len() as int,
                        f.parameters,
                        arguments,
                        f.parameters.len(),
                    ),
                    scope: s.heap.len(),
                    stack: s.stack.push(FrameView::Call { saved: s.scope }).push(
                        FrameView::Sequence { pending: f.body.reverse() },
                    ),
                    control: ControlView::Value(ValueView::Nil),
                    ..s
                },
                ActionView::Continue,
            )
        },
        ValueView::NativeFunction(f) => if f.parameters() != arguments.len() {
            fail(s, arity_mismatch(f.parameters(), arguments.len()))
        } else {
            match f {
                NativeFunction::Clock => ask(s, RequestView::Clock),
            }
        },
        _ => fail(s, not_callable()),
    }
}

/// The step that hands `value` to `frame`, which was on top of the stack
/// and is no longer.
pub open spec fn resume(s: MachineView, frame: FrameView, value: ValueView) -> (
    MachineView,
    ActionView,
) {
    match frame {
        FrameView::Discard => proceed(s, ControlView::Value(ValueView::Nil)),
        FrameView::Print => (
            MachineView { control: ControlView::Value(ValueView::Nil), ..s },
            ActionView::Print(value.output()),
        ),
        FrameView::Define { name } => proceed(
            MachineView { heap: defined(s.heap, s.scope as int, name.lexeme, value), ..s },
            ControlView::Value(ValueView::Nil),
        ),
        FrameView::Branch { then_branch, else_branch } => if value.truthy() {
            proceed(s, ControlView::Statement(then_branch))
        } else {
            match else_branch {
                Some(branch) => proceed(s, ControlView::Statement(branch)),
                None => proceed(s, ControlView::Value(ValueView::Nil)),
            }
        },
        FrameView::Loop { condition, body } => if value.truthy() {
            push(s, FrameView::Repeat { condition, body }, ControlView::Statement(body))
        } else {
            proceed(s, ControlView::Value(ValueView::Nil))
        },
        FrameView::Repeat { condition, body } => push(
            s,
            FrameView::Loop { condition, body },
            ControlView::Expression(condition),
        ),
        FrameView::Return => proceed(s, ControlView::Returning(value)),
        FrameView::Sequence { pending } => if pending.len() == 0 {
            proceed(s, ControlView::Value(ValueView::Nil))
        } else {
            push(
                s,
                FrameView::Sequence { pending: pending.drop_last() },
                ControlView::Statement(pending.last()),
            )
        },
        FrameView::Scope { saved } => proceed(
            MachineView { scope: saved, ..s },
            ControlView::Value(ValueView::Nil),
        ),
        FrameView::Call { saved } => proceed(
            MachineView { scope: saved, ..s },
            ControlView::Value(ValueView::Nil),
        ),
        FrameView::Assign { name } => match assigned(s.heap, s.scope as int, name.lexeme, value) {
            Some(heap) => proceed(MachineView { heap, ..s }, ControlView::Value(value)),
            None => fail(s, undefined_variable(name.lexeme)),
        },
        FrameView::Unary { operator } => match operator {
            UnaryOperator::Not => proceed(
                s,
                ControlView::Value(ValueView::Boolean(!value.truthy())),
            ),
            UnaryOperator::Negate => match value.number() {
                Ok(n) => proceed(s, ControlView::Value(ValueView::Number(n.negated()))),
                Err(message) => fail(s, message),
            },
        },
        FrameView::Left { operator, right } => push(
            s,
            FrameView::Right { operator, left: value },
            ControlView::Expression(right),
        ),
        FrameView::Right { operator, left } => operate(s, operator, left, value),
        FrameView::Logical { operator, right } => {
            let decided = match operator {
                LogicalOperator::Or => value.truthy(),
                LogicalOperator::And => !value.truthy(),
            };
            if decided {
                proceed(s, ControlView::Value(value))
            } else {
                proceed(s, ControlView::Expression(right))
            }
        },
        FrameView::Callee { arguments } => if arguments.len() == 0 {
            apply(s, value, Seq::empty())
        } else {
            push(
                s,
                FrameView::Argument {
                    callee: value,
                    evaluated: Seq::empty(),
                    pending: arguments.drop_last(),
                },
                ControlView::Expression(arguments.last()),
            )
        },
        FrameView::Argument { callee, evaluated, pending } => if pending.len() == 0 {
            apply(s, callee, evaluated.push(value))
        } else {
            push(
                s,
                FrameView::Argument {
                    callee,
                    evaluated: evaluated.push(value),
                    pending: pending.drop_last(),
                },
                ControlView::Expression(pending.last()),
            )
        },
    }
}

/// One step of the machine: the next state, and what the host is to do
/// before the step after.
pub open spec fn step(s: MachineView, event: Event) -> (MachineView, ActionView) {
    match s.control {
        ControlView::Idle => (s, ActionView::Finished),
        ControlView::Statement(statement) => execute(s.idle(), statement),
        ControlView::Expression(expression) => evaluate(s.idle(), expression),
        ControlView::Value(value) => if s.stack.len() == 0 {
            (s.idle(), ActionView::Finished)
        } else {
            resume(MachineView { stack: s.stack.drop_last(), ..s.idle() }, s.stack.last(), value)
        },
        ControlView::Returning(value) => if s.stack.len() == 0 {
            fail(s, return_outside_function())
        } else {
            match s.stack.last() {
                FrameView::Call { saved } => proceed(
                    MachineView { stack: s.stack.drop_last(), scope: saved, ..s },
                    ControlView::Value(value),
                ),
                _ => proceed(
                    MachineView { stack: s.stack.drop_last(), ..s },
                    ControlView::Returning(value),
                ),
            }
        },
        ControlView::Pending(request) => match event {
            Event::Number(n) => proceed(s, ControlView::Value(ValueView::Number(n))),
            Event::Resume => (s, ActionView::Request(request)),
        },
    }
}

/// The state in which `statements` are about to run at the top level:
/// whatever was running is dropped; the environment stays as it is.
pub open spec fn loaded(s: MachineView, statements: Seq<StmtView>) -> MachineView {
    MachineView {
        control: ControlView::Value(ValueView::Nil),
        stack: seq![FrameView::Sequence { pending: statements.reverse() }],
        scope: s.top,
        ..s
    }
}

/// Determinism. A step depends on the event only where the machine is
/// waiting for the host's answer to a request: everything else the machine
/// does is determined by its state alone, so two runs from the same state
/// can differ only in what the host answers.
pub proof fn law_step_is_deterministic(s: MachineView, first: Event, second: Event)
    requires
        !(s.control is Pending),
    ensures
        step(s, first) == step(s, second),
{
}

/// Short-circuit law. When the left operand of `or` is truthy, or that of
/// `and` is not, the step that receives it yields the operand itself as the
/// value of the whole expression and drops the right operand: the right
/// operand is never evaluated, and the environment is untouched.
pub proof fn law_short_circuit(
    s: MachineView,
    event: Event,
    operator: LogicalOperator,
    right: ExprView,
    left: ValueView,
)
    requires
        s.control == ControlView::Value(left),
        s.stack.len() > 0,
        s.stack.last() == (FrameView::Logical { operator, right }),
        match operator {
            LogicalOperator::Or => left.truthy(),
            LogicalOperator::And => !left.truthy(),
        },
    ensures
        step(s, event) == (
            MachineView { stack: s.stack.drop_last(), ..s },
            ActionView::Continue,
        ),
{
}

/// The other half of the law: when the left operand does not decide, the
/// right operand is evaluated next, in the same environment.
pub proof fn law_logical_continues(
    s: MachineView,
    event: Event,
    operator: LogicalOperator,
    right: ExprView,
    left: ValueView,
)
    requires
        s.control == ControlView::Value(left),
        s.stack.len() > 0,
        s.stack.last() == (FrameView::Logical { operator, right }),
        match operator {
            LogicalOperator::Or => !left.truthy(),
            LogicalOperator::And => left.truthy(),
        },
    ensures
        step(s, event) == (
            MachineView {
                stack: s.stack.drop_last(),
                control: ControlView::Expression(right),
                ..s
            },
            ActionView::Continue,
        ),
{
}

/// Scopes persist: a step never removes a scope from the environment, so
/// whatever a closure captured is still there when the closure is called.
pub proof fn law_scopes_persist(s: MachineView, event: Event)
    requires
        s.closed(),
    ensures
        step(s, event).0.heap.len() >= s.heap.len(),
{
    match s.control {
        ControlView::Value(value) => {
            if s.stack.len() > 0 {
                let below = MachineView { stack: s.stack.drop_last(), ..s.idle() };
                match s.stack.last() {
                    FrameView::Assign { name } => {
                        crate::environment::lemma_resolve_finds_binding(
                            s.heap,
                            s.scope as int,
                            name.lexeme,
                        );
                    },
                    FrameView::Callee { arguments } => {
                        if arguments.len() == 0 {
                            lemma_apply_keeps_scopes(below, value, Seq::empty());
                        }
                    },
                    FrameView::Argument { callee, evaluated, pending } => {
                        if pending.len() == 0 {
                            lemma_apply_keeps_scopes(below, callee, evaluated.push(value));
                        }
                    },
                    _ => {},
                }
            }
        },
        _ => {},
    }
}

/// A state is closed if its stack is that of a closed state with no more
/// scopes, and its own scopes and control name scopes that exist.
pub proof fn lemma_closed_like(s: MachineView, t: MachineView)
    requires
        s.closed(),
        t.heap.len() >= s.heap.len(),
        t.stack == s.stack,
        t.top < t.heap.len(),
        t.scope < t.heap.len(),
        t.control.within(t.heap.len()),
    ensures
        t.closed(),
{
    assert forall|i: int| 0 <= i < t.stack.len() implies (#[trigger] t.stack[i]).within(
        t.heap.len(),
    ) by {
        assert(s.stack[i].within(s.heap.len()));
    }
}

/// A closed state stays closed when a frame is pushed that names only
/// scopes that exist.
pub proof fn lemma_closed_pushed(s: MachineView, frame: FrameView, control: ControlView)
    requires
        s.closed(),
        frame.within(s.heap.len()),
        control.within(s.heap.len()),
    ensures
        push(s, frame, control).0.closed(),
{
    let t = push(s, frame, control).0;
    assert forall|i: int| 0 <= i < t.stack.len() implies (#[trigger] t.stack[i]).within(
        t.heap.len(),
    ) by {
        if i < s.stack.len() {
            assert(s.stack[i].within(s.heap.len()));
        }
    }
}

/// A closed state stays closed when its innermost frame is taken off, and
/// that frame names only scopes that exist.
pub proof fn lemma_closed_popped(s: MachineView)
    requires
        s.closed(),
        s.stack.len() > 0,
    ensures
        (MachineView { stack: s.stack.drop_last(), ..s }).closed(),
        s.stack.last().within(s.heap.len()),
{
    let t = MachineView { stack: s.stack.drop_last(), ..s };
    assert(s.stack[s.stack.len() - 1].within(s.heap.len()));
    assert forall|i: int| 0 <= i < t.stack.len() implies (#[trigger] t.stack[i]).within(
        t.heap.len(),
    ) by {
        assert(s.stack[i].within(s.heap.len()));
    }
}

/// Binding a value that names only scopes that exist keeps the environment
/// closed.
pub proof fn lemma_defined_closed(heap: Seq<ScopeView>, scope: int, name: Seq<char>, value: ValueView)
    requires
        contained(heap),
        0 <= scope < heap.len(),
        value.within(heap.len()),
    ensures
        contained(defined(heap, scope, name, value)),
        defined(heap, scope, name, value).len() == heap.len(),
{
    let after = defined(heap, scope, name, value);
    assert forall|i: int, other: Seq<char>|
        0 <= i < after.len() && after[i].bindings.contains_key(other) implies (
    #[trigger] after[i].bindings[other]).within(after.len()) by {
        if i == scope && other == name {
        } else {
            assert(heap[i].bindings.contains_key(other));
            assert(heap[i].bindings[other].within(heap.len()));
        }
    }
}

/// Making a scope keeps the environment closed.
pub proof fn lemma_enclosed_closed(heap: Seq<ScopeView>, outer: nat)
    requires
        contained(heap),
    ensures
        contained(enclosed(heap, outer)),
{
    let after = enclosed(heap, outer);
    assert forall|i: int, other: Seq<char>|
        0 <= i < after.len() && after[i].bindings.contains_key(other) implies (
    #[trigger] after[i].bindings[other]).within(after.len()) by {
        if i < heap.len() {
            assert(heap[i].bindings.contains_key(other));
            assert(heap[i].bindings[other].within(heap.len()));
        }
    }
}

/// Binding parameters to arguments that name only scopes that exist keeps
/// the environment closed.
pub proof fn lemma_bind_closed(
    heap: Seq<ScopeView>,
    scope: int,
    parameters: Seq<TokenView>,
    arguments: Seq<ValueView>,
    count: nat,
)
    requires
        contained(heap),
        0 <= scope < heap.len(),
        count <= arguments.len(),
        forall|i: int| 0 <= i < arguments.len() ==> (#[trigger] arguments[i]).within(heap.len()),
    ensures
        contained(bind(heap, scope, parameters, arguments, count)),
        bind(heap, scope, parameters, arguments, count).len() == heap.len(),
    decreases count,
{
    if count > 0 {
        lemma_bind_closed(heap, scope, parameters, arguments, (count - 1) as nat);
        lemma_defined_closed(
            bind(heap, scope, parameters, arguments, (count - 1) as nat),
            scope,
            parameters[count - 1].lexeme,
            arguments[count - 1],
        );
    }
}

/// A call keeps a closed state closed.
pub proof fn lemma_apply_closed(s: MachineView, callee: ValueView, arguments: Seq<ValueView>)
    requires
        s.closed(),
        contained(s.heap),
        callee.within(s.heap.len()),
        forall|i: int| 0 <= i < arguments.len() ==> (#[trigger] arguments[i]).within(s.heap.len()),
    ensures
        apply(s, callee, arguments).0.closed(),
        contained(apply(s, callee, arguments).0.heap),
{
    let t = apply(s, callee, arguments).0;
    match callee {
        ValueView::Function(f) => {
            if f.parameters.len() == arguments.len() {
                let opened = enclosed(s.heap, f.closure);
                lemma_enclosed_closed(s.heap, f.closure);
                assert forall|i: int| 0 <= i < arguments.len() implies (
                #[trigger] arguments[i]).within(opened.len()) by {
                    assert(arguments[i].within(s.heap.len()));
                }
                lemma_bind_closed(
                    opened,
                    s.heap.len() as int,
                    f.parameters,
                    arguments,
                    f.parameters.len(),
                );
                let grown = MachineView { heap: t.heap, scope: t.scope, ..s };
                lemma_closed_like(s, grown);
                lemma_closed_pushed(
                    grown,
                    FrameView::Call { saved: s.scope },
                    ControlView::Value(ValueView::Nil),
                );
                lemma_closed_pushed(
                    push(
                        grown,
                        FrameView::Call { saved: s.scope },
                        ControlView::Value(ValueView::Nil),
                    ).0,
                    FrameView::Sequence { pending: f.body.reverse() },
                    ControlView::Value(ValueView::Nil),
                );
            }
        },
        _ => {},
    }
}

/// Closures never dangle. If every scope that the state and the environment
/// name exists, the same holds after a step: a scope, once made, is there
/// for as long as anything refers to it.
pub proof fn law_step_stays_closed(s: MachineView, event: Event)
    requires
        s.closed(),
        contained(s.heap),
    ensures
        step(s, event).0.closed(),
        contained(step(s, event).0.heap),
{
    let idle = s.idle();
    lemma_closed_like(s, idle);
    match s.control {
        ControlView::Idle => {},
        ControlView::Statement(statement) => {
            lemma_execute_closed(idle, statement);
        },
        ControlView::Expression(expression) => {
            lemma_evaluate_closed(idle, expression);
        },
        ControlView::Value(value) => {
            if s.stack.len() > 0 {
                lemma_closed_popped(idle);
                lemma_resume_closed(
                    MachineView { stack: s.stack.drop_last(), ..idle },
                    s.stack.last(),
                    value,
                );
            }
        },
        ControlView::Returning(value) => {
            if s.stack.len() > 0 {
                lemma_closed_popped(s);
                let below = MachineView { stack: s.stack.drop_last(), ..s };
                match s.stack.last() {
                    FrameView::Call { saved } => {
                        lemma_closed_like(
                            below,
                            MachineView { scope: saved, control: ControlView::Value(value), ..below },
                        );
                    },
                    _ => {},
                }
            }
        },
        ControlView::Pending(request) => {
            match event {
                Event::Number(n) => {
                    lemma_closed_like(
                        s,
                        MachineView { control: ControlView::Value(ValueView::Number(n)), ..s },
                    );
                },
                Event::Resume => {},
            }
        },
    }
}

/// The first step of a statement keeps a closed state closed.
pub proof fn lemma_execute_closed(s: MachineView, statement: StmtView)
    requires
        s.closed(),
        contained(s.heap),
    ensures
        execute(s, statement).0.closed(),
        contained(execute(s, statement).0.heap),
{
    let t = execute(s, statement).0;
    match statement {
        StmtView::Expression(e) => {
            lemma_closed_pushed(s, FrameView::Discard, ControlView::Expression(e));
        },
        StmtView::Print(e) => {
            lemma_closed_pushed(s, FrameView::Print, ControlView::Expression(e));
        },
        StmtView::Var { name, initializer } => {
            match initializer {
                Some(e) => {
                    lemma_closed_pushed(s, FrameView::Define { name }, ControlView::Expression(e));
                },
                None => {
                    lemma_defined_closed(s.heap, s.scope as int, name.lexeme, ValueView::Nil);
                    lemma_closed_like(s, t);
                },
            }
        },
        StmtView::Block(statements) => {
            lemma_enclosed_closed(s.heap, s.scope);
            let grown = MachineView { heap: t.heap, scope: t.scope, ..s };
            lemma_closed_like(s, grown);
            lemma_closed_pushed(
                grown,
                FrameView::Scope { saved: s.scope },
                ControlView::Value(ValueView::Nil),
            );
            lemma_closed_pushed(
                push(grown, FrameView::Scope { saved: s.scope }, ControlView::Value(ValueView::Nil)).0,
                FrameView::Sequence { pending: statements.reverse() },
                ControlView::Value(ValueView::Nil),
            );
        },
        StmtView::If { condition, then_branch, else_branch } => {
            lemma_closed_pushed(
                s,
                FrameView::Branch {
                    then_branch: *then_branch,
                    else_branch: match else_branch {
                        Some(branch) => Some(*branch),
                        None => None,
                    },
                },
                ControlView::Expression(condition),
            );
        },
        StmtView::While { condition, body } => {
            lemma_closed_pushed(
                s,
                FrameView::Loop { condition, body: *body },
                ControlView::Expression(condition),
            );
        },
        StmtView::Function { name, parameters, body } => {
            lemma_defined_closed(
                s.heap,
                s.scope as int,
                name.lexeme,
                ValueView::Function(FunctionView { name, parameters, body, closure: s.scope }),
            );
            lemma_closed_like(s, t);
        },
        StmtView::Return { keyword, value } => {
            match value {
                Some(e) => {
                    lemma_closed_pushed(s, FrameView::Return, ControlView::Expression(e));
                },
                None => {
                    lemma_closed_like(s, t);
                },
            }
        },
    }
}

/// The first step of an expression keeps a closed state closed.
pub proof fn lemma_evaluate_closed(s: MachineView, expression: ExprView)
    requires
        s.closed(),
        contained(s.heap),
    ensures
        evaluate(s, expression).0.closed(),
        contained(evaluate(s, expression).0.heap),
{
    let t = evaluate(s, expression).0;
    match expression {
        ExprView::Literal(literal) => {
            lemma_closed_like(s, t);
        },
        ExprView::Grouping(inner) => {
            lemma_closed_like(s, t);
        },
        ExprView::Variable(name) => {
            crate::environment::lemma_resolve_finds_binding(s.heap, s.scope as int, name.lexeme);
            match lookup(s.heap, s.scope as int, name.lexeme) {
                Some(value) => {
                    lemma_closed_like(s, t);
                },
                None => {},
            }
        },
        ExprView::Assign { name, value } => {
            lemma_closed_pushed(s, FrameView::Assign { name }, ControlView::Expression(*value));
        },
        ExprView::Unary { operator, right } => {
            lemma_closed_pushed(s, FrameView::Unary { operator }, ControlView::Expression(*right));
        },
        ExprView::Binary { left, operator, right } => {
            lemma_closed_pushed(
                s,
                FrameView::Left { operator, right: *right },
                ControlView::Expression(*left),
            );
        },
        ExprView::Logical { left, operator, right } => {
            lemma_closed_pushed(
                s,
                FrameView::Logical { operator, right: *right },
                ControlView::Expression(*left),
            );
        },
        ExprView::Call { callee, paren, arguments } => {
            lemma_closed_pushed(
                s,
                FrameView::Callee { arguments: arguments.reverse() },
                ControlView::Expression(*callee),
            );
        },
    }
}

/// Handing a value to a frame keeps a closed state closed.
pub proof fn lemma_resume_closed(s: MachineView, frame: FrameView, value: ValueView)
    requires
        s.closed(),
        contained(s.heap),
        frame.within(s.heap.len()),
        value.within(s.heap.len()),
    ensures
        resume(s, frame, value).0.closed(),
        contained(resume(s, frame, value).0.heap),
{
    let t = resume(s, frame, value).0;
    match frame {
        FrameView::Define { name } => {
            lemma_defined_closed(s.heap, s.scope as int, name.lexeme, value);
            lemma_closed_like(s, t);
        },
        FrameView::Loop { condition, body } => {
            if value.truthy() {
                lemma_closed_pushed(
                    s,
                    FrameView::Repeat { condition, body },
                    ControlView::Statement(body),
                );
            } else {
                lemma_closed_like(s, t);
            }
        },
        FrameView::Repeat { condition, body } => {
            lemma_closed_pushed(
                s,
                FrameView::Loop { condition, body },
                ControlView::Expression(condition),
            );
        },
        FrameView::Sequence { pending } => {
            if pending.len() == 0 {
                lemma_closed_like(s, t);
            } else {
                lemma_closed_pushed(
                    s,
                    FrameView::Sequence { pending: pending.drop_last() },
                    ControlView::Statement(pending.last()),
                );
            }
        },
        FrameView::Assign { name } => {
            crate::environment::lemma_resolve_finds_binding(s.heap, s.scope as int, name.lexeme);
            match assigned(s.heap, s.scope as int, name.lexeme, value) {
                Some(heap) => {
                    let holder = crate::environment::resolve(s.heap, s.scope as int, name.lexeme)->Some_0;
                    lemma_defined_closed(s.heap, holder, name.lexeme, value);
                    lemma_closed_like(s, t);
                },
                None => {},
            }
        },
        FrameView::Unary { operator } => {
            match operator {
                UnaryOperator::Not => {
                    lemma_closed_like(s, t);
                },
                UnaryOperator::Negate => {
                    match value.number() {
                        Ok(n) => {
                            lemma_closed_like(s, t);
                        },
                        Err(_) => {},
                    }
                },
            }
        },
        FrameView::Left { operator, right } => {
            lemma_closed_pushed(
                s,
                FrameView::Right { operator, left: value },
                ControlView::Expression(right),
            );
        },
        FrameView::Right { operator, left } => {
            lemma_operate_closed(s, operator, left, value);
        },
        FrameView::Callee { arguments } => {
            if arguments.len() == 0 {
                lemma_apply_closed(s, value, Seq::empty());
            } else {
                lemma_closed_pushed(
                    s,
                    FrameView::Argument {
                        callee: value,
                        evaluated: Seq::empty(),
                        pending: arguments.drop_last(),
                    },
                    ControlView::Expression(arguments.last()),
                );
            }
        },
        FrameView::Argument { callee, evaluated, pending } => {
            let all = evaluated.push(value);
            assert forall|i: int| 0 <= i < all.len() implies (#[trigger] all[i]).within(
                s.heap.len(),
            ) by {
                if i < evaluated.len() {
                    assert(evaluated[i].within(s.heap.len()));
                }
            }
            if pending.len() == 0 {
                lemma_apply_closed(s, callee, all);
            } else {
                lemma_closed_pushed(
                    s,
                    FrameView::Argument { callee, evaluated: all, pending: pending.drop_last() },
                    ControlView::Expression(pending.last()),
                );
            }
        },
        _ => {
            lemma_closed_like(s, t);
        },
    }
}

/// A binary operator keeps a closed state closed.
pub proof fn lemma_operate_closed(
    s: MachineView,
    operator: BinaryOperator,
    left: ValueView,
    right: ValueView,
)
    requires
        s.closed(),
    ensures
        operate(s, operator, left, right).0.closed(),
        operate(s, operator, left, right).0.heap == s.heap,
{
    let t = operate(s, operator, left, right).0;
    if t.stack == s.stack {
        lemma_closed_like(s, t);
    }
}

/// Binding parameters adds no scope and removes none.
pub proof fn lemma_bind_length(
    heap: Seq<ScopeView>,
    scope: int,
    parameters: Seq<TokenView>,
    arguments: Seq<ValueView>,
    count: nat,
)
    requires
        0 <= scope < heap.len(),
    ensures
        bind(heap, scope, parameters, arguments, count).len() == heap.len(),
    decreases count,
{
    if count > 0 {
        lemma_bind_length(heap, scope, parameters, arguments, (count - 1) as nat);
    }
}

/// A call removes no scope.
pub proof fn lemma_apply_keeps_scopes(s: MachineView, callee: ValueView, arguments: Seq<ValueView>)
    ensures
        apply(s, callee, arguments).0.heap.len() >= s.heap.len(),
{
    match callee {
        ValueView::Function(f) => {
            lemma_bind_length(
                enclosed(s.heap, f.closure),
                s.heap.len() as int,
                f.parameters,
                arguments,
                f.parameters.len(),
            );
        },
        _ => {},
    }
}

} // verus!
