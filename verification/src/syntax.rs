//! The abstract syntax tree: literals, expressions and statements, each with
//! its mathematical model.

use vstd::prelude::*;
use crate::token::{clone_tokens, token_views, Token, TokenView};

verus! {

/// A literal as it is written in the source. A number keeps its decimal
/// digits; converting them to a number is left to evaluation.
#[derive(Debug, PartialEq, Eq)]
pub enum Literal {
    Nil,
    Boolean(bool),
    Number(String),
    String(String),
}

/// The mathematical model of a [`Literal`].
pub enum LiteralView {
    Nil,
    Boolean(bool),
    Number(Seq<char>),
    String(Seq<char>),
}

impl View for Literal {
    type V = LiteralView;

    open spec fn view(&self) -> LiteralView {
        match self {
            Literal::Nil => LiteralView::Nil,
            Literal::Boolean(b) => LiteralView::Boolean(*b),
            Literal::Number(digits) => LiteralView::Number(digits@),
            Literal::String(text) => LiteralView::String(text@),
        }
    }
}

impl LiteralView {
    /// The literal as text: `nil`, `true` or `false`, the digits of a number
    /// as they were written, the characters of a string without quotes.
    pub open spec fn text(self) -> Seq<char> {
        match self {
            LiteralView::Nil => "nil"@,
            LiteralView::Boolean(b) => if b {
                "true"@
            } else {
                "false"@
            },
            LiteralView::Number(digits) => digits,
            LiteralView::String(text) => text,
        }
    }
}

impl Literal {
    /// The literal as text.
    pub fn to_string(&self) -> (r: String)
        ensures
            r@ == self@.text(),
    {
        match self {
            Literal::Nil => String::from_str("nil"),
            Literal::Boolean(b) => if *b {
                String::from_str("true")
            } else {
                String::from_str("false")
            },
            Literal::Number(digits) => digits.clone(),
            Literal::String(text) => text.clone(),
        }
    }
}

impl Clone for Literal {
    fn clone(&self) -> (r: Literal)
        ensures
            r@ == self@,
    {
        match self {
            Literal::Nil => Literal::Nil,
            Literal::Boolean(b) => Literal::Boolean(*b),
            Literal::Number(digits) => Literal::Number(digits.clone()),
            Literal::String(text) => Literal::String(text.clone()),
        }
    }
}

/// The prefix operators: `!` and `-`.
#[derive(Debug, Clone, Copy, PartialEq, Eq, Structural)]
pub enum UnaryOperator {
    Not,
    Negate,
}

/// The infix operators of arithmetic, comparison and equality.
#[derive(Debug, Clone, Copy, PartialEq, Eq, Structural)]
pub enum BinaryOperator {
    Add,
    Subtract,
    Multiply,
    Divide,
    Greater,
    GreaterEqual,
    Less,
    LessEqual,
    Equal,
    NotEqual,
}

/// The short-circuiting operators: `and` and `or`.
#[derive(Debug, Clone, Copy, PartialEq, Eq, Structural)]
pub enum LogicalOperator {
    And,
    Or,
}

impl UnaryOperator {
    /// The operator as it is written.
    pub open spec fn sign(self) -> Seq<char> {
        match self {
            UnaryOperator::Not => "!"@,
            UnaryOperator::Negate => "-"@,
        }
    }

    /// The operator as it is written.
    pub fn symbol(self) -> (r: &'static str)
        ensures
            r@ == self.sign(),
    {
        match self {
            UnaryOperator::Not => "!",
            UnaryOperator::Negate => "-",
        }
    }
}

impl BinaryOperator {
    /// The operator as it is written.
    pub open spec fn sign(self) -> Seq<char> {
        match self {
            BinaryOperator::Add => "+"@,
            BinaryOperator::Subtract => "-"@,
            BinaryOperator::Multiply => "*"@,
            BinaryOperator::Divide => "/"@,
            BinaryOperator::Greater => ">"@,
            BinaryOperator::GreaterEqual => ">="@,
            BinaryOperator::Less => "<"@,
            BinaryOperator::LessEqual => "<="@,
            BinaryOperator::Equal => "=="@,
            BinaryOperator::NotEqual => "!="@,
        }
    }

    /// The operator as it is written.
    pub fn symbol(self) -> (r: &'static str)
        ensures
            r@ == self.sign(),
    {
        match self {
            BinaryOperator::Add => "+",
            BinaryOperator::Subtract => "-",
            BinaryOperator::Multiply => "*",
            BinaryOperator::Divide => "/",
            BinaryOperator::Greater => ">",
            BinaryOperator::GreaterEqual => ">=",
            BinaryOperator::Less => "<",
            BinaryOperator::LessEqual => "<=",
            BinaryOperator::Equal => "==",
            BinaryOperator::NotEqual => "!=",
        }
    }
}

impl LogicalOperator {
    /// The operator as it is written.
    pub open spec fn sign(self) -> Seq<char> {
        match self {
            LogicalOperator::And => "and"@,
            LogicalOperator::Or => "or"@,
        }
    }

    /// The operator as it is written.
    pub fn symbol(self) -> (r: &'static str)
        ensures
            r@ == self.sign(),
    {
        match self {
            LogicalOperator::And => "and",
            LogicalOperator::Or => "or",
        }
    }
}

/// An expression.
#[derive(Debug, PartialEq, Eq)]
#[allow(inconsistent_fields)]
pub enum Expr {
    Assign { name: Token, value: Box<Expr> },
    Binary { left: Box<Expr>, operator: BinaryOperator, right: Box<Expr> },
    Call { callee: Box<Expr>, paren: Token, arguments: Vec<Expr> },
    Grouping(Box<Expr>),
    Literal(Literal),
    Logical { left: Box<Expr>, operator: LogicalOperator, right: Box<Expr> },
    Unary { operator: UnaryOperator, right: Box<Expr> },
    Variable(Token),
}

/// The mathematical model of an [`Expr`].
#[allow(inconsistent_fields)]
pub enum ExprView {
    Assign { name: TokenView, value: Box<ExprView> },
    Binary { left: Box<ExprView>, operator: BinaryOperator, right: Box<ExprView> },
    Call { callee: Box<ExprView>, paren: TokenView, arguments: Seq<ExprView> },
    Grouping(Box<ExprView>),
    Literal(LiteralView),
    Logical { left: Box<ExprView>, operator: LogicalOperator, right: Box<ExprView> },
    Unary { operator: UnaryOperator, right: Box<ExprView> },
    Variable(TokenView),
}

impl ExprView {
    /// The expression in prefix form, every operation in parentheses with
    /// its operator first:
    ///
    /// ```text
    /// a = 1 + 2        (a = (+ 1 2))
    /// !(a or b)        (! (group (or a b)))
    /// f(x, 2)          (f x 2 )
    /// ```
    ///
    /// A call shows the callee and then each argument with a space behind
    /// it. A literal shows as [`LiteralView::text`] says.
    pub open spec fn text(self) -> Seq<char>
        decreases self, 0nat,
    {
        match self {
            ExprView::Assign { name, value } => "("@ + name.lexeme + " = "@ + value.text() + ")"@,
            ExprView::Binary { left, operator, right } => "("@ + operator.sign() + " "@
                + left.text() + " "@ + right.text() + ")"@,
            ExprView::Call { callee, paren, arguments } => "("@ + callee.text() + " "@
                + ExprView::texts(arguments, arguments.len()) + ")"@,
            ExprView::Grouping(inner) => "(group "@ + inner.text() + ")"@,
            ExprView::Literal(literal) => literal.text(),
            ExprView::Logical { left, operator, right } => "("@ + operator.sign() + " "@
                + left.text() + " "@ + right.text() + ")"@,
            ExprView::Unary { operator, right } => "("@ + operator.sign() + " "@ + right.text()
                + ")"@,
            ExprView::Variable(name) => name.lexeme,
        }
    }

    /// The first `count` expressions of a list in prefix form, each with a
    /// space behind it.
    pub open spec fn texts(list: Seq<ExprView>, count: nat) -> Seq<char>
        decreases list, count,
    {
        if 0 < count <= list.len() {
            ExprView::texts(list, (count - 1) as nat) + list[count - 1].text() + " "@
        } else {
            Seq::empty()
        }
    }
}

impl Expr {
    /// The expression in prefix form.
    pub fn to_string(&self) -> (r: String)
        ensures
            r@ == self@.text(),
        decreases self,
    {
        match self {
            Expr::Assign { name, value } => {
                let mut text = String::from_str("(");
                text.append(name.lexeme.as_str());
                text.append(" = ");
                text.append(value.to_string().as_str());
                text.append(")");
                text
            },
            Expr::Binary { left, operator, right } => {
                let mut text = String::from_str("(");
                text.append(operator.symbol());
                text.append(" ");
                text.append(left.to_string().as_str());
                text.append(" ");
                text.append(right.to_string().as_str());
                text.append(")");
                text
            },
            Expr::Call { callee, paren, arguments } => {
                let mut list = String::new();
                let mut i: usize = 0;
                assert(list@ =~= ExprView::texts(Expr::models(arguments@), 0));
                while i < arguments.len()
                    invariant
                        i <= arguments.len(),
                        self is Call,
                        self->arguments == arguments,
                        list@ == ExprView::texts(Expr::models(arguments@), i as nat),
                    decreases arguments.len() - i,
                {
                    list.append(arguments[i].to_string().as_str());
                    list.append(" ");
                    i += 1;
                }
                let mut text = String::from_str("(");
                text.append(callee.to_string().as_str());
                text.append(" ");
                text.append(list.as_str());
                text.append(")");
                text
            },
            Expr::Grouping(inner) => {
                let mut text = String::from_str("(group ");
                text.append(inner.to_string().as_str());
                text.append(")");
                text
            },
            Expr::Literal(literal) => literal.to_string(),
            Expr::Logical { left, operator, right } => {
                let mut text = String::from_str("(");
                text.append(operator.symbol());
                text.append(" ");
                text.append(left.to_string().as_str());
                text.append(" ");
                text.append(right.to_string().as_str());
                text.append(")");
                text
            },
            Expr::Unary { operator, right } => {
                let mut text = String::from_str("(");
                text.append(operator.symbol());
                text.append(" ");
                text.append(right.to_string().as_str());
                text.append(")");
                text
            },
            Expr::Variable(name) => name.lexeme.clone(),
        }
    }

    /// The model of this expression.
    pub open spec fn model(&self) -> ExprView
        decreases self,
    {
        match self {
            Expr::Assign { name, value } => ExprView::Assign {
                name: name@,
                value: Box::new(value.model()),
            },
            Expr::Binary { left, operator, right } => ExprView::Binary {
                left: Box::new(left.model()),
                operator: *operator,
                right: Box::new(right.model()),
            },
            Expr::Call { callee, paren, arguments } => ExprView::Call {
                callee: Box::new(callee.model()),
                paren: paren@,
                arguments: Expr::models(arguments@),
            },
            Expr::Grouping(inner) => ExprView::Grouping(Box::new(inner.model())),
            Expr::Literal(literal) => ExprView::Literal(literal@),
            Expr::Logical { left, operator, right } => ExprView::Logical {
                left: Box::new(left.model()),
                operator: *operator,
                right: Box::new(right.model()),
            },
            Expr::Unary { operator, right } => ExprView::Unary {
                operator: *operator,
                right: Box::new(right.model()),
            },
            Expr::Variable(name) => ExprView::Variable(name@),
        }
    }

    /// The models of a sequence of expressions, in order.
    pub open spec fn models(list: Seq<Expr>) -> Seq<ExprView>
        decreases list,
    {
        Seq::new(
            list.len(),
            |i: int|
                if 0 <= i < list.len() {
                    list[i].model()
                } else {
                    ExprView::Literal(LiteralView::Nil)
                },
        )
    }

    /// A deep copy of this expression.
    pub fn duplicate(&self) -> (r: Expr)
        ensures
            r@ == self@,
        decreases self,
    {
        match self {
            Expr::Assign { name, value } => Expr::Assign {
                name: name.clone(),
                value: Box::new(value.duplicate()),
            },
            Expr::Binary { left, operator, right } => Expr::Binary {
                left: Box::new(left.duplicate()),
                operator: *operator,
                right: Box::new(right.duplicate()),
            },
            Expr::Call { callee, paren, arguments } => {
                let mut copies: Vec<Expr> = Vec::new();
                let mut i: usize = 0;
                while i < arguments.len()
                    invariant
                        i <= arguments.len(),
                        self is Call,
                        self->arguments == arguments,
                        copies.len() == i,
                        forall|j: int| 0 <= j < i ==> copies@[j]@ == arguments@[j]@,
                    decreases arguments.len() - i,
                {
                    copies.push(arguments[i].duplicate());
                    i += 1;
                }
                assert(Expr::models(copies@) =~= Expr::models(arguments@));
                Expr::Call { callee: Box::new(callee.duplicate()), paren: paren.clone(), arguments: copies }
            },
            Expr::Grouping(inner) => Expr::Grouping(Box::new(inner.duplicate())),
            Expr::Literal(literal) => Expr::Literal(literal.clone()),
            Expr::Logical { left, operator, right } => Expr::Logical {
                left: Box::new(left.duplicate()),
                operator: *operator,
                right: Box::new(right.duplicate()),
            },
            Expr::Unary { operator, right } => Expr::Unary {
                operator: *operator,
                right: Box::new(right.duplicate()),
            },
            Expr::Variable(name) => Expr::Variable(name.clone()),
        }
    }
}

impl View for Expr {
    type V = ExprView;

    open spec fn view(&self) -> ExprView {
        self.model()
    }
}

impl Clone for Expr {
    fn clone(&self) -> (r: Expr)
        ensures
            r@ == self@,
    {
        self.duplicate()
    }
}

/// A statement.
#[derive(Debug, PartialEq, Eq)]
#[allow(inconsistent_fields)]
pub enum Stmt {
    Block(Vec<Stmt>),
    Expression(Expr),
    Function { name: Token, parameters: Vec<Token>, body: Vec<Stmt> },
    If { condition: Expr, then_branch: Box<Stmt>, else_branch: Option<Box<Stmt>> },
    Print(Expr),
    Return { keyword: Token, value: Option<Expr> },
    Var { name: Token, initializer: Option<Expr> },
    While { condition: Expr, body: Box<Stmt> },
}

/// The mathematical model of a [`Stmt`].
#[allow(inconsistent_fields)]
pub enum StmtView {
    Block(Seq<StmtView>),
    Expression(ExprView),
    Function { name: TokenView, parameters: Seq<TokenView>, body: Seq<StmtView> },
    If { condition: ExprView, then_branch: Box<StmtView>, else_branch: Option<Box<StmtView>> },
    Print(ExprView),
    Return { keyword: TokenView, value: Option<ExprView> },
    Var { name: TokenView, initializer: Option<ExprView> },
    While { condition: ExprView, body: Box<StmtView> },
}

/// The model of an optional expression.
pub open spec fn optional_expr(e: Option<Expr>) -> Option<ExprView> {
    match e {
        Some(e) => Some(e@),
        None => None,
    }
}

impl Stmt {
    /// The model of this statement.
    pub open spec fn model(&self) -> StmtView
        decreases self,
    {
        match self {
            Stmt::Block(statements) => StmtView::Block(Stmt::models(statements@)),
            Stmt::Expression(e) => StmtView::Expression(e@),
            Stmt::Function { name, parameters, body } => StmtView::Function {
                name: name@,
                parameters: token_views(parameters@),
                body: Stmt::models(body@),
            },
            Stmt::If { condition, then_branch, else_branch } => StmtView::If {
                condition: condition@,
                then_branch: Box::new(then_branch.model()),
                else_branch: match else_branch {
                    Some(s) => Some(Box::new(s.model())),
                    None => None,
                },
            },
            Stmt::Print(e) => StmtView::Print(e@),
            Stmt::Return { keyword, value } => StmtView::Return {
                keyword: keyword@,
                value: optional_expr(*value),
            },
            Stmt::Var { name, initializer } => StmtView::Var {
                name: name@,
                initializer: optional_expr(*initializer),
            },
            Stmt::While { condition, body } => StmtView::While {
                condition: condition@,
                body: Box::new(body.model()),
            },
        }
    }

    /// The models of a sequence of statements, in order.
    pub open spec fn models(list: Seq<Stmt>) -> Seq<StmtView>
        decreases list,
    {
        Seq::new(
            list.len(),
            |i: int|
                if 0 <= i < list.len() {
                    list[i].model()
                } else {
                    StmtView::Block(Seq::empty())
                },
        )
    }

    /// A deep copy of this statement.
    pub fn duplicate(&self) -> (r: Stmt)
        ensures
            r@ == self@,
        decreases self,
    {
        match self {
            Stmt::Block(statements) => Stmt::Block(Stmt::duplicate_all(statements)),
            Stmt::Expression(e) => Stmt::Expression(e.clone()),
            Stmt::Function { name, parameters, body } => Stmt::Function {
                name: name.clone(),
                parameters: clone_tokens(parameters),
                body: Stmt::duplicate_all(body),
            },
            Stmt::If { condition, then_branch, else_branch } => Stmt::If {
                condition: condition.clone(),
                then_branch: Box::new(then_branch.duplicate()),
                else_branch: match else_branch {
                    Some(s) => Some(Box::new(s.duplicate())),
                    None => None,
                },
            },
            Stmt::Print(e) => Stmt::Print(e.clone()),
            Stmt::Return { keyword, value } => Stmt::Return {
                keyword: keyword.clone(),
                value: match value {
                    Some(e) => Some(e.clone()),
                    None => None,
                },
            },
            Stmt::Var { name, initializer } => Stmt::Var {
                name: name.clone(),
                initializer: match initializer {
                    Some(e) => Some(e.clone()),
                    None => None,
                },
            },
            Stmt::While { condition, body } => Stmt::While {
                condition: condition.clone(),
                body: Box::new(body.duplicate()),
            },
        }
    }

    /// Deep copies of a list of statements, in order.
    pub fn duplicate_all(list: &Vec<Stmt>) -> (r: Vec<Stmt>)
        ensures
            Stmt::models(r@) == Stmt::models(list@),
        decreases list,
    {
        let mut copies: Vec<Stmt> = Vec::new();
        let mut i: usize = 0;
        while i < list.len()
            invariant
                i <= list.len(),
                copies.len() == i,
                forall|j: int| 0 <= j < i ==> copies@[j]@ == list@[j]@,
            decreases list.len() - i,
        {
            copies.push(list[i].duplicate());
            i += 1;
        }
        assert(Stmt::models(copies@) =~= Stmt::models(list@));
        copies
    }
}

impl View for Stmt {
    type V = StmtView;

    open spec fn view(&self) -> StmtView {
        self.model()
    }
}

impl Clone for Stmt {
    fn clone(&self) -> (r: Stmt)
        ensures
            r@ == self@,
    {
        self.duplicate()
    }
}

} // verus!
