//! The recursive-descent parser: tokens to statements.
//!
//! Every parsing method computes exactly what the function of the same name
//! in [`crate::grammar`] says for the parser's tokens at its position, and
//! moves the cursor past what it parsed.

use vstd::prelude::*;
use crate::grammar;
use crate::grammar::{Infix, Outcome};
use crate::syntax::{BinaryOperator, Expr, ExprView, Literal, LogicalOperator, Stmt, StmtView, UnaryOperator};
use crate::text::join3;
use crate::token::{token_views, Token, TokenType, TokenView};

verus! {

/// Whether a token sequence ends with the end-of-input token.
pub open spec fn terminated(tokens: Seq<TokenView>) -> bool {
    tokens.len() > 0 && tokens.last().token_type is Eof
}

/// Every token sequence that scanning yields ends with the end-of-input
/// token, so a parser can be made for it.
pub proof fn law_scanned_tokens_are_terminated(source: Seq<char>)
    ensures
        crate::scanner::scan(source) matches Ok(tokens) ==> terminated(tokens),
{
    crate::scanner::law_scan_ends_with_one_eof(source, 0, 1);
}

/// Whether a parsing method's result, and the cursor before and after it,
/// are what the grammar's outcome says.
pub open spec fn agrees<T: View>(outcome: Outcome<T::V>, r: Result<T, String>, before: int, after: int) -> bool {
    match outcome {
        Ok(parsed) => r matches Ok(value) && value@ == parsed.value && after == before
            + parsed.consumed,
        Err(message) => r matches Err(text) && text@ == message,
    }
}

/// [`agrees`], for a list of statements.
pub open spec fn agrees_statements(
    outcome: Outcome<Seq<StmtView>>,
    r: Result<Vec<Stmt>, String>,
    before: int,
    after: int,
) -> bool {
    match outcome {
        Ok(parsed) => r matches Ok(list) && Stmt::models(list@) == parsed.value && after == before
            + parsed.consumed,
        Err(message) => r matches Err(text) && text@ == message,
    }
}

/// [`agrees`], for a list of expressions.
pub open spec fn agrees_expressions(
    outcome: Outcome<Seq<ExprView>>,
    r: Result<Vec<Expr>, String>,
    before: int,
    after: int,
) -> bool {
    match outcome {
        Ok(parsed) => r matches Ok(list) && Expr::models(list@) == parsed.value && after == before
            + parsed.consumed,
        Err(message) => r matches Err(text) && text@ == message,
    }
}

/// [`agrees`], for a list of tokens.
pub open spec fn agrees_tokens(
    outcome: Outcome<Seq<TokenView>>,
    r: Result<Vec<Token>, String>,
    before: int,
    after: int,
) -> bool {
    match outcome {
        Ok(parsed) => r matches Ok(list) && token_views(list@) == parsed.value && after == before
            + parsed.consumed,
        Err(message) => r matches Err(text) && text@ == message,
    }
}

/// [`agrees`], for an optional expression.
pub open spec fn agrees_optional(
    outcome: Outcome<Option<ExprView>>,
    r: Result<Option<Expr>, String>,
    before: int,
    after: int,
) -> bool {
    match outcome {
        Ok(parsed) => r matches Ok(value) && crate::syntax::optional_expr(value) == parsed.value
            && after == before + parsed.consumed,
        Err(message) => r matches Err(text) && text@ == message,
    }
}

/// The model of an optional statement.
pub open spec fn optional_stmt(s: Option<Stmt>) -> Option<StmtView> {
    match s {
        Some(s) => Some(s@),
        None => None,
    }
}

/// The infix operator that a token type denotes at a precedence level.
fn infix(level: u8, token_type: &TokenType) -> (r: Option<Infix>)
    ensures
        r == grammar::infix_at(token_type@, level as nat),
{
    if level == 0 {
        match token_type {
            TokenType::Or => Some(Infix::Logical(LogicalOperator::Or)),
            _ => None,
        }
    } else if level == 1 {
        match token_type {
            TokenType::And => Some(Infix::Logical(LogicalOperator::And)),
            _ => None,
        }
    } else if level == 2 {
        match token_type {
            TokenType::BangEqual => Some(Infix::Binary(BinaryOperator::NotEqual)),
            TokenType::EqualEqual => Some(Infix::Binary(BinaryOperator::Equal)),
            _ => None,
        }
    } else if level == 3 {
        match token_type {
            TokenType::Greater => Some(Infix::Binary(BinaryOperator::Greater)),
            TokenType::GreaterEqual => Some(Infix::Binary(BinaryOperator::GreaterEqual)),
            TokenType::Less => Some(Infix::Binary(BinaryOperator::Less)),
            TokenType::LessEqual => Some(Infix::Binary(BinaryOperator::LessEqual)),
            _ => None,
        }
    } else if level == 4 {
        match token_type {
            TokenType::Minus => Some(Infix::Binary(BinaryOperator::Subtract)),
            TokenType::Plus => Some(Infix::Binary(BinaryOperator::Add)),
            _ => None,
        }
    } else if level == 5 {
        match token_type {
            TokenType::Slash => Some(Infix::Binary(BinaryOperator::Divide)),
            TokenType::Star => Some(Infix::Binary(BinaryOperator::Multiply)),
            _ => None,
        }
    } else {
        None
    }
}

/// The expression that applies an infix operator to two operands.
fn combine(operator: Infix, left: Expr, right: Expr) -> (r: Expr)
    ensures
        r@ == grammar::combine(operator, left@, right@),
{
    match operator {
        Infix::Logical(operator) => Expr::Logical {
            left: Box::new(left),
            operator,
            right: Box::new(right),
        },
        Infix::Binary(operator) => Expr::Binary {
            left: Box::new(left),
            operator,
            right: Box::new(right),
        },
    }
}

/// A syntax error message: what was expected, and at which token.
fn error(token: &Token, message: &str) -> (r: String)
    ensures
        r@ == grammar::error_message(token@, message@),
{
    if token.token_type.is_eof() {
        let mut text = String::from_str(message);
        text.append(" at end");
        text
    } else {
        let mut text = String::from_str(message);
        text.append(" at '");
        text.append(token.lexeme.as_str());
        text.append("'");
        text
    }
}

/// A parser over a token sequence that ends with the end-of-input token.
pub struct Parser {
    tokens: Vec<Token>,
    current: usize,
}

impl Parser {
    /// The tokens being parsed.
    pub closed spec fn stream(&self) -> Seq<TokenView> {
        token_views(self.tokens@)
    }

    /// The index of the next token to parse.
    pub closed spec fn position(&self) -> int {
        self.current as int
    }

    /// The parser's invariant: the tokens end with the end-of-input token
    /// and the cursor is on one of them.
    pub closed spec fn inv(&self) -> bool {
        &&& terminated(token_views(self.tokens@))
        &&& self.current < self.tokens.len()
    }

    /// A parser at the start of `tokens`.
    pub fn new(tokens: Vec<Token>) -> (r: Parser)
        requires
            terminated(token_views(tokens@)),
        ensures
            r.inv(),
            r.stream() == token_views(tokens@),
            r.position() == 0,
    {
        Parser { tokens, current: 0 }
    }

    /// Parses declarations up to the end-of-input token. Returns the
    /// statements, or the message of the first syntax error.
    pub fn parse(&mut self) -> (r: Result<Vec<Stmt>, String>)
        requires
            old(self).inv(),
        ensures
            final(self).inv(),
            final(self).stream() == old(self).stream(),
            agrees_statements(
                grammar::program(old(self).stream(), old(self).position(), Seq::empty()),
                r,
                old(self).position(),
                final(self).position(),
            ),
            old(self).position() == 0 ==> match grammar::parse(old(self).stream()) {
                Ok(statements) => r matches Ok(list) && Stmt::models(list@) == statements,
                Err(message) => r matches Err(text) && text@ == message,
            },
    {
        self.program()
    }

    /// The declarations from the cursor up to the end-of-input token.
    fn program(&mut self) -> (r: Result<Vec<Stmt>, String>)
        requires
            old(self).inv(),
        ensures
            final(self).inv(),
            final(self).tokens == old(self).tokens,
            agrees_statements(
                grammar::program(old(self).stream(), old(self).current as int, Seq::empty()),
                r,
                old(self).current as int,
                final(self).current as int,
            ),
    {
        let ghost start = self.current as int;
        let ghost ts = self.stream();
        let ghost goal = grammar::program(ts, start, Seq::empty());
        let mut statements: Vec<Stmt> = Vec::new();
        assert(Stmt::models(statements@) =~= Seq::empty());
        while !self.is_at_end()
            invariant
                self.inv(),
                self.tokens == old(self).tokens,
                ts == self.stream(),
                start == old(self).current,
                start <= self.current,
                goal == grammar::program(ts, start, Seq::empty()),
                grammar::shifted(
                    grammar::program(ts, self.current as int, Stmt::models(statements@)),
                    (self.current - start) as nat,
                ) == goal,
            decreases self.tokens.len() - self.current,
        {
            let ghost found = Stmt::models(statements@);
            proof {
                grammar::lemma_declaration_consumes(ts, self.current as int);
            }
            match self.declaration() {
                Ok(statement) => {
                    statements.push(statement);
                    assert(Stmt::models(statements@) =~= found.push(statement@));
                },
                Err(message) => {
                    return Err(message);
                },
            }
        }
        Ok(statements)
    }

    fn declaration(&mut self) -> (r: Result<Stmt, String>)
        requires
            old(self).inv(),
        ensures
            final(self).inv(),
            final(self).tokens == old(self).tokens,
            agrees(
                grammar::declaration(old(self).stream(), old(self).current as int),
                r,
                old(self).current as int,
                final(self).current as int,
            ),
        decreases old(self).tokens.len() - old(self).current, 27nat,
    {
        if self.match_token(TokenType::Fun) {
            return self.function("function");
        }
        if self.match_token(TokenType::Var) {
            return self.var_declaration();
        }
        self.statement()
    }

    fn var_declaration(&mut self) -> (r: Result<Stmt, String>)
        requires
            old(self).inv(),
        ensures
            final(self).inv(),
            final(self).tokens == old(self).tokens,
            agrees(
                grammar::var_declaration(old(self).stream(), old(self).current as int),
                r,
                old(self).current as int,
                final(self).current as int,
            ),
        decreases old(self).tokens.len() - old(self).current, 0nat,
    {
        let name = match self.consume(TokenType::Identifier(String::new()), "Expect variable name.") {
            Ok(name) => name,
            Err(message) => {
                return Err(message);
            },
        };
        let initializer = if self.match_token(TokenType::Equal) {
            match self.expression() {
                Ok(e) => Some(e),
                Err(message) => {
                    return Err(message);
                },
            }
        } else {
            None
        };
        match self.consume(TokenType::Semicolon, "Expect ';' after variable declaration.") {
            Ok(_) => {},
            Err(message) => {
                return Err(message);
            },
        }
        Ok(Stmt::Var { name, initializer })
    }

    fn statement(&mut self) -> (r: Result<Stmt, String>)
        requires
            old(self).inv(),
        ensures
            final(self).inv(),
            final(self).tokens == old(self).tokens,
            agrees(
                grammar::statement(old(self).stream(), old(self).current as int),
                r,
                old(self).current as int,
                final(self).current as int,
            ),
        decreases old(self).tokens.len() - old(self).current, 26nat,
    {
        if self.match_token(TokenType::For) {
            return self.for_statement();
        }
        if self.match_token(TokenType::If) {
            return self.if_statement();
        }
        if self.match_token(TokenType::Print) {
            return self.print_statement();
        }
        if self.match_token(TokenType::Return) {
            return self.return_statement();
        }
        if self.match_token(TokenType::While) {
            return self.while_statement();
        }
        if self.match_token(TokenType::LeftBrace) {
            return match self.block() {
                Ok(statements) => Ok(Stmt::Block(statements)),
                Err(message) => Err(message),
            };
        }
        self.expression_statement()
    }

    fn while_statement(&mut self) -> (r: Result<Stmt, String>)
        requires
            old(self).inv(),
        ensures
            final(self).inv(),
            final(self).tokens == old(self).tokens,
            agrees(
                grammar::while_statement(old(self).stream(), old(self).current as int),
                r,
                old(self).current as int,
                final(self).current as int,
            ),
        decreases old(self).tokens.len() - old(self).current, 0nat,
    {
        match self.consume(TokenType::LeftParen, "Expect '(' after 'while'.") {
            Ok(_) => {},
            Err(message) => {
                return Err(message);
            },
        }
        let condition = match self.expression() {
            Ok(e) => e,
            Err(message) => {
                return Err(message);
            },
        };
        match self.consume(TokenType::RightParen, "Expect ')' after condition.") {
            Ok(_) => {},
            Err(message) => {
                return Err(message);
            },
        }
        let body = match self.statement() {
            Ok(s) => s,
            Err(message) => {
                return Err(message);
            },
        };
        Ok(Stmt::While { condition, body: Box::new(body) })
    }

    /// The first clause of a for statement.
    fn for_initializer(&mut self) -> (r: Result<Option<Stmt>, String>)
        requires
            old(self).inv(),
        ensures
            final(self).inv(),
            final(self).tokens == old(self).tokens,
            match grammar::for_initializer(old(self).stream(), old(self).current as int) {
                Ok(parsed) => r matches Ok(value) && optional_stmt(value) == parsed.value
                    && final(self).current == old(self).current + parsed.consumed,
                Err(message) => r matches Err(text) && text@ == message,
            },
        decreases old(self).tokens.len() - old(self).current, 25nat,
    {
        if self.match_token(TokenType::Semicolon) {
            Ok(None)
        } else if self.match_token(TokenType::Var) {
            match self.var_declaration() {
                Ok(s) => Ok(Some(s)),
                Err(message) => Err(message),
            }
        } else {
            match self.expression_statement() {
                Ok(s) => Ok(Some(s)),
                Err(message) => Err(message),
            }
        }
    }

    /// An expression, unless the next token is of the variant `closing`.
    fn optional_expression(&mut self, closing: TokenType) -> (r: Result<Option<Expr>, String>)
        requires
            old(self).inv(),
        ensures
            final(self).inv(),
            final(self).tokens == old(self).tokens,
            agrees_optional(
                grammar::optional_expression(
                    old(self).stream(),
                    old(self).current as int,
                    closing@,
                ),
                r,
                old(self).current as int,
                final(self).current as int,
            ),
        decreases old(self).tokens.len() - old(self).current, 24nat,
    {
        if !self.check(closing) {
            match self.expression() {
                Ok(e) => Ok(Some(e)),
                Err(message) => Err(message),
            }
        } else {
            Ok(None)
        }
    }

    fn for_statement(&mut self) -> (r: Result<Stmt, String>)
        requires
            old(self).inv(),
        ensures
            final(self).inv(),
            final(self).tokens == old(self).tokens,
            agrees(
                grammar::for_statement(old(self).stream(), old(self).current as int),
                r,
                old(self).current as int,
                final(self).current as int,
            ),
        decreases old(self).tokens.len() - old(self).current, 0nat,
    {
        match self.consume(TokenType::LeftParen, "Expect '(' after 'for'.") {
            Ok(_) => {},
            Err(message) => {
                return Err(message);
            },
        }
        let initializer = match self.for_initializer() {
            Ok(s) => s,
            Err(message) => {
                return Err(message);
            },
        };
        let condition = match self.optional_expression(TokenType::Semicolon) {
            Ok(e) => e,
            Err(message) => {
                return Err(message);
            },
        };
        match self.consume(TokenType::Semicolon, "Expect ';' after loop condition.") {
            Ok(_) => {},
            Err(message) => {
                return Err(message);
            },
        }
        let increment = match self.optional_expression(TokenType::RightParen) {
            Ok(e) => e,
            Err(message) => {
                return Err(message);
            },
        };
        match self.consume(TokenType::RightParen, "Expect ')' after for clauses.") {
            Ok(_) => {},
            Err(message) => {
                return Err(message);
            },
        }
        let body = match self.statement() {
            Ok(s) => s,
            Err(message) => {
                return Err(message);
            },
        };
        Ok(desugar_for(initializer, condition, increment, body))
    }

    fn if_statement(&mut self) -> (r: Result<Stmt, String>)
        requires
            old(self).inv(),
        ensures
            final(self).inv(),
            final(self).tokens == old(self).tokens,
            agrees(
                grammar::if_statement(old(self).stream(), old(self).current as int),
                r,
                old(self).current as int,
                final(self).current as int,
            ),
        decreases old(self).tokens.len() - old(self).current, 0nat,
    {
        match self.consume(TokenType::LeftParen, "Expect '(' after 'if'.") {
            Ok(_) => {},
            Err(message) => {
                return Err(message);
            },
        }
        let condition = match self.expression() {
            Ok(e) => e,
            Err(message) => {
                return Err(message);
            },
        };
        match self.consume(TokenType::RightParen, "Expect ')' after if condition.") {
            Ok(_) => {},
            Err(message) => {
                return Err(message);
            },
        }
        let then_branch = match self.statement() {
            Ok(s) => s,
            Err(message) => {
                return Err(message);
            },
        };
        let else_branch = if self.match_token(TokenType::Else) {
            match self.statement() {
                Ok(s) => Some(Box::new(s)),
                Err(message) => {
                    return Err(message);
                },
            }
        } else {
            None
        };
        Ok(Stmt::If { condition, then_branch: Box::new(then_branch), else_branch })
    }

    /// The declarations of a block whose opening brace was just consumed,
    /// and its closing brace.
    fn block(&mut self) -> (r: Result<Vec<Stmt>, String>)
        requires
            old(self).inv(),
        ensures
            final(self).inv(),
            final(self).tokens == old(self).tokens,
            agrees_statements(
                grammar::block(old(self).stream(), old(self).current as int, Seq::empty()),
                r,
                old(self).current as int,
                final(self).current as int,
            ),
        decreases old(self).tokens.len() - old(self).current, 28nat,
    {
        let ghost start = self.current as int;
        let ghost ts = self.stream();
        let ghost goal = grammar::block(ts, start, Seq::empty());
        let mut statements: Vec<Stmt> = Vec::new();
        assert(Stmt::models(statements@) =~= Seq::empty());
        while !self.check(TokenType::RightBrace) && !self.is_at_end()
            invariant
                self.inv(),
                self.tokens == old(self).tokens,
                ts == self.stream(),
                start == old(self).current,
                start <= self.current,
                goal == grammar::block(ts, start, Seq::empty()),
                grammar::shifted(
                    grammar::block(ts, self.current as int, Stmt::models(statements@)),
                    (self.current - start) as nat,
                ) == goal,
            decreases self.tokens.len() - self.current,
        {
            let ghost found = Stmt::models(statements@);
            proof {
                grammar::lemma_declaration_consumes(ts, self.current as int);
            }
            match self.declaration() {
                Ok(statement) => {
                    statements.push(statement);
                    assert(Stmt::models(statements@) =~= found.push(statement@));
                },
                Err(message) => {
                    return Err(message);
                },
            }
        }
        match self.consume(TokenType::RightBrace, "Expect '}' after block.") {
            Ok(_) => {},
            Err(message) => {
                return Err(message);
            },
        }
        Ok(statements)
    }

    fn print_statement(&mut self) -> (r: Result<Stmt, String>)
        requires
            old(self).inv(),
        ensures
            final(self).inv(),
            final(self).tokens == old(self).tokens,
            agrees(
                grammar::print_statement(old(self).stream(), old(self).current as int),
                r,
                old(self).current as int,
                final(self).current as int,
            ),
        decreases old(self).tokens.len() - old(self).current, 24nat,
    {
        let value = match self.expression() {
            Ok(e) => e,
            Err(message) => {
                return Err(message);
            },
        };
        match self.consume(TokenType::Semicolon, "Expect ';' after value.") {
            Ok(_) => {},
            Err(message) => {
                return Err(message);
            },
        }
        Ok(Stmt::Print(value))
    }

    fn return_statement(&mut self) -> (r: Result<Stmt, String>)
        requires
            old(self).inv(),
            old(self).current >= 1,
        ensures
            final(self).inv(),
            final(self).tokens == old(self).tokens,
            agrees(
                grammar::return_statement(old(self).stream(), old(self).current as int),
                r,
                old(self).current as int,
                final(self).current as int,
            ),
        decreases old(self).tokens.len() - old(self).current, 25nat,
    {
        let keyword = self.previous().clone();
        let value = match self.optional_expression(TokenType::Semicolon) {
            Ok(e) => e,
            Err(message) => {
                return Err(message);
            },
        };
        match self.consume(TokenType::Semicolon, "Expect ';' after return value.") {
            Ok(_) => {},
            Err(message) => {
                return Err(message);
            },
        }
        Ok(Stmt::Return { keyword, value })
    }

    fn expression_statement(&mut self) -> (r: Result<Stmt, String>)
        requires
            old(self).inv(),
        ensures
            final(self).inv(),
            final(self).tokens == old(self).tokens,
            agrees(
                grammar::expression_statement(old(self).stream(), old(self).current as int),
                r,
                old(self).current as int,
                final(self).current as int,
            ),
        decreases old(self).tokens.len() - old(self).current, 24nat,
    {
        let expr = match self.expression() {
            Ok(e) => e,
            Err(message) => {
                return Err(message);
            },
        };
        match self.consume(TokenType::Semicolon, "Expect ';' after expression.") {
            Ok(_) => {},
            Err(message) => {
                return Err(message);
            },
        }
        Ok(Stmt::Expression(expr))
    }

    /// The parameter names of a function, up to the closing parenthesis.
    fn parameters(&mut self) -> (r: Result<Vec<Token>, String>)
        requires
            old(self).inv(),
        ensures
            final(self).inv(),
            final(self).tokens == old(self).tokens,
            agrees_tokens(
                grammar::parameter_list(old(self).stream(), old(self).current as int),
                r,
                old(self).current as int,
                final(self).current as int,
            ),
    {
        let ghost start = self.current as int;
        let ghost ts = self.stream();
        let ghost goal = grammar::parameter_list(ts, start);
        let mut parameters: Vec<Token> = Vec::new();
        assert(token_views(parameters@) =~= Seq::empty());
        let mut more = !self.check(TokenType::RightParen);
        while more
            invariant
                self.inv(),
                self.tokens == old(self).tokens,
                ts == self.stream(),
                start == old(self).current,
                start <= self.current,
                goal == grammar::parameter_list(ts, start),
                more ==> grammar::shifted(
                    grammar::parameters(ts, self.current as int, token_views(parameters@)),
                    (self.current - start) as nat,
                ) == goal,
                !more ==> grammar::done(token_views(parameters@), (self.current - start) as nat)
                    == goal,
            decreases self.tokens.len() - self.current, if more { 1nat } else { 0nat },
        {
            let ghost found = token_views(parameters@);
            if parameters.len() >= 255 {
                return Err(error(self.peek(), "Can't have more than 255 parameters."));
            }
            match self.consume(TokenType::Identifier(String::new()), "Expect parameter name.") {
                Ok(name) => {
                    parameters.push(name);
                    assert(token_views(parameters@) =~= found.push(name@));
                },
                Err(message) => {
                    return Err(message);
                },
            }
            more = self.match_token(TokenType::Comma);
        }
        Ok(parameters)
    }

    fn function(&mut self, kind: &str) -> (r: Result<Stmt, String>)
        requires
            old(self).inv(),
        ensures
            final(self).inv(),
            final(self).tokens == old(self).tokens,
            agrees(
                grammar::function(old(self).stream(), old(self).current as int, kind@),
                r,
                old(self).current as int,
                final(self).current as int,
            ),
        decreases old(self).tokens.len() - old(self).current, 0nat,
    {
        let expect_name = join3("Expect ", kind, " name.");
        let name = match self.consume(TokenType::Identifier(String::new()), expect_name.as_str()) {
            Ok(name) => name,
            Err(message) => {
                return Err(message);
            },
        };
        let expect_paren = join3("Expect '(' after ", kind, " name.");
        match self.consume(TokenType::LeftParen, expect_paren.as_str()) {
            Ok(_) => {},
            Err(message) => {
                return Err(message);
            },
        }
        let parameters = match self.parameters() {
            Ok(list) => list,
            Err(message) => {
                return Err(message);
            },
        };
        match self.consume(TokenType::RightParen, "Expect ')' after parameters.") {
            Ok(_) => {},
            Err(message) => {
                return Err(message);
            },
        }
        let expect_brace = join3("Expect '{' before ", kind, " body.");
        match self.consume(TokenType::LeftBrace, expect_brace.as_str()) {
            Ok(_) => {},
            Err(message) => {
                return Err(message);
            },
        }
        let body = match self.block() {
            Ok(list) => list,
            Err(message) => {
                return Err(message);
            },
        };
        Ok(Stmt::Function { name, parameters, body })
    }

    fn expression(&mut self) -> (r: Result<Expr, String>)
        requires
            old(self).inv(),
        ensures
            final(self).inv(),
            final(self).tokens == old(self).tokens,
            agrees(
                grammar::expression(old(self).stream(), old(self).current as int),
                r,
                old(self).current as int,
                final(self).current as int,
            ),
        decreases old(self).tokens.len() - old(self).current, 23nat,
    {
        self.assignment()
    }

    fn assignment(&mut self) -> (r: Result<Expr, String>)
        requires
            old(self).inv(),
        ensures
            final(self).inv(),
            final(self).tokens == old(self).tokens,
            agrees(
                grammar::assignment(old(self).stream(), old(self).current as int),
                r,
                old(self).current as int,
                final(self).current as int,
            ),
        decreases old(self).tokens.len() - old(self).current, 22nat,
    {
        let expr = match self.binary(0) {
            Ok(e) => e,
            Err(message) => {
                return Err(message);
            },
        };
        if self.match_token(TokenType::Equal) {
            let equals = self.previous().clone();
            let value = match self.assignment() {
                Ok(e) => e,
                Err(message) => {
                    return Err(message);
                },
            };
            return match expr {
                Expr::Variable(name) => Ok(Expr::Assign { name, value: Box::new(value) }),
                _ => Err(error(&equals, "Invalid assignment target.")),
            };
        }
        Ok(expr)
    }

    /// An operand of the infix operators of a precedence level.
    fn operand(&mut self, level: u8) -> (r: Result<Expr, String>)
        requires
            old(self).inv(),
        ensures
            final(self).inv(),
            final(self).tokens == old(self).tokens,
            agrees(
                grammar::operand(old(self).stream(), old(self).current as int, level as nat),
                r,
                old(self).current as int,
                final(self).current as int,
            ),
        decreases old(self).tokens.len() - old(self).current, (grammar::binary_rank(level as nat)
            - 1) as nat,
    {
        if level < 5 {
            self.binary(level + 1)
        } else {
            self.unary()
        }
    }

    /// The expressions of one precedence level: operands joined by the
    /// level's operators, which associate to the left. Levels 0 to 5 are
    /// `or`, `and`, equality, comparison, term and factor.
    fn binary(&mut self, level: u8) -> (r: Result<Expr, String>)
        requires
            old(self).inv(),
        ensures
            final(self).inv(),
            final(self).tokens == old(self).tokens,
            agrees(
                grammar::binary(old(self).stream(), old(self).current as int, level as nat),
                r,
                old(self).current as int,
                final(self).current as int,
            ),
        decreases old(self).tokens.len() - old(self).current, grammar::binary_rank(level as nat),
    {
        let ghost start = self.current as int;
        let ghost ts = self.stream();
        let ghost goal = grammar::binary(ts, start, level as nat);
        let mut expr = match self.operand(level) {
            Ok(e) => e,
            Err(message) => {
                return Err(message);
            },
        };
        let mut operator = infix(level, &self.peek().token_type);
        while operator.is_some()
            invariant
                self.inv(),
                self.tokens == old(self).tokens,
                ts == self.stream(),
                start == old(self).current,
                start <= self.current,
                goal == grammar::binary(ts, start, level as nat),
                operator == grammar::infix_at(
                    grammar::token_at(ts, self.current as int).token_type,
                    level as nat,
                ),
                grammar::shifted(
                    grammar::binary_rest(ts, self.current as int, level as nat, expr@),
                    (self.current - start) as nat,
                ) == goal,
            decreases self.tokens.len() - self.current,
        {
            self.advance();
            let right = match self.operand(level) {
                Ok(e) => e,
                Err(message) => {
                    return Err(message);
                },
            };
            expr = combine(operator.unwrap(), expr, right);
            operator = infix(level, &self.peek().token_type);
        }
        Ok(expr)
    }

    fn unary(&mut self) -> (r: Result<Expr, String>)
        requires
            old(self).inv(),
        ensures
            final(self).inv(),
            final(self).tokens == old(self).tokens,
            agrees(
                grammar::unary(old(self).stream(), old(self).current as int),
                r,
                old(self).current as int,
                final(self).current as int,
            ),
        decreases old(self).tokens.len() - old(self).current, 9nat,
    {
        let operator = match &self.peek().token_type {
            TokenType::Bang => Some(UnaryOperator::Not),
            TokenType::Minus => Some(UnaryOperator::Negate),
            _ => None,
        };
        match operator {
            Some(operator) => {
                self.advance();
                match self.unary() {
                    Ok(right) => Ok(Expr::Unary { operator, right: Box::new(right) }),
                    Err(message) => Err(message),
                }
            },
            None => self.call(),
        }
    }

    fn call(&mut self) -> (r: Result<Expr, String>)
        requires
            old(self).inv(),
        ensures
            final(self).inv(),
            final(self).tokens == old(self).tokens,
            agrees(
                grammar::call(old(self).stream(), old(self).current as int),
                r,
                old(self).current as int,
                final(self).current as int,
            ),
        decreases old(self).tokens.len() - old(self).current, 8nat,
    {
        let ghost start = self.current as int;
        let ghost ts = self.stream();
        let ghost goal = grammar::call(ts, start);
        let mut expr = match self.primary() {
            Ok(e) => e,
            Err(message) => {
                return Err(message);
            },
        };
        while self.check(TokenType::LeftParen)
            invariant
                self.inv(),
                self.tokens == old(self).tokens,
                ts == self.stream(),
                start == old(self).current,
                start <= self.current,
                goal == grammar::call(ts, start),
                grammar::shifted(
                    grammar::call_rest(ts, self.current as int, expr@),
                    (self.current - start) as nat,
                ) == goal,
            decreases self.tokens.len() - self.current,
        {
            self.advance();
            expr = match self.finish_call(expr) {
                Ok(e) => e,
                Err(message) => {
                    return Err(message);
                },
            };
        }
        Ok(expr)
    }

    /// The arguments of a call that has at least one.
    fn arguments(&mut self) -> (r: Result<Vec<Expr>, String>)
        requires
            old(self).inv(),
        ensures
            final(self).inv(),
            final(self).tokens == old(self).tokens,
            agrees_expressions(
                grammar::arguments(old(self).stream(), old(self).current as int, Seq::empty()),
                r,
                old(self).current as int,
                final(self).current as int,
            ),
        decreases old(self).tokens.len() - old(self).current, 24nat,
    {
        let ghost start = self.current as int;
        let ghost ts = self.stream();
        let ghost goal = grammar::arguments(ts, start, Seq::empty());
        let mut arguments: Vec<Expr> = Vec::new();
        assert(Expr::models(arguments@) =~= Seq::empty());
        let mut more = true;
        while more
            invariant
                self.inv(),
                self.tokens == old(self).tokens,
                ts == self.stream(),
                start == old(self).current,
                start <= self.current,
                goal == grammar::arguments(ts, start, Seq::empty()),
                more ==> grammar::shifted(
                    grammar::arguments(ts, self.current as int, Expr::models(arguments@)),
                    (self.current - start) as nat,
                ) == goal,
                !more ==> grammar::done(Expr::models(arguments@), (self.current - start) as nat)
                    == goal,
            decreases self.tokens.len() - self.current, if more { 1nat } else { 0nat },
        {
            let ghost found = Expr::models(arguments@);
            if arguments.len() >= 255 {
                return Err(error(self.peek(), "Can't have more than 255 arguments."));
            }
            match self.expression() {
                Ok(argument) => {
                    arguments.push(argument);
                    assert(Expr::models(arguments@) =~= found.push(argument@));
                },
                Err(message) => {
                    return Err(message);
                },
            }
            more = self.match_token(TokenType::Comma);
        }
        Ok(arguments)
    }

    fn finish_call(&mut self, callee: Expr) -> (r: Result<Expr, String>)
        requires
            old(self).inv(),
        ensures
            final(self).inv(),
            final(self).tokens == old(self).tokens,
            agrees(
                grammar::finish_call(old(self).stream(), old(self).current as int, callee@),
                r,
                old(self).current as int,
                final(self).current as int,
            ),
        decreases old(self).tokens.len() - old(self).current, 25nat,
    {
        let arguments = if !self.check(TokenType::RightParen) {
            match self.arguments() {
                Ok(list) => list,
                Err(message) => {
                    return Err(message);
                },
            }
        } else {
            let list: Vec<Expr> = Vec::new();
            assert(Expr::models(list@) =~= Seq::empty());
            list
        };
        let paren = match self.consume(TokenType::RightParen, "Expect ')' after arguments.") {
            Ok(paren) => paren,
            Err(message) => {
                return Err(message);
            },
        };
        Ok(Expr::Call { callee: Box::new(callee), paren, arguments })
    }

    fn primary(&mut self) -> (r: Result<Expr, String>)
        requires
            old(self).inv(),
        ensures
            final(self).inv(),
            final(self).tokens == old(self).tokens,
            agrees(
                grammar::primary(old(self).stream(), old(self).current as int),
                r,
                old(self).current as int,
                final(self).current as int,
            ),
        decreases old(self).tokens.len() - old(self).current, 0nat,
    {
        let token = self.peek().clone();
        match token.token_type {
            TokenType::False => {
                self.advance();
                Ok(Expr::Literal(Literal::Boolean(false)))
            },
            TokenType::True => {
                self.advance();
                Ok(Expr::Literal(Literal::Boolean(true)))
            },
            TokenType::Nil => {
                self.advance();
                Ok(Expr::Literal(Literal::Nil))
            },
            TokenType::Number(number) => {
                self.advance();
                Ok(Expr::Literal(Literal::Number(number)))
            },
            TokenType::String(string) => {
                self.advance();
                Ok(Expr::Literal(Literal::String(string)))
            },
            TokenType::Identifier(_) => {
                let name = self.advance();
                Ok(Expr::Variable(name))
            },
            TokenType::LeftParen => {
                self.advance();
                let expr = match self.expression() {
                    Ok(e) => e,
                    Err(message) => {
                        return Err(message);
                    },
                };
                match self.consume(TokenType::RightParen, "Expect ')' after expression.") {
                    Ok(_) => {},
                    Err(message) => {
                        return Err(message);
                    },
                }
                Ok(Expr::Grouping(Box::new(expr)))
            },
            _ => Err(error(&token, "Expect expression.")),
        }
    }

    /// Passes over the current token and then over every token up to the
    /// next position at which a statement may begin, so that parsing can be
    /// taken up again after a syntax error.
    pub fn synchronize(&mut self)
        requires
            old(self).inv(),
            old(self).position() >= 1 || !grammar::at_end(old(self).stream(), old(self).position()),
        ensures
            final(self).inv(),
            final(self).stream() == old(self).stream(),
            final(self).position() == grammar::synchronized(
                old(self).stream(),
                old(self).position(),
            ),
    {
        let ghost ts = self.stream();
        let ghost goal = grammar::synchronized(ts, self.current as int);
        self.advance();
        while !self.is_at_end()
            invariant
                self.inv(),
                self.tokens == old(self).tokens,
                ts == self.stream(),
                self.current >= 1,
                goal == grammar::synchronized(old(self).stream(), old(self).position()),
                grammar::boundary(ts, self.current as int) == goal,
            decreases self.tokens.len() - self.current,
        {
            if self.previous().token_type.same_variant(&TokenType::Semicolon) {
                return ;
            }
            match self.peek().token_type {
                TokenType::Class
                | TokenType::Fun
                | TokenType::Var
                | TokenType::For
                | TokenType::If
                | TokenType::While
                | TokenType::Print
                | TokenType::Return => {
                    return ;
                },
                _ => {
                    self.advance();
                },
            }
        }
    }

    /// Consumes the next token if it is of the given variant.
    fn match_token(&mut self, token_type: TokenType) -> (r: bool)
        requires
            old(self).inv(),
        ensures
            final(self).inv(),
            final(self).tokens == old(self).tokens,
            r == grammar::check(old(self).stream(), old(self).current as int, token_type@),
            final(self).current == if r {
                old(self).current + 1
            } else {
                old(self).current as int
            },
    {
        if self.check(token_type) {
            self.advance();
            return true;
        }
        false
    }

    /// Consumes the next token if it is of the given variant; reports
    /// `message` at the offending token otherwise.
    fn consume(&mut self, token_type: TokenType, message: &str) -> (r: Result<Token, String>)
        requires
            old(self).inv(),
        ensures
            final(self).inv(),
            final(self).tokens == old(self).tokens,
            match grammar::expect(
                old(self).stream(),
                old(self).current as int,
                token_type@,
                message@,
            ) {
                Ok(token) => r matches Ok(found) && found@ == token && final(self).current == old(
                    self,
                ).current + 1,
                Err(text) => r matches Err(found) && found@ == text && final(self).current == old(
                    self,
                ).current,
            },
    {
        if self.check(token_type) {
            return Ok(self.advance());
        }
        Err(error(self.peek(), message))
    }

    fn check(&self, token_type: TokenType) -> (r: bool)
        requires
            self.inv(),
        ensures
            r == grammar::check(self.stream(), self.current as int, token_type@),
    {
        if self.is_at_end() {
            return false;
        }
        self.peek().token_type.same_variant(&token_type)
    }

    /// Moves past the current token, unless it is the end-of-input token,
    /// and returns the token before the cursor.
    fn advance(&mut self) -> (r: Token)
        requires
            old(self).inv(),
            old(self).current >= 1 || !grammar::at_end(old(self).stream(), old(self).current as int),
        ensures
            final(self).inv(),
            final(self).tokens == old(self).tokens,
            final(self).current == if grammar::at_end(old(self).stream(), old(self).current as int) {
                old(self).current as int
            } else {
                old(self).current + 1
            },
            r@ == grammar::token_at(old(self).stream(), final(self).current - 1),
    {
        if !self.is_at_end() {
            self.current += 1;
        }
        self.previous().clone()
    }

    fn is_at_end(&self) -> (r: bool)
        requires
            self.inv(),
        ensures
            r == grammar::at_end(self.stream(), self.current as int),
    {
        self.peek().token_type.is_eof()
    }

    fn peek(&self) -> (r: &Token)
        requires
            self.inv(),
        ensures
            r@ == grammar::token_at(self.stream(), self.current as int),
            r == self.tokens@[self.current as int],
    {
        &self.tokens[self.current]
    }

    fn previous(&self) -> (r: &Token)
        requires
            self.inv(),
            self.current >= 1,
        ensures
            r@ == grammar::token_at(self.stream(), self.current - 1),
    {
        &self.tokens[self.current - 1]
    }
}

/// Rewrites the parts of a for statement into a while loop inside a block,
/// with the body and the increment in a block of their own.
fn desugar_for(initializer: Option<Stmt>, condition: Option<Expr>, increment: Option<Expr>, body: Stmt) -> (r: Stmt)
    ensures
        r@ == grammar::desugared_for(
            optional_stmt(initializer),
            crate::syntax::optional_expr(condition),
            crate::syntax::optional_expr(increment),
            body@,
        ),
{
    let inner = match increment {
        Some(increment) => {
            let list = vec![body, Stmt::Expression(increment)];
            assert(Stmt::models(list@) =~= seq![body@, StmtView::Expression(increment@)]);
            list
        },
        None => {
            let list = vec![body];
            assert(Stmt::models(list@) =~= seq![body@]);
            list
        },
    };
    let condition = match condition {
        Some(condition) => condition,
        None => Expr::Literal(Literal::Boolean(true)),
    };
    let stepped = Stmt::Block(inner);
    assert(stepped@ == StmtView::Block(Stmt::models(inner@)));
    let repeat = Stmt::While { condition, body: Box::new(stepped) };
    assert(repeat@ == (StmtView::While { condition: condition@, body: Box::new(stepped@) }));
    let outer = match initializer {
        Some(initializer) => {
            let list = vec![initializer, repeat];
            assert(Stmt::models(list@) =~= seq![initializer@, repeat@]);
            list
        },
        None => {
            let list = vec![repeat];
            assert(Stmt::models(list@) =~= seq![repeat@]);
            list
        },
    };
    Stmt::Block(outer)
}

} // verus!
