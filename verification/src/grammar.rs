//! The grammar, as functions from a token sequence and a position to what
//! is parsed there.
//!
//! ```text
//! program      → declaration* EOF
//! declaration  → funDecl | varDecl | statement
//! funDecl      → "fun" function
//! function     → IDENT "(" params? ")" block
//! params       → IDENT ("," IDENT)*
//! varDecl      → "var" IDENT ( "=" expression )? ";"
//! statement    → exprStmt | forStmt | ifStmt | printStmt
//!              | returnStmt | whileStmt | block
//! block        → "{" declaration* "}"
//! forStmt      → "for" "(" ( varDecl | exprStmt | ";" )
//!                       expression? ";" expression? ")" statement
//! ifStmt       → "if" "(" expression ")" statement ( "else" statement )?
//! printStmt    → "print" expression ";"
//! returnStmt   → "return" expression? ";"
//! whileStmt    → "while" "(" expression ")" statement
//! exprStmt     → expression ";"
//! expression   → assignment
//! assignment   → IDENT "=" assignment | logic_or
//! logic_or     → logic_and ( "or"  logic_and )*
//! logic_and    → equality  ( "and" equality  )*
//! equality     → comparison ( ( "!=" | "==" ) comparison )*
//! comparison   → term ( ( ">" | ">=" | "<" | "<=" ) term )*
//! term         → factor ( ( "-" | "+" ) factor )*
//! factor       → unary ( ( "/" | "*" ) unary )*
//! unary        → ( "!" | "-" ) unary | call
//! call         → primary ( "(" arguments? ")" )*
//! arguments    → expression ("," expression)*
//! primary      → "true" | "false" | "nil" | NUMBER | STRING
//!              | IDENT | "(" expression ")"
//! ```
//!
//! Each function returns the syntax tree together with the number of tokens
//! it spans, or the message of the first syntax error. The second component
//! of every `decreases` clause ranks the functions that call one another at
//! the same position.

use vstd::prelude::*;
use crate::syntax::{BinaryOperator, ExprView, LiteralView, LogicalOperator, StmtView, UnaryOperator};
use crate::token::{TokenTypeView, TokenView};

verus! {

/// A parsed value and the number of tokens it spans.
pub struct Parsed<T> {
    pub value: T,
    pub consumed: nat,
}

/// What parsing yields: a value with its span, or an error message.
pub type Outcome<T> = Result<Parsed<T>, Seq<char>>;

/// A successful outcome.
pub open spec fn done<T>(value: T, consumed: nat) -> Outcome<T> {
    Ok(Parsed { value, consumed })
}

/// An outcome whose span is extended by the `by` tokens that came before it.
pub open spec fn shifted<T>(outcome: Outcome<T>, by: nat) -> Outcome<T> {
    match outcome {
        Ok(parsed) => Ok(Parsed { value: parsed.value, consumed: parsed.consumed + by }),
        Err(message) => Err(message),
    }
}

/// The token at `pos`; past either end of the sequence, an end-of-input token.
pub open spec fn token_at(tokens: Seq<TokenView>, pos: int) -> TokenView {
    if 0 <= pos < tokens.len() {
        tokens[pos]
    } else {
        TokenView { token_type: TokenTypeView::Eof, lexeme: Seq::empty(), line: 0 }
    }
}

/// The number of tokens from `pos` to the end of the sequence.
pub open spec fn remaining(tokens: Seq<TokenView>, pos: int) -> nat {
    if pos < tokens.len() {
        (tokens.len() - pos) as nat
    } else {
        0
    }
}

/// Whether the token at `pos` is the end-of-input token.
pub open spec fn at_end(tokens: Seq<TokenView>, pos: int) -> bool {
    token_at(tokens, pos).token_type is Eof
}

/// Whether the token at `pos` is of the same variant as `kind`. The
/// end-of-input token matches nothing.
pub open spec fn check(tokens: Seq<TokenView>, pos: int, kind: TokenTypeView) -> bool {
    !at_end(tokens, pos) && token_at(tokens, pos).token_type.same_variant(kind)
}

/// A syntax error message: what was expected, and at which token.
pub open spec fn error_message(token: TokenView, message: Seq<char>) -> Seq<char> {
    if token.token_type is Eof {
        message + " at end"@
    } else {
        message + " at '"@ + token.lexeme + "'"@
    }
}

/// The token at `pos` if it is of the given variant, or else the error
/// message that names the offending token.
pub open spec fn expect(tokens: Seq<TokenView>, pos: int, kind: TokenTypeView, message: Seq<char>) -> Result<
    TokenView,
    Seq<char>,
> {
    if check(tokens, pos, kind) {
        Ok(token_at(tokens, pos))
    } else {
        Err(error_message(token_at(tokens, pos), message))
    }
}

/// The variant of identifier tokens, whatever their text.
pub open spec fn identifier() -> TokenTypeView {
    TokenTypeView::Identifier(Seq::empty())
}

/// The most arguments a call, or parameters a function, may have.
pub open spec fn max_arity() -> nat {
    255
}

/// An infix operator: one of the short-circuiting ones, or one of
/// arithmetic, comparison and equality.
pub enum Infix {
    Logical(LogicalOperator),
    Binary(BinaryOperator),
}

/// The infix operator that a token of the given type denotes at a precedence
/// level, if any. There are six levels: level 0 binds loosest (`or`), level 5
/// tightest (`/` and `*`).
pub open spec fn infix_at(kind: TokenTypeView, level: nat) -> Option<Infix> {
    if level == 0 {
        match kind {
            TokenTypeView::Or => Some(Infix::Logical(LogicalOperator::Or)),
            _ => None,
        }
    } else if level == 1 {
        match kind {
            TokenTypeView::And => Some(Infix::Logical(LogicalOperator::And)),
            _ => None,
        }
    } else if level == 2 {
        match kind {
            TokenTypeView::BangEqual => Some(Infix::Binary(BinaryOperator::NotEqual)),
            TokenTypeView::EqualEqual => Some(Infix::Binary(BinaryOperator::Equal)),
            _ => None,
        }
    } else if level == 3 {
        match kind {
            TokenTypeView::Greater => Some(Infix::Binary(BinaryOperator::Greater)),
            TokenTypeView::GreaterEqual => Some(Infix::Binary(BinaryOperator::GreaterEqual)),
            TokenTypeView::Less => Some(Infix::Binary(BinaryOperator::Less)),
            TokenTypeView::LessEqual => Some(Infix::Binary(BinaryOperator::LessEqual)),
            _ => None,
        }
    } else if level == 4 {
        match kind {
            TokenTypeView::Minus => Some(Infix::Binary(BinaryOperator::Subtract)),
            TokenTypeView::Plus => Some(Infix::Binary(BinaryOperator::Add)),
            _ => None,
        }
    } else if level == 5 {
        match kind {
            TokenTypeView::Slash => Some(Infix::Binary(BinaryOperator::Divide)),
            TokenTypeView::Star => Some(Infix::Binary(BinaryOperator::Multiply)),
            _ => None,
        }
    } else {
        None
    }
}

/// The expression that applies an infix operator to two operands.
pub open spec fn combine(operator: Infix, left: ExprView, right: ExprView) -> ExprView {
    match operator {
        Infix::Logical(operator) => ExprView::Logical {
            left: Box::new(left),
            operator,
            right: Box::new(right),
        },
        Infix::Binary(operator) => ExprView::Binary {
            left: Box::new(left),
            operator,
            right: Box::new(right),
        },
    }
}

/// The prefix operator that a token of the given type denotes, if any.
pub open spec fn prefix_of(kind: TokenTypeView) -> Option<UnaryOperator> {
    match kind {
        TokenTypeView::Bang => Some(UnaryOperator::Not),
        TokenTypeView::Minus => Some(UnaryOperator::Negate),
        _ => None,
    }
}

/// The rank of `binary` at a precedence level among the functions that call
/// one another at the same position.
pub open spec fn binary_rank(level: nat) -> nat {
    if level < 5 {
        (21 - 2 * level) as nat
    } else {
        11
    }
}

/// `primary → "true" | "false" | "nil" | NUMBER | STRING | IDENT | "(" expression ")"`
pub open spec fn primary(tokens: Seq<TokenView>, pos: int) -> Outcome<ExprView>
    decreases remaining(tokens, pos), 0nat,
{
    match token_at(tokens, pos).token_type {
        TokenTypeView::False => done(ExprView::Literal(LiteralView::Boolean(false)), 1),
        TokenTypeView::True => done(ExprView::Literal(LiteralView::Boolean(true)), 1),
        TokenTypeView::Nil => done(ExprView::Literal(LiteralView::Nil), 1),
        TokenTypeView::Number(digits) => done(ExprView::Literal(LiteralView::Number(digits)), 1),
        TokenTypeView::String(text) => done(ExprView::Literal(LiteralView::String(text)), 1),
        TokenTypeView::Identifier(_) => done(ExprView::Variable(token_at(tokens, pos)), 1),
        TokenTypeView::LeftParen => match expression(tokens, pos + 1) {
            Ok(inner) => match expect(
                tokens,
                pos + 1 + inner.consumed,
                TokenTypeView::RightParen,
                "Expect ')' after expression."@,
            ) {
                Ok(_) => done(ExprView::Grouping(Box::new(inner.value)), inner.consumed + 2),
                Err(message) => Err(message),
            },
            Err(message) => Err(message),
        },
        _ => Err(error_message(token_at(tokens, pos), "Expect expression."@)),
    }
}

/// `arguments → expression ("," expression)*`, at most 255 of them; `found`
/// holds the arguments already parsed.
pub open spec fn arguments(tokens: Seq<TokenView>, pos: int, found: Seq<ExprView>) -> Outcome<
    Seq<ExprView>,
>
    decreases remaining(tokens, pos), 24nat,
{
    if found.len() >= max_arity() {
        Err(error_message(token_at(tokens, pos), "Can't have more than 255 arguments."@))
    } else {
        match expression(tokens, pos) {
            Ok(argument) => if check(tokens, pos + argument.consumed, TokenTypeView::Comma) {
                shifted(
                    arguments(tokens, pos + argument.consumed + 1, found.push(argument.value)),
                    argument.consumed + 1,
                )
            } else {
                done(found.push(argument.value), argument.consumed)
            },
            Err(message) => Err(message),
        }
    }
}

/// The rest of a call after its opening parenthesis: `arguments? ")"`.
pub open spec fn finish_call(tokens: Seq<TokenView>, pos: int, callee: ExprView) -> Outcome<ExprView>
    decreases remaining(tokens, pos), 25nat,
{
    if check(tokens, pos, TokenTypeView::RightParen) {
        done(
            ExprView::Call {
                callee: Box::new(callee),
                paren: token_at(tokens, pos),
                arguments: Seq::empty(),
            },
            1,
        )
    } else {
        match arguments(tokens, pos, Seq::empty()) {
            Ok(list) => match expect(
                tokens,
                pos + list.consumed,
                TokenTypeView::RightParen,
                "Expect ')' after arguments."@,
            ) {
                Ok(paren) => done(
                    ExprView::Call { callee: Box::new(callee), paren, arguments: list.value },
                    list.consumed + 1,
                ),
                Err(message) => Err(message),
            },
            Err(message) => Err(message),
        }
    }
}

/// The calls that follow a callee: `( "(" arguments? ")" )*`.
pub open spec fn call_rest(tokens: Seq<TokenView>, pos: int, callee: ExprView) -> Outcome<ExprView>
    decreases remaining(tokens, pos), 1nat,
{
    if check(tokens, pos, TokenTypeView::LeftParen) {
        match finish_call(tokens, pos + 1, callee) {
            Ok(call) => shifted(
                call_rest(tokens, pos + 1 + call.consumed, call.value),
                call.consumed + 1,
            ),
            Err(message) => Err(message),
        }
    } else {
        done(callee, 0)
    }
}

/// `call → primary ( "(" arguments? ")" )*`
pub open spec fn call(tokens: Seq<TokenView>, pos: int) -> Outcome<ExprView>
    decreases remaining(tokens, pos), 8nat,
{
    match primary(tokens, pos) {
        Ok(callee) => shifted(
            call_rest(tokens, pos + callee.consumed, callee.value),
            callee.consumed,
        ),
        Err(message) => Err(message),
    }
}

/// `unary → ( "!" | "-" ) unary | call`
pub open spec fn unary(tokens: Seq<TokenView>, pos: int) -> Outcome<ExprView>
    decreases remaining(tokens, pos), 9nat,
{
    match prefix_of(token_at(tokens, pos).token_type) {
        Some(operator) => match unary(tokens, pos + 1) {
            Ok(right) => done(
                ExprView::Unary { operator, right: Box::new(right.value) },
                right.consumed + 1,
            ),
            Err(message) => Err(message),
        },
        None => call(tokens, pos),
    }
}

/// An operand of the infix operators of a precedence level: an expression
/// of the next tighter level, or a unary expression at the tightest.
pub open spec fn operand(tokens: Seq<TokenView>, pos: int, level: nat) -> Outcome<ExprView>
    decreases remaining(tokens, pos), (binary_rank(level) - 1) as nat,
{
    if level < 5 {
        binary(tokens, pos, level + 1)
    } else {
        unary(tokens, pos)
    }
}

/// The operators and operands that follow the left operand `left` at a
/// precedence level; the operators associate to the left.
pub open spec fn binary_rest(tokens: Seq<TokenView>, pos: int, level: nat, left: ExprView) -> Outcome<
    ExprView,
>
    decreases remaining(tokens, pos), 2nat,
{
    match infix_at(token_at(tokens, pos).token_type, level) {
        Some(operator) => match operand(tokens, pos + 1, level) {
            Ok(right) => shifted(
                binary_rest(
                    tokens,
                    pos + 1 + right.consumed,
                    level,
                    combine(operator, left, right.value),
                ),
                right.consumed + 1,
            ),
            Err(message) => Err(message),
        },
        None => done(left, 0),
    }
}

/// The expressions of one precedence level: `logic_or`, `logic_and`,
/// `equality`, `comparison`, `term` and `factor` are levels 0 to 5.
pub open spec fn binary(tokens: Seq<TokenView>, pos: int, level: nat) -> Outcome<ExprView>
    decreases remaining(tokens, pos), binary_rank(level),
{
    match operand(tokens, pos, level) {
        Ok(left) => shifted(
            binary_rest(tokens, pos + left.consumed, level, left.value),
            left.consumed,
        ),
        Err(message) => Err(message),
    }
}

/// `assignment → IDENT "=" assignment | logic_or`. The left-hand side is
/// parsed as an expression first; if `=` follows, the right-hand side is
/// parsed, and then the left-hand side must have been a variable.
pub open spec fn assignment(tokens: Seq<TokenView>, pos: int) -> Outcome<ExprView>
    decreases remaining(tokens, pos), 22nat,
{
    match binary(tokens, pos, 0) {
        Ok(target) => if check(tokens, pos + target.consumed, TokenTypeView::Equal) {
            match assignment(tokens, pos + target.consumed + 1) {
                Ok(value) => match target.value {
                    ExprView::Variable(name) => done(
                        ExprView::Assign { name, value: Box::new(value.value) },
                        target.consumed + 1 + value.consumed,
                    ),
                    _ => Err(
                        error_message(
                            token_at(tokens, pos + target.consumed),
                            "Invalid assignment target."@,
                        ),
                    ),
                },
                Err(message) => Err(message),
            }
        } else {
            Ok(target)
        },
        Err(message) => Err(message),
    }
}

/// `expression → assignment`
pub open spec fn expression(tokens: Seq<TokenView>, pos: int) -> Outcome<ExprView>
    decreases remaining(tokens, pos), 23nat,
{
    assignment(tokens, pos)
}

/// An expression, unless the token at `pos` is of the variant `closing`.
pub open spec fn optional_expression(tokens: Seq<TokenView>, pos: int, closing: TokenTypeView) -> Outcome<
    Option<ExprView>,
>
    decreases remaining(tokens, pos), 24nat,
{
    if check(tokens, pos, closing) {
        done(None, 0)
    } else {
        match expression(tokens, pos) {
            Ok(e) => done(Some(e.value), e.consumed),
            Err(message) => Err(message),
        }
    }
}

/// `exprStmt → expression ";"`
pub open spec fn expression_statement(tokens: Seq<TokenView>, pos: int) -> Outcome<StmtView>
    decreases remaining(tokens, pos), 24nat,
{
    match expression(tokens, pos) {
        Ok(e) => match expect(
            tokens,
            pos + e.consumed,
            TokenTypeView::Semicolon,
            "Expect ';' after expression."@,
        ) {
            Ok(_) => done(StmtView::Expression(e.value), e.consumed + 1),
            Err(message) => Err(message),
        },
        Err(message) => Err(message),
    }
}

/// The rest of a print statement after `print`: `expression ";"`.
pub open spec fn print_statement(tokens: Seq<TokenView>, pos: int) -> Outcome<StmtView>
    decreases remaining(tokens, pos), 24nat,
{
    match expression(tokens, pos) {
        Ok(e) => match expect(
            tokens,
            pos + e.consumed,
            TokenTypeView::Semicolon,
            "Expect ';' after value."@,
        ) {
            Ok(_) => done(StmtView::Print(e.value), e.consumed + 1),
            Err(message) => Err(message),
        },
        Err(message) => Err(message),
    }
}

/// The rest of a return statement after `return`: `expression? ";"`.
pub open spec fn return_statement(tokens: Seq<TokenView>, pos: int) -> Outcome<StmtView>
    decreases remaining(tokens, pos), 25nat,
{
    match optional_expression(tokens, pos, TokenTypeView::Semicolon) {
        Ok(value) => match expect(
            tokens,
            pos + value.consumed,
            TokenTypeView::Semicolon,
            "Expect ';' after return value."@,
        ) {
            Ok(_) => done(
                StmtView::Return { keyword: token_at(tokens, pos - 1), value: value.value },
                value.consumed + 1,
            ),
            Err(message) => Err(message),
        },
        Err(message) => Err(message),
    }
}

/// The rest of a variable declaration after `var`:
/// `IDENT ( "=" expression )? ";"`.
pub open spec fn var_declaration(tokens: Seq<TokenView>, pos: int) -> Outcome<StmtView>
    decreases remaining(tokens, pos), 0nat,
{
    match expect(tokens, pos, identifier(), "Expect variable name."@) {
        Ok(name) => {
            let initializer = if check(tokens, pos + 1, TokenTypeView::Equal) {
                match expression(tokens, pos + 2) {
                    Ok(e) => done(Some(e.value), e.consumed + 1),
                    Err(message) => Err(message),
                }
            } else {
                done(None, 0)
            };
            match initializer {
                Ok(initializer) => match expect(
                    tokens,
                    pos + 1 + initializer.consumed,
                    TokenTypeView::Semicolon,
                    "Expect ';' after variable declaration."@,
                ) {
                    Ok(_) => done(
                        StmtView::Var { name, initializer: initializer.value },
                        initializer.consumed + 2,
                    ),
                    Err(message) => Err(message),
                },
                Err(message) => Err(message),
            }
        },
        Err(message) => Err(message),
    }
}

/// The rest of a while statement after `while`:
/// `"(" expression ")" statement`.
pub open spec fn while_statement(tokens: Seq<TokenView>, pos: int) -> Outcome<StmtView>
    decreases remaining(tokens, pos), 0nat,
{
    match expect(tokens, pos, TokenTypeView::LeftParen, "Expect '(' after 'while'."@) {
        Ok(_) => match expression(tokens, pos + 1) {
            Ok(condition) => match expect(
                tokens,
                pos + 1 + condition.consumed,
                TokenTypeView::RightParen,
                "Expect ')' after condition."@,
            ) {
                Ok(_) => match statement(tokens, pos + condition.consumed + 2) {
                    Ok(body) => done(
                        StmtView::While { condition: condition.value, body: Box::new(body.value) },
                        condition.consumed + 2 + body.consumed,
                    ),
                    Err(message) => Err(message),
                },
                Err(message) => Err(message),
            },
            Err(message) => Err(message),
        },
        Err(message) => Err(message),
    }
}

/// The rest of an if statement after `if`:
/// `"(" expression ")" statement ( "else" statement )?`.
pub open spec fn if_statement(tokens: Seq<TokenView>, pos: int) -> Outcome<StmtView>
    decreases remaining(tokens, pos), 0nat,
{
    match expect(tokens, pos, TokenTypeView::LeftParen, "Expect '(' after 'if'."@) {
        Ok(_) => match expression(tokens, pos + 1) {
            Ok(condition) => match expect(
                tokens,
                pos + 1 + condition.consumed,
                TokenTypeView::RightParen,
                "Expect ')' after if condition."@,
            ) {
                Ok(_) => match statement(tokens, pos + condition.consumed + 2) {
                    Ok(then_branch) => {
                        let next = pos + condition.consumed + 2 + then_branch.consumed;
                        if check(tokens, next, TokenTypeView::Else) {
                            match statement(tokens, next + 1) {
                                Ok(else_branch) => done(
                                    StmtView::If {
                                        condition: condition.value,
                                        then_branch: Box::new(then_branch.value),
                                        else_branch: Some(Box::new(else_branch.value)),
                                    },
                                    condition.consumed + 2 + then_branch.consumed + 1
                                        + else_branch.consumed,
                                ),
                                Err(message) => Err(message),
                            }
                        } else {
                            done(
                                StmtView::If {
                                    condition: condition.value,
                                    then_branch: Box::new(then_branch.value),
                                    else_branch: None,
                                },
                                condition.consumed + 2 + then_branch.consumed,
                            )
                        }
                    },
                    Err(message) => Err(message),
                },
                Err(message) => Err(message),
            },
            Err(message) => Err(message),
        },
        Err(message) => Err(message),
    }
}

/// The first clause of a for statement: `varDecl | exprStmt | ";"`.
pub open spec fn for_initializer(tokens: Seq<TokenView>, pos: int) -> Outcome<Option<StmtView>>
    decreases remaining(tokens, pos), 25nat,
{
    if check(tokens, pos, TokenTypeView::Semicolon) {
        done(None, 1)
    } else if check(tokens, pos, TokenTypeView::Var) {
        match var_declaration(tokens, pos + 1) {
            Ok(declaration) => done(Some(declaration.value), declaration.consumed + 1),
            Err(message) => Err(message),
        }
    } else {
        match expression_statement(tokens, pos) {
            Ok(statement) => done(Some(statement.value), statement.consumed),
            Err(message) => Err(message),
        }
    }
}

/// What a for statement stands for:
///
/// ```text
/// Block[ initializer?,
///        While(condition or true,
///              Block[ body, Expression(increment)? ]) ]
/// ```
///
/// A clause that is absent leaves its element out; the two blocks are there
/// whatever clauses are.
pub open spec fn desugared_for(
    initializer: Option<StmtView>,
    condition: Option<ExprView>,
    increment: Option<ExprView>,
    body: StmtView,
) -> StmtView {
    let inner = match increment {
        Some(increment) => seq![body, StmtView::Expression(increment)],
        None => seq![body],
    };
    let condition = match condition {
        Some(condition) => condition,
        None => ExprView::Literal(LiteralView::Boolean(true)),
    };
    let repeat = StmtView::While { condition, body: Box::new(StmtView::Block(inner)) };
    StmtView::Block(
        match initializer {
            Some(initializer) => seq![initializer, repeat],
            None => seq![repeat],
        },
    )
}

/// The rest of a for statement after `for`:
/// `"(" ( varDecl | exprStmt | ";" ) expression? ";" expression? ")" statement`.
pub open spec fn for_statement(tokens: Seq<TokenView>, pos: int) -> Outcome<StmtView>
    decreases remaining(tokens, pos), 0nat,
{
    match expect(tokens, pos, TokenTypeView::LeftParen, "Expect '(' after 'for'."@) {
        Ok(_) => match for_initializer(tokens, pos + 1) {
            Ok(initializer) => {
                let at_condition = pos + 1 + initializer.consumed;
                match optional_expression(tokens, at_condition, TokenTypeView::Semicolon) {
                    Ok(condition) => match expect(
                        tokens,
                        at_condition + condition.consumed,
                        TokenTypeView::Semicolon,
                        "Expect ';' after loop condition."@,
                    ) {
                        Ok(_) => {
                            let at_increment = at_condition + condition.consumed + 1;
                            match optional_expression(
                                tokens,
                                at_increment,
                                TokenTypeView::RightParen,
                            ) {
                                Ok(increment) => match expect(
                                    tokens,
                                    at_increment + increment.consumed,
                                    TokenTypeView::RightParen,
                                    "Expect ')' after for clauses."@,
                                ) {
                                    Ok(_) => match statement(
                                        tokens,
                                        at_increment + increment.consumed + 1,
                                    ) {
                                        Ok(body) => done(
                                            desugared_for(
                                                initializer.value,
                                                condition.value,
                                                increment.value,
                                                body.value,
                                            ),
                                            1 + initializer.consumed + condition.consumed + 1
                                                + increment.consumed + 1 + body.consumed,
                                        ),
                                        Err(message) => Err(message),
                                    },
                                    Err(message) => Err(message),
                                },
                                Err(message) => Err(message),
                            }
                        },
                        Err(message) => Err(message),
                    },
                    Err(message) => Err(message),
                }
            },
            Err(message) => Err(message),
        },
        Err(message) => Err(message),
    }
}

/// The number of tokens to move on by after a declaration that spans
/// `consumed` tokens. A declaration always spans at least one token
/// ([`lemma_declaration_consumes`]); the bound makes that evident where the
/// declarations of a block or a program are defined.
pub open spec fn stride(consumed: nat) -> nat {
    if consumed > 0 {
        consumed
    } else {
        1
    }
}

/// The rest of a block after its opening brace: `declaration* "}"`; `found`
/// holds the declarations already parsed.
pub open spec fn block(tokens: Seq<TokenView>, pos: int, found: Seq<StmtView>) -> Outcome<
    Seq<StmtView>,
>
    decreases remaining(tokens, pos), 28nat,
{
    if !check(tokens, pos, TokenTypeView::RightBrace) && !at_end(tokens, pos) {
        match declaration(tokens, pos) {
            Ok(item) => shifted(
                block(tokens, pos + stride(item.consumed), found.push(item.value)),
                stride(item.consumed),
            ),
            Err(message) => Err(message),
        }
    } else {
        match expect(tokens, pos, TokenTypeView::RightBrace, "Expect '}' after block."@) {
            Ok(_) => done(found, 1),
            Err(message) => Err(message),
        }
    }
}

/// `params → IDENT ("," IDENT)*`, at most 255 of them; `found` holds the
/// parameters already parsed.
pub open spec fn parameters(tokens: Seq<TokenView>, pos: int, found: Seq<TokenView>) -> Outcome<
    Seq<TokenView>,
>
    decreases remaining(tokens, pos), 0nat,
{
    if found.len() >= max_arity() {
        Err(error_message(token_at(tokens, pos), "Can't have more than 255 parameters."@))
    } else {
        match expect(tokens, pos, identifier(), "Expect parameter name."@) {
            Ok(name) => if check(tokens, pos + 1, TokenTypeView::Comma) {
                shifted(parameters(tokens, pos + 2, found.push(name)), 2)
            } else {
                done(found.push(name), 1)
            },
            Err(message) => Err(message),
        }
    }
}

/// The parameter list of a function between its parentheses: `params?`.
pub open spec fn parameter_list(tokens: Seq<TokenView>, pos: int) -> Outcome<Seq<TokenView>> {
    if check(tokens, pos, TokenTypeView::RightParen) {
        done(Seq::empty(), 0)
    } else {
        parameters(tokens, pos, Seq::empty())
    }
}

/// `function → IDENT "(" params? ")" block`, where `kind` names what is being
/// declared in the error messages.
pub open spec fn function(tokens: Seq<TokenView>, pos: int, kind: Seq<char>) -> Outcome<StmtView>
    decreases remaining(tokens, pos), 0nat,
{
    match expect(tokens, pos, identifier(), "Expect "@ + kind + " name."@) {
        Ok(name) => match expect(
            tokens,
            pos + 1,
            TokenTypeView::LeftParen,
            "Expect '(' after "@ + kind + " name."@,
        ) {
            Ok(_) => match parameter_list(tokens, pos + 2) {
                Ok(list) => match expect(
                    tokens,
                    pos + 2 + list.consumed,
                    TokenTypeView::RightParen,
                    "Expect ')' after parameters."@,
                ) {
                    Ok(_) => match expect(
                        tokens,
                        pos + 3 + list.consumed,
                        TokenTypeView::LeftBrace,
                        "Expect '{' before "@ + kind + " body."@,
                    ) {
                        Ok(_) => match block(tokens, pos + 4 + list.consumed, Seq::empty()) {
                            Ok(body) => done(
                                StmtView::Function {
                                    name,
                                    parameters: list.value,
                                    body: body.value,
                                },
                                4 + list.consumed + body.consumed,
                            ),
                            Err(message) => Err(message),
                        },
                        Err(message) => Err(message),
                    },
                    Err(message) => Err(message),
                },
                Err(message) => Err(message),
            },
            Err(message) => Err(message),
        },
        Err(message) => Err(message),
    }
}

/// `statement → exprStmt | forStmt | ifStmt | printStmt | returnStmt | whileStmt | block`
pub open spec fn statement(tokens: Seq<TokenView>, pos: int) -> Outcome<StmtView>
    decreases remaining(tokens, pos), 26nat,
{
    if check(tokens, pos, TokenTypeView::For) {
        shifted(for_statement(tokens, pos + 1), 1)
    } else if check(tokens, pos, TokenTypeView::If) {
        shifted(if_statement(tokens, pos + 1), 1)
    } else if check(tokens, pos, TokenTypeView::Print) {
        shifted(print_statement(tokens, pos + 1), 1)
    } else if check(tokens, pos, TokenTypeView::Return) {
        shifted(return_statement(tokens, pos + 1), 1)
    } else if check(tokens, pos, TokenTypeView::While) {
        shifted(while_statement(tokens, pos + 1), 1)
    } else if check(tokens, pos, TokenTypeView::LeftBrace) {
        match block(tokens, pos + 1, Seq::empty()) {
            Ok(items) => done(StmtView::Block(items.value), items.consumed + 1),
            Err(message) => Err(message),
        }
    } else {
        expression_statement(tokens, pos)
    }
}

/// `declaration → funDecl | varDecl | statement`
pub open spec fn declaration(tokens: Seq<TokenView>, pos: int) -> Outcome<StmtView>
    decreases remaining(tokens, pos), 27nat,
{
    if check(tokens, pos, TokenTypeView::Fun) {
        shifted(function(tokens, pos + 1, "function"@), 1)
    } else if check(tokens, pos, TokenTypeView::Var) {
        shifted(var_declaration(tokens, pos + 1), 1)
    } else {
        statement(tokens, pos)
    }
}

/// `program → declaration* EOF`; `found` holds the declarations already
/// parsed.
pub open spec fn program(tokens: Seq<TokenView>, pos: int, found: Seq<StmtView>) -> Outcome<
    Seq<StmtView>,
>
    decreases remaining(tokens, pos), 28nat,
{
    if at_end(tokens, pos) {
        done(found, 0)
    } else {
        match declaration(tokens, pos) {
            Ok(item) => shifted(
                program(tokens, pos + stride(item.consumed), found.push(item.value)),
                stride(item.consumed),
            ),
            Err(message) => Err(message),
        }
    }
}

/// The statements of a whole token sequence, or the message of its first
/// syntax error.
pub open spec fn parse(tokens: Seq<TokenView>) -> Result<Seq<StmtView>, Seq<char>> {
    match program(tokens, 0, Seq::empty()) {
        Ok(parsed) => Ok(parsed.value),
        Err(message) => Err(message),
    }
}

/// Whether a token of the given type begins a declaration or a statement.
pub open spec fn begins_statement(kind: TokenTypeView) -> bool {
    kind is Class || kind is Fun || kind is Var || kind is For || kind is If || kind is While
        || kind is Print || kind is Return
}

/// The first position from `pos` on at which a statement may begin: the end
/// of input, a position just behind a semicolon, or one that holds a token
/// that begins a statement.
pub open spec fn boundary(tokens: Seq<TokenView>, pos: int) -> int
    decreases remaining(tokens, pos),
{
    if at_end(tokens, pos) || token_at(tokens, pos - 1).token_type is Semicolon
        || begins_statement(token_at(tokens, pos).token_type) {
        pos
    } else {
        boundary(tokens, pos + 1)
    }
}

/// Where parsing may be taken up again after a syntax error at `pos`: the
/// offending token is passed over, and then every token up to the next
/// position at which a statement may begin.
pub open spec fn synchronized(tokens: Seq<TokenView>, pos: int) -> int {
    if at_end(tokens, pos) {
        pos
    } else {
        boundary(tokens, pos + 1)
    }
}

/// A statement spans at least one token.
pub proof fn lemma_statement_consumes(tokens: Seq<TokenView>, pos: int)
    ensures
        statement(tokens, pos) matches Ok(parsed) ==> parsed.consumed > 0,
{
}

/// A declaration spans at least one token.
pub proof fn lemma_declaration_consumes(tokens: Seq<TokenView>, pos: int)
    ensures
        declaration(tokens, pos) matches Ok(parsed) ==> parsed.consumed > 0,
{
    lemma_statement_consumes(tokens, pos);
}

} // verus!
