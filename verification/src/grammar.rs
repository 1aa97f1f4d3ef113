//! The grammar: which statements a token stream consists of.
//!
//! ```text
//! program      := declaration*
//! declaration  := varDecl | funDecl | statement
//! varDecl      := ("var"|"let"|"const") IDENT ("=" expression)? ";"
//! funDecl      := "function" IDENT "(" params? ")" block
//! statement    := ifStmt | whileStmt | returnStmt | block | exprStmt
//! ifStmt       := "if" "(" expression ")" statement ("else" statement)?
//! whileStmt    := "while" "(" expression ")" statement
//! returnStmt   := "return" expression? ";"
//! block        := "{" declaration* "}"
//! exprStmt     := expression ";"
//! expression   := assignment
//! assignment   := IDENT "=" assignment | logicOr
//! logicOr      := logicAnd ( "or" logicAnd )*
//! logicAnd     := equality ( "and" equality )*
//! equality     := comparison ( ("!="|"==") comparison )*
//! comparison   := term ( ("<"|"<="|">"|">=") term )*
//! term         := factor ( ("+"|"-") factor )*
//! factor       := unary ( ("/"|"*") unary )*
//! unary        := ("!"|"-") unary | call
//! call         := primary ( "(" arguments? ")" )*
//! primary      := NUMBER | STRING | "true" | "false" | "null" | IDENT
//!               | "(" expression ")" | "function" "(" params? ")" block
//! ```
//!
//! Every rule is a function from the tokens and a position to the tree that
//! the rule reads there and the position after it, or to the error that ends
//! parsing. The executable parser is proved to compute exactly these
//! functions.

use crate::ast::{BinaryOp, ExprView, StmtView, UnaryOp};
use crate::error::ErrorView;
use crate::lexical::{TokenTypeView, TokenView};
use vstd::prelude::*;

verus! {

/// What a rule yields: a tree and the position after it, or an error.
pub type Parsed<T> = Result<(T, int), ErrorView>;

/// The most parameters that a function may have, and the most arguments
/// that a call may have.
pub const MAX_ARITY: usize = 255;

impl TokenTypeView {
    /// Whether two tokens are of the same kind, whatever text they carry.
    pub open spec fn same_kind(self, other: TokenTypeView) -> bool {
        match (self, other) {
            (TokenTypeView::Identifier(_), TokenTypeView::Identifier(_)) => true,
            (TokenTypeView::String(_), TokenTypeView::String(_)) => true,
            (TokenTypeView::Number(_), TokenTypeView::Number(_)) => true,
            _ => self == other,
        }
    }
}

/// A token stream that the parser accepts ends in the end-of-stream
/// sentinel.
pub open spec fn ends_in_sentinel(tokens: Seq<TokenView>) -> bool {
    tokens.len() > 0 && tokens.last().token_type is EOF
}

/// Whether the token at `pos` is the end of the stream.
pub open spec fn at_end(tokens: Seq<TokenView>, pos: int) -> bool {
    !(0 <= pos < tokens.len()) || tokens[pos].token_type is EOF
}

/// Whether the token at `pos` is of the kind of `expected`. The end of the
/// stream matches nothing.
pub open spec fn check(tokens: Seq<TokenView>, pos: int, expected: TokenTypeView) -> bool {
    !at_end(tokens, pos) && expected.same_kind(tokens[pos].token_type)
}

/// The error that reports `message` at the token at `pos`.
pub open spec fn error_at(tokens: Seq<TokenView>, pos: int, message: Seq<char>) -> ErrorView {
    ErrorView::ParserError { line: tokens[pos].line, column: tokens[pos].column, message }
}

/// Steps over the token at `pos` if it is of the kind of `expected`, and
/// fails with `message` otherwise.
pub open spec fn expect(
    tokens: Seq<TokenView>,
    pos: int,
    expected: TokenTypeView,
    message: Seq<char>,
) -> Result<int, ErrorView> {
    if check(tokens, pos, expected) {
        Ok(pos + 1)
    } else {
        Err(error_at(tokens, pos, message))
    }
}

/// The name that the token at `pos` carries, if it is an identifier.
pub open spec fn identifier_at(tokens: Seq<TokenView>, pos: int) -> Option<Seq<char>> {
    if 0 <= pos < tokens.len() {
        match tokens[pos].token_type {
            TokenTypeView::Identifier(name) => Some(name),
            _ => None,
        }
    } else {
        None
    }
}

/// `parsed`, as long as it ends at `from` or later and within the tokens.
/// The rules of the grammar only move forward, so that is always the case
/// (see `lemma_rules_move_forward`); the definitions below say so where one
/// rule continues after another, which is what makes them well-founded.
pub open spec fn onward<T>(tokens: Seq<TokenView>, from: int, parsed: Parsed<T>) -> Parsed<T> {
    match parsed {
        Ok((_, pos)) => if from <= pos < tokens.len() {
            parsed
        } else {
            Err(ErrorView::ParserError { line: 0, column: 0, message: Seq::empty() })
        },
        Err(_) => parsed,
    }
}

/// The levels of binary operators, from the loosest to the tightest.
#[derive(Clone, Copy)]
pub enum Level {
    Or,
    And,
    Equality,
    Comparison,
    Term,
    Factor,
}

impl Level {
    /// How loosely the operators of the level bind: the tightest level is 0.
    pub open spec fn rank(self) -> int {
        match self {
            Level::Or => 5,
            Level::And => 4,
            Level::Equality => 3,
            Level::Comparison => 2,
            Level::Term => 1,
            Level::Factor => 0,
        }
    }

    /// The next tighter level, if there is one. The operands of the
    /// tightest level are unary expressions.
    pub open spec fn tighter(self) -> Option<Level> {
        match self {
            Level::Or => Some(Level::And),
            Level::And => Some(Level::Equality),
            Level::Equality => Some(Level::Comparison),
            Level::Comparison => Some(Level::Term),
            Level::Term => Some(Level::Factor),
            Level::Factor => None,
        }
    }

    /// The operator of this level that `token` writes, if it writes one.
    pub open spec fn operator(self, token: TokenTypeView) -> Option<BinaryOp> {
        match (self, token) {
            (Level::Or, TokenTypeView::Or) => Some(BinaryOp::Or),
            (Level::And, TokenTypeView::And) => Some(BinaryOp::And),
            (Level::Equality, TokenTypeView::BangEqual) => Some(BinaryOp::NotEqual),
            (Level::Equality, TokenTypeView::EqualEqual) => Some(BinaryOp::Equal),
            (Level::Comparison, TokenTypeView::Greater) => Some(BinaryOp::Greater),
            (Level::Comparison, TokenTypeView::GreaterEqual) => Some(BinaryOp::GreaterEqual),
            (Level::Comparison, TokenTypeView::Less) => Some(BinaryOp::Less),
            (Level::Comparison, TokenTypeView::LessEqual) => Some(BinaryOp::LessEqual),
            (Level::Term, TokenTypeView::Minus) => Some(BinaryOp::Subtract),
            (Level::Term, TokenTypeView::Plus) => Some(BinaryOp::Add),
            (Level::Factor, TokenTypeView::Slash) => Some(BinaryOp::Divide),
            (Level::Factor, TokenTypeView::Star) => Some(BinaryOp::Multiply),
            _ => None,
        }
    }
}

/// The operator of `level` that stands at `pos`, if one does.
pub open spec fn operator_at(tokens: Seq<TokenView>, pos: int, level: Level) -> Option<BinaryOp> {
    if at_end(tokens, pos) {
        None
    } else {
        level.operator(tokens[pos].token_type)
    }
}

/// The prefix operator that stands at `pos`, if one does.
pub open spec fn prefix_at(tokens: Seq<TokenView>, pos: int) -> Option<UnaryOp> {
    if check(tokens, pos, TokenTypeView::Bang) {
        Some(UnaryOp::Not)
    } else if check(tokens, pos, TokenTypeView::Minus) {
        Some(UnaryOp::Negate)
    } else {
        None
    }
}

/// `params`, after the opening parenthesis: nothing before a closing
/// parenthesis, else names separated by commas, `MAX_ARITY` at most.
pub open spec fn parameters(tokens: Seq<TokenView>, pos: int) -> Parsed<Seq<Seq<char>>> {
    if check(tokens, pos, TokenTypeView::RightParen) {
        Ok((Seq::empty(), pos))
    } else {
        parameter_list(tokens, pos, Seq::empty())
    }
}

/// The names from `pos` on, after those in `sofar`.
pub open spec fn parameter_list(tokens: Seq<TokenView>, pos: int, sofar: Seq<Seq<char>>) -> Parsed<
    Seq<Seq<char>>,
>
    decreases tokens.len() - pos,
{
    if sofar.len() >= MAX_ARITY {
        Err(error_at(tokens, pos, "Cannot have more than 255 parameters."@))
    } else {
        match identifier_at(tokens, pos) {
            None => Err(error_at(tokens, pos, "Expected parameter name."@)),
            Some(name) => if check(tokens, pos + 1, TokenTypeView::Comma) {
                parameter_list(tokens, pos + 2, sofar.push(name))
            } else {
                Ok((sofar.push(name), pos + 1))
            },
        }
    }
}

/// `program`: the declarations from `pos` up to the end of the stream,
/// after those in `sofar`.
pub open spec fn program(tokens: Seq<TokenView>, pos: int, sofar: Seq<StmtView>) -> Result<
    Seq<StmtView>,
    ErrorView,
>
    decreases tokens.len() - pos, 21int,
{
    if at_end(tokens, pos) {
        Ok(sofar)
    } else {
        match onward(tokens, pos + 1, declaration(tokens, pos)) {
            Err(e) => Err(e),
            Ok((stmt, next)) => program(tokens, next, sofar.push(stmt)),
        }
    }
}

/// `declaration`.
pub open spec fn declaration(tokens: Seq<TokenView>, pos: int) -> Parsed<StmtView>
    decreases tokens.len() - pos, 20int,
{
    if check(tokens, pos, TokenTypeView::Var) || check(tokens, pos, TokenTypeView::Let) || check(
        tokens,
        pos,
        TokenTypeView::Const,
    ) {
        var_declaration(tokens, pos + 1)
    } else if check(tokens, pos, TokenTypeView::Function) {
        function_declaration(tokens, pos + 1)
    } else {
        statement(tokens, pos)
    }
}

/// `varDecl`, after its keyword. The three keywords declare alike: what
/// `const` declares can be assigned to like any other variable.
pub open spec fn var_declaration(tokens: Seq<TokenView>, pos: int) -> Parsed<StmtView>
    decreases tokens.len() - pos, 0int,
{
    match identifier_at(tokens, pos) {
        None => Err(error_at(tokens, pos, "Expected variable name."@)),
        Some(name) => if check(tokens, pos + 1, TokenTypeView::Equal) {
            match onward(tokens, pos + 2, expression(tokens, pos + 2)) {
                Err(e) => Err(e),
                Ok((initializer, next)) => match expect(
                    tokens,
                    next,
                    TokenTypeView::Semicolon,
                    "Expected ';' after variable declaration."@,
                ) {
                    Err(e) => Err(e),
                    Ok(after) => Ok((StmtView::Declaration(name, Some(initializer)), after)),
                },
            }
        } else {
            match expect(
                tokens,
                pos + 1,
                TokenTypeView::Semicolon,
                "Expected ';' after variable declaration."@,
            ) {
                Err(e) => Err(e),
                Ok(after) => Ok((StmtView::Declaration(name, None), after)),
            }
        },
    }
}

/// `funDecl`, after its keyword.
pub open spec fn function_declaration(tokens: Seq<TokenView>, pos: int) -> Parsed<StmtView>
    decreases tokens.len() - pos, 0int,
{
    match identifier_at(tokens, pos) {
        None => Err(error_at(tokens, pos, "Expected function name."@)),
        Some(name) => match function_rest(
            tokens,
            pos + 1,
            "Expected '(' after function name."@,
        ) {
            Err(e) => Err(e),
            Ok(((parameters, body), next)) => Ok(
                (StmtView::Function(name, parameters, Box::new(body)), next),
            ),
        },
    }
}

/// The parameters in their parentheses and the body of a function.
/// `message` is the complaint where the opening parenthesis is missing.
pub open spec fn function_rest(tokens: Seq<TokenView>, pos: int, message: Seq<char>) -> Parsed<
    (Seq<Seq<char>>, StmtView),
>
    decreases tokens.len() - pos, 0int,
{
    match expect(tokens, pos, TokenTypeView::LeftParen, message) {
        Err(e) => Err(e),
        Ok(inside) => match onward(tokens, inside, parameters(tokens, inside)) {
            Err(e) => Err(e),
            Ok((names, close)) => match expect(
                tokens,
                close,
                TokenTypeView::RightParen,
                "Expected ')' after parameters."@,
            ) {
                Err(e) => Err(e),
                Ok(brace) => match expect(
                    tokens,
                    brace,
                    TokenTypeView::LeftBrace,
                    "Expected '{' before function body."@,
                ) {
                    Err(e) => Err(e),
                    Ok(start) => match block(tokens, start) {
                        Err(e) => Err(e),
                        Ok((body, next)) => Ok(((names, body), next)),
                    },
                },
            },
        },
    }
}

/// `statement`.
pub open spec fn statement(tokens: Seq<TokenView>, pos: int) -> Parsed<StmtView>
    decreases tokens.len() - pos, 19int,
{
    if check(tokens, pos, TokenTypeView::If) {
        if_statement(tokens, pos + 1)
    } else if check(tokens, pos, TokenTypeView::While) {
        while_statement(tokens, pos + 1)
    } else if check(tokens, pos, TokenTypeView::Return) {
        return_statement(tokens, pos + 1)
    } else if check(tokens, pos, TokenTypeView::LeftBrace) {
        block(tokens, pos + 1)
    } else {
        expression_statement(tokens, pos)
    }
}

/// `ifStmt`, after its keyword.
pub open spec fn if_statement(tokens: Seq<TokenView>, pos: int) -> Parsed<StmtView>
    decreases tokens.len() - pos, 0int,
{
    match expect(tokens, pos, TokenTypeView::LeftParen, "Expected '(' after 'if'."@) {
        Err(e) => Err(e),
        Ok(inside) => match onward(tokens, inside + 1, expression(tokens, inside)) {
            Err(e) => Err(e),
            Ok((condition, close)) => match expect(
                tokens,
                close,
                TokenTypeView::RightParen,
                "Expected ')' after if condition."@,
            ) {
                Err(e) => Err(e),
                Ok(start) => match onward(tokens, start + 1, statement(tokens, start)) {
                    Err(e) => Err(e),
                    Ok((then_branch, next)) => if check(tokens, next, TokenTypeView::Else) {
                        match statement(tokens, next + 1) {
                            Err(e) => Err(e),
                            Ok((else_branch, after)) => Ok(
                                (
                                    StmtView::If(
                                        condition,
                                        Box::new(then_branch),
                                        Some(Box::new(else_branch)),
                                    ),
                                    after,
                                ),
                            ),
                        }
                    } else {
                        Ok((StmtView::If(condition, Box::new(then_branch), None), next))
                    },
                },
            },
        },
    }
}

/// `whileStmt`, after its keyword.
pub open spec fn while_statement(tokens: Seq<TokenView>, pos: int) -> Parsed<StmtView>
    decreases tokens.len() - pos, 0int,
{
    match expect(tokens, pos, TokenTypeView::LeftParen, "Expected '(' after 'while'."@) {
        Err(e) => Err(e),
        Ok(inside) => match onward(tokens, inside + 1, expression(tokens, inside)) {
            Err(e) => Err(e),
            Ok((condition, close)) => match expect(
                tokens,
                close,
                TokenTypeView::RightParen,
                "Expected ')' after while condition."@,
            ) {
                Err(e) => Err(e),
                Ok(start) => match statement(tokens, start) {
                    Err(e) => Err(e),
                    Ok((body, next)) => Ok((StmtView::While(condition, Box::new(body)), next)),
                },
            },
        },
    }
}

/// `returnStmt`, after its keyword.
pub open spec fn return_statement(tokens: Seq<TokenView>, pos: int) -> Parsed<StmtView>
    decreases tokens.len() - pos, 18int,
{
    if check(tokens, pos, TokenTypeView::Semicolon) {
        Ok((StmtView::Return(None), pos + 1))
    } else {
        match expression(tokens, pos) {
            Err(e) => Err(e),
            Ok((value, next)) => match expect(
                tokens,
                next,
                TokenTypeView::Semicolon,
                "Expected ';' after return value."@,
            ) {
                Err(e) => Err(e),
                Ok(after) => Ok((StmtView::Return(Some(value)), after)),
            },
        }
    }
}

/// `block`, after its opening brace.
pub open spec fn block(tokens: Seq<TokenView>, pos: int) -> Parsed<StmtView>
    decreases tokens.len() - pos, 22int,
{
    match block_items(tokens, pos, Seq::empty()) {
        Err(e) => Err(e),
        Ok((statements, close)) => match expect(
            tokens,
            close,
            TokenTypeView::RightBrace,
            "Expected '}' after block."@,
        ) {
            Err(e) => Err(e),
            Ok(after) => Ok((StmtView::Block(statements), after)),
        },
    }
}

/// The declarations from `pos` up to a closing brace or the end of the
/// stream, after those in `sofar`.
pub open spec fn block_items(tokens: Seq<TokenView>, pos: int, sofar: Seq<StmtView>) -> Parsed<
    Seq<StmtView>,
>
    decreases tokens.len() - pos, 21int,
{
    if check(tokens, pos, TokenTypeView::RightBrace) || at_end(tokens, pos) {
        Ok((sofar, pos))
    } else {
        match onward(tokens, pos + 1, declaration(tokens, pos)) {
            Err(e) => Err(e),
            Ok((stmt, next)) => block_items(tokens, next, sofar.push(stmt)),
        }
    }
}

/// `exprStmt`.
pub open spec fn expression_statement(tokens: Seq<TokenView>, pos: int) -> Parsed<StmtView>
    decreases tokens.len() - pos, 18int,
{
    match expression(tokens, pos) {
        Err(e) => Err(e),
        Ok((expr, next)) => match expect(
            tokens,
            next,
            TokenTypeView::Semicolon,
            "Expected ';' after expression."@,
        ) {
            Err(e) => Err(e),
            Ok(after) => Ok((StmtView::Expression(expr), after)),
        },
    }
}

/// `expression`.
pub open spec fn expression(tokens: Seq<TokenView>, pos: int) -> Parsed<ExprView>
    decreases tokens.len() - pos, 17int,
{
    assignment(tokens, pos)
}

/// `assignment`. The target is read as an expression of the loosest binary
/// level and must turn out to be a variable.
pub open spec fn assignment(tokens: Seq<TokenView>, pos: int) -> Parsed<ExprView>
    decreases tokens.len() - pos, 16int,
{
    match onward(tokens, pos + 1, binary(tokens, pos, Level::Or)) {
        Err(e) => Err(e),
        Ok((target, next)) => if check(tokens, next, TokenTypeView::Equal) {
            match assignment(tokens, next + 1) {
                Err(e) => Err(e),
                Ok((value, after)) => match target {
                    ExprView::Variable(name) => Ok(
                        (ExprView::Assign(name, Box::new(value)), after),
                    ),
                    _ => Err(error_at(tokens, after, "Invalid assignment target."@)),
                },
            }
        } else {
            Ok((target, next))
        },
    }
}

/// An expression of the given binary level: operands of the next tighter
/// level with operators of this level between them, grouped to the left.
pub open spec fn binary(tokens: Seq<TokenView>, pos: int, level: Level) -> Parsed<ExprView>
    decreases tokens.len() - pos, 5 + 2 * level.rank(),
{
    match onward(tokens, pos + 1, operand(tokens, pos, level)) {
        Err(e) => Err(e),
        Ok((left, next)) => binary_tail(tokens, next, level, left),
    }
}

/// An operand of the given binary level.
pub open spec fn operand(tokens: Seq<TokenView>, pos: int, level: Level) -> Parsed<ExprView>
    decreases tokens.len() - pos, 4 + 2 * level.rank(),
{
    match level.tighter() {
        Some(next) => binary(tokens, pos, next),
        None => unary(tokens, pos),
    }
}

/// What follows the operand `left` of the given level: as long as an
/// operator of the level stands at `pos`, it and the operand after it join
/// what was read so far as the left operand.
pub open spec fn binary_tail(tokens: Seq<TokenView>, pos: int, level: Level, left: ExprView) -> Parsed<
    ExprView,
>
    decreases tokens.len() - pos, 0int,
{
    match operator_at(tokens, pos, level) {
        None => Ok((left, pos)),
        Some(op) => match onward(tokens, pos + 2, operand(tokens, pos + 1, level)) {
            Err(e) => Err(e),
            Ok((right, next)) => binary_tail(
                tokens,
                next,
                level,
                ExprView::Binary(Box::new(left), op, Box::new(right)),
            ),
        },
    }
}

/// `unary`.
pub open spec fn unary(tokens: Seq<TokenView>, pos: int) -> Parsed<ExprView>
    decreases tokens.len() - pos, 3int,
{
    match prefix_at(tokens, pos) {
        Some(op) => match unary(tokens, pos + 1) {
            Err(e) => Err(e),
            Ok((operand, next)) => Ok((ExprView::Unary(op, Box::new(operand)), next)),
        },
        None => call(tokens, pos),
    }
}

/// `call`.
pub open spec fn call(tokens: Seq<TokenView>, pos: int) -> Parsed<ExprView>
    decreases tokens.len() - pos, 2int,
{
    match onward(tokens, pos + 1, primary(tokens, pos)) {
        Err(e) => Err(e),
        Ok((callee, next)) => call_tail(tokens, next, callee),
    }
}

/// What follows the callee: as long as an opening parenthesis stands at
/// `pos`, what was read so far is called with the arguments after it.
pub open spec fn call_tail(tokens: Seq<TokenView>, pos: int, callee: ExprView) -> Parsed<ExprView>
    decreases tokens.len() - pos, 0int,
{
    if check(tokens, pos, TokenTypeView::LeftParen) {
        match onward(tokens, pos + 2, finish_call(tokens, pos + 1, callee)) {
            Err(e) => Err(e),
            Ok((called, next)) => call_tail(tokens, next, called),
        }
    } else {
        Ok((callee, pos))
    }
}

/// The arguments of a call and its closing parenthesis.
pub open spec fn finish_call(tokens: Seq<TokenView>, pos: int, callee: ExprView) -> Parsed<ExprView>
    decreases tokens.len() - pos, 19int,
{
    let arguments = if check(tokens, pos, TokenTypeView::RightParen) {
        Ok((Seq::empty(), pos))
    } else {
        arguments(tokens, pos, Seq::empty())
    };
    match arguments {
        Err(e) => Err(e),
        Ok((values, close)) => match expect(
            tokens,
            close,
            TokenTypeView::RightParen,
            "Expected ')' after arguments."@,
        ) {
            Err(e) => Err(e),
            Ok(after) => Ok((ExprView::Call(Box::new(callee), values), after)),
        },
    }
}

/// The expressions from `pos` on, separated by commas, after those in
/// `sofar`; `MAX_ARITY` at most.
pub open spec fn arguments(tokens: Seq<TokenView>, pos: int, sofar: Seq<ExprView>) -> Parsed<
    Seq<ExprView>,
>
    decreases tokens.len() - pos, 18int,
{
    if sofar.len() >= MAX_ARITY {
        Err(error_at(tokens, pos, "Cannot have more than 255 arguments."@))
    } else {
        match onward(tokens, pos + 1, expression(tokens, pos)) {
            Err(e) => Err(e),
            Ok((value, next)) => if check(tokens, next, TokenTypeView::Comma) {
                arguments(tokens, next + 1, sofar.push(value))
            } else {
                Ok((sofar.push(value), next))
            },
        }
    }
}

/// `primary`.
pub open spec fn primary(tokens: Seq<TokenView>, pos: int) -> Parsed<ExprView>
    decreases tokens.len() - pos, 1int,
{
    if at_end(tokens, pos) {
        Err(error_at(tokens, pos, "Expected expression."@))
    } else {
        match tokens[pos].token_type {
            TokenTypeView::False => Ok((ExprView::Boolean(false), pos + 1)),
            TokenTypeView::True => Ok((ExprView::Boolean(true), pos + 1)),
            TokenTypeView::Null => Ok((ExprView::Null, pos + 1)),
            TokenTypeView::Number(digits) => Ok((ExprView::Number(digits), pos + 1)),
            TokenTypeView::String(text) => Ok((ExprView::String(text), pos + 1)),
            TokenTypeView::Identifier(name) => Ok((ExprView::Variable(name), pos + 1)),
            TokenTypeView::LeftParen => match expression(tokens, pos + 1) {
                Err(e) => Err(e),
                Ok((inner, close)) => match expect(
                    tokens,
                    close,
                    TokenTypeView::RightParen,
                    "Expected ')' after expression."@,
                ) {
                    Err(e) => Err(e),
                    Ok(after) => Ok((inner, after)),
                },
            },
            TokenTypeView::Function => match function_rest(
                tokens,
                pos + 1,
                "Expected '(' after 'function'."@,
            ) {
                Err(e) => Err(e),
                Ok(((parameters, body), next)) => Ok(
                    (ExprView::Function(parameters, Box::new(body)), next),
                ),
            },
            _ => Err(error_at(tokens, pos, "Expected expression."@)),
        }
    }
}

/// The statements that a token stream consists of, or the first error that
/// it raises.
pub open spec fn parse(tokens: Seq<TokenView>) -> Result<Seq<StmtView>, ErrorView> {
    program(tokens, 0, Seq::empty())
}

} // verus!
