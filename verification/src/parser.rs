//! The parser: from tokens to statements, by recursive descent with one
//! token of lookahead.

pub use crate::ast::{BinaryOp, Expr, Stmt, UnaryOp};
use crate::ast::{
    expr_views, lemma_expr_views_push, lemma_name_views_push, lemma_stmt_views_push, name_views,
    stmt_views, ExprView, StmtView,
};
use crate::error::{ErrorView, JsEngineError};
use crate::grammar::{
    arguments, assignment, at_end, binary, binary_tail, block, block_items, call, call_tail, check,
    declaration, ends_in_sentinel, error_at, expect, expression, expression_statement, finish_call,
    function_declaration, function_rest, identifier_at, if_statement, operand,
    operator_at, parameter_list, parameters, primary, program, return_statement,
    statement, unary, var_declaration, while_statement, Level, Parsed, MAX_ARITY,
};
use crate::lexer::{token_views, Token, TokenType};
use crate::lexical::{TokenTypeView, TokenView};
use vstd::prelude::*;
use vstd::string::StringExecFns;

verus! {

/// The model of what a rule returned for an expression.
pub open spec fn expr_outcome(result: Result<Expr, JsEngineError>) -> Result<ExprView, ErrorView> {
    match result {
        Ok(expr) => Ok(expr@),
        Err(e) => Err(e@),
    }
}

/// The model of what a rule returned for a statement.
pub open spec fn stmt_outcome(result: Result<Stmt, JsEngineError>) -> Result<StmtView, ErrorView> {
    match result {
        Ok(stmt) => Ok(stmt@),
        Err(e) => Err(e@),
    }
}

/// A parser over one token stream.
pub struct Parser {
    tokens: Vec<Token>,
    current: usize,
}

impl Parser {
    /// The stream ends in the sentinel, and the cursor points at a token.
    #[verifier::type_invariant]
    spec fn well_formed(&self) -> bool {
        ends_in_sentinel(token_views(self.tokens@)) && self.current < self.tokens@.len()
    }

    /// The tokens that this parser reads.
    pub closed spec fn tokens(&self) -> Seq<TokenView> {
        token_views(self.tokens@)
    }

    /// The index of the token that the parser reads next.
    pub closed spec fn position(&self) -> int {
        self.current as int
    }

    /// `post` is `pre` after a rule that was to yield `expected` has left
    /// `outcome`: the tokens are the same, the outcomes agree, and on success
    /// the cursor stands where the rule ends, `least` tokens on at the least.
    spec fn yields<V>(
        pre: Parser,
        post: Parser,
        outcome: Result<V, ErrorView>,
        expected: Parsed<V>,
        least: int,
    ) -> bool {
        &&& post.tokens@ == pre.tokens@
        &&& match outcome {
            Ok(tree) => expected == Ok::<(V, int), ErrorView>((tree, post.current as int))
                && post.current >= pre.current + least,
            Err(e) => expected == Err::<(V, int), ErrorView>(e),
        }
    }

    /// A parser for `tokens`, which must end in the end-of-stream sentinel.
    pub fn new(tokens: Vec<Token>) -> (parser: Parser)
        requires
            ends_in_sentinel(token_views(tokens@)),
        ensures
            parser.tokens() == token_views(tokens@),
            parser.position() == 0,
    {
        Parser { tokens, current: 0 }
    }

    /// Reads the declarations from the cursor up to the end of the stream,
    /// where it leaves the cursor. The first token that fits no rule ends
    /// parsing with an error that carries its line and column.
    pub fn parse(&mut self) -> (result: Result<Vec<Stmt>, JsEngineError>)
        ensures
            final(self).tokens() == old(self).tokens(),
            match result {
                Ok(statements) => program(old(self).tokens(), old(self).position(), Seq::empty())
                    == Ok::<Seq<StmtView>, ErrorView>(stmt_views(statements@)) && at_end(
                    final(self).tokens(),
                    final(self).position(),
                ),
                Err(e) => program(old(self).tokens(), old(self).position(), Seq::empty()) == Err::<
                    Seq<StmtView>,
                    ErrorView,
                >(e@),
            },
    {
        let mut statements: Vec<Stmt> = Vec::new();
        let ghost tokens = token_views(self.tokens@);
        let ghost start = self.current as int;
        assert(stmt_views(statements@) =~= Seq::<StmtView>::empty());
        while !self.is_at_end()
            invariant
                self.tokens@ == old(self).tokens@,
                tokens == token_views(self.tokens@),
                start == old(self).current,
                program(tokens, self.current as int, stmt_views(statements@)) == program(
                    tokens,
                    start,
                    Seq::empty(),
                ),
            decreases self.tokens@.len() - self.current,
        {
            match self.declaration() {
                Err(e) => {
                    return Err(e);
                },
                Ok(stmt) => {
                    proof {
                        use_type_invariant(&*self);
                        lemma_stmt_views_push(statements@, stmt);
                    }
                    statements.push(stmt);
                },
            }
        }
        Ok(statements)
    }

    fn declaration(&mut self) -> (result: Result<Stmt, JsEngineError>)
        ensures
            Self::yields(
                *old(self),
                *final(self),
                stmt_outcome(result),
                declaration(token_views(old(self).tokens@), old(self).current as int),
                1,
            ),
        decreases old(self).tokens@.len() - old(self).current, 20int,
    {
        proof {
            use_type_invariant(&*self);
        }
        if self.check(&TokenType::Var) || self.check(&TokenType::Let) || self.check(
            &TokenType::Const,
        ) {
            self.advance();
            self.var_declaration()
        } else if self.check(&TokenType::Function) {
            self.advance();
            self.function_declaration()
        } else {
            self.statement()
        }
    }

    fn var_declaration(&mut self) -> (result: Result<Stmt, JsEngineError>)
        ensures
            Self::yields(
                *old(self),
                *final(self),
                stmt_outcome(result),
                var_declaration(token_views(old(self).tokens@), old(self).current as int),
                1,
            ),
        decreases old(self).tokens@.len() - old(self).current, 0int,
    {
        proof {
            use_type_invariant(&*self);
        }
        let name = match self.identifier() {
            Some(name) => name,
            None => {
                return Err(self.error("Expected variable name."));
            },
        };
        self.advance();
        let initializer = if self.match_token(&TokenType::Equal) {
            match self.expression() {
                Ok(expr) => Some(expr),
                Err(e) => {
                    return Err(e);
                },
            }
        } else {
            None
        };
        proof {
            use_type_invariant(&*self);
        }
        match self.consume(&TokenType::Semicolon, "Expected ';' after variable declaration.") {
            Ok(()) => Ok(Stmt::Declaration(name, initializer)),
            Err(e) => Err(e),
        }
    }

    fn function_declaration(&mut self) -> (result: Result<Stmt, JsEngineError>)
        ensures
            Self::yields(
                *old(self),
                *final(self),
                stmt_outcome(result),
                function_declaration(token_views(old(self).tokens@), old(self).current as int),
                1,
            ),
        decreases old(self).tokens@.len() - old(self).current, 0int,
    {
        proof {
            use_type_invariant(&*self);
        }
        let name = match self.identifier() {
            Some(name) => name,
            None => {
                return Err(self.error("Expected function name."));
            },
        };
        self.advance();
        match self.function_rest("Expected '(' after function name.") {
            Ok((parameters, body)) => Ok(Stmt::Function(name, parameters, Box::new(body))),
            Err(e) => Err(e),
        }
    }

    /// Reads the parameters in their parentheses and the body of a function.
    fn function_rest(&mut self, message: &str) -> (result: Result<(Vec<String>, Stmt), JsEngineError>)
        ensures
            final(self).tokens@ == old(self).tokens@,
            match result {
                Ok((names, body)) => function_rest(
                    token_views(old(self).tokens@),
                    old(self).current as int,
                    message@,
                ) == Ok::<((Seq<Seq<char>>, StmtView), int), ErrorView>(
                    ((name_views(names@), body@), final(self).current as int),
                ) && final(self).current > old(self).current,
                Err(e) => function_rest(
                    token_views(old(self).tokens@),
                    old(self).current as int,
                    message@,
                ) == Err::<((Seq<Seq<char>>, StmtView), int), ErrorView>(e@),
            },
        decreases old(self).tokens@.len() - old(self).current, 0int,
    {
        proof {
            use_type_invariant(&*self);
        }
        match self.consume(&TokenType::LeftParen, message) {
            Ok(()) => {},
            Err(e) => {
                return Err(e);
            },
        }
        let names = match self.parameters() {
            Ok(names) => names,
            Err(e) => {
                return Err(e);
            },
        };
        proof {
            use_type_invariant(&*self);
        }
        match self.consume(&TokenType::RightParen, "Expected ')' after parameters.") {
            Ok(()) => {},
            Err(e) => {
                return Err(e);
            },
        }
        match self.consume(&TokenType::LeftBrace, "Expected '{' before function body.") {
            Ok(()) => {},
            Err(e) => {
                return Err(e);
            },
        }
        match self.block() {
            Ok(body) => Ok((names, body)),
            Err(e) => Err(e),
        }
    }

    /// Reads the names of the parameters up to the closing parenthesis.
    fn parameters(&mut self) -> (result: Result<Vec<String>, JsEngineError>)
        ensures
            final(self).tokens@ == old(self).tokens@,
            match result {
                Ok(names) => parameters(token_views(old(self).tokens@), old(self).current as int)
                    == Ok::<(Seq<Seq<char>>, int), ErrorView>(
                    (name_views(names@), final(self).current as int),
                ) && final(self).current >= old(self).current,
                Err(e) => parameters(token_views(old(self).tokens@), old(self).current as int)
                    == Err::<(Seq<Seq<char>>, int), ErrorView>(e@),
            },
    {
        let mut names: Vec<String> = Vec::new();
        let ghost tokens = token_views(self.tokens@);
        let ghost start = self.current as int;
        assert(name_views(names@) =~= Seq::<Seq<char>>::empty());
        if self.check(&TokenType::RightParen) {
            return Ok(names);
        }
        loop
            invariant_except_break
                parameter_list(tokens, self.current as int, name_views(names@)) == parameter_list(
                    tokens,
                    start,
                    Seq::empty(),
                ),
            invariant
                self.tokens@ == old(self).tokens@,
                tokens == token_views(self.tokens@),
                start == old(self).current,
                self.current >= start,
                parameters(tokens, start) == parameter_list(tokens, start, Seq::empty()),
            ensures
                parameter_list(tokens, start, Seq::empty()) == Ok::<
                    (Seq<Seq<char>>, int),
                    ErrorView,
                >((name_views(names@), self.current as int)),
            decreases self.tokens@.len() - self.current,
        {
            proof {
                use_type_invariant(&*self);
            }
            if names.len() >= MAX_ARITY {
                return Err(self.error("Cannot have more than 255 parameters."));
            }
            match self.identifier() {
                Some(name) => {
                    proof {
                        lemma_name_views_push(names@, name);
                    }
                    names.push(name);
                    self.advance();
                },
                None => {
                    return Err(self.error("Expected parameter name."));
                },
            }
            if !self.match_token(&TokenType::Comma) {
                break ;
            }
        }
        Ok(names)
    }

    fn statement(&mut self) -> (result: Result<Stmt, JsEngineError>)
        ensures
            Self::yields(
                *old(self),
                *final(self),
                stmt_outcome(result),
                statement(token_views(old(self).tokens@), old(self).current as int),
                1,
            ),
        decreases old(self).tokens@.len() - old(self).current, 19int,
    {
        proof {
            use_type_invariant(&*self);
        }
        if self.match_token(&TokenType::If) {
            self.if_statement()
        } else if self.match_token(&TokenType::While) {
            self.while_statement()
        } else if self.match_token(&TokenType::Return) {
            self.return_statement()
        } else if self.match_token(&TokenType::LeftBrace) {
            self.block()
        } else {
            self.expression_statement()
        }
    }

    fn if_statement(&mut self) -> (result: Result<Stmt, JsEngineError>)
        ensures
            Self::yields(
                *old(self),
                *final(self),
                stmt_outcome(result),
                if_statement(token_views(old(self).tokens@), old(self).current as int),
                1,
            ),
        decreases old(self).tokens@.len() - old(self).current, 0int,
    {
        proof {
            use_type_invariant(&*self);
        }
        match self.consume(&TokenType::LeftParen, "Expected '(' after 'if'.") {
            Ok(()) => {},
            Err(e) => {
                return Err(e);
            },
        }
        let condition = match self.expression() {
            Ok(expr) => expr,
            Err(e) => {
                return Err(e);
            },
        };
        proof {
            use_type_invariant(&*self);
        }
        match self.consume(&TokenType::RightParen, "Expected ')' after if condition.") {
            Ok(()) => {},
            Err(e) => {
                return Err(e);
            },
        }
        let then_branch = match self.statement() {
            Ok(stmt) => stmt,
            Err(e) => {
                return Err(e);
            },
        };
        proof {
            use_type_invariant(&*self);
        }
        if self.match_token(&TokenType::Else) {
            match self.statement() {
                Ok(else_branch) => Ok(
                    Stmt::If(condition, Box::new(then_branch), Some(Box::new(else_branch))),
                ),
                Err(e) => Err(e),
            }
        } else {
            Ok(Stmt::If(condition, Box::new(then_branch), None))
        }
    }

    fn while_statement(&mut self) -> (result: Result<Stmt, JsEngineError>)
        ensures
            Self::yields(
                *old(self),
                *final(self),
                stmt_outcome(result),
                while_statement(token_views(old(self).tokens@), old(self).current as int),
                1,
            ),
        decreases old(self).tokens@.len() - old(self).current, 0int,
    {
        proof {
            use_type_invariant(&*self);
        }
        match self.consume(&TokenType::LeftParen, "Expected '(' after 'while'.") {
            Ok(()) => {},
            Err(e) => {
                return Err(e);
            },
        }
        let condition = match self.expression() {
            Ok(expr) => expr,
            Err(e) => {
                return Err(e);
            },
        };
        proof {
            use_type_invariant(&*self);
        }
        match self.consume(&TokenType::RightParen, "Expected ')' after while condition.") {
            Ok(()) => {},
            Err(e) => {
                return Err(e);
            },
        }
        match self.statement() {
            Ok(body) => Ok(Stmt::While(condition, Box::new(body))),
            Err(e) => Err(e),
        }
    }

    fn return_statement(&mut self) -> (result: Result<Stmt, JsEngineError>)
        ensures
            Self::yields(
                *old(self),
                *final(self),
                stmt_outcome(result),
                return_statement(token_views(old(self).tokens@), old(self).current as int),
                1,
            ),
        decreases old(self).tokens@.len() - old(self).current, 18int,
    {
        proof {
            use_type_invariant(&*self);
        }
        if self.match_token(&TokenType::Semicolon) {
            return Ok(Stmt::Return(None));
        }
        let value = match self.expression() {
            Ok(expr) => expr,
            Err(e) => {
                return Err(e);
            },
        };
        match self.consume(&TokenType::Semicolon, "Expected ';' after return value.") {
            Ok(()) => Ok(Stmt::Return(Some(value))),
            Err(e) => Err(e),
        }
    }

    fn block(&mut self) -> (result: Result<Stmt, JsEngineError>)
        ensures
            Self::yields(
                *old(self),
                *final(self),
                stmt_outcome(result),
                block(token_views(old(self).tokens@), old(self).current as int),
                1,
            ),
        decreases old(self).tokens@.len() - old(self).current, 22int,
    {
        let mut statements: Vec<Stmt> = Vec::new();
        let ghost tokens = token_views(self.tokens@);
        let ghost start = self.current as int;
        assert(stmt_views(statements@) =~= Seq::<StmtView>::empty());
        while !self.check(&TokenType::RightBrace) && !self.is_at_end()
            invariant
                self.tokens@ == old(self).tokens@,
                tokens == token_views(self.tokens@),
                start == old(self).current,
                self.current >= start,
                block_items(tokens, self.current as int, stmt_views(statements@)) == block_items(
                    tokens,
                    start,
                    Seq::empty(),
                ),
            decreases self.tokens@.len() - self.current,
        {
            match self.declaration() {
                Err(e) => {
                    return Err(e);
                },
                Ok(stmt) => {
                    proof {
                        use_type_invariant(&*self);
                        lemma_stmt_views_push(statements@, stmt);
                    }
                    statements.push(stmt);
                },
            }
        }
        match self.consume(&TokenType::RightBrace, "Expected '}' after block.") {
            Ok(()) => Ok(Stmt::Block(statements)),
            Err(e) => Err(e),
        }
    }

    fn expression_statement(&mut self) -> (result: Result<Stmt, JsEngineError>)
        ensures
            Self::yields(
                *old(self),
                *final(self),
                stmt_outcome(result),
                expression_statement(token_views(old(self).tokens@), old(self).current as int),
                1,
            ),
        decreases old(self).tokens@.len() - old(self).current, 18int,
    {
        let expr = match self.expression() {
            Ok(expr) => expr,
            Err(e) => {
                return Err(e);
            },
        };
        match self.consume(&TokenType::Semicolon, "Expected ';' after expression.") {
            Ok(()) => Ok(Stmt::Expression(expr)),
            Err(e) => Err(e),
        }
    }

    fn expression(&mut self) -> (result: Result<Expr, JsEngineError>)
        ensures
            Self::yields(
                *old(self),
                *final(self),
                expr_outcome(result),
                expression(token_views(old(self).tokens@), old(self).current as int),
                1,
            ),
        decreases old(self).tokens@.len() - old(self).current, 17int,
    {
        self.assignment()
    }

    fn assignment(&mut self) -> (result: Result<Expr, JsEngineError>)
        ensures
            Self::yields(
                *old(self),
                *final(self),
                expr_outcome(result),
                assignment(token_views(old(self).tokens@), old(self).current as int),
                1,
            ),
        decreases old(self).tokens@.len() - old(self).current, 16int,
    {
        let target = match self.binary(Level::Or) {
            Ok(expr) => expr,
            Err(e) => {
                return Err(e);
            },
        };
        proof {
            use_type_invariant(&*self);
        }
        if self.match_token(&TokenType::Equal) {
            let value = match self.assignment() {
                Ok(expr) => expr,
                Err(e) => {
                    return Err(e);
                },
            };
            match target {
                Expr::Variable(name) => Ok(Expr::Assign(name, Box::new(value))),
                _ => Err(self.error("Invalid assignment target.")),
            }
        } else {
            Ok(target)
        }
    }

    /// Reads an expression of the given binary level: operands of the next
    /// tighter level with operators of this level between them, grouped to
    /// the left.
    fn binary(&mut self, level: Level) -> (result: Result<Expr, JsEngineError>)
        ensures
            Self::yields(
                *old(self),
                *final(self),
                expr_outcome(result),
                binary(token_views(old(self).tokens@), old(self).current as int, level),
                1,
            ),
        decreases old(self).tokens@.len() - old(self).current, 5 + 2 * level.rank(),
    {
        let ghost tokens = token_views(self.tokens@);
        let ghost start = self.current as int;
        let mut expr = match self.operand(level) {
            Ok(expr) => expr,
            Err(e) => {
                return Err(e);
            },
        };
        proof {
            use_type_invariant(&*self);
        }
        loop
            invariant_except_break
                binary_tail(tokens, self.current as int, level, expr@) == binary(
                    tokens,
                    start,
                    level,
                ),
            invariant
                self.tokens@ == old(self).tokens@,
                tokens == token_views(self.tokens@),
                start == old(self).current,
                self.current > start,
            ensures
                binary(tokens, start, level) == Ok::<(ExprView, int), ErrorView>(
                    (expr@, self.current as int),
                ),
            decreases self.tokens@.len() - self.current,
        {
            proof {
                use_type_invariant(&*self);
            }
            let op = match self.operator(level) {
                Some(op) => op,
                None => {
                    break ;
                },
            };
            self.advance();
            let right = match self.operand(level) {
                Ok(expr) => expr,
                Err(e) => {
                    return Err(e);
                },
            };
            proof {
                use_type_invariant(&*self);
            }
            expr = Expr::Binary(Box::new(expr), op, Box::new(right));
        }
        Ok(expr)
    }

    /// Reads an operand of the given binary level.
    fn operand(&mut self, level: Level) -> (result: Result<Expr, JsEngineError>)
        ensures
            Self::yields(
                *old(self),
                *final(self),
                expr_outcome(result),
                operand(token_views(old(self).tokens@), old(self).current as int, level),
                1,
            ),
        decreases old(self).tokens@.len() - old(self).current, 4 + 2 * level.rank(),
    {
        match level {
            Level::Or => self.binary(Level::And),
            Level::And => self.binary(Level::Equality),
            Level::Equality => self.binary(Level::Comparison),
            Level::Comparison => self.binary(Level::Term),
            Level::Term => self.binary(Level::Factor),
            Level::Factor => self.unary(),
        }
    }

    fn unary(&mut self) -> (result: Result<Expr, JsEngineError>)
        ensures
            Self::yields(
                *old(self),
                *final(self),
                expr_outcome(result),
                unary(token_views(old(self).tokens@), old(self).current as int),
                1,
            ),
        decreases old(self).tokens@.len() - old(self).current, 3int,
    {
        proof {
            use_type_invariant(&*self);
        }
        let op = if self.match_token(&TokenType::Bang) {
            UnaryOp::Not
        } else if self.match_token(&TokenType::Minus) {
            UnaryOp::Negate
        } else {
            return self.call();
        };
        match self.unary() {
            Ok(operand) => Ok(Expr::Unary(op, Box::new(operand))),
            Err(e) => Err(e),
        }
    }

    fn call(&mut self) -> (result: Result<Expr, JsEngineError>)
        ensures
            Self::yields(
                *old(self),
                *final(self),
                expr_outcome(result),
                call(token_views(old(self).tokens@), old(self).current as int),
                1,
            ),
        decreases old(self).tokens@.len() - old(self).current, 2int,
    {
        let ghost tokens = token_views(self.tokens@);
        let ghost start = self.current as int;
        let mut expr = match self.primary() {
            Ok(expr) => expr,
            Err(e) => {
                return Err(e);
            },
        };
        proof {
            use_type_invariant(&*self);
        }
        loop
            invariant_except_break
                call_tail(tokens, self.current as int, expr@) == call(tokens, start),
            invariant
                self.tokens@ == old(self).tokens@,
                tokens == token_views(self.tokens@),
                start == old(self).current,
                self.current > start,
            ensures
                call(tokens, start) == Ok::<(ExprView, int), ErrorView>(
                    (expr@, self.current as int),
                ),
            decreases self.tokens@.len() - self.current,
        {
            proof {
                use_type_invariant(&*self);
            }
            if self.match_token(&TokenType::LeftParen) {
                expr = match self.finish_call(expr) {
                    Ok(called) => called,
                    Err(e) => {
                        return Err(e);
                    },
                };
                proof {
                    use_type_invariant(&*self);
                }
            } else {
                break ;
            }
        }
        Ok(expr)
    }

    /// Reads the arguments of a call and its closing parenthesis.
    fn finish_call(&mut self, callee: Expr) -> (result: Result<Expr, JsEngineError>)
        ensures
            Self::yields(
                *old(self),
                *final(self),
                expr_outcome(result),
                finish_call(token_views(old(self).tokens@), old(self).current as int, callee@),
                1,
            ),
        decreases old(self).tokens@.len() - old(self).current, 19int,
    {
        let mut values: Vec<Expr> = Vec::new();
        let ghost tokens = token_views(self.tokens@);
        let ghost start = self.current as int;
        assert(expr_views(values@) =~= Seq::<ExprView>::empty());
        if !self.check(&TokenType::RightParen) {
            loop
                invariant_except_break
                    arguments(tokens, self.current as int, expr_views(values@)) == arguments(
                        tokens,
                        start,
                        Seq::empty(),
                    ),
                invariant
                    self.tokens@ == old(self).tokens@,
                    tokens == token_views(self.tokens@),
                    start == old(self).current,
                    self.current >= start,
                    !check(tokens, start, TokenTypeView::RightParen),
                ensures
                    arguments(tokens, start, Seq::empty()) == Ok::<(Seq<ExprView>, int), ErrorView>(
                        (expr_views(values@), self.current as int),
                    ),
                decreases self.tokens@.len() - self.current,
            {
                proof {
                    use_type_invariant(&*self);
                }
                if values.len() >= MAX_ARITY {
                    return Err(self.error("Cannot have more than 255 arguments."));
                }
                let value = match self.expression() {
                    Ok(expr) => expr,
                    Err(e) => {
                        return Err(e);
                    },
                };
                proof {
                    use_type_invariant(&*self);
                    lemma_expr_views_push(values@, value);
                }
                values.push(value);
                if !self.match_token(&TokenType::Comma) {
                    break ;
                }
            }
        }
        match self.consume(&TokenType::RightParen, "Expected ')' after arguments.") {
            Ok(()) => Ok(Expr::Call(Box::new(callee), values)),
            Err(e) => Err(e),
        }
    }

    fn primary(&mut self) -> (result: Result<Expr, JsEngineError>)
        ensures
            Self::yields(
                *old(self),
                *final(self),
                expr_outcome(result),
                primary(token_views(old(self).tokens@), old(self).current as int),
                1,
            ),
        decreases old(self).tokens@.len() - old(self).current, 1int,
    {
        proof {
            use_type_invariant(&*self);
        }
        if self.match_token(&TokenType::False) {
            return Ok(Expr::Boolean(false));
        }
        if self.match_token(&TokenType::True) {
            return Ok(Expr::Boolean(true));
        }
        if self.match_token(&TokenType::Null) {
            return Ok(Expr::Null);
        }
        if self.match_token(&TokenType::LeftParen) {
            let inner = match self.expression() {
                Ok(expr) => expr,
                Err(e) => {
                    return Err(e);
                },
            };
            return match self.consume(&TokenType::RightParen, "Expected ')' after expression.") {
                Ok(()) => Ok(inner),
                Err(e) => Err(e),
            };
        }
        if self.match_token(&TokenType::Function) {
            return match self.function_rest("Expected '(' after 'function'.") {
                Ok((parameters, body)) => Ok(Expr::Function(parameters, Box::new(body))),
                Err(e) => Err(e),
            };
        }
        let literal = match &self.peek().token_type {
            TokenType::Number(digits) => Some(Expr::Number(digits.clone())),
            TokenType::String(text) => Some(Expr::String(text.clone())),
            TokenType::Identifier(name) => Some(Expr::Variable(name.clone())),
            _ => None,
        };
        match literal {
            Some(expr) => {
                self.advance();
                Ok(expr)
            },
            None => Err(self.error("Expected expression.")),
        }
    }

    /// Steps over the token at the cursor if it is of the kind of
    /// `token_type`.
    fn match_token(&mut self, token_type: &TokenType) -> (matched: bool)
        ensures
            final(self).tokens@ == old(self).tokens@,
            matched == check(
                token_views(old(self).tokens@),
                old(self).current as int,
                token_type@,
            ),
            final(self).current == old(self).current + (if matched {
                1int
            } else {
                0int
            }),
    {
        if self.check(token_type) {
            self.advance();
            true
        } else {
            false
        }
    }

    /// Whether the token at the cursor is of the kind of `token_type`,
    /// whatever text the two carry. The end of the stream matches nothing.
    fn check(&self, token_type: &TokenType) -> (same: bool)
        ensures
            same == check(token_views(self.tokens@), self.current as int, token_type@),
    {
        if self.is_at_end() {
            return false;
        }
        let actual = &self.peek().token_type;
        match token_type {
            TokenType::LeftParen => matches!(actual, TokenType::LeftParen),
            TokenType::RightParen => matches!(actual, TokenType::RightParen),
            TokenType::LeftBrace => matches!(actual, TokenType::LeftBrace),
            TokenType::RightBrace => matches!(actual, TokenType::RightBrace),
            TokenType::Comma => matches!(actual, TokenType::Comma),
            TokenType::Dot => matches!(actual, TokenType::Dot),
            TokenType::Minus => matches!(actual, TokenType::Minus),
            TokenType::Plus => matches!(actual, TokenType::Plus),
            TokenType::Semicolon => matches!(actual, TokenType::Semicolon),
            TokenType::Slash => matches!(actual, TokenType::Slash),
            TokenType::Star => matches!(actual, TokenType::Star),
            TokenType::Bang => matches!(actual, TokenType::Bang),
            TokenType::BangEqual => matches!(actual, TokenType::BangEqual),
            TokenType::Equal => matches!(actual, TokenType::Equal),
            TokenType::EqualEqual => matches!(actual, TokenType::EqualEqual),
            TokenType::Greater => matches!(actual, TokenType::Greater),
            TokenType::GreaterEqual => matches!(actual, TokenType::GreaterEqual),
            TokenType::Less => matches!(actual, TokenType::Less),
            TokenType::LessEqual => matches!(actual, TokenType::LessEqual),
            TokenType::Identifier(_) => matches!(actual, TokenType::Identifier(_)),
            TokenType::String(_) => matches!(actual, TokenType::String(_)),
            TokenType::Number(_) => matches!(actual, TokenType::Number(_)),
            TokenType::And => matches!(actual, TokenType::And),
            TokenType::Else => matches!(actual, TokenType::Else),
            TokenType::False => matches!(actual, TokenType::False),
            TokenType::Function => matches!(actual, TokenType::Function),
            TokenType::If => matches!(actual, TokenType::If),
            TokenType::Null => matches!(actual, TokenType::Null),
            TokenType::Or => matches!(actual, TokenType::Or),
            TokenType::Return => matches!(actual, TokenType::Return),
            TokenType::True => matches!(actual, TokenType::True),
            TokenType::Var => matches!(actual, TokenType::Var),
            TokenType::While => matches!(actual, TokenType::While),
            TokenType::Let => matches!(actual, TokenType::Let),
            TokenType::Const => matches!(actual, TokenType::Const),
            TokenType::EOF => false,
        }
    }

    /// Steps over the token at the cursor, unless it is the end of the
    /// stream.
    fn advance(&mut self)
        ensures
            final(self).tokens@ == old(self).tokens@,
            final(self).current == old(self).current + (if at_end(
                token_views(old(self).tokens@),
                old(self).current as int,
            ) {
                0int
            } else {
                1int
            }),
    {
        proof {
            use_type_invariant(&*self);
        }
        if !self.is_at_end() {
            assert(self.current + 1 < self.tokens.len()) by {
                let tokens = token_views(self.tokens@);
                assert(tokens.last().token_type is EOF);
                assert(!(tokens[self.current as int].token_type is EOF));
            }
            self.current = self.current + 1;
        }
    }

    fn is_at_end(&self) -> (ended: bool)
        ensures
            ended == at_end(token_views(self.tokens@), self.current as int),
    {
        matches!(self.peek().token_type, TokenType::EOF)
    }

    fn peek(&self) -> (token: &Token)
        ensures
            self.current < self.tokens@.len(),
            *token == self.tokens@[self.current as int],
    {
        proof {
            use_type_invariant(self);
        }
        &self.tokens[self.current]
    }

    /// The name that the token at the cursor carries, if it is an
    /// identifier.
    fn identifier(&self) -> (name: Option<String>)
        ensures
            match name {
                Some(text) => identifier_at(token_views(self.tokens@), self.current as int)
                    == Some(text@),
                None => identifier_at(token_views(self.tokens@), self.current as int) is None,
            },
    {
        match &self.peek().token_type {
            TokenType::Identifier(name) => Some(name.clone()),
            _ => None,
        }
    }

    /// The operator of `level` that stands at the cursor, if one does.
    fn operator(&self, level: Level) -> (op: Option<BinaryOp>)
        ensures
            op == operator_at(token_views(self.tokens@), self.current as int, level),
    {
        let token_type = &self.peek().token_type;
        match level {
            Level::Or => match token_type {
                TokenType::Or => Some(BinaryOp::Or),
                _ => None,
            },
            Level::And => match token_type {
                TokenType::And => Some(BinaryOp::And),
                _ => None,
            },
            Level::Equality => match token_type {
                TokenType::BangEqual => Some(BinaryOp::NotEqual),
                TokenType::EqualEqual => Some(BinaryOp::Equal),
                _ => None,
            },
            Level::Comparison => match token_type {
                TokenType::Greater => Some(BinaryOp::Greater),
                TokenType::GreaterEqual => Some(BinaryOp::GreaterEqual),
                TokenType::Less => Some(BinaryOp::Less),
                TokenType::LessEqual => Some(BinaryOp::LessEqual),
                _ => None,
            },
            Level::Term => match token_type {
                TokenType::Minus => Some(BinaryOp::Subtract),
                TokenType::Plus => Some(BinaryOp::Add),
                _ => None,
            },
            Level::Factor => match token_type {
                TokenType::Slash => Some(BinaryOp::Divide),
                TokenType::Star => Some(BinaryOp::Multiply),
                _ => None,
            },
        }
    }

    /// Steps over the token at the cursor if it is of the kind of
    /// `token_type`, and fails with `message` otherwise.
    fn consume(&mut self, token_type: &TokenType, message: &str) -> (result: Result<
        (),
        JsEngineError,
    >)
        ensures
            final(self).tokens@ == old(self).tokens@,
            match result {
                Ok(()) => expect(
                    token_views(old(self).tokens@),
                    old(self).current as int,
                    token_type@,
                    message@,
                ) == Ok::<int, ErrorView>(final(self).current as int),
                Err(e) => expect(
                    token_views(old(self).tokens@),
                    old(self).current as int,
                    token_type@,
                    message@,
                ) == Err::<int, ErrorView>(e@),
            },
    {
        if self.check(token_type) {
            self.advance();
            Ok(())
        } else {
            Err(self.error(message))
        }
    }

    /// The error that reports `message` at the token at the cursor.
    fn error(&self, message: &str) -> (e: JsEngineError)
        ensures
            e@ == error_at(token_views(self.tokens@), self.current as int, message@),
    {
        let token = self.peek();
        JsEngineError::ParserError {
            line: token.line,
            column: token.column,
            message: String::from_str(message),
        }
    }
}

} // verus!
