//! What holds of every parse: the rules of the grammar only move forward,
//! binary operators group to the left, and tighter operators take their
//! operands first.

use crate::ast::{BinaryOp, ExprView, StmtView, UnaryOp};
use crate::grammar::{
    arguments, assignment, at_end, binary, binary_tail, block, block_items, call, call_tail, check,
    declaration, ends_in_sentinel, expect, expression, expression_statement, finish_call,
    function_declaration, function_rest, identifier_at, if_statement, onward, operand,
    operator_at, parameter_list, parameters, prefix_at, primary, return_statement, statement,
    unary, var_declaration, while_statement, Level, Parsed,
};
use crate::lexical::{TokenTypeView, TokenView};
use vstd::prelude::*;

verus! {

/// Where `parsed` succeeds, it ends `least` tokens after `pos` at the
/// least, and at a token of the stream.
pub open spec fn forward<T>(tokens: Seq<TokenView>, pos: int, parsed: Parsed<T>, least: int) -> bool {
    parsed matches Ok((_, next)) ==> pos + least <= next < tokens.len()
}

/// The outcome of a rule that has read `tree` and ends at `next`.
pub open spec fn yields<T>(tree: T, next: int) -> Parsed<T> {
    Ok((tree, next))
}

/// A token that is not the sentinel has a token after it.
proof fn lemma_token_follows(tokens: Seq<TokenView>, pos: int)
    requires
        ends_in_sentinel(tokens),
        !at_end(tokens, pos),
    ensures
        0 <= pos,
        pos + 1 < tokens.len(),
{
    assert(tokens[tokens.len() - 1].token_type is EOF);
}

proof fn lemma_expect(tokens: Seq<TokenView>, pos: int, expected: TokenTypeView, message: Seq<char>)
    requires
        ends_in_sentinel(tokens),
    ensures
        expect(tokens, pos, expected, message) matches Ok(next) ==> 0 <= pos && next == pos + 1
            && next < tokens.len(),
{
    if check(tokens, pos, expected) {
        lemma_token_follows(tokens, pos);
    }
}

proof fn lemma_identifier(tokens: Seq<TokenView>, pos: int)
    requires
        ends_in_sentinel(tokens),
    ensures
        identifier_at(tokens, pos) is Some ==> 0 <= pos && pos + 1 < tokens.len(),
{
    if identifier_at(tokens, pos) is Some {
        lemma_token_follows(tokens, pos);
    }
}

proof fn lemma_parameter_list(tokens: Seq<TokenView>, pos: int, sofar: Seq<Seq<char>>)
    requires
        ends_in_sentinel(tokens),
    ensures
        forward(tokens, pos, parameter_list(tokens, pos, sofar), 1),
    decreases tokens.len() - pos,
{
    lemma_identifier(tokens, pos);
    if let Some(name) = identifier_at(tokens, pos) {
        if check(tokens, pos + 1, TokenTypeView::Comma) {
            lemma_token_follows(tokens, pos + 1);
            lemma_parameter_list(tokens, pos + 2, sofar.push(name));
        }
    }
}

proof fn lemma_parameters(tokens: Seq<TokenView>, pos: int)
    requires
        ends_in_sentinel(tokens),
        0 <= pos < tokens.len(),
    ensures
        forward(tokens, pos, parameters(tokens, pos), 0),
{
    lemma_parameter_list(tokens, pos, Seq::empty());
}

proof fn lemma_declaration(tokens: Seq<TokenView>, pos: int)
    requires
        ends_in_sentinel(tokens),
        0 <= pos < tokens.len(),
    ensures
        forward(tokens, pos, declaration(tokens, pos), 1),
    decreases tokens.len() - pos, 20int,
{
    if check(tokens, pos, TokenTypeView::Var) || check(tokens, pos, TokenTypeView::Let) || check(
        tokens,
        pos,
        TokenTypeView::Const,
    ) {
        lemma_token_follows(tokens, pos);
        lemma_var_declaration(tokens, pos + 1);
    } else if check(tokens, pos, TokenTypeView::Function) {
        lemma_token_follows(tokens, pos);
        lemma_function_declaration(tokens, pos + 1);
    } else {
        lemma_statement(tokens, pos);
    }
}

proof fn lemma_var_declaration(tokens: Seq<TokenView>, pos: int)
    requires
        ends_in_sentinel(tokens),
        0 <= pos < tokens.len(),
    ensures
        forward(tokens, pos, var_declaration(tokens, pos), 1),
    decreases tokens.len() - pos, 0int,
{
    lemma_identifier(tokens, pos);
    if identifier_at(tokens, pos) is Some {
        if check(tokens, pos + 1, TokenTypeView::Equal) {
            lemma_token_follows(tokens, pos + 1);
            lemma_expression(tokens, pos + 2);
            if let Ok((_, next)) = expression(tokens, pos + 2) {
                lemma_expect(
                    tokens,
                    next,
                    TokenTypeView::Semicolon,
                    "Expected ';' after variable declaration."@,
                );
            }
        } else {
            lemma_expect(
                tokens,
                pos + 1,
                TokenTypeView::Semicolon,
                "Expected ';' after variable declaration."@,
            );
        }
    }
}

proof fn lemma_function_declaration(tokens: Seq<TokenView>, pos: int)
    requires
        ends_in_sentinel(tokens),
        0 <= pos < tokens.len(),
    ensures
        forward(tokens, pos, function_declaration(tokens, pos), 1),
    decreases tokens.len() - pos, 0int,
{
    lemma_identifier(tokens, pos);
    if identifier_at(tokens, pos) is Some {
        lemma_function_rest(tokens, pos + 1, "Expected '(' after function name."@);
    }
}

proof fn lemma_function_rest(tokens: Seq<TokenView>, pos: int, message: Seq<char>)
    requires
        ends_in_sentinel(tokens),
        0 <= pos < tokens.len(),
    ensures
        forward(tokens, pos, function_rest(tokens, pos, message), 1),
    decreases tokens.len() - pos, 0int,
{
    lemma_expect(tokens, pos, TokenTypeView::LeftParen, message);
    if let Ok(inside) = expect(tokens, pos, TokenTypeView::LeftParen, message) {
        lemma_parameters(tokens, inside);
        if let Ok((_, close)) = parameters(tokens, inside) {
            lemma_expect(
                tokens,
                close,
                TokenTypeView::RightParen,
                "Expected ')' after parameters."@,
            );
            lemma_expect(
                tokens,
                close + 1,
                TokenTypeView::LeftBrace,
                "Expected '{' before function body."@,
            );
            if close + 2 < tokens.len() {
                lemma_block(tokens, close + 2);
            }
        }
    }
}

proof fn lemma_statement(tokens: Seq<TokenView>, pos: int)
    requires
        ends_in_sentinel(tokens),
        0 <= pos < tokens.len(),
    ensures
        forward(tokens, pos, statement(tokens, pos), 1),
    decreases tokens.len() - pos, 19int,
{
    if check(tokens, pos, TokenTypeView::If) {
        lemma_token_follows(tokens, pos);
        lemma_if_statement(tokens, pos + 1);
    } else if check(tokens, pos, TokenTypeView::While) {
        lemma_token_follows(tokens, pos);
        lemma_while_statement(tokens, pos + 1);
    } else if check(tokens, pos, TokenTypeView::Return) {
        lemma_token_follows(tokens, pos);
        lemma_return_statement(tokens, pos + 1);
    } else if check(tokens, pos, TokenTypeView::LeftBrace) {
        lemma_token_follows(tokens, pos);
        lemma_block(tokens, pos + 1);
    } else {
        lemma_expression_statement(tokens, pos);
    }
}

proof fn lemma_if_statement(tokens: Seq<TokenView>, pos: int)
    requires
        ends_in_sentinel(tokens),
        0 <= pos < tokens.len(),
    ensures
        forward(tokens, pos, if_statement(tokens, pos), 1),
    decreases tokens.len() - pos, 0int,
{
    lemma_expect(tokens, pos, TokenTypeView::LeftParen, "Expected '(' after 'if'."@);
    if pos + 1 < tokens.len() {
        lemma_expression(tokens, pos + 1);
        if let Ok((_, close)) = expression(tokens, pos + 1) {
            lemma_expect(
                tokens,
                close,
                TokenTypeView::RightParen,
                "Expected ')' after if condition."@,
            );
            if close + 1 < tokens.len() {
                lemma_statement(tokens, close + 1);
                if let Ok((_, next)) = statement(tokens, close + 1) {
                    if check(tokens, next, TokenTypeView::Else) {
                        lemma_token_follows(tokens, next);
                        lemma_statement(tokens, next + 1);
                    }
                }
            }
        }
    }
}

proof fn lemma_while_statement(tokens: Seq<TokenView>, pos: int)
    requires
        ends_in_sentinel(tokens),
        0 <= pos < tokens.len(),
    ensures
        forward(tokens, pos, while_statement(tokens, pos), 1),
    decreases tokens.len() - pos, 0int,
{
    lemma_expect(tokens, pos, TokenTypeView::LeftParen, "Expected '(' after 'while'."@);
    if pos + 1 < tokens.len() {
        lemma_expression(tokens, pos + 1);
        if let Ok((_, close)) = expression(tokens, pos + 1) {
            lemma_expect(
                tokens,
                close,
                TokenTypeView::RightParen,
                "Expected ')' after while condition."@,
            );
            if close + 1 < tokens.len() {
                lemma_statement(tokens, close + 1);
            }
        }
    }
}

proof fn lemma_return_statement(tokens: Seq<TokenView>, pos: int)
    requires
        ends_in_sentinel(tokens),
        0 <= pos < tokens.len(),
    ensures
        forward(tokens, pos, return_statement(tokens, pos), 1),
    decreases tokens.len() - pos, 18int,
{
    if check(tokens, pos, TokenTypeView::Semicolon) {
        lemma_token_follows(tokens, pos);
    } else {
        lemma_expression(tokens, pos);
        if let Ok((_, next)) = expression(tokens, pos) {
            lemma_expect(
                tokens,
                next,
                TokenTypeView::Semicolon,
                "Expected ';' after return value."@,
            );
        }
    }
}

proof fn lemma_block(tokens: Seq<TokenView>, pos: int)
    requires
        ends_in_sentinel(tokens),
        0 <= pos < tokens.len(),
    ensures
        forward(tokens, pos, block(tokens, pos), 1),
    decreases tokens.len() - pos, 22int,
{
    lemma_block_items(tokens, pos, Seq::empty());
    if let Ok((_, close)) = block_items(tokens, pos, Seq::empty()) {
        lemma_expect(tokens, close, TokenTypeView::RightBrace, "Expected '}' after block."@);
    }
}

proof fn lemma_block_items(tokens: Seq<TokenView>, pos: int, sofar: Seq<StmtView>)
    requires
        ends_in_sentinel(tokens),
        0 <= pos < tokens.len(),
    ensures
        forward(tokens, pos, block_items(tokens, pos, sofar), 0),
    decreases tokens.len() - pos, 21int,
{
    if !(check(tokens, pos, TokenTypeView::RightBrace) || at_end(tokens, pos)) {
        lemma_declaration(tokens, pos);
        if let Ok((stmt, next)) = declaration(tokens, pos) {
            lemma_block_items(tokens, next, sofar.push(stmt));
        }
    }
}

proof fn lemma_expression_statement(tokens: Seq<TokenView>, pos: int)
    requires
        ends_in_sentinel(tokens),
        0 <= pos < tokens.len(),
    ensures
        forward(tokens, pos, expression_statement(tokens, pos), 1),
    decreases tokens.len() - pos, 18int,
{
    lemma_expression(tokens, pos);
    if let Ok((_, next)) = expression(tokens, pos) {
        lemma_expect(tokens, next, TokenTypeView::Semicolon, "Expected ';' after expression."@);
    }
}

proof fn lemma_expression(tokens: Seq<TokenView>, pos: int)
    requires
        ends_in_sentinel(tokens),
        0 <= pos < tokens.len(),
    ensures
        forward(tokens, pos, expression(tokens, pos), 1),
    decreases tokens.len() - pos, 17int,
{
    lemma_assignment(tokens, pos);
}

proof fn lemma_assignment(tokens: Seq<TokenView>, pos: int)
    requires
        ends_in_sentinel(tokens),
        0 <= pos < tokens.len(),
    ensures
        forward(tokens, pos, assignment(tokens, pos), 1),
    decreases tokens.len() - pos, 16int,
{
    lemma_binary(tokens, pos, Level::Or);
    if let Ok((_, next)) = binary(tokens, pos, Level::Or) {
        if check(tokens, next, TokenTypeView::Equal) {
            lemma_token_follows(tokens, next);
            lemma_assignment(tokens, next + 1);
        }
    }
}

proof fn lemma_binary(tokens: Seq<TokenView>, pos: int, level: Level)
    requires
        ends_in_sentinel(tokens),
        0 <= pos < tokens.len(),
    ensures
        forward(tokens, pos, binary(tokens, pos, level), 1),
    decreases tokens.len() - pos, 5 + 2 * level.rank(),
{
    lemma_operand(tokens, pos, level);
    if let Ok((left, next)) = operand(tokens, pos, level) {
        lemma_binary_tail(tokens, next, level, left);
    }
}

proof fn lemma_operand(tokens: Seq<TokenView>, pos: int, level: Level)
    requires
        ends_in_sentinel(tokens),
        0 <= pos < tokens.len(),
    ensures
        forward(tokens, pos, operand(tokens, pos, level), 1),
    decreases tokens.len() - pos, 4 + 2 * level.rank(),
{
    match level.tighter() {
        Some(next) => lemma_binary(tokens, pos, next),
        None => lemma_unary(tokens, pos),
    }
}

proof fn lemma_binary_tail(tokens: Seq<TokenView>, pos: int, level: Level, left: ExprView)
    requires
        ends_in_sentinel(tokens),
        0 <= pos < tokens.len(),
    ensures
        forward(tokens, pos, binary_tail(tokens, pos, level, left), 0),
    decreases tokens.len() - pos, 0int,
{
    if let Some(op) = operator_at(tokens, pos, level) {
        lemma_token_follows(tokens, pos);
        lemma_operand(tokens, pos + 1, level);
        if let Ok((right, next)) = operand(tokens, pos + 1, level) {
            lemma_binary_tail(
                tokens,
                next,
                level,
                ExprView::Binary(Box::new(left), op, Box::new(right)),
            );
        }
    }
}

proof fn lemma_unary(tokens: Seq<TokenView>, pos: int)
    requires
        ends_in_sentinel(tokens),
        0 <= pos < tokens.len(),
    ensures
        forward(tokens, pos, unary(tokens, pos), 1),
    decreases tokens.len() - pos, 3int,
{
    match prefix_at(tokens, pos) {
        Some(_) => {
            lemma_token_follows(tokens, pos);
            lemma_unary(tokens, pos + 1);
        },
        None => lemma_call(tokens, pos),
    }
}

proof fn lemma_call(tokens: Seq<TokenView>, pos: int)
    requires
        ends_in_sentinel(tokens),
        0 <= pos < tokens.len(),
    ensures
        forward(tokens, pos, call(tokens, pos), 1),
    decreases tokens.len() - pos, 2int,
{
    lemma_primary(tokens, pos);
    if let Ok((callee, next)) = primary(tokens, pos) {
        lemma_call_tail(tokens, next, callee);
    }
}

proof fn lemma_call_tail(tokens: Seq<TokenView>, pos: int, callee: ExprView)
    requires
        ends_in_sentinel(tokens),
        0 <= pos < tokens.len(),
    ensures
        forward(tokens, pos, call_tail(tokens, pos, callee), 0),
    decreases tokens.len() - pos, 0int,
{
    if check(tokens, pos, TokenTypeView::LeftParen) {
        lemma_token_follows(tokens, pos);
        lemma_finish_call(tokens, pos + 1, callee);
        if let Ok((called, next)) = finish_call(tokens, pos + 1, callee) {
            lemma_call_tail(tokens, next, called);
        }
    }
}

proof fn lemma_finish_call(tokens: Seq<TokenView>, pos: int, callee: ExprView)
    requires
        ends_in_sentinel(tokens),
        0 <= pos < tokens.len(),
    ensures
        forward(tokens, pos, finish_call(tokens, pos, callee), 1),
    decreases tokens.len() - pos, 19int,
{
    if check(tokens, pos, TokenTypeView::RightParen) {
        lemma_expect(tokens, pos, TokenTypeView::RightParen, "Expected ')' after arguments."@);
    } else {
        lemma_arguments(tokens, pos, Seq::empty());
        if let Ok((_, close)) = arguments(tokens, pos, Seq::empty()) {
            lemma_expect(
                tokens,
                close,
                TokenTypeView::RightParen,
                "Expected ')' after arguments."@,
            );
        }
    }
}

proof fn lemma_arguments(tokens: Seq<TokenView>, pos: int, sofar: Seq<ExprView>)
    requires
        ends_in_sentinel(tokens),
        0 <= pos < tokens.len(),
    ensures
        forward(tokens, pos, arguments(tokens, pos, sofar), 1),
    decreases tokens.len() - pos, 18int,
{
    lemma_expression(tokens, pos);
    if let Ok((value, next)) = expression(tokens, pos) {
        if check(tokens, next, TokenTypeView::Comma) {
            lemma_token_follows(tokens, next);
            lemma_arguments(tokens, next + 1, sofar.push(value));
        }
    }
}

proof fn lemma_primary(tokens: Seq<TokenView>, pos: int)
    requires
        ends_in_sentinel(tokens),
        0 <= pos < tokens.len(),
    ensures
        forward(tokens, pos, primary(tokens, pos), 1),
    decreases tokens.len() - pos, 1int,
{
    if !at_end(tokens, pos) {
        lemma_token_follows(tokens, pos);
        match tokens[pos].token_type {
            TokenTypeView::LeftParen => {
                lemma_expression(tokens, pos + 1);
                if let Ok((_, close)) = expression(tokens, pos + 1) {
                    lemma_expect(
                        tokens,
                        close,
                        TokenTypeView::RightParen,
                        "Expected ')' after expression."@,
                    );
                }
            },
            TokenTypeView::Function => {
                lemma_function_rest(tokens, pos + 1, "Expected '(' after 'function'."@);
            },
            _ => {},
        }
    }
}

/// The rules of the grammar only move forward. In a stream that ends in
/// the sentinel, a rule that succeeds ends after where it began, at a token
/// of the stream; so a rule that continues after another (see
/// `grammar::onward`) always continues with what the other one yielded.
pub proof fn lemma_rules_move_forward(tokens: Seq<TokenView>, pos: int)
    requires
        ends_in_sentinel(tokens),
        0 <= pos < tokens.len(),
    ensures
        forward(tokens, pos, declaration(tokens, pos), 1),
        forward(tokens, pos, statement(tokens, pos), 1),
        forward(tokens, pos, block(tokens, pos), 1),
        forward(tokens, pos, expression(tokens, pos), 1),
        forward(tokens, pos, unary(tokens, pos), 1),
        forward(tokens, pos, call(tokens, pos), 1),
        forward(tokens, pos, primary(tokens, pos), 1),
        forall|level: Level| forward(tokens, pos, #[trigger] binary(tokens, pos, level), 1),
        forall|level: Level| forward(tokens, pos, #[trigger] operand(tokens, pos, level), 1),
        onward(tokens, pos + 1, declaration(tokens, pos)) == declaration(tokens, pos),
        onward(tokens, pos + 1, statement(tokens, pos)) == statement(tokens, pos),
        onward(tokens, pos + 1, expression(tokens, pos)) == expression(tokens, pos),
        onward(tokens, pos + 1, primary(tokens, pos)) == primary(tokens, pos),
        forall|level: Level|
            onward(tokens, pos + 1, #[trigger] binary(tokens, pos, level)) == binary(
                tokens,
                pos,
                level,
            ),
        forall|level: Level|
            onward(tokens, pos + 1, #[trigger] operand(tokens, pos, level)) == operand(
                tokens,
                pos,
                level,
            ),
{
    lemma_declaration(tokens, pos);
    lemma_statement(tokens, pos);
    lemma_block(tokens, pos);
    lemma_expression(tokens, pos);
    lemma_unary(tokens, pos);
    lemma_call(tokens, pos);
    lemma_primary(tokens, pos);
    assert forall|level: Level| forward(tokens, pos, #[trigger] binary(tokens, pos, level), 1) by {
        lemma_binary(tokens, pos, level);
    }
    assert forall|level: Level| forward(tokens, pos, #[trigger] operand(tokens, pos, level), 1) by {
        lemma_operand(tokens, pos, level);
    }
}

/// Binary operators group to the left: in `x op1 y op2 z`, with both
/// operators of one level, `x op1 y` is the left operand of `op2`.
pub proof fn lemma_binary_groups_left(
    tokens: Seq<TokenView>,
    pos: int,
    level: Level,
    x: ExprView,
    op1: BinaryOp,
    y: ExprView,
    op2: BinaryOp,
    z: ExprView,
    after_x: int,
    after_y: int,
    after_z: int,
)
    requires
        ends_in_sentinel(tokens),
        0 <= pos < tokens.len(),
        operand(tokens, pos, level) == yields(x, after_x),
        operator_at(tokens, after_x, level) == Some(op1),
        operand(tokens, after_x + 1, level) == yields(y, after_y),
        operator_at(tokens, after_y, level) == Some(op2),
        operand(tokens, after_y + 1, level) == yields(z, after_z),
        operator_at(tokens, after_z, level) is None,
    ensures
        binary(tokens, pos, level) == yields(ExprView::Binary(
                    Box::new(ExprView::Binary(Box::new(x), op1, Box::new(y))),
                    op2,
                    Box::new(z),
                ),
                after_z),
{
    lemma_operand(tokens, pos, level);
    lemma_token_follows(tokens, after_x);
    lemma_operand(tokens, after_x + 1, level);
    lemma_token_follows(tokens, after_y);
    lemma_operand(tokens, after_y + 1, level);
    let xy = ExprView::Binary(Box::new(x), op1, Box::new(y));
    let xyz = ExprView::Binary(Box::new(xy), op2, Box::new(z));
    assert(binary_tail(tokens, after_z, level, xyz) == yields(xyz, after_z));
    assert(binary_tail(tokens, after_y, level, xy) == binary_tail(tokens, after_z, level, xyz));
    assert(binary_tail(tokens, after_x, level, x) == binary_tail(tokens, after_y, level, xy));
}

/// `a - b - c` is `(a - b) - c`.
pub proof fn lemma_subtraction_groups_left(
    tokens: Seq<TokenView>,
    pos: int,
    a: ExprView,
    b: ExprView,
    c: ExprView,
    after_a: int,
    after_b: int,
    after_c: int,
)
    requires
        ends_in_sentinel(tokens),
        0 <= pos < tokens.len(),
        operand(tokens, pos, Level::Term) == yields(a, after_a),
        check(tokens, after_a, TokenTypeView::Minus),
        operand(tokens, after_a + 1, Level::Term) == yields(b, after_b),
        check(tokens, after_b, TokenTypeView::Minus),
        operand(tokens, after_b + 1, Level::Term) == yields(c, after_c),
        operator_at(tokens, after_c, Level::Term) is None,
    ensures
        binary(tokens, pos, Level::Term) == yields(ExprView::Binary(
                    Box::new(ExprView::Binary(Box::new(a), BinaryOp::Subtract, Box::new(b))),
                    BinaryOp::Subtract,
                    Box::new(c),
                ),
                after_c),
{
    lemma_binary_groups_left(
        tokens,
        pos,
        Level::Term,
        a,
        BinaryOp::Subtract,
        b,
        BinaryOp::Subtract,
        c,
        after_a,
        after_b,
        after_c,
    );
}

/// An operand of `*` or `/` that no such operator follows is a whole
/// operand of `+` and `-`.
proof fn lemma_lone_factor(tokens: Seq<TokenView>, pos: int, a: ExprView, after_a: int)
    requires
        ends_in_sentinel(tokens),
        0 <= pos < tokens.len(),
        unary(tokens, pos) == yields(a, after_a),
        operator_at(tokens, after_a, Level::Factor) is None,
    ensures
        operand(tokens, pos, Level::Term) == yields(a, after_a),
{
    lemma_unary(tokens, pos);
    assert(operand(tokens, pos, Level::Factor) == unary(tokens, pos));
    assert(binary(tokens, pos, Level::Factor) == binary_tail(tokens, after_a, Level::Factor, a));
}

/// Two operands with `*` between them, and no `*` or `/` after them, are
/// one operand of `+` and `-`: their product.
proof fn lemma_product(
    tokens: Seq<TokenView>,
    pos: int,
    a: ExprView,
    b: ExprView,
    after_a: int,
    after_b: int,
)
    requires
        ends_in_sentinel(tokens),
        0 <= pos < tokens.len(),
        unary(tokens, pos) == yields(a, after_a),
        check(tokens, after_a, TokenTypeView::Star),
        unary(tokens, after_a + 1) == yields(b, after_b),
        operator_at(tokens, after_b, Level::Factor) is None,
    ensures
        operand(tokens, pos, Level::Term) == yields(ExprView::Binary(Box::new(a), BinaryOp::Multiply, Box::new(b)), after_b),
{
    lemma_unary(tokens, pos);
    lemma_token_follows(tokens, after_a);
    lemma_unary(tokens, after_a + 1);
    let ab = ExprView::Binary(Box::new(a), BinaryOp::Multiply, Box::new(b));
    assert(operand(tokens, pos, Level::Factor) == unary(tokens, pos));
    assert(operand(tokens, after_a + 1, Level::Factor) == unary(tokens, after_a + 1));
    assert(binary_tail(tokens, after_b, Level::Factor, ab) == yields(ab, after_b));
    assert(binary_tail(tokens, after_a, Level::Factor, a) == binary_tail(
        tokens,
        after_b,
        Level::Factor,
        ab,
    ));
    assert(binary(tokens, pos, Level::Factor) == binary_tail(tokens, after_a, Level::Factor, a));
}

/// `a + b * c` is `a + (b * c)`: the product is taken before the sum.
pub proof fn lemma_product_before_sum_on_the_right(
    tokens: Seq<TokenView>,
    pos: int,
    a: ExprView,
    b: ExprView,
    c: ExprView,
    after_a: int,
    after_b: int,
    after_c: int,
)
    requires
        ends_in_sentinel(tokens),
        0 <= pos < tokens.len(),
        unary(tokens, pos) == yields(a, after_a),
        check(tokens, after_a, TokenTypeView::Plus),
        unary(tokens, after_a + 1) == yields(b, after_b),
        check(tokens, after_b, TokenTypeView::Star),
        unary(tokens, after_b + 1) == yields(c, after_c),
        operator_at(tokens, after_c, Level::Factor) is None,
        operator_at(tokens, after_c, Level::Term) is None,
    ensures
        binary(tokens, pos, Level::Term) == yields(ExprView::Binary(
                    Box::new(a),
                    BinaryOp::Add,
                    Box::new(ExprView::Binary(Box::new(b), BinaryOp::Multiply, Box::new(c))),
                ),
                after_c),
{
    lemma_unary(tokens, pos);
    lemma_token_follows(tokens, after_a);
    lemma_lone_factor(tokens, pos, a, after_a);
    lemma_product(tokens, after_a + 1, b, c, after_b, after_c);
    let bc = ExprView::Binary(Box::new(b), BinaryOp::Multiply, Box::new(c));
    let sum = ExprView::Binary(Box::new(a), BinaryOp::Add, Box::new(bc));
    lemma_operand(tokens, after_a + 1, Level::Term);
    assert(binary_tail(tokens, after_c, Level::Term, sum) == yields(sum, after_c));
    assert(binary_tail(tokens, after_a, Level::Term, a) == binary_tail(
        tokens,
        after_c,
        Level::Term,
        sum,
    ));
}

/// `a * b + c` is `(a * b) + c`: the product is taken before the sum.
pub proof fn lemma_product_before_sum_on_the_left(
    tokens: Seq<TokenView>,
    pos: int,
    a: ExprView,
    b: ExprView,
    c: ExprView,
    after_a: int,
    after_b: int,
    after_c: int,
)
    requires
        ends_in_sentinel(tokens),
        0 <= pos < tokens.len(),
        unary(tokens, pos) == yields(a, after_a),
        check(tokens, after_a, TokenTypeView::Star),
        unary(tokens, after_a + 1) == yields(b, after_b),
        check(tokens, after_b, TokenTypeView::Plus),
        unary(tokens, after_b + 1) == yields(c, after_c),
        operator_at(tokens, after_c, Level::Factor) is None,
        operator_at(tokens, after_c, Level::Term) is None,
    ensures
        binary(tokens, pos, Level::Term) == yields(ExprView::Binary(
                    Box::new(ExprView::Binary(Box::new(a), BinaryOp::Multiply, Box::new(b))),
                    BinaryOp::Add,
                    Box::new(c),
                ),
                after_c),
{
    lemma_unary(tokens, pos);
    lemma_token_follows(tokens, after_a);
    lemma_unary(tokens, after_a + 1);
    lemma_token_follows(tokens, after_b);
    lemma_product(tokens, pos, a, b, after_a, after_b);
    lemma_lone_factor(tokens, after_b + 1, c, after_c);
    lemma_operand(tokens, after_b + 1, Level::Term);
    let ab = ExprView::Binary(Box::new(a), BinaryOp::Multiply, Box::new(b));
    let sum = ExprView::Binary(Box::new(ab), BinaryOp::Add, Box::new(c));
    assert(binary_tail(tokens, after_c, Level::Term, sum) == yields(sum, after_c));
    assert(binary_tail(tokens, after_b, Level::Term, ab) == binary_tail(
        tokens,
        after_c,
        Level::Term,
        sum,
    ));
}

/// `-a * b` is `(-a) * b`: the sign is taken before the product.
pub proof fn lemma_sign_before_product(
    tokens: Seq<TokenView>,
    pos: int,
    a: ExprView,
    b: ExprView,
    after_a: int,
    after_b: int,
)
    requires
        ends_in_sentinel(tokens),
        0 <= pos < tokens.len(),
        check(tokens, pos, TokenTypeView::Minus),
        unary(tokens, pos + 1) == yields(a, after_a),
        check(tokens, after_a, TokenTypeView::Star),
        unary(tokens, after_a + 1) == yields(b, after_b),
        operator_at(tokens, after_b, Level::Factor) is None,
    ensures
        binary(tokens, pos, Level::Factor) == yields(ExprView::Binary(
                    Box::new(ExprView::Unary(UnaryOp::Negate, Box::new(a))),
                    BinaryOp::Multiply,
                    Box::new(b),
                ),
                after_b),
{
    lemma_token_follows(tokens, pos);
    lemma_unary(tokens, pos + 1);
    let negated = ExprView::Unary(UnaryOp::Negate, Box::new(a));
    assert(unary(tokens, pos) == yields(negated, after_a));
    lemma_product(tokens, pos, negated, b, after_a, after_b);
    assert(operand(tokens, pos, Level::Term) == binary(tokens, pos, Level::Factor));
}

} // verus!
