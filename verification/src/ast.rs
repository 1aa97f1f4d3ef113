//! The syntax tree: expressions and statements, and their mathematical
//! models.

use vstd::prelude::*;

verus! {

/// The operators that take two operands.
#[derive(Debug, Clone, Copy, PartialEq, Eq, Structural)]
pub enum BinaryOp {
    Add,
    Subtract,
    Multiply,
    Divide,
    Equal,
    NotEqual,
    Less,
    LessEqual,
    Greater,
    GreaterEqual,
    And,
    Or,
}

/// The operators that take one operand.
#[derive(Debug, Clone, Copy, PartialEq, Eq, Structural)]
pub enum UnaryOp {
    Negate,
    Not,
}

/// An expression.
#[derive(Debug)]
pub enum Expr {
    /// A number, as the decimal notation in which it was written.
    Number(String),
    String(String),
    Boolean(bool),
    Null,
    /// A reference to a variable by its name.
    Variable(String),
    Binary(Box<Expr>, BinaryOp, Box<Expr>),
    Unary(UnaryOp, Box<Expr>),
    /// A condition, the expression to evaluate where it holds, and the one
    /// to evaluate where it does not.
    Conditional(Box<Expr>, Box<Expr>, Option<Box<Expr>>),
    /// An assignment to the variable of the given name.
    Assign(String, Box<Expr>),
    /// A call: the callee and the arguments.
    Call(Box<Expr>, Vec<Expr>),
    /// A function literal: the names of the parameters and the body.
    Function(Vec<String>, Box<Stmt>),
}

/// A statement.
#[derive(Debug)]
pub enum Stmt {
    Expression(Expr),
    /// The declaration of a variable, with or without an initial value.
    Declaration(String, Option<Expr>),
    Block(Vec<Stmt>),
    If(Expr, Box<Stmt>, Option<Box<Stmt>>),
    While(Expr, Box<Stmt>),
    Return(Option<Expr>),
    /// The declaration of a function: its name, the names of its parameters
    /// and its body.
    Function(String, Vec<String>, Box<Stmt>),
}

/// The mathematical model of an [`Expr`].
pub enum ExprView {
    Number(Seq<char>),
    String(Seq<char>),
    Boolean(bool),
    Null,
    Variable(Seq<char>),
    Binary(Box<ExprView>, BinaryOp, Box<ExprView>),
    Unary(UnaryOp, Box<ExprView>),
    Conditional(Box<ExprView>, Box<ExprView>, Option<Box<ExprView>>),
    Assign(Seq<char>, Box<ExprView>),
    Call(Box<ExprView>, Seq<ExprView>),
    Function(Seq<Seq<char>>, Box<StmtView>),
}

/// The mathematical model of a [`Stmt`].
pub enum StmtView {
    Expression(ExprView),
    Declaration(Seq<char>, Option<ExprView>),
    Block(Seq<StmtView>),
    If(ExprView, Box<StmtView>, Option<Box<StmtView>>),
    While(ExprView, Box<StmtView>),
    Return(Option<ExprView>),
    Function(Seq<char>, Seq<Seq<char>>, Box<StmtView>),
}

/// The models of a sequence of names, one for one.
pub open spec fn name_views(names: Seq<String>) -> Seq<Seq<char>> {
    names.map_values(|name: String| name@)
}

/// The models of a sequence of expressions, one for one.
pub open spec fn expr_views(exprs: Seq<Expr>) -> Seq<ExprView>
    decreases exprs, 0int,
{
    Seq::new(
        exprs.len(),
        |i: int|
            if 0 <= i < exprs.len() {
                exprs[i].model()
            } else {
                ExprView::Null
            },
    )
}

/// The models of a sequence of statements, one for one.
pub open spec fn stmt_views(stmts: Seq<Stmt>) -> Seq<StmtView>
    decreases stmts, 0int,
{
    Seq::new(
        stmts.len(),
        |i: int|
            if 0 <= i < stmts.len() {
                stmts[i].model()
            } else {
                StmtView::Return(None)
            },
    )
}

impl Expr {
    /// The model of the expression.
    pub open spec fn model(&self) -> ExprView
        decreases self, 1int,
    {
        match self {
            Expr::Number(digits) => ExprView::Number(digits@),
            Expr::String(text) => ExprView::String(text@),
            Expr::Boolean(value) => ExprView::Boolean(*value),
            Expr::Null => ExprView::Null,
            Expr::Variable(name) => ExprView::Variable(name@),
            Expr::Binary(left, op, right) => ExprView::Binary(
                Box::new(left.model()),
                *op,
                Box::new(right.model()),
            ),
            Expr::Unary(op, operand) => ExprView::Unary(*op, Box::new(operand.model())),
            Expr::Conditional(condition, then_branch, else_branch) => ExprView::Conditional(
                Box::new(condition.model()),
                Box::new(then_branch.model()),
                match else_branch {
                    Some(branch) => Some(Box::new(branch.model())),
                    None => None,
                },
            ),
            Expr::Assign(name, value) => ExprView::Assign(name@, Box::new(value.model())),
            Expr::Call(callee, arguments) => ExprView::Call(
                Box::new(callee.model()),
                expr_views(arguments@),
            ),
            Expr::Function(parameters, body) => ExprView::Function(
                name_views(parameters@),
                Box::new(body.model()),
            ),
        }
    }
}

impl Stmt {
    /// The model of the statement.
    pub open spec fn model(&self) -> StmtView
        decreases self, 1int,
    {
        match self {
            Stmt::Expression(expr) => StmtView::Expression(expr.model()),
            Stmt::Declaration(name, initializer) => StmtView::Declaration(
                name@,
                match initializer {
                    Some(expr) => Some(expr.model()),
                    None => None,
                },
            ),
            Stmt::Block(statements) => StmtView::Block(stmt_views(statements@)),
            Stmt::If(condition, then_branch, else_branch) => StmtView::If(
                condition.model(),
                Box::new(then_branch.model()),
                match else_branch {
                    Some(branch) => Some(Box::new(branch.model())),
                    None => None,
                },
            ),
            Stmt::While(condition, body) => StmtView::While(
                condition.model(),
                Box::new(body.model()),
            ),
            Stmt::Return(value) => StmtView::Return(
                match value {
                    Some(expr) => Some(expr.model()),
                    None => None,
                },
            ),
            Stmt::Function(name, parameters, body) => StmtView::Function(
                name@,
                name_views(parameters@),
                Box::new(body.model()),
            ),
        }
    }
}

impl View for Expr {
    type V = ExprView;

    open spec fn view(&self) -> ExprView {
        self.model()
    }
}

impl View for Stmt {
    type V = StmtView;

    open spec fn view(&self) -> StmtView {
        self.model()
    }
}

/// Appending an expression to a sequence appends its model to the models.
pub proof fn lemma_expr_views_push(exprs: Seq<Expr>, expr: Expr)
    ensures
        expr_views(exprs.push(expr)) == expr_views(exprs).push(expr@),
{
    assert(expr_views(exprs.push(expr)) =~= expr_views(exprs).push(expr@));
}

/// Appending a statement to a sequence appends its model to the models.
pub proof fn lemma_stmt_views_push(stmts: Seq<Stmt>, stmt: Stmt)
    ensures
        stmt_views(stmts.push(stmt)) == stmt_views(stmts).push(stmt@),
{
    assert(stmt_views(stmts.push(stmt)) =~= stmt_views(stmts).push(stmt@));
}

/// Appending a name to a sequence appends its model to the models.
pub proof fn lemma_name_views_push(names: Seq<String>, name: String)
    ensures
        name_views(names.push(name)) == name_views(names).push(name@),
{
    assert(name_views(names.push(name)) =~= name_views(names).push(name@));
}

} // verus!
