//! What the syntax tree is: the mathematical value behind each node.
use vstd::prelude::*;
use crate::parser::{Expr, Function, Program, Stmt, TypeName};

verus! {

/// What an [`Expr`] is.
pub enum ExprView {
    Number(i64),
    StringLiteral(Seq<char>),
    Var(Seq<char>),
    Binary(Box<ExprView>, Seq<char>, Box<ExprView>),
    Call(Seq<char>, Seq<ExprView>),
}

/// What a [`Stmt`] is.
pub enum StmtView {
    Let(Seq<char>, TypeName, ExprView),
    ExprStmt(ExprView),
    Return(ExprView),
    If(ExprView, Seq<StmtView>, Seq<StmtView>),
}

/// What a [`Function`] is.
pub struct FunctionView {
    pub name: Seq<char>,
    pub params: Seq<(Seq<char>, TypeName)>,
    pub ret_type: TypeName,
    pub body: Seq<StmtView>,
}

/// What a [`Program`] is.
pub struct ProgramView {
    pub funcs: Seq<FunctionView>,
}

/// What an expression is: the same tree, with texts as sequences of
/// characters.
pub open spec fn expr_view(e: Expr) -> ExprView
    decreases e, 0nat,
{
    match e {
        Expr::Number(n) => ExprView::Number(n),
        Expr::StringLiteral(s) => ExprView::StringLiteral(s@),
        Expr::Var(name) => ExprView::Var(name@),
        Expr::Binary(left, op, right) => ExprView::Binary(
            Box::new(expr_view(*left)),
            op@,
            Box::new(expr_view(*right)),
        ),
        Expr::Call(name, args) => ExprView::Call(name@, exprs_view(args)),
    }
}

/// What a list of expressions is: the view of each, in order.
pub open spec fn exprs_view(es: Vec<Expr>) -> Seq<ExprView>
    decreases es, 1nat,
{
    Seq::new(
        es@.len(),
        |i: int|
            if 0 <= i < es@.len() {
                expr_view(es@[i])
            } else {
                ExprView::Number(0)
            },
    )
}

/// What a statement is: the same tree, with texts as sequences of
/// characters.
pub open spec fn stmt_view(s: Stmt) -> StmtView
    decreases s, 0nat,
{
    match s {
        Stmt::Let(name, t, init) => StmtView::Let(name@, t, init@),
        Stmt::ExprStmt(e) => StmtView::ExprStmt(e@),
        Stmt::Return(e) => StmtView::Return(e@),
        Stmt::If(cond, then_body, else_body) => StmtView::If(
            cond@,
            stmts_view(then_body),
            stmts_view(else_body),
        ),
    }
}

/// What a list of statements is: the view of each, in order.
pub open spec fn stmts_view(ss: Vec<Stmt>) -> Seq<StmtView>
    decreases ss, 1nat,
{
    Seq::new(
        ss@.len(),
        |i: int|
            if 0 <= i < ss@.len() {
                stmt_view(ss@[i])
            } else {
                StmtView::ExprStmt(ExprView::Number(0))
            },
    )
}

/// What a list of parameters is: the text of each name with its type.
pub open spec fn params_view(ps: Vec<(String, TypeName)>) -> Seq<(Seq<char>, TypeName)> {
    Seq::new(ps@.len(), |i: int| (ps@[i].0@, ps@[i].1))
}

/// What a list of functions is: the view of each, in order.
pub open spec fn functions_view(fs: Vec<Function>) -> Seq<FunctionView> {
    Seq::new(fs@.len(), |i: int| fs@[i]@)
}

impl View for Expr {
    type V = ExprView;

    open spec fn view(&self) -> ExprView {
        expr_view(*self)
    }
}

impl View for Stmt {
    type V = StmtView;

    open spec fn view(&self) -> StmtView {
        stmt_view(*self)
    }
}

impl View for Function {
    type V = FunctionView;

    open spec fn view(&self) -> FunctionView {
        FunctionView {
            name: self.name@,
            params: params_view(self.params),
            ret_type: self.ret_type,
            body: stmts_view(self.body),
        }
    }
}

impl View for Program {
    type V = ProgramView;

    open spec fn view(&self) -> ProgramView {
        ProgramView { funcs: functions_view(self.funcs) }
    }
}

/// A list with one more expression at its end is the old list's view with
/// the view of that expression at its end.
pub proof fn lemma_exprs_view_push(before: Vec<Expr>, after: Vec<Expr>, e: Expr)
    requires
        after@ == before@.push(e),
    ensures
        exprs_view(after) == exprs_view(before).push(e@),
{
    assert(exprs_view(after) =~= exprs_view(before).push(e@));
}

/// A list with one more statement at its end is the old list's view with the
/// view of that statement at its end.
pub proof fn lemma_stmts_view_push(before: Vec<Stmt>, after: Vec<Stmt>, s: Stmt)
    requires
        after@ == before@.push(s),
    ensures
        stmts_view(after) == stmts_view(before).push(s@),
{
    assert(stmts_view(after) =~= stmts_view(before).push(s@));
}

} // verus!
