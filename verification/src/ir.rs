//! What the intermediate representation is: the mathematical value behind
//! each of its nodes, and behind the errors of the analysis.
use vstd::prelude::*;
use crate::parser::TypeName;
use crate::ast::params_view;
use crate::semantic::{IR, IRExpr, IRFunction, IRProgram, SemanticError};

verus! {

/// What an [`IRExpr`] is.
pub enum IRExprView {
    Var(Seq<char>),
    Int(i64),
    Str(Seq<char>),
    Binary(Box<IRExprView>, Seq<char>, Box<IRExprView>),
    Call(Seq<char>, Seq<IRExprView>),
}

/// What an [`IR`] instruction is.
pub enum IRView {
    StoreVar(Seq<char>, IRExprView),
    Return(IRExprView),
    If(IRExprView, Seq<IRView>, Seq<IRView>),
    Println(IRExprView),
    CallFunc(Seq<char>, Seq<IRExprView>),
}

/// What an [`IRFunction`] is.
pub struct IRFunctionView {
    pub name: Seq<char>,
    pub params: Seq<(Seq<char>, TypeName)>,
    pub ret_type: TypeName,
    pub body: Seq<IRView>,
}

/// What an [`IRProgram`] is.
pub struct IRProgramView {
    pub funcs: Seq<IRFunctionView>,
}

/// What a [`SemanticError`] is.
#[allow(inconsistent_fields)]
pub enum SemanticErrorView {
    UnknownVariable(Seq<char>),
    UnknownFunction(Seq<char>),
    ArityMismatch { name: Seq<char>, expected: usize, found: usize },
    ArgumentTypeMismatch { name: Seq<char>, index: usize, expected: TypeName, found: TypeName },
    LetTypeMismatch { name: Seq<char>, expected: TypeName, found: TypeName },
    ReturnTypeMismatch { expected: TypeName, found: TypeName },
    ConditionNotInt { found: TypeName },
    OperandsNotInt { op: Seq<char> },
    PrintlnArity { found: usize },
    PrintlnNotString { found: TypeName },
}

/// What a lowered expression is: the same tree, with texts as sequences
/// of characters.
pub open spec fn ir_expr_view(e: IRExpr) -> IRExprView
    decreases e, 0nat,
{
    match e {
        IRExpr::Var(name) => IRExprView::Var(name@),
        IRExpr::Int(n) => IRExprView::Int(n),
        IRExpr::Str(s) => IRExprView::Str(s@),
        IRExpr::Binary(left, op, right) => IRExprView::Binary(
            Box::new(ir_expr_view(*left)),
            op@,
            Box::new(ir_expr_view(*right)),
        ),
        IRExpr::Call(name, args) => IRExprView::Call(name@, ir_exprs_view(args)),
    }
}

/// What a list of lowered expressions is: the view of each, in order.
pub open spec fn ir_exprs_view(es: Vec<IRExpr>) -> Seq<IRExprView>
    decreases es, 1nat,
{
    Seq::new(
        es@.len(),
        |i: int|
            if 0 <= i < es@.len() {
                ir_expr_view(es@[i])
            } else {
                IRExprView::Int(0)
            },
    )
}

/// What an instruction is: the same tree, with texts as sequences of
/// characters.
pub open spec fn ir_view(s: IR) -> IRView
    decreases s, 0nat,
{
    match s {
        IR::StoreVar(name, value) => IRView::StoreVar(name@, value@),
        IR::Return(value) => IRView::Return(value@),
        IR::If(cond, then_body, else_body) => IRView::If(
            cond@,
            irs_view(then_body),
            irs_view(else_body),
        ),
        IR::Println(value) => IRView::Println(value@),
        IR::CallFunc(name, args) => IRView::CallFunc(name@, ir_exprs_view(args)),
    }
}

/// What a list of instructions is: the view of each, in order.
pub open spec fn irs_view(ss: Vec<IR>) -> Seq<IRView>
    decreases ss, 1nat,
{
    Seq::new(
        ss@.len(),
        |i: int|
            if 0 <= i < ss@.len() {
                ir_view(ss@[i])
            } else {
                IRView::Return(IRExprView::Int(0))
            },
    )
}

/// What a list of lowered functions is: the view of each, in order.
pub open spec fn ir_functions_view(fs: Vec<IRFunction>) -> Seq<IRFunctionView> {
    Seq::new(fs@.len(), |i: int| fs@[i]@)
}

impl View for IRExpr {
    type V = IRExprView;

    open spec fn view(&self) -> IRExprView {
        ir_expr_view(*self)
    }
}

impl View for IR {
    type V = IRView;

    open spec fn view(&self) -> IRView {
        ir_view(*self)
    }
}

impl View for IRFunction {
    type V = IRFunctionView;

    open spec fn view(&self) -> IRFunctionView {
        IRFunctionView {
            name: self.name@,
            params: params_view(self.params),
            ret_type: self.ret_type,
            body: irs_view(self.body),
        }
    }
}

impl View for IRProgram {
    type V = IRProgramView;

    open spec fn view(&self) -> IRProgramView {
        IRProgramView { funcs: ir_functions_view(self.funcs) }
    }
}

impl View for SemanticError {
    type V = SemanticErrorView;

    open spec fn view(&self) -> SemanticErrorView {
        match self {
            SemanticError::UnknownVariable(name) => SemanticErrorView::UnknownVariable(name@),
            SemanticError::UnknownFunction(name) => SemanticErrorView::UnknownFunction(name@),
            SemanticError::ArityMismatch { name, expected, found } => {
                SemanticErrorView::ArityMismatch { name: name@, expected: *expected, found: *found }
            },
            SemanticError::ArgumentTypeMismatch { name, index, expected, found } => {
                SemanticErrorView::ArgumentTypeMismatch {
                    name: name@,
                    index: *index,
                    expected: *expected,
                    found: *found,
                }
            },
            SemanticError::LetTypeMismatch { name, expected, found } => {
                SemanticErrorView::LetTypeMismatch {
                    name: name@,
                    expected: *expected,
                    found: *found,
                }
            },
            SemanticError::ReturnTypeMismatch { expected, found } => {
                SemanticErrorView::ReturnTypeMismatch { expected: *expected, found: *found }
            },
            SemanticError::ConditionNotInt { found } => SemanticErrorView::ConditionNotInt {
                found: *found,
            },
            SemanticError::OperandsNotInt { op } => SemanticErrorView::OperandsNotInt { op: op@ },
            SemanticError::PrintlnArity { found } => SemanticErrorView::PrintlnArity {
                found: *found,
            },
            SemanticError::PrintlnNotString { found } => SemanticErrorView::PrintlnNotString {
                found: *found,
            },
        }
    }
}

} // verus!
