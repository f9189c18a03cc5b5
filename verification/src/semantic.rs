//! The semantic analyzer: type-checks a syntax tree and lowers it to the
//! intermediate representation that code generation reads.
use vstd::prelude::*;
use crate::parser::{Expr, Function, Program, Stmt, TypeName};
use crate::ast::{ExprView, ProgramView, exprs_view, stmts_view, params_view, functions_view};
use crate::ir::{
    IRView,
    IRFunctionView,
    SemanticErrorView,
    ir_exprs_view,
    irs_view,
    ir_functions_view,
};
use crate::text::text_is;
use crate::scoping::{program_resolves, lemma_accepted_program_resolves};
use crate::typing;
use crate::typing::{Scope, Lowered};

verus! {

/// An expression of the intermediate representation.
#[derive(Debug, PartialEq)]
pub enum IRExpr {
    Var(String),
    Int(i64),
    Str(String),
    Binary(Box<IRExpr>, String, Box<IRExpr>),
    Call(String, Vec<IRExpr>),
}

/// An instruction of the intermediate representation.
#[derive(Debug, PartialEq)]
pub enum IR {
    /// Evaluate the expression and store its value in the named variable.
    StoreVar(String, IRExpr),
    /// Evaluate the expression and leave the function with its value.
    Return(IRExpr),
    /// Evaluate the condition; run the first list if it is not zero, the
    /// second if it is.
    If(IRExpr, Vec<IR>, Vec<IR>),
    /// Write the string that the expression evaluates to, and a line break.
    Println(IRExpr),
    /// Call the named function and discard its result.
    CallFunc(String, Vec<IRExpr>),
}

impl Clone for IRExpr {
    /// A copy of the expression: the same tree.
    fn clone(&self) -> (copy: Self)
        ensures
            copy@ == self@,
        decreases self,
    {
        match self {
            IRExpr::Var(name) => IRExpr::Var(name.clone()),
            IRExpr::Int(n) => IRExpr::Int(*n),
            IRExpr::Str(s) => IRExpr::Str(s.clone()),
            IRExpr::Binary(left, op, right) => IRExpr::Binary(
                Box::new((**left).clone()),
                op.clone(),
                Box::new((**right).clone()),
            ),
            IRExpr::Call(name, args) => IRExpr::Call(name.clone(), clone_ir_exprs(args)),
        }
    }
}

/// A copy of each expression of `args`, in order.
fn clone_ir_exprs(args: &Vec<IRExpr>) -> (copies: Vec<IRExpr>)
    ensures
        ir_exprs_view(copies) == ir_exprs_view(*args),
    decreases args,
{
    let mut copies: Vec<IRExpr> = Vec::new();
    let mut i: usize = 0;
    while i < args.len()
        invariant
            i <= args.len(),
            copies.len() == i,
            forall|k: int| 0 <= k < i ==> (#[trigger] copies@[k])@ == args@[k]@,
        decreases args.len() - i,
    {
        copies.push(args[i].clone());
        i += 1;
    }
    assert(ir_exprs_view(copies) =~= ir_exprs_view(*args));
    copies
}

impl Clone for IR {
    /// A copy of the instruction: the same tree.
    fn clone(&self) -> (copy: Self)
        ensures
            copy@ == self@,
        decreases self,
    {
        match self {
            IR::StoreVar(name, value) => IR::StoreVar(name.clone(), value.clone()),
            IR::Return(value) => IR::Return(value.clone()),
            IR::If(cond, then_body, else_body) => IR::If(
                cond.clone(),
                clone_irs(then_body),
                clone_irs(else_body),
            ),
            IR::Println(value) => IR::Println(value.clone()),
            IR::CallFunc(name, args) => IR::CallFunc(name.clone(), clone_ir_exprs(args)),
        }
    }
}

/// A copy of each instruction of `stmts`, in order.
fn clone_irs(stmts: &Vec<IR>) -> (copies: Vec<IR>)
    ensures
        irs_view(copies) == irs_view(*stmts),
    decreases stmts,
{
    let mut copies: Vec<IR> = Vec::new();
    let mut i: usize = 0;
    while i < stmts.len()
        invariant
            i <= stmts.len(),
            copies.len() == i,
            forall|k: int| 0 <= k < i ==> (#[trigger] copies@[k])@ == stmts@[k]@,
        decreases stmts.len() - i,
    {
        copies.push(stmts[i].clone());
        i += 1;
    }
    assert(irs_view(copies) =~= irs_view(*stmts));
    copies
}

/// A lowered function.
#[derive(Debug, Clone, PartialEq)]
pub struct IRFunction {
    pub name: String,
    pub params: Vec<(String, TypeName)>,
    pub ret_type: TypeName,
    pub body: Vec<IR>,
}

/// A lowered program: its functions in the order of their declaration.
#[derive(Debug, Clone, PartialEq)]
pub struct IRProgram {
    pub funcs: Vec<IRFunction>,
}

/// Why a program is rejected.
#[allow(inconsistent_fields)]
#[derive(Debug, Clone, PartialEq)]
pub enum SemanticError {
    /// A variable is read that no parameter and no earlier `let` of the
    /// function declares.
    UnknownVariable(String),
    /// A function is called that is neither declared in the program nor built
    /// in.
    UnknownFunction(String),
    /// A call passes another number of arguments than the function has
    /// parameters.
    ArityMismatch { name: String, expected: usize, found: usize },
    /// The argument at `index` of a call has another type than the parameter
    /// it is passed for.
    ArgumentTypeMismatch { name: String, index: usize, expected: TypeName, found: TypeName },
    /// The initializer of a `let` has another type than the annotation.
    LetTypeMismatch { name: String, expected: TypeName, found: TypeName },
    /// A returned expression has another type than the function declares.
    ReturnTypeMismatch { expected: TypeName, found: TypeName },
    /// The condition of an `if` is not an integer.
    ConditionNotInt { found: TypeName },
    /// A binary operator is applied to operands that are neither two
    /// integers nor, for `+`, two strings.
    OperandsNotInt { op: String },
    /// `println` is called as a statement with another number of arguments
    /// than one.
    PrintlnArity { found: usize },
    /// `println` is called as a statement with an argument that is not a
    /// string.
    PrintlnNotString { found: TypeName },
}

/// The variables that a list of bindings brings in sight: each name with
/// the type of its last binding.
pub open spec fn bindings(entries: Seq<(String, TypeName)>) -> Scope
    decreases entries.len(),
{
    if entries.len() == 0 {
        Map::empty()
    } else {
        bindings(entries.drop_last()).insert(entries.last().0@, entries.last().1)
    }
}

/// The symbol table of one function: the variables in sight, each with its
/// type. It is flat: a binding stays until the end of the function, and a
/// second binding of a name replaces the first.
pub struct SymbolTable {
    entries: Vec<(String, TypeName)>,
}

impl View for SymbolTable {
    type V = Scope;

    closed spec fn view(&self) -> Scope {
        bindings(self.entries@)
    }
}

impl SymbolTable {
    /// A table without variables.
    pub fn new() -> (table: Self)
        ensures
            table@ == Map::<Seq<char>, TypeName>::empty(),
    {
        SymbolTable { entries: Vec::new() }
    }

    /// Binds `name` to the type `t`, in place of any earlier binding of it.
    pub fn insert(&mut self, name: String, t: TypeName)
        ensures
            final(self)@ == old(self)@.insert(name@, t),
    {
        self.entries.push((name, t));
        assert(self.entries@.drop_last() =~= old(self).entries@);
    }

    /// The type that `name` is bound to, if it is bound.
    pub fn get(&self, name: &String) -> (found: Option<TypeName>)
        ensures
            match found {
                Some(t) => self@.contains_key(name@) && self@[name@] == t,
                None => !self@.contains_key(name@),
            },
    {
        let mut i = self.entries.len();
        assert(self.entries@.take(i as int) =~= self.entries@);
        while i > 0
            invariant
                i <= self.entries.len(),
                self@.contains_key(name@) == bindings(self.entries@.take(i as int)).contains_key(
                    name@,
                ),
                self@.contains_key(name@) ==> self@[name@] == bindings(
                    self.entries@.take(i as int),
                )[name@],
            decreases i,
        {
            i -= 1;
            assert(self.entries@.take(i + 1).drop_last() =~= self.entries@.take(i as int));
            if self.entries[i].0 == *name {
                return Some(self.entries[i].1);
            }
        }
        None
    }
}

/// The analyzer of one program. It holds the program's functions, against
/// which calls are resolved.
pub struct SemanticAnalyzer {
    functions: Vec<Function>,
}

impl SemanticAnalyzer {
    /// The program that is analyzed.
    pub closed spec fn program(&self) -> ProgramView {
        ProgramView { funcs: functions_view(self.functions) }
    }

    /// An analyzer for `program`.
    pub fn new(program: Program) -> (analyzer: Self)
        ensures
            analyzer.program() == program@,
    {
        SemanticAnalyzer { functions: program.funcs }
    }

    /// Whether `name` is one of the built-in functions.
    fn is_builtin(name: &String) -> (b: bool)
        ensures
            b == typing::is_builtin(name@),
    {
        text_is(name.as_str(), "println") || text_is(name.as_str(), "print")
    }

    /// The declaration that calls of `name` refer to, if there is one.
    fn find(&self, name: &String) -> (found: Option<&Function>)
        ensures
            match typing::find_function(self.program().funcs, name@) {
                Some(f) => found is Some && found->Some_0@ == f,
                None => found is None,
            },
    {
        let ghost funcs = self.program().funcs;
        let mut i = self.functions.len();
        assert(funcs.take(i as int) =~= funcs);
        while i > 0
            invariant
                i <= self.functions.len(),
                funcs == self.program().funcs,
                typing::find_function(funcs, name@) == typing::find_function(
                    funcs.take(i as int),
                    name@,
                ),
            decreases i,
        {
            i -= 1;
            assert(funcs.take(i + 1).drop_last() =~= funcs.take(i as int));
            assert(funcs.take(i + 1).last() == self.functions@[i as int]@);
            if self.functions[i].name == *name {
                return Some(&self.functions[i]);
            }
        }
        None
    }

    /// The type of `expr` where the variables of `scope` are in sight, or the
    /// first error in it.
    fn expr_type(&self, expr: &Expr, scope: &SymbolTable) -> (r: Result<TypeName, SemanticError>)
        ensures
            match typing::type_of(expr@, scope@, self.program().funcs) {
                Ok(t) => r is Ok && r->Ok_0 == t,
                Err(e) => r is Err && r->Err_0@ == e,
            },
        decreases expr,
    {
        let ghost funcs = self.program().funcs;
        match expr {
            Expr::Number(_) => Ok(TypeName::Int),
            Expr::StringLiteral(_) => Ok(TypeName::String),
            Expr::Var(name) => match scope.get(name) {
                Some(t) => Ok(t),
                None => Err(SemanticError::UnknownVariable(name.clone())),
            },
            Expr::Binary(left, op, right) => {
                let lt = match self.expr_type(left, scope) {
                    Ok(t) => t,
                    Err(e) => {
                        return Err(e);
                    },
                };
                let rt = match self.expr_type(right, scope) {
                    Ok(t) => t,
                    Err(e) => {
                        return Err(e);
                    },
                };
                if text_is(op.as_str(), "+") && lt == TypeName::String && rt == TypeName::String {
                    Ok(TypeName::String)
                } else if lt == TypeName::Int && rt == TypeName::Int {
                    Ok(TypeName::Int)
                } else {
                    Err(SemanticError::OperandsNotInt { op: op.clone() })
                }
            },
            Expr::Call(name, args) => {
                let ghost arg_views = exprs_view(*args);
                if Self::is_builtin(name) {
                    let mut i: usize = 0;
                    while i < args.len()
                        invariant
                            i <= args.len(),
                            expr is Call,
                            expr->Call_1 == *args,
                            arg_views == exprs_view(*args),
                            funcs == self.program().funcs,
                            expr@ == ExprView::Call(name@, arg_views),
                            typing::is_builtin(name@),
                            typing::check_each(arg_views, 0, scope@, funcs) == typing::check_each(
                                arg_views,
                                i as int,
                                scope@,
                                funcs,
                            ),
                        decreases args.len() - i,
                    {
                        match self.expr_type(&args[i], scope) {
                            Ok(_) => {},
                            Err(e) => {
                                return Err(e);
                            },
                        }
                        i += 1;
                    }
                    return Ok(TypeName::Int);
                }
                let callee = match self.find(name) {
                    Some(f) => f,
                    None => {
                        return Err(SemanticError::UnknownFunction(name.clone()));
                    },
                };
                if callee.params.len() != args.len() {
                    return Err(
                        SemanticError::ArityMismatch {
                            name: name.clone(),
                            expected: callee.params.len(),
                            found: args.len(),
                        },
                    );
                }
                let ghost params = params_view(callee.params);
                let mut i: usize = 0;
                while i < args.len()
                    invariant
                        i <= args.len(),
                        expr is Call,
                        expr->Call_1 == *args,
                        expr->Call_0 == *name,
                        arg_views == exprs_view(*args),
                        funcs == self.program().funcs,
                        params == params_view(callee.params),
                        callee.params.len() == args.len(),
                        expr@ == ExprView::Call(name@, arg_views),
                        !typing::is_builtin(name@),
                        typing::find_function(funcs, name@) == Some(callee@),
                        typing::check_args(name@, arg_views, params, 0, scope@, funcs)
                            == typing::check_args(
                            name@,
                            arg_views,
                            params,
                            i as int,
                            scope@,
                            funcs,
                        ),
                    decreases args.len() - i,
                {
                    let found = match self.expr_type(&args[i], scope) {
                        Ok(t) => t,
                        Err(e) => {
                            return Err(e);
                        },
                    };
                    let expected = callee.params[i].1;
                    if found != expected {
                        return Err(
                            SemanticError::ArgumentTypeMismatch {
                                name: name.clone(),
                                index: i,
                                expected,
                                found,
                            },
                        );
                    }
                    i += 1;
                }
                Ok(callee.ret_type)
            },
        }
    }

    /// The lowered form of `expr`.
    fn lower(expr: &Expr) -> (r: IRExpr)
        ensures
            r@ == typing::lower_expr(expr@),
        decreases expr,
    {
        match expr {
            Expr::Number(n) => IRExpr::Int(*n),
            Expr::StringLiteral(s) => IRExpr::Str(s.clone()),
            Expr::Var(name) => IRExpr::Var(name.clone()),
            Expr::Binary(left, op, right) => IRExpr::Binary(
                Box::new(Self::lower(left)),
                op.clone(),
                Box::new(Self::lower(right)),
            ),
            Expr::Call(name, args) => {
                let lowered = Self::lower_all(args);
                IRExpr::Call(name.clone(), lowered)
            },
        }
    }

    /// The lowered form of each expression of `args`, in order.
    fn lower_all(args: &Vec<Expr>) -> (r: Vec<IRExpr>)
        ensures
            ir_exprs_view(r) == typing::lower_exprs(exprs_view(*args)),
        decreases args,
    {
        let mut lowered: Vec<IRExpr> = Vec::new();
        let mut i: usize = 0;
        while i < args.len()
            invariant
                i <= args.len(),
                lowered.len() == i,
                forall|k: int|
                    0 <= k < i ==> (#[trigger] lowered@[k])@ == typing::lower_expr(args@[k]@),
            decreases args.len() - i,
        {
            lowered.push(Self::lower(&args[i]));
            i += 1;
        }
        assert(ir_exprs_view(lowered) =~= typing::lower_exprs(exprs_view(*args)));
        lowered
    }

    /// Checks `expr` where the variables of `scope` are in sight, and lowers
    /// it.
    fn analyze_expr(&self, expr: &Expr, scope: &SymbolTable) -> (r: Result<IRExpr, SemanticError>)
        ensures
            match typing::type_of(expr@, scope@, self.program().funcs) {
                Ok(_) => r is Ok && r->Ok_0@ == typing::lower_expr(expr@),
                Err(e) => r is Err && r->Err_0@ == e,
            },
    {
        match self.expr_type(expr, scope) {
            Ok(_) => Ok(Self::lower(expr)),
            Err(e) => Err(e),
        }
    }

    /// Checks an expression used as a statement, and lowers it.
    fn analyze_expr_stmt(&self, expr: &Expr, scope: &SymbolTable) -> (r: Result<IR, SemanticError>)
        ensures
            match typing::analyze_expr_stmt(expr@, scope@, self.program().funcs) {
                Ok(code) => r is Ok && r->Ok_0@ == code,
                Err(e) => r is Err && r->Err_0@ == e,
            },
    {
        match expr {
            Expr::Call(name, args) => {
                proof {
                    assert(expr@ == ExprView::Call(name@, exprs_view(*args)));
                    assert(exprs_view(*args).len() == args.len());
                    if args.len() > 0 {
                        assert(exprs_view(*args)[0] == args@[0]@);
                    }
                }
                if text_is(name.as_str(), "println") {
                    if args.len() != 1 {
                        return Err(SemanticError::PrintlnArity { found: args.len() });
                    }
                    let found = match self.expr_type(&args[0], scope) {
                        Ok(t) => t,
                        Err(e) => {
                            return Err(e);
                        },
                    };
                    if found != TypeName::String {
                        return Err(SemanticError::PrintlnNotString { found });
                    }
                    Ok(IR::Println(Self::lower(&args[0])))
                } else {
                    match self.expr_type(expr, scope) {
                        Ok(_) => Ok(IR::CallFunc(name.clone(), Self::lower_all(args))),
                        Err(e) => Err(e),
                    }
                }
            },
            _ => match self.expr_type(expr, scope) {
                Ok(_) => Ok(IR::StoreVar(String::from_str("_expr_tmp"), Self::lower(expr))),
                Err(e) => Err(e),
            },
        }
    }

    /// Checks a statement where the variables of `scope` are in sight, lowers
    /// it, and brings in sight the variables that it declares.
    fn analyze_stmt(&self, stmt: &Stmt, scope: &mut SymbolTable, expected_ret: TypeName) -> (r:
        Result<IR, SemanticError>)
        ensures
            match typing::analyze_stmt(stmt@, old(scope)@, self.program().funcs, expected_ret) {
                Ok(lowered) => r is Ok && r->Ok_0@ == lowered.code && final(scope)@
                    == lowered.scope,
                Err(e) => r is Err && r->Err_0@ == e,
            },
        decreases stmt,
    {
        match stmt {
            Stmt::Let(name, t, init) => {
                let found = match self.expr_type(init, scope) {
                    Ok(found) => found,
                    Err(e) => {
                        return Err(e);
                    },
                };
                if found != *t {
                    return Err(
                        SemanticError::LetTypeMismatch {
                            name: name.clone(),
                            expected: *t,
                            found,
                        },
                    );
                }
                let value = Self::lower(init);
                scope.insert(name.clone(), *t);
                Ok(IR::StoreVar(name.clone(), value))
            },
            Stmt::Return(value) => {
                let found = match self.expr_type(value, scope) {
                    Ok(found) => found,
                    Err(e) => {
                        return Err(e);
                    },
                };
                if found != expected_ret {
                    return Err(
                        SemanticError::ReturnTypeMismatch { expected: expected_ret, found },
                    );
                }
                Ok(IR::Return(Self::lower(value)))
            },
            Stmt::ExprStmt(e) => self.analyze_expr_stmt(e, scope),
            Stmt::If(cond, then_body, else_body) => {
                let found = match self.expr_type(cond, scope) {
                    Ok(found) => found,
                    Err(e) => {
                        return Err(e);
                    },
                };
                if found != TypeName::Int {
                    return Err(SemanticError::ConditionNotInt { found });
                }
                let cond_ir = Self::lower(cond);
                let then_ir = match self.analyze_block(then_body, scope, expected_ret) {
                    Ok(code) => code,
                    Err(e) => {
                        return Err(e);
                    },
                };
                let else_ir = match self.analyze_block(else_body, scope, expected_ret) {
                    Ok(code) => code,
                    Err(e) => {
                        return Err(e);
                    },
                };
                Ok(IR::If(cond_ir, then_ir, else_ir))
            },
        }
    }

    /// Checks and lowers the statements of a block, one after another.
    fn analyze_block(&self, stmts: &Vec<Stmt>, scope: &mut SymbolTable, expected_ret: TypeName)
        -> (r: Result<Vec<IR>, SemanticError>)
        ensures
            match typing::analyze_block(
                stmts_view(*stmts),
                0,
                old(scope)@,
                self.program().funcs,
                expected_ret,
            ) {
                Ok(lowered) => r is Ok && irs_view(r->Ok_0) == lowered.code && final(scope)@
                    == lowered.scope,
                Err(e) => r is Err && r->Err_0@ == e,
            },
        decreases stmts,
    {
        let ghost funcs = self.program().funcs;
        let ghost views = stmts_view(*stmts);
        let ghost whole = typing::analyze_block(views, 0, scope@, funcs, expected_ret);
        let mut code: Vec<IR> = Vec::new();
        let mut i: usize = 0;
        proof {
            assert(irs_view(code) =~= Seq::<IRView>::empty());
            if let Ok(rest) = whole {
                assert(irs_view(code) + rest.code =~= rest.code);
            }
        }
        while i < stmts.len()
            invariant
                i <= stmts.len(),
                funcs == self.program().funcs,
                views == stmts_view(*stmts),
                whole == typing::analyze_block(views, 0, old(scope)@, funcs, expected_ret),
                whole == after_code(
                    irs_view(code),
                    typing::analyze_block(views, i as int, scope@, funcs, expected_ret),
                ),
            decreases stmts.len() - i,
        {
            let ghost before = code;
            let ghost scope_before = scope@;
            let ir = match self.analyze_stmt(&stmts[i], scope, expected_ret) {
                Ok(ir) => ir,
                Err(e) => {
                    return Err(e);
                },
            };
            code.push(ir);
            i += 1;
            proof {
                assert(irs_view(code) =~= irs_view(before).push(ir@));
                if let Ok(rest) = typing::analyze_block(
                    views,
                    i as int,
                    scope@,
                    funcs,
                    expected_ret,
                ) {
                    assert(irs_view(before) + (seq![ir@] + rest.code) =~= irs_view(code)
                        + rest.code);
                }
            }
        }
        proof {
            assert(irs_view(code) + Seq::<IRView>::empty() =~= irs_view(code));
        }
        Ok(code)
    }

    /// Checks and lowers one function of the program.
    fn analyze_function(&self, f: &Function) -> (r: Result<IRFunction, SemanticError>)
        ensures
            match typing::analyze_function(f@, self.program().funcs) {
                Ok(lowered) => r is Ok && r->Ok_0@ == lowered,
                Err(e) => r is Err && r->Err_0@ == e,
            },
    {
        let ghost declared = params_view(f.params);
        let mut scope = SymbolTable::new();
        let mut params: Vec<(String, TypeName)> = Vec::new();
        let mut i: usize = 0;
        assert(declared.take(0) =~= Seq::<(Seq<char>, TypeName)>::empty());
        while i < f.params.len()
            invariant
                i <= f.params.len(),
                declared == params_view(f.params),
                scope@ == typing::param_scope(declared.take(i as int)),
                params_view(params) == declared.take(i as int),
            decreases f.params.len() - i,
        {
            let ghost before = params;
            let name = &f.params[i].0;
            let t = f.params[i].1;
            scope.insert(name.clone(), t);
            params.push((name.clone(), t));
            i += 1;
            proof {
                assert(declared.take(i as int).drop_last() =~= declared.take(i - 1));
                assert(params_view(params) =~= declared.take(i as int));
            }
        }
        assert(declared.take(i as int) =~= declared);
        match self.analyze_block(&f.body, &mut scope, f.ret_type) {
            Ok(body) => Ok(IRFunction { name: f.name.clone(), params, ret_type: f.ret_type, body }),
            Err(e) => Err(e),
        }
    }

    /// Checks the program and lowers it.
    ///
    /// The lowered program holds one function for each function of the
    /// program, under the same name and in the same order. In it every
    /// variable that is read was bound before, and every call has a target.
    /// The first error met, going through the functions in order and through
    /// each function from its first statement to its last, is the one
    /// returned.
    pub fn analyze(&self) -> (r: Result<IRProgram, SemanticError>)
        ensures
            match typing::analyze_program(self.program()) {
                Ok(lowered) => r is Ok && r->Ok_0@ == lowered,
                Err(e) => r is Err && r->Err_0@ == e,
            },
            r matches Ok(lowered) ==> {
                &&& lowered@.funcs.len() == self.program().funcs.len()
                &&& forall|k: int|
                    0 <= k < lowered@.funcs.len() ==> (#[trigger] lowered@.funcs[k]).name
                        == self.program().funcs[k].name
                &&& program_resolves(lowered@, self.program().funcs)
            },
    {
        proof {
            if typing::analyze_program(self.program()) is Ok {
                typing::lemma_analysis_keeps_declaration_order(self.program());
                lemma_accepted_program_resolves(self.program());
            }
        }
        let ghost declared = self.program().funcs;
        let ghost whole = typing::analyze_functions(declared, 0, declared);
        let mut funcs: Vec<IRFunction> = Vec::new();
        let mut i: usize = 0;
        proof {
            assert(ir_functions_view(funcs) =~= Seq::<IRFunctionView>::empty());
            if let Ok(rest) = whole {
                assert(ir_functions_view(funcs) + rest =~= rest);
            }
        }
        while i < self.functions.len()
            invariant
                i <= self.functions.len(),
                declared == self.program().funcs,
                whole == typing::analyze_functions(declared, 0, declared),
                whole == after_functions(
                    ir_functions_view(funcs),
                    typing::analyze_functions(declared, i as int, declared),
                ),
            decreases self.functions.len() - i,
        {
            let ghost before = funcs;
            let lowered = match self.analyze_function(&self.functions[i]) {
                Ok(lowered) => lowered,
                Err(e) => {
                    return Err(e);
                },
            };
            funcs.push(lowered);
            i += 1;
            proof {
                assert(ir_functions_view(funcs) =~= ir_functions_view(before).push(lowered@));
                if let Ok(rest) = typing::analyze_functions(declared, i as int, declared) {
                    assert(ir_functions_view(before) + (seq![lowered@] + rest)
                        =~= ir_functions_view(funcs) + rest);
                }
            }
        }
        proof {
            assert(ir_functions_view(funcs) + Seq::<IRFunctionView>::empty() =~= ir_functions_view(
                funcs,
            ));
        }
        Ok(IRProgram { funcs })
    }
}

/// Instructions lowered so far, followed by what lowering the rest of a
/// block gives.
pub open spec fn after_code(
    done: Seq<IRView>,
    rest: Result<Lowered<Seq<IRView>>, SemanticErrorView>,
) -> Result<Lowered<Seq<IRView>>, SemanticErrorView> {
    match rest {
        Ok(lowered) => Ok(Lowered { code: done + lowered.code, scope: lowered.scope }),
        Err(e) => Err(e),
    }
}

/// Functions lowered so far, followed by what lowering the rest of the
/// program gives.
pub open spec fn after_functions(
    done: Seq<IRFunctionView>,
    rest: Result<Seq<IRFunctionView>, SemanticErrorView>,
) -> Result<Seq<IRFunctionView>, SemanticErrorView> {
    match rest {
        Ok(funcs) => Ok(done + funcs),
        Err(e) => Err(e),
    }
}

} // verus!
