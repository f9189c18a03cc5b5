//! The typing rules of the language and the lowering of a well-typed syntax
//! tree, as functions on the mathematical values of the trees.
use vstd::prelude::*;
use crate::parser::TypeName;
use crate::ast::{ExprView, StmtView, FunctionView, ProgramView};
use crate::ir::{IRExprView, IRView, IRFunctionView, IRProgramView, SemanticErrorView};

verus! {

/// The variables in sight at a point of a function, each with its type.
pub type Scope = Map<Seq<char>, TypeName>;

/// The functions that every program may call without declaring them.
pub open spec fn is_builtin(name: Seq<char>) -> bool {
    name == "println"@ || name == "print"@
}

/// The name under which the value of an expression statement is stored.
pub open spec fn discard_name() -> Seq<char> {
    "_expr_tmp"@
}

/// The declaration that calls of `name` refer to: among several functions
/// of one name, the one declared last.
pub open spec fn find_function(funcs: Seq<FunctionView>, name: Seq<char>) -> Option<FunctionView>
    decreases funcs.len(),
{
    if funcs.len() == 0 {
        None
    } else if funcs.last().name == name {
        Some(funcs.last())
    } else {
        find_function(funcs.drop_last(), name)
    }
}

/// The type of a binary operation on operands of types `left` and `right`:
/// `+` joins two strings into a string; every operator takes two integers to
/// an integer; nothing else is typed.
pub open spec fn binary_type(op: Seq<char>, left: TypeName, right: TypeName) -> Result<
    TypeName,
    SemanticErrorView,
> {
    if op == "+"@ && left == TypeName::String && right == TypeName::String {
        Ok(TypeName::String)
    } else if left == TypeName::Int && right == TypeName::Int {
        Ok(TypeName::Int)
    } else {
        Err(SemanticErrorView::OperandsNotInt { op })
    }
}

/// The type of an expression, or the first error in it.
///
/// Operands are checked left before right, a callee before its arguments,
/// and arguments in order. A call of a built-in function has type `Int`
/// whatever it is passed, as long as each argument is well typed by itself.
pub open spec fn type_of(e: ExprView, scope: Scope, funcs: Seq<FunctionView>) -> Result<
    TypeName,
    SemanticErrorView,
>
    decreases e, 0nat,
{
    match e {
        ExprView::Number(_) => Ok(TypeName::Int),
        ExprView::StringLiteral(_) => Ok(TypeName::String),
        ExprView::Var(name) => {
            if scope.contains_key(name) {
                Ok(scope[name])
            } else {
                Err(SemanticErrorView::UnknownVariable(name))
            }
        },
        ExprView::Binary(left, op, right) => match type_of(*left, scope, funcs) {
            Err(e) => Err(e),
            Ok(lt) => match type_of(*right, scope, funcs) {
                Err(e) => Err(e),
                Ok(rt) => binary_type(op, lt, rt),
            },
        },
        ExprView::Call(name, args) => {
            if is_builtin(name) {
                match check_each(args, 0, scope, funcs) {
                    Some(e) => Err(e),
                    None => Ok(TypeName::Int),
                }
            } else {
                match find_function(funcs, name) {
                    None => Err(SemanticErrorView::UnknownFunction(name)),
                    Some(callee) => {
                        if callee.params.len() != args.len() {
                            Err(
                                SemanticErrorView::ArityMismatch {
                                    name,
                                    expected: callee.params.len() as usize,
                                    found: args.len() as usize,
                                },
                            )
                        } else {
                            match check_args(name, args, callee.params, 0, scope, funcs) {
                                Some(e) => Err(e),
                                None => Ok(callee.ret_type),
                            }
                        }
                    },
                }
            }
        },
    }
}

/// The first error in the expressions `args` from index `i` on, if there is
/// one.
pub open spec fn check_each(args: Seq<ExprView>, i: int, scope: Scope, funcs: Seq<FunctionView>)
    -> Option<SemanticErrorView>
    decreases args, args.len() - i,
{
    if 0 <= i < args.len() {
        match type_of(args[i], scope, funcs) {
            Err(e) => Some(e),
            Ok(_) => check_each(args, i + 1, scope, funcs),
        }
    } else {
        None
    }
}

/// The first error in passing the arguments `args` from index `i` on for the
/// parameters of the function `name`, if there is one: an error in an
/// argument, or an argument of another type than its parameter.
pub open spec fn check_args(
    name: Seq<char>,
    args: Seq<ExprView>,
    params: Seq<(Seq<char>, TypeName)>,
    i: int,
    scope: Scope,
    funcs: Seq<FunctionView>,
) -> Option<SemanticErrorView>
    decreases args, args.len() - i,
{
    if 0 <= i < args.len() {
        match type_of(args[i], scope, funcs) {
            Err(e) => Some(e),
            Ok(found) => {
                if found != params[i].1 {
                    Some(
                        SemanticErrorView::ArgumentTypeMismatch {
                            name,
                            index: i as usize,
                            expected: params[i].1,
                            found,
                        },
                    )
                } else {
                    check_args(name, args, params, i + 1, scope, funcs)
                }
            },
        }
    } else {
        None
    }
}

/// The lowered form of an expression: the same tree, node for node.
pub open spec fn lower_expr(e: ExprView) -> IRExprView
    decreases e, 0nat,
{
    match e {
        ExprView::Number(n) => IRExprView::Int(n),
        ExprView::StringLiteral(s) => IRExprView::Str(s),
        ExprView::Var(name) => IRExprView::Var(name),
        ExprView::Binary(left, op, right) => IRExprView::Binary(
            Box::new(lower_expr(*left)),
            op,
            Box::new(lower_expr(*right)),
        ),
        ExprView::Call(name, args) => IRExprView::Call(name, lower_exprs(args)),
    }
}

/// The lowered form of each expression of a list, in order.
pub open spec fn lower_exprs(es: Seq<ExprView>) -> Seq<IRExprView>
    decreases es, 1nat,
{
    Seq::new(
        es.len(),
        |i: int|
            if 0 <= i < es.len() {
                lower_expr(es[i])
            } else {
                IRExprView::Int(0)
            },
    )
}

/// What the analysis of a piece of a function body gives: its instructions,
/// and the variables in sight after it.
pub struct Lowered<T> {
    pub code: T,
    pub scope: Scope,
}

/// The instruction of an expression used as a statement.
///
/// A call of `println` takes exactly one argument, a string. Any other call
/// is checked as an expression is and lowered to a call whose result is
/// dropped. Any other expression is checked, and its value stored under
/// [`discard_name`].
pub open spec fn analyze_expr_stmt(e: ExprView, scope: Scope, funcs: Seq<FunctionView>) -> Result<
    IRView,
    SemanticErrorView,
> {
    match e {
        ExprView::Call(name, args) => {
            if name == "println"@ {
                if args.len() != 1 {
                    Err(SemanticErrorView::PrintlnArity { found: args.len() as usize })
                } else {
                    match type_of(args[0], scope, funcs) {
                        Err(e) => Err(e),
                        Ok(found) => {
                            if found != TypeName::String {
                                Err(SemanticErrorView::PrintlnNotString { found })
                            } else {
                                Ok(IRView::Println(lower_expr(args[0])))
                            }
                        },
                    }
                }
            } else {
                match type_of(e, scope, funcs) {
                    Err(e) => Err(e),
                    Ok(_) => Ok(IRView::CallFunc(name, lower_exprs(args))),
                }
            }
        },
        _ => match type_of(e, scope, funcs) {
            Err(e) => Err(e),
            Ok(_) => Ok(IRView::StoreVar(discard_name(), lower_expr(e))),
        },
    }
}

/// The instruction of a statement and the variables in sight after it, or
/// the first error in the statement.
///
/// A `let` brings its variable in sight for the rest of the function, also
/// when it stands in a branch of an `if`; a second `let` of a name replaces
/// the first.
pub open spec fn analyze_stmt(
    s: StmtView,
    scope: Scope,
    funcs: Seq<FunctionView>,
    ret: TypeName,
) -> Result<Lowered<IRView>, SemanticErrorView>
    decreases s, 0nat,
{
    match s {
        StmtView::Let(name, t, init) => match type_of(init, scope, funcs) {
            Err(e) => Err(e),
            Ok(found) => {
                if found != t {
                    Err(SemanticErrorView::LetTypeMismatch { name, expected: t, found })
                } else {
                    Ok(
                        Lowered {
                            code: IRView::StoreVar(name, lower_expr(init)),
                            scope: scope.insert(name, t),
                        },
                    )
                }
            },
        },
        StmtView::Return(value) => match type_of(value, scope, funcs) {
            Err(e) => Err(e),
            Ok(found) => {
                if found != ret {
                    Err(SemanticErrorView::ReturnTypeMismatch { expected: ret, found })
                } else {
                    Ok(Lowered { code: IRView::Return(lower_expr(value)), scope })
                }
            },
        },
        StmtView::ExprStmt(e) => match analyze_expr_stmt(e, scope, funcs) {
            Err(e) => Err(e),
            Ok(code) => Ok(Lowered { code, scope }),
        },
        StmtView::If(cond, then_body, else_body) => match type_of(cond, scope, funcs) {
            Err(e) => Err(e),
            Ok(found) => {
                if found != TypeName::Int {
                    Err(SemanticErrorView::ConditionNotInt { found })
                } else {
                    match analyze_block(then_body, 0, scope, funcs, ret) {
                        Err(e) => Err(e),
                        Ok(then_part) => match analyze_block(
                            else_body,
                            0,
                            then_part.scope,
                            funcs,
                            ret,
                        ) {
                            Err(e) => Err(e),
                            Ok(else_part) => Ok(
                                Lowered {
                                    code: IRView::If(
                                        lower_expr(cond),
                                        then_part.code,
                                        else_part.code,
                                    ),
                                    scope: else_part.scope,
                                },
                            ),
                        },
                    }
                }
            },
        },
    }
}

/// The instructions of the statements `stmts` from index `i` on, one for
/// each statement in order, and the variables in sight after the last, or
/// the first error among them.
pub open spec fn analyze_block(
    stmts: Seq<StmtView>,
    i: int,
    scope: Scope,
    funcs: Seq<FunctionView>,
    ret: TypeName,
) -> Result<Lowered<Seq<IRView>>, SemanticErrorView>
    decreases stmts, stmts.len() - i,
{
    if 0 <= i < stmts.len() {
        match analyze_stmt(stmts[i], scope, funcs, ret) {
            Err(e) => Err(e),
            Ok(first) => match analyze_block(stmts, i + 1, first.scope, funcs, ret) {
                Err(e) => Err(e),
                Ok(rest) => Ok(Lowered { code: seq![first.code] + rest.code, scope: rest.scope }),
            },
        }
    } else {
        Ok(Lowered { code: Seq::empty(), scope })
    }
}

/// The variables that the parameters of a function bring in sight. Of two
/// parameters of one name the later one counts.
pub open spec fn param_scope(params: Seq<(Seq<char>, TypeName)>) -> Scope
    decreases params.len(),
{
    if params.len() == 0 {
        Map::empty()
    } else {
        param_scope(params.drop_last()).insert(params.last().0, params.last().1)
    }
}

/// The lowered form of a function: its name, parameters and return type as
/// they are, and the instructions of its body.
pub open spec fn analyze_function(f: FunctionView, funcs: Seq<FunctionView>) -> Result<
    IRFunctionView,
    SemanticErrorView,
> {
    match analyze_block(f.body, 0, param_scope(f.params), funcs, f.ret_type) {
        Err(e) => Err(e),
        Ok(body) => Ok(
            IRFunctionView {
                name: f.name,
                params: f.params,
                ret_type: f.ret_type,
                body: body.code,
            },
        ),
    }
}

/// The lowered forms of the functions `fs` from index `i` on, in order, or
/// the first error among them. Calls are resolved against `funcs`.
pub open spec fn analyze_functions(fs: Seq<FunctionView>, i: int, funcs: Seq<FunctionView>)
    -> Result<Seq<IRFunctionView>, SemanticErrorView>
    decreases fs.len() - i,
{
    if 0 <= i < fs.len() {
        match analyze_function(fs[i], funcs) {
            Err(e) => Err(e),
            Ok(first) => match analyze_functions(fs, i + 1, funcs) {
                Err(e) => Err(e),
                Ok(rest) => Ok(seq![first] + rest),
            },
        }
    } else {
        Ok(Seq::empty())
    }
}

/// The lowered form of a program: each function lowered, in the order of
/// declaration. A function may call one that is declared after it.
pub open spec fn analyze_program(program: ProgramView) -> Result<
    IRProgramView,
    SemanticErrorView,
> {
    match analyze_functions(program.funcs, 0, program.funcs) {
        Err(e) => Err(e),
        Ok(funcs) => Ok(IRProgramView { funcs }),
    }
}

/// Lowering the functions of a program from index `i` on gives one function
/// for each, with the name, parameters and return type of its source.
pub proof fn lemma_functions_keep_order(fs: Seq<FunctionView>, i: int, funcs: Seq<FunctionView>)
    requires
        0 <= i <= fs.len(),
        analyze_functions(fs, i, funcs) is Ok,
    ensures
        analyze_functions(fs, i, funcs)->Ok_0.len() == fs.len() - i,
        forall|k: int|
            0 <= k < fs.len() - i ==> {
                let lowered = #[trigger] analyze_functions(fs, i, funcs)->Ok_0[k];
                &&& lowered.name == fs[i + k].name
                &&& lowered.params == fs[i + k].params
                &&& lowered.ret_type == fs[i + k].ret_type
            },
    decreases fs.len() - i,
{
    if i < fs.len() {
        lemma_functions_keep_order(fs, i + 1, funcs);
        let first = analyze_function(fs[i], funcs)->Ok_0;
        let rest = analyze_functions(fs, i + 1, funcs)->Ok_0;
        let all = analyze_functions(fs, i, funcs)->Ok_0;
        assert(all == seq![first] + rest);
        assert forall|k: int| 0 <= k < fs.len() - i implies {
            let lowered = #[trigger] all[k];
            &&& lowered.name == fs[i + k].name
            &&& lowered.params == fs[i + k].params
            &&& lowered.ret_type == fs[i + k].ret_type
        } by {
            if k > 0 {
                assert(all[k] == rest[k - 1]);
            }
        }
    }
}

/// A lowered program holds one function for each function of its source, in
/// the order of declaration and under the same name, with the same
/// parameters and return type. A function of a given name, `main` among
/// them, is found in the lowered program where it stands in the source.
pub proof fn lemma_analysis_keeps_declaration_order(program: ProgramView)
    requires
        analyze_program(program) is Ok,
    ensures
        analyze_program(program)->Ok_0.funcs.len() == program.funcs.len(),
        forall|k: int|
            0 <= k < program.funcs.len() ==> {
                let lowered = #[trigger] analyze_program(program)->Ok_0.funcs[k];
                &&& lowered.name == program.funcs[k].name
                &&& lowered.params == program.funcs[k].params
                &&& lowered.ret_type == program.funcs[k].ret_type
            },
{
    lemma_functions_keep_order(program.funcs, 0, program.funcs);
}

/// A `let` whose initializer is well typed, but of another type than the
/// annotation, is rejected as a mismatch of the two, whatever the
/// initializer and wherever the `let` stands. So is, among others, a `let`
/// annotated `string` whose initializer is an integer.
pub proof fn lemma_let_of_other_type_is_rejected(
    name: Seq<char>,
    annotation: TypeName,
    init: ExprView,
    scope: Scope,
    funcs: Seq<FunctionView>,
    ret: TypeName,
)
    requires
        type_of(init, scope, funcs) is Ok,
        type_of(init, scope, funcs)->Ok_0 != annotation,
    ensures
        analyze_stmt(StmtView::Let(name, annotation, init), scope, funcs, ret) == Err::<
            Lowered<IRView>,
            SemanticErrorView,
        >(
            SemanticErrorView::LetTypeMismatch {
                name,
                expected: annotation,
                found: type_of(init, scope, funcs)->Ok_0,
            },
        ),
{
}

/// A call of a name that is neither built in nor declared in the program is
/// rejected as a call of an unknown function, whatever its arguments, both
/// where it stands as an expression and where it stands as a statement.
pub proof fn lemma_undeclared_call_is_rejected(
    name: Seq<char>,
    args: Seq<ExprView>,
    scope: Scope,
    funcs: Seq<FunctionView>,
)
    requires
        !is_builtin(name),
        find_function(funcs, name) is None,
    ensures
        type_of(ExprView::Call(name, args), scope, funcs) == Err::<TypeName, SemanticErrorView>(
            SemanticErrorView::UnknownFunction(name),
        ),
        analyze_expr_stmt(ExprView::Call(name, args), scope, funcs) == Err::<
            IRView,
            SemanticErrorView,
        >(SemanticErrorView::UnknownFunction(name)),
{
}

/// A function is found by its name exactly if the program declares one of
/// that name.
pub proof fn lemma_find_function(funcs: Seq<FunctionView>, name: Seq<char>)
    ensures
        find_function(funcs, name) is Some <==> exists|k: int|
            0 <= k < funcs.len() && #[trigger] funcs[k].name == name,
        find_function(funcs, name) matches Some(f) ==> f.name == name && funcs.contains(f),
    decreases funcs.len(),
{
    if funcs.len() > 0 {
        lemma_find_function(funcs.drop_last(), name);
        if funcs.last().name == name {
            assert(funcs[funcs.len() - 1].name == name);
        } else {
            if find_function(funcs.drop_last(), name) is Some {
                let k = choose|k: int|
                    0 <= k < funcs.drop_last().len() && #[trigger] funcs.drop_last()[k].name
                        == name;
                assert(funcs[k].name == name);
                let f = find_function(funcs.drop_last(), name)->Some_0;
                let j = choose|j: int| 0 <= j < funcs.drop_last().len() && funcs.drop_last()[j] == f;
                assert(funcs[j] == f);
            }
            if exists|k: int| 0 <= k < funcs.len() && #[trigger] funcs[k].name == name {
                let k = choose|k: int| 0 <= k < funcs.len() && #[trigger] funcs[k].name == name;
                assert(funcs.drop_last()[k].name == name);
            }
        }
    }
}

/// The first rejected statement decides: where the statements of a block
/// before index `k` are accepted, and statement `k` is rejected where the
/// variables are in sight that those leave, the block is rejected with the
/// error of statement `k`, whatever follows it.
pub proof fn lemma_first_rejected_statement(
    stmts: Seq<StmtView>,
    i: int,
    k: int,
    scope: Scope,
    funcs: Seq<FunctionView>,
    ret: TypeName,
)
    requires
        0 <= i <= k < stmts.len(),
        analyze_block(stmts.take(k), i, scope, funcs, ret) is Ok,
        analyze_stmt(
            stmts[k],
            analyze_block(stmts.take(k), i, scope, funcs, ret)->Ok_0.scope,
            funcs,
            ret,
        ) is Err,
    ensures
        analyze_block(stmts, i, scope, funcs, ret) == Err::<
            Lowered<Seq<IRView>>,
            SemanticErrorView,
        >(
            analyze_stmt(
                stmts[k],
                analyze_block(stmts.take(k), i, scope, funcs, ret)->Ok_0.scope,
                funcs,
                ret,
            )->Err_0,
        ),
    decreases k - i,
{
    if i < k {
        assert(stmts.take(k)[i] == stmts[i]);
        let first = analyze_stmt(stmts[i], scope, funcs, ret)->Ok_0;
        lemma_first_rejected_statement(stmts, i + 1, k, first.scope, funcs, ret);
    }
}

/// The first rejected function decides: where the functions of a program
/// before index `k` are accepted and function `k` is rejected, the program
/// is rejected with the error of function `k`, and nothing is lowered.
pub proof fn lemma_first_rejected_function(
    fs: Seq<FunctionView>,
    i: int,
    k: int,
    funcs: Seq<FunctionView>,
)
    requires
        0 <= i <= k < fs.len(),
        analyze_functions(fs.take(k), i, funcs) is Ok,
        analyze_function(fs[k], funcs) is Err,
    ensures
        analyze_functions(fs, i, funcs) == Err::<Seq<IRFunctionView>, SemanticErrorView>(
            analyze_function(fs[k], funcs)->Err_0,
        ),
    decreases k - i,
{
    if i < k {
        assert(fs.take(k)[i] == fs[i]);
        lemma_first_rejected_function(fs, i + 1, k, funcs);
    }
}

} // verus!
