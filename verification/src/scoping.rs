//! What holds of every lowered program that the analyzer hands on: each
//! variable that is read was bound before, by a parameter or by a store, and
//! each call of a function of the program passes as many arguments as the
//! function has parameters.
use vstd::prelude::*;
use crate::parser::TypeName;
use crate::ast::{ExprView, StmtView, FunctionView, ProgramView};
use crate::ir::{IRExprView, IRView, IRFunctionView, IRProgramView};
use crate::typing::{
    Scope, type_of, check_each, check_args, lower_expr, lower_exprs, analyze_stmt, analyze_block,
    analyze_function, analyze_functions, analyze_program, param_scope, is_builtin, find_function,
};

verus! {

/// Whether a call of `name` with `count` arguments has a target: a built-in
/// function, or a function of `funcs` with `count` parameters.
pub open spec fn call_resolves(name: Seq<char>, count: nat, funcs: Seq<FunctionView>) -> bool {
    is_builtin(name) || (find_function(funcs, name) matches Some(callee) && callee.params.len()
        == count)
}

/// Whether the lowered expression `e` resolves where the variables `bound`
/// are bound: it reads no other variable, and each call in it has a
/// target.
pub open spec fn expr_resolves(e: IRExprView, bound: Set<Seq<char>>, funcs: Seq<FunctionView>)
    -> bool
    decreases e,
{
    match e {
        IRExprView::Var(name) => bound.contains(name),
        IRExprView::Binary(left, _, right) => expr_resolves(*left, bound, funcs) && expr_resolves(
            *right,
            bound,
            funcs,
        ),
        IRExprView::Call(name, args) => call_resolves(name, args.len(), funcs) && forall|k: int|
            0 <= k < args.len() ==> expr_resolves(#[trigger] args[k], bound, funcs),
        _ => true,
    }
}

/// The variables bound after the instruction `s`, where `bound` were bound
/// before it. What a branch of an `if` binds stays bound after the `if`.
pub open spec fn bound_after_stmt(s: IRView, bound: Set<Seq<char>>) -> Set<Seq<char>>
    decreases s,
{
    match s {
        IRView::StoreVar(name, _) => bound.insert(name),
        IRView::If(_, then_body, else_body) => bound_after_block(
            else_body,
            bound_after_block(then_body, bound),
        ),
        _ => bound,
    }
}

/// The variables bound after the instructions `ss`, where `bound` were
/// bound before them.
pub open spec fn bound_after_block(ss: Seq<IRView>, bound: Set<Seq<char>>) -> Set<Seq<char>>
    decreases ss,
{
    if ss.len() == 0 {
        bound
    } else {
        bound_after_block(ss.drop_first(), bound_after_stmt(ss[0], bound))
    }
}

/// Whether the instruction `s` resolves where the variables `bound` are
/// bound: each expression in it resolves where it stands, after what came
/// before it in the order of the text.
pub open spec fn stmt_resolves(s: IRView, bound: Set<Seq<char>>, funcs: Seq<FunctionView>) -> bool
    decreases s,
{
    match s {
        IRView::StoreVar(_, value) => expr_resolves(value, bound, funcs),
        IRView::Return(value) => expr_resolves(value, bound, funcs),
        IRView::Println(value) => expr_resolves(value, bound, funcs),
        IRView::CallFunc(name, args) => call_resolves(name, args.len(), funcs) && forall|k: int|
            0 <= k < args.len() ==> expr_resolves(#[trigger] args[k], bound, funcs),
        IRView::If(cond, then_body, else_body) => {
            &&& expr_resolves(cond, bound, funcs)
            &&& block_resolves(then_body, bound, funcs)
            &&& block_resolves(else_body, bound_after_block(then_body, bound), funcs)
        },
    }
}

/// Whether the instructions `ss` resolve, one after another, where the
/// variables `bound` are bound before the first.
pub open spec fn block_resolves(ss: Seq<IRView>, bound: Set<Seq<char>>, funcs: Seq<FunctionView>)
    -> bool
    decreases ss,
{
    if ss.len() == 0 {
        true
    } else {
        stmt_resolves(ss[0], bound, funcs) && block_resolves(
            ss.drop_first(),
            bound_after_stmt(ss[0], bound),
            funcs,
        )
    }
}

/// Whether the body of the lowered function `f` resolves where its
/// parameters are bound.
pub open spec fn function_resolves(f: IRFunctionView, funcs: Seq<FunctionView>) -> bool {
    block_resolves(f.body, param_scope(f.params).dom(), funcs)
}

/// Whether the body of each function of the lowered program resolves.
pub open spec fn program_resolves(program: IRProgramView, funcs: Seq<FunctionView>) -> bool {
    forall|k: int|
        0 <= k < program.funcs.len() ==> function_resolves(#[trigger] program.funcs[k], funcs)
}

/// Whether every variable in sight is bound.
pub open spec fn in_sight_is_bound(scope: Scope, bound: Set<Seq<char>>) -> bool {
    forall|name: Seq<char>| scope.contains_key(name) ==> #[trigger] bound.contains(name)
}

/// Where no error is found in the expressions from index `i` on, each of
/// them is well typed.
pub proof fn lemma_checked_each(
    args: Seq<ExprView>,
    i: int,
    scope: Scope,
    funcs: Seq<FunctionView>,
)
    requires
        0 <= i,
        check_each(args, i, scope, funcs) is None,
    ensures
        forall|k: int| i <= k < args.len() ==> (#[trigger] type_of(args[k], scope, funcs)) is Ok,
    decreases args.len() - i,
{
    if i < args.len() {
        lemma_checked_each(args, i + 1, scope, funcs);
    }
}

/// Where no error is found in passing the arguments from index `i` on,
/// each of them is well typed and of the type of its parameter.
pub proof fn lemma_checked_args(
    name: Seq<char>,
    args: Seq<ExprView>,
    params: Seq<(Seq<char>, TypeName)>,
    i: int,
    scope: Scope,
    funcs: Seq<FunctionView>,
)
    requires
        0 <= i,
        check_args(name, args, params, i, scope, funcs) is None,
    ensures
        forall|k: int|
            i <= k < args.len() ==> (#[trigger] type_of(args[k], scope, funcs)) == Ok::<
                TypeName,
                crate::ir::SemanticErrorView,
            >(params[k].1),
    decreases args.len() - i,
{
    if i < args.len() {
        lemma_checked_args(name, args, params, i + 1, scope, funcs);
    }
}

/// The lowered form of a well-typed expression resolves wherever the
/// variables in sight are bound.
pub proof fn lemma_typed_expr_resolves(
    e: ExprView,
    scope: Scope,
    funcs: Seq<FunctionView>,
    bound: Set<Seq<char>>,
)
    requires
        type_of(e, scope, funcs) is Ok,
        in_sight_is_bound(scope, bound),
    ensures
        expr_resolves(lower_expr(e), bound, funcs),
        e matches ExprView::Call(name, args) ==> call_resolves(name, args.len(), funcs)
            && forall|k: int|
            0 <= k < args.len() ==> expr_resolves(#[trigger] lower_exprs(args)[k], bound, funcs),
    decreases e,
{
    match e {
        ExprView::Var(name) => {
            assert(bound.contains(name));
        },
        ExprView::Binary(left, op, right) => {
            lemma_typed_expr_resolves(*left, scope, funcs, bound);
            lemma_typed_expr_resolves(*right, scope, funcs, bound);
        },
        ExprView::Call(name, args) => {
            if is_builtin(name) {
                lemma_checked_each(args, 0, scope, funcs);
            } else {
                let callee = find_function(funcs, name)->Some_0;
                lemma_checked_args(name, args, callee.params, 0, scope, funcs);
            }
            let lowered = lower_exprs(args);
            assert forall|k: int| 0 <= k < lowered.len() implies expr_resolves(
                #[trigger] lowered[k],
                bound,
                funcs,
            ) by {
                assert(type_of(args[k], scope, funcs) is Ok);
                lemma_typed_expr_resolves(args[k], scope, funcs, bound);
            }
        },
        _ => {},
    }
}

/// The instruction of an accepted statement resolves wherever the variables
/// in sight before it are bound, and the variables in sight after it are
/// bound after it.
pub proof fn lemma_analyzed_stmt_resolves(
    s: StmtView,
    scope: Scope,
    funcs: Seq<FunctionView>,
    ret: TypeName,
    bound: Set<Seq<char>>,
)
    requires
        analyze_stmt(s, scope, funcs, ret) is Ok,
        in_sight_is_bound(scope, bound),
    ensures
        stmt_resolves(analyze_stmt(s, scope, funcs, ret)->Ok_0.code, bound, funcs),
        in_sight_is_bound(
            analyze_stmt(s, scope, funcs, ret)->Ok_0.scope,
            bound_after_stmt(analyze_stmt(s, scope, funcs, ret)->Ok_0.code, bound),
        ),
    decreases s, 0nat,
{
    let lowered = analyze_stmt(s, scope, funcs, ret)->Ok_0;
    match s {
        StmtView::Let(name, t, init) => {
            lemma_typed_expr_resolves(init, scope, funcs, bound);
            assert(lowered.code == IRView::StoreVar(name, lower_expr(init)));
            assert forall|other: Seq<char>| lowered.scope.contains_key(other) implies #[trigger]
                bound.insert(name).contains(other) by {
                if other != name {
                    assert(scope.contains_key(other));
                    assert(bound.contains(other));
                }
            }
        },
        StmtView::Return(value) => {
            lemma_typed_expr_resolves(value, scope, funcs, bound);
            assert(lowered.code == IRView::Return(lower_expr(value)));
        },
        StmtView::ExprStmt(e) => {
            match e {
                ExprView::Call(name, args) => {
                    if name == "println"@ {
                        lemma_typed_expr_resolves(args[0], scope, funcs, bound);
                        assert(lowered.code == IRView::Println(lower_expr(args[0])));
                    } else {
                        lemma_typed_expr_resolves(e, scope, funcs, bound);
                        assert(lowered.code == IRView::CallFunc(name, lower_exprs(args)));
                    }
                },
                _ => {
                    lemma_typed_expr_resolves(e, scope, funcs, bound);
                    assert(lowered.code == IRView::StoreVar(
                        crate::typing::discard_name(),
                        lower_expr(e),
                    ));
                    assert forall|other: Seq<char>| lowered.scope.contains_key(
                        other,
                    ) implies #[trigger] bound.insert(crate::typing::discard_name()).contains(
                        other,
                    ) by {
                        assert(bound.contains(other));
                    }
                },
            }
        },
        StmtView::If(cond, then_body, else_body) => {
            lemma_typed_expr_resolves(cond, scope, funcs, bound);
            let then_part = analyze_block(then_body, 0, scope, funcs, ret)->Ok_0;
            let else_part = analyze_block(else_body, 0, then_part.scope, funcs, ret)->Ok_0;
            assert(lowered.code == IRView::If(lower_expr(cond), then_part.code, else_part.code));
            lemma_analyzed_block_resolves(then_body, 0, scope, funcs, ret, bound);
            lemma_analyzed_block_resolves(
                else_body,
                0,
                then_part.scope,
                funcs,
                ret,
                bound_after_block(then_part.code, bound),
            );
        },
    }
}

/// The instructions of accepted statements resolve wherever the variables
/// in sight before them are bound, and the variables in sight after them
/// are bound after them.
pub proof fn lemma_analyzed_block_resolves(
    stmts: Seq<StmtView>,
    i: int,
    scope: Scope,
    funcs: Seq<FunctionView>,
    ret: TypeName,
    bound: Set<Seq<char>>,
)
    requires
        0 <= i,
        analyze_block(stmts, i, scope, funcs, ret) is Ok,
        in_sight_is_bound(scope, bound),
    ensures
        block_resolves(analyze_block(stmts, i, scope, funcs, ret)->Ok_0.code, bound, funcs),
        in_sight_is_bound(
            analyze_block(stmts, i, scope, funcs, ret)->Ok_0.scope,
            bound_after_block(analyze_block(stmts, i, scope, funcs, ret)->Ok_0.code, bound),
        ),
    decreases stmts, stmts.len() - i,
{
    if i < stmts.len() {
        let first = analyze_stmt(stmts[i], scope, funcs, ret)->Ok_0;
        let rest = analyze_block(stmts, i + 1, first.scope, funcs, ret)->Ok_0;
        let all = analyze_block(stmts, i, scope, funcs, ret)->Ok_0.code;
        assert(all == seq![first.code] + rest.code);
        assert(all[0] == first.code);
        assert(all.drop_first() =~= rest.code);
        lemma_analyzed_stmt_resolves(stmts[i], scope, funcs, ret, bound);
        lemma_analyzed_block_resolves(
            stmts,
            i + 1,
            first.scope,
            funcs,
            ret,
            bound_after_stmt(first.code, bound),
        );
    }
}

/// The lowered functions of an accepted program, from index `i` on, are the
/// lowered forms of its functions, and the body of each resolves.
pub proof fn lemma_analyzed_functions_resolve(
    fs: Seq<FunctionView>,
    i: int,
    funcs: Seq<FunctionView>,
)
    requires
        0 <= i,
        analyze_functions(fs, i, funcs) is Ok,
    ensures
        forall|k: int|
            0 <= k < analyze_functions(fs, i, funcs)->Ok_0.len() ==> function_resolves(
                #[trigger] analyze_functions(fs, i, funcs)->Ok_0[k],
                funcs,
            ),
    decreases fs.len() - i,
{
    if i < fs.len() {
        let first = analyze_function(fs[i], funcs)->Ok_0;
        let rest = analyze_functions(fs, i + 1, funcs)->Ok_0;
        let all = analyze_functions(fs, i, funcs)->Ok_0;
        assert(all == seq![first] + rest);
        lemma_analyzed_block_resolves(
            fs[i].body,
            0,
            param_scope(fs[i].params),
            funcs,
            fs[i].ret_type,
            param_scope(fs[i].params).dom(),
        );
        lemma_analyzed_functions_resolve(fs, i + 1, funcs);
        assert forall|k: int| 0 <= k < all.len() implies function_resolves(
            #[trigger] all[k],
            funcs,
        ) by {
            if k > 0 {
                assert(all[k] == rest[k - 1]);
            }
        }
    }
}

/// In every accepted program each variable that is read was bound before,
/// by a parameter of its function or by a store earlier in the text of the
/// function, and each call has a target: a built-in function, or a function
/// of the program with as many parameters as the call has arguments.
pub proof fn lemma_accepted_program_resolves(program: ProgramView)
    requires
        analyze_program(program) is Ok,
    ensures
        program_resolves(analyze_program(program)->Ok_0, program.funcs),
{
    lemma_analyzed_functions_resolve(program.funcs, 0, program.funcs);
}

} // verus!
