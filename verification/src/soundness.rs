//! What the stages promise each other: a program that the parser read and
//! the analyzer accepted holds nothing that the code generator gives up on
//! as a fault of an earlier stage.
use vstd::prelude::*;
use crate::lexer::{TokenView, lex_spec};
use crate::parser::TypeName;
use crate::ast::{ExprView, StmtView, FunctionView, ProgramView};
use crate::grammar::{
    token_at, advanced, operator, parse_primary, parse_args, parse_expr, parse_operations,
    parse_stmt, parse_block, parse_function, parse_functions, parse_program, parse_ident,
    parse_params, lemma_expr_advances,
};
use crate::ir::{IRExprView, IRView, IRFunctionView, IRProgramView};
use crate::typing::{
    Scope, type_of, lower_expr, lower_exprs, analyze_stmt, analyze_block,
    analyze_function, analyze_functions, analyze_program, param_scope, is_builtin, find_function,
};
use crate::codegen::Target;
use crate::assembly::{Names, CodegenErrorView};
use crate::layout::{
    stmt_stores, block_stores, params_name, slots_of_function, lemma_first_index,
    lemma_one_slot_for_each_variable,
};
use crate::emission::{
    FrameView, gen_expr, gen_args, gen_call, gen_stmt, gen_block, gen_function, gen_functions,
    program_text, ifs_in_stmt, ifs_in_block, label_limit, has_main,
};
use crate::scoping::{lemma_checked_each, lemma_checked_args};
use crate::driver::{compile_spec, CompileErrorView};

verus! {

/// Whether `op` is the symbol of one of the eight binary operators.
pub open spec fn is_operator(op: Seq<char>) -> bool {
    op == "+"@ || op == "-"@ || op == "*"@ || op == "/"@ || op == ">"@ || op == "<"@ || op == "=="@
        || op == "!="@
}

/// Whether every binary operation in `e` has the symbol of an operator.
pub open spec fn expr_has_operators(e: ExprView) -> bool
    decreases e,
{
    match e {
        ExprView::Binary(left, op, right) => is_operator(op) && expr_has_operators(*left)
            && expr_has_operators(*right),
        ExprView::Call(_, args) => forall|k: int|
            0 <= k < args.len() ==> expr_has_operators(#[trigger] args[k]),
        _ => true,
    }
}

/// Whether every binary operation in `s` has the symbol of an operator.
pub open spec fn stmt_has_operators(s: StmtView) -> bool
    decreases s,
{
    match s {
        StmtView::Let(_, _, init) => expr_has_operators(init),
        StmtView::ExprStmt(e) => expr_has_operators(e),
        StmtView::Return(value) => expr_has_operators(value),
        StmtView::If(cond, then_body, else_body) => {
            &&& expr_has_operators(cond)
            &&& forall|k: int| 0 <= k < then_body.len() ==> stmt_has_operators(#[trigger] then_body[k])
            &&& forall|k: int| 0 <= k < else_body.len() ==> stmt_has_operators(#[trigger] else_body[k])
        },
    }
}

/// Whether every binary operation in the statements `ss` has the symbol of
/// an operator.
pub open spec fn block_has_operators(ss: Seq<StmtView>) -> bool {
    forall|k: int| 0 <= k < ss.len() ==> stmt_has_operators(#[trigger] ss[k])
}

/// Whether every binary operation in the program has the symbol of an
/// operator.
pub open spec fn program_has_operators(program: ProgramView) -> bool {
    forall|k: int|
        0 <= k < program.funcs.len() ==> block_has_operators((#[trigger] program.funcs[k]).body)
}

/// Whether every expression of `es` has operators only.
pub open spec fn exprs_have_operators(es: Seq<ExprView>) -> bool {
    forall|k: int| 0 <= k < es.len() ==> expr_has_operators(#[trigger] es[k])
}

/// The primary expressions that the parser reads hold operators only.
pub proof fn lemma_parsed_primary(tokens: Seq<TokenView>, pos: int)
    ensures
        parse_primary(tokens, pos) matches Ok((e, _)) ==> expr_has_operators(e),
    decreases tokens.len() - pos, 0nat,
{
    match token_at(tokens, pos) {
        TokenView::Ident(name) => {
            if token_at(tokens, pos + 1) == TokenView::LParen {
                lemma_parsed_args(tokens, pos + 2);
            }
        },
        TokenView::LParen => {
            lemma_parsed_expr(tokens, pos + 1);
        },
        _ => {},
    }
}

/// The arguments that the parser reads hold operators only.
pub proof fn lemma_parsed_args(tokens: Seq<TokenView>, pos: int)
    ensures
        parse_args(tokens, pos) matches Ok((args, _)) ==> exprs_have_operators(args),
    decreases tokens.len() - pos, 3nat,
{
    if token_at(tokens, pos) != TokenView::RParen {
        lemma_parsed_expr(tokens, pos);
        if let Ok((first, after)) = parse_expr(tokens, pos) {
            let next = if token_at(tokens, after) == TokenView::Comma {
                after + 1
            } else {
                after
            };
            if advanced(tokens, pos, next) {
                lemma_parsed_args(tokens, next);
                if let Ok((rest, end)) = parse_args(tokens, next) {
                    let all = seq![first] + rest;
                    assert forall|k: int| 0 <= k < all.len() implies expr_has_operators(
                        #[trigger] all[k],
                    ) by {
                        if k > 0 {
                            assert(all[k] == rest[k - 1]);
                        }
                    }
                }
            }
        }
    }
}

/// The expressions that the parser reads hold operators only.
pub proof fn lemma_parsed_expr(tokens: Seq<TokenView>, pos: int)
    ensures
        parse_expr(tokens, pos) matches Ok((e, _)) ==> expr_has_operators(e),
    decreases tokens.len() - pos, 2nat,
{
    lemma_parsed_primary(tokens, pos);
    if let Ok((left, after)) = parse_primary(tokens, pos) {
        if advanced(tokens, pos, after) {
            lemma_parsed_operations(tokens, after, left);
        }
    }
}

/// A chain that the parser reads after an operand with operators only
/// holds operators only.
pub proof fn lemma_parsed_operations(tokens: Seq<TokenView>, pos: int, left: ExprView)
    requires
        expr_has_operators(left),
    ensures
        parse_operations(tokens, pos, left) matches Ok((e, _)) ==> expr_has_operators(e),
    decreases tokens.len() - pos, 1nat,
{
    if let Some(op) = operator(token_at(tokens, pos)) {
        lemma_parsed_primary(tokens, pos + 1);
        if let Ok((right, after)) = parse_primary(tokens, pos + 1) {
            if advanced(tokens, pos, after) {
                lemma_parsed_operations(
                    tokens,
                    after,
                    ExprView::Binary(Box::new(left), op, Box::new(right)),
                );
            }
        }
    }
}

/// The statements that the parser reads hold operators only.
pub proof fn lemma_parsed_stmt(tokens: Seq<TokenView>, pos: int)
    ensures
        parse_stmt(tokens, pos) matches Ok((s, _)) ==> stmt_has_operators(s),
    decreases tokens.len() - pos, 1nat,
{
    match token_at(tokens, pos) {
        TokenView::Let => {
            if let Ok((name, colon)) = parse_ident(tokens, pos + 1) {
                lemma_parsed_expr(tokens, colon + 3);
            }
        },
        TokenView::Return => {
            lemma_parsed_expr(tokens, pos + 1);
        },
        TokenView::If => {
            lemma_parsed_expr(tokens, pos + 1);
            lemma_expr_advances(tokens, pos + 1);
            if let Ok((cond, open)) = parse_expr(tokens, pos + 1) {
                if token_at(tokens, open) == TokenView::LBrace {
                    lemma_parsed_block(tokens, open + 1);
                    if let Ok((then_body, then_close)) = parse_block(tokens, open + 1) {
                        if advanced(tokens, pos, then_close + 3) {
                            lemma_parsed_block(tokens, then_close + 3);
                        }
                    }
                }
            }
        },
        _ => {
            lemma_parsed_expr(tokens, pos);
        },
    }
}

/// The blocks that the parser reads hold operators only.
pub proof fn lemma_parsed_block(tokens: Seq<TokenView>, pos: int)
    ensures
        parse_block(tokens, pos) matches Ok((ss, _)) ==> block_has_operators(ss),
    decreases tokens.len() - pos, 2nat,
{
    if token_at(tokens, pos) != TokenView::RBrace {
        lemma_parsed_stmt(tokens, pos);
        if let Ok((first, next)) = parse_stmt(tokens, pos) {
            if advanced(tokens, pos, next) {
                lemma_parsed_block(tokens, next);
                if let Ok((rest, end)) = parse_block(tokens, next) {
                    let all = seq![first] + rest;
                    assert forall|k: int| 0 <= k < all.len() implies stmt_has_operators(
                        #[trigger] all[k],
                    ) by {
                        if k > 0 {
                            assert(all[k] == rest[k - 1]);
                        }
                    }
                }
            }
        }
    }
}

/// The functions that the parser reads hold operators only.
pub proof fn lemma_parsed_functions(tokens: Seq<TokenView>, pos: int)
    ensures
        parse_functions(tokens, pos) matches Ok((fs, _)) ==> forall|k: int|
            0 <= k < fs.len() ==> block_has_operators((#[trigger] fs[k]).body),
    decreases tokens.len() - pos,
{
    if token_at(tokens, pos) != TokenView::EOF {
        if let Ok((first, next)) = parse_function(tokens, pos) {
            crate::grammar::lemma_function_advances(tokens, pos);
            let close = parse_params(tokens, pos + 3)->Ok_0.1;
            lemma_parsed_block(tokens, close + 4);
            lemma_parsed_functions(tokens, next);
            if let Ok((rest, end)) = parse_functions(tokens, next) {
                let all = seq![first] + rest;
                assert forall|k: int| 0 <= k < all.len() implies block_has_operators(
                    (#[trigger] all[k]).body,
                ) by {
                    if k > 0 {
                        assert(all[k] == rest[k - 1]);
                    }
                }
            }
        }
    }
}

/// Every binary operation of a program that the parser read has the symbol
/// of one of the eight operators.
pub proof fn lemma_parsed_program_has_operators(tokens: Seq<TokenView>, pos: int)
    ensures
        parse_program(tokens, pos) matches Ok((program, _)) ==> program_has_operators(program),
{
    lemma_parsed_functions(tokens, pos);
}

/// Whether the lowered expression `e` fits a frame with the slots `slots`:
/// every variable it reads has a slot, and every binary operation has the
/// symbol of an operator.
pub open spec fn ir_expr_fits(e: IRExprView, slots: Names) -> bool
    decreases e,
{
    match e {
        IRExprView::Var(name) => slots.contains(name),
        IRExprView::Binary(left, op, right) => is_operator(op) && ir_expr_fits(*left, slots)
            && ir_expr_fits(*right, slots),
        IRExprView::Call(_, args) => forall|k: int|
            0 <= k < args.len() ==> ir_expr_fits(#[trigger] args[k], slots),
        _ => true,
    }
}

/// Whether the instruction `s` fits a frame with the slots `slots`: every
/// variable it reads or stores to has a slot, and every binary operation
/// has the symbol of an operator.
pub open spec fn ir_stmt_fits(s: IRView, slots: Names) -> bool
    decreases s,
{
    match s {
        IRView::StoreVar(name, value) => slots.contains(name) && ir_expr_fits(value, slots),
        IRView::Return(value) => ir_expr_fits(value, slots),
        IRView::Println(value) => ir_expr_fits(value, slots),
        IRView::CallFunc(_, args) => forall|k: int|
            0 <= k < args.len() ==> ir_expr_fits(#[trigger] args[k], slots),
        IRView::If(cond, then_body, else_body) => {
            &&& ir_expr_fits(cond, slots)
            &&& forall|k: int| 0 <= k < then_body.len() ==> ir_stmt_fits(#[trigger] then_body[k], slots)
            &&& forall|k: int| 0 <= k < else_body.len() ==> ir_stmt_fits(#[trigger] else_body[k], slots)
        },
    }
}

/// Whether each of the instructions `ss` fits a frame with the slots
/// `slots`.
pub open spec fn ir_block_fits(ss: Seq<IRView>, slots: Names) -> bool {
    forall|k: int| 0 <= k < ss.len() ==> ir_stmt_fits(#[trigger] ss[k], slots)
}

/// Whether the body of the function `f` fits the frame of `f`.
pub open spec fn ir_function_fits(f: IRFunctionView) -> bool {
    ir_block_fits(f.body, slots_of_function(f))
}

/// Whether code generation did not stop for an unknown operator or for a
/// variable without a slot.
pub open spec fn no_fault<T>(r: Result<T, CodegenErrorView>) -> bool {
    match r {
        Ok(_) => true,
        Err(e) => !(e is UnknownOperator) && !(e is UnboundVariable),
    }
}

/// Code is generated for every expression that fits the frame.
pub proof fn lemma_fitting_expr(t: Target, e: IRExprView, frame: FrameView, strings: Names)
    requires
        ir_expr_fits(e, frame.slots),
    ensures
        gen_expr(t, e, frame, strings) is Ok,
    decreases e, 0nat,
{
    match e {
        IRExprView::Var(name) => {
            lemma_first_index(frame.slots, name);
        },
        IRExprView::Binary(left, op, right) => {
            lemma_fitting_expr(t, *left, frame, strings);
            lemma_fitting_expr(t, *right, frame, strings);
        },
        IRExprView::Call(name, args) => {
            lemma_fitting_args(t, args, args.len() as int, frame, strings);
            assert(gen_call(t, name, args, frame, strings) is Ok);
        },
        _ => {},
    }
}

/// Code is generated for all arguments that fit the frame.
pub proof fn lemma_fitting_args(
    t: Target,
    args: Seq<IRExprView>,
    n: int,
    frame: FrameView,
    strings: Names,
)
    requires
        forall|k: int| 0 <= k < args.len() ==> ir_expr_fits(#[trigger] args[k], frame.slots),
    ensures
        gen_args(t, args, n, frame, strings) is Ok,
    decreases args, n,
{
    if 0 < n <= args.len() {
        lemma_fitting_expr(t, args[n - 1], frame, strings);
        lemma_fitting_args(t, args, n - 1, frame, strings);
    }
}

/// Code generation for an instruction that fits the frame does not stop
/// for an unknown operator or a variable without a slot.
pub proof fn lemma_fitting_stmt(
    t: Target,
    s: IRView,
    frame: FrameView,
    strings: Names,
    label: nat,
)
    requires
        ir_stmt_fits(s, frame.slots),
    ensures
        no_fault(gen_stmt(t, s, frame, strings, label)),
    decreases s, 0nat,
{
    match s {
        IRView::StoreVar(name, value) => {
            lemma_fitting_expr(t, value, frame, strings);
            lemma_first_index(frame.slots, name);
        },
        IRView::Return(value) => {
            lemma_fitting_expr(t, value, frame, strings);
        },
        IRView::Println(value) => {},
        IRView::CallFunc(name, args) => {
            lemma_fitting_args(t, args, args.len() as int, frame, strings);
        },
        IRView::If(cond, then_body, else_body) => {
            lemma_fitting_expr(t, cond, frame, strings);
            lemma_fitting_block(t, then_body, 0, frame, strings, label + 3);
            if let Ok(then_part) = gen_block(t, then_body, 0, frame, strings, label + 3) {
                lemma_fitting_block(t, else_body, 0, frame, strings, then_part.label);
            }
        },
    }
}

/// Code generation for instructions that fit the frame does not stop for
/// an unknown operator or a variable without a slot.
pub proof fn lemma_fitting_block(
    t: Target,
    ss: Seq<IRView>,
    i: int,
    frame: FrameView,
    strings: Names,
    label: nat,
)
    requires
        ir_block_fits(ss, frame.slots),
    ensures
        no_fault(gen_block(t, ss, i, frame, strings, label)),
    decreases ss, ss.len() - i,
{
    if 0 <= i < ss.len() {
        lemma_fitting_stmt(t, ss[i], frame, strings, label);
        if let Ok(first) = gen_stmt(t, ss[i], frame, strings, label) {
            lemma_fitting_block(t, ss, i + 1, frame, strings, first.label);
        }
    }
}

/// Code generation for functions whose bodies fit their frames does not
/// stop for an unknown operator or a variable without a slot.
pub proof fn lemma_fitting_functions(
    t: Target,
    fs: Seq<IRFunctionView>,
    i: int,
    strings: Names,
    label: nat,
)
    requires
        forall|k: int| 0 <= k < fs.len() ==> ir_function_fits(#[trigger] fs[k]),
    ensures
        no_fault(gen_functions(t, fs, i, strings, label)),
    decreases fs.len() - i,
{
    if 0 <= i < fs.len() {
        let frame = FrameView { name: fs[i].name, slots: slots_of_function(fs[i]) };
        assert(ir_function_fits(fs[i]));
        lemma_fitting_block(t, fs[i].body, 0, frame, strings, label);
        if let Ok(first) = gen_function(t, fs[i], strings, label) {
            lemma_fitting_functions(t, fs, i + 1, strings, first.label);
        }
    }
}

/// Code generation for a program whose function bodies fit their frames
/// does not stop for an unknown operator or a variable without a slot.
pub proof fn lemma_fitting_program(t: Target, program: IRProgramView)
    requires
        forall|k: int| 0 <= k < program.funcs.len() ==> ir_function_fits(#[trigger] program.funcs[k]),
    ensures
        no_fault(program_text(t, program)),
{
    lemma_fitting_functions(t, program.funcs, 0, crate::layout::strings_of_program(program), 0);
}

/// Whether every variable in sight has a slot.
pub open spec fn scope_has_slots(scope: Scope, slots: Names) -> bool {
    forall|name: Seq<char>| scope.contains_key(name) ==> #[trigger] slots.contains(name)
}

/// The lowered form of a well-typed expression reads only variables that
/// are in sight, and keeps the operators of its source.
pub proof fn lemma_typed_expr_fits(
    e: ExprView,
    scope: Scope,
    funcs: Seq<FunctionView>,
    slots: Names,
)
    requires
        type_of(e, scope, funcs) is Ok,
        expr_has_operators(e),
        scope_has_slots(scope, slots),
    ensures
        ir_expr_fits(lower_expr(e), slots),
        e matches ExprView::Call(_, args) ==> forall|k: int|
            0 <= k < args.len() ==> ir_expr_fits(#[trigger] lower_exprs(args)[k], slots),
    decreases e,
{
    match e {
        ExprView::Binary(left, op, right) => {
            lemma_typed_expr_fits(*left, scope, funcs, slots);
            lemma_typed_expr_fits(*right, scope, funcs, slots);
        },
        ExprView::Call(name, args) => {
            if is_builtin(name) {
                lemma_checked_each(args, 0, scope, funcs);
            } else {
                let callee = find_function(funcs, name)->Some_0;
                lemma_checked_args(name, args, callee.params, 0, scope, funcs);
            }
            let lowered = lower_exprs(args);
            assert forall|k: int| 0 <= k < lowered.len() implies ir_expr_fits(
                #[trigger] lowered[k],
                slots,
            ) by {
                assert(type_of(args[k], scope, funcs) is Ok);
                assert(expr_has_operators(args[k]));
                lemma_typed_expr_fits(args[k], scope, funcs, slots);
            }
        },
        _ => {},
    }
}

/// One of the instructions from index `i` on stores to a name exactly if
/// one of them, taken by itself, does.
pub proof fn lemma_block_stores(ss: Seq<IRView>, i: int, name: Seq<char>)
    requires
        0 <= i,
    ensures
        block_stores(ss, i, name) <==> exists|k: int|
            i <= k < ss.len() && stmt_stores(#[trigger] ss[k], name),
    decreases ss.len() - i,
{
    if i < ss.len() {
        lemma_block_stores(ss, i + 1, name);
        if block_stores(ss, i, name) {
            if stmt_stores(ss[i], name) {
                assert(i <= i < ss.len() && stmt_stores(ss[i], name));
            } else {
                let k = choose|k: int| i + 1 <= k < ss.len() && stmt_stores(#[trigger] ss[k], name);
                assert(i <= k < ss.len() && stmt_stores(ss[k], name));
            }
        }
        if exists|k: int| i <= k < ss.len() && stmt_stores(#[trigger] ss[k], name) {
            let k = choose|k: int| i <= k < ss.len() && stmt_stores(#[trigger] ss[k], name);
            if k != i {
                assert(i + 1 <= k < ss.len() && stmt_stores(ss[k], name));
            }
        }
    }
}

/// Whether every variable that the instruction `s` stores to has a slot.
pub open spec fn stores_have_slots(s: IRView, slots: Names) -> bool {
    forall|name: Seq<char>| stmt_stores(s, name) ==> #[trigger] slots.contains(name)
}

/// Whether every variable that the instructions `ss` store to has a slot.
pub open spec fn block_stores_have_slots(ss: Seq<IRView>, slots: Names) -> bool {
    forall|name: Seq<char>| block_stores(ss, 0, name) ==> #[trigger] slots.contains(name)
}

/// The instruction of an accepted statement fits every frame that has a
/// slot for each variable in sight before it and for each variable it
/// stores to; the variables in sight after it have slots there as well.
pub proof fn lemma_analyzed_stmt_fits(
    s: StmtView,
    scope: Scope,
    funcs: Seq<FunctionView>,
    ret: TypeName,
    slots: Names,
)
    requires
        analyze_stmt(s, scope, funcs, ret) is Ok,
        stmt_has_operators(s),
        scope_has_slots(scope, slots),
        stores_have_slots(analyze_stmt(s, scope, funcs, ret)->Ok_0.code, slots),
    ensures
        ir_stmt_fits(analyze_stmt(s, scope, funcs, ret)->Ok_0.code, slots),
        scope_has_slots(analyze_stmt(s, scope, funcs, ret)->Ok_0.scope, slots),
    decreases s, 0nat,
{
    let lowered = analyze_stmt(s, scope, funcs, ret)->Ok_0;
    match s {
        StmtView::Let(name, t, init) => {
            lemma_typed_expr_fits(init, scope, funcs, slots);
            assert(lowered.code == IRView::StoreVar(name, lower_expr(init)));
            assert(stmt_stores(lowered.code, name));
            assert(slots.contains(name));
        },
        StmtView::Return(value) => {
            lemma_typed_expr_fits(value, scope, funcs, slots);
            assert(lowered.code == IRView::Return(lower_expr(value)));
        },
        StmtView::ExprStmt(e) => {
            match e {
                ExprView::Call(name, args) => {
                    if name == "println"@ {
                        assert(expr_has_operators(args[0]));
                        lemma_typed_expr_fits(args[0], scope, funcs, slots);
                        assert(lowered.code == IRView::Println(lower_expr(args[0])));
                                } else {
                        lemma_typed_expr_fits(e, scope, funcs, slots);
                        assert(lowered.code == IRView::CallFunc(name, lower_exprs(args)));
                        let lowered_args = lower_exprs(args);
                        assert(lower_expr(e) == IRExprView::Call(name, lowered_args));
                        assert(ir_expr_fits(IRExprView::Call(name, lowered_args), slots));
                        assert(ir_stmt_fits(IRView::CallFunc(name, lowered_args), slots));
                    }
                },
                _ => {
                    lemma_typed_expr_fits(e, scope, funcs, slots);
                    assert(lowered.code == IRView::StoreVar(
                        crate::typing::discard_name(),
                        lower_expr(e),
                    ));
                    assert(stmt_stores(lowered.code, crate::typing::discard_name()));
                    assert(slots.contains(crate::typing::discard_name()));
                        },
            }
        },
        StmtView::If(cond, then_body, else_body) => {
            lemma_typed_expr_fits(cond, scope, funcs, slots);
            let then_part = analyze_block(then_body, 0, scope, funcs, ret)->Ok_0;
            let else_part = analyze_block(else_body, 0, then_part.scope, funcs, ret)->Ok_0;
            assert(lowered.code == IRView::If(lower_expr(cond), then_part.code, else_part.code));
            assert forall|name: Seq<char>| block_stores(then_part.code, 0, name) implies #[trigger]
                slots.contains(name) by {
                assert(stmt_stores(lowered.code, name));
            }
            assert forall|name: Seq<char>| block_stores(else_part.code, 0, name) implies #[trigger]
                slots.contains(name) by {
                assert(stmt_stores(lowered.code, name));
            }
            lemma_analyzed_block_fits(then_body, 0, scope, funcs, ret, slots);
            lemma_analyzed_block_fits(else_body, 0, then_part.scope, funcs, ret, slots);
        },
    }
}

/// The instructions of accepted statements fit every frame that has a slot
/// for each variable in sight before them and for each variable they store
/// to; the variables in sight after them have slots there as well.
pub proof fn lemma_analyzed_block_fits(
    stmts: Seq<StmtView>,
    i: int,
    scope: Scope,
    funcs: Seq<FunctionView>,
    ret: TypeName,
    slots: Names,
)
    requires
        0 <= i,
        analyze_block(stmts, i, scope, funcs, ret) is Ok,
        block_has_operators(stmts),
        scope_has_slots(scope, slots),
        block_stores_have_slots(analyze_block(stmts, i, scope, funcs, ret)->Ok_0.code, slots),
    ensures
        ir_block_fits(analyze_block(stmts, i, scope, funcs, ret)->Ok_0.code, slots),
        scope_has_slots(analyze_block(stmts, i, scope, funcs, ret)->Ok_0.scope, slots),
    decreases stmts, stmts.len() - i,
{
    if i < stmts.len() {
        let first = analyze_stmt(stmts[i], scope, funcs, ret)->Ok_0;
        let rest = analyze_block(stmts, i + 1, first.scope, funcs, ret)->Ok_0;
        let all = analyze_block(stmts, i, scope, funcs, ret)->Ok_0.code;
        assert(all == seq![first.code] + rest.code);
        assert forall|name: Seq<char>| stmt_stores(first.code, name) implies #[trigger]
            slots.contains(name) by {
            assert(all[0] == first.code);
            lemma_block_stores(all, 0, name);
        }
        assert forall|name: Seq<char>| block_stores(rest.code, 0, name) implies #[trigger]
            slots.contains(name) by {
            lemma_block_stores(rest.code, 0, name);
            let k = choose|k: int| 0 <= k < rest.code.len() && stmt_stores(#[trigger] rest.code[k], name);
            assert(all[k + 1] == rest.code[k]);
            lemma_block_stores(all, 0, name);
        }
        lemma_analyzed_stmt_fits(stmts[i], scope, funcs, ret, slots);
        lemma_analyzed_block_fits(stmts, i + 1, first.scope, funcs, ret, slots);
        assert forall|k: int| 0 <= k < all.len() implies ir_stmt_fits(#[trigger] all[k], slots) by {
            if k > 0 {
                assert(all[k] == rest.code[k - 1]);
            }
        }
    }
}

/// A variable that the parameters bring in sight is the name of one of
/// them.
pub proof fn lemma_param_scope(params: Seq<(Seq<char>, TypeName)>, name: Seq<char>)
    requires
        param_scope(params).contains_key(name),
    ensures
        params_name(params, 0, name),
    decreases params.len(),
{
    if params.len() > 0 {
        if params.last().0 == name {
            lemma_params_name(params, 0, name);
            assert(params[params.len() - 1].0 == name);
        } else {
            lemma_param_scope(params.drop_last(), name);
            lemma_params_name(params.drop_last(), 0, name);
            let k = choose|k: int|
                0 <= k < params.drop_last().len() && (#[trigger] params.drop_last()[k]).0 == name;
            assert(params[k].0 == name);
            lemma_params_name(params, 0, name);
        }
    }
}

/// One of the parameters from index `i` on bears a name exactly if one of
/// them, taken by itself, does.
pub proof fn lemma_params_name(params: Seq<(Seq<char>, TypeName)>, i: int, name: Seq<char>)
    requires
        0 <= i,
    ensures
        params_name(params, i, name) <==> exists|k: int|
            i <= k < params.len() && (#[trigger] params[k]).0 == name,
    decreases params.len() - i,
{
    if i < params.len() {
        lemma_params_name(params, i + 1, name);
        if params_name(params, i, name) {
            if params[i].0 == name {
                assert(i <= i < params.len() && params[i].0 == name);
            } else {
                let k = choose|k: int| i + 1 <= k < params.len() && (#[trigger] params[k]).0 == name;
                assert(i <= k < params.len() && params[k].0 == name);
            }
        }
        if exists|k: int| i <= k < params.len() && (#[trigger] params[k]).0 == name {
            let k = choose|k: int| i <= k < params.len() && (#[trigger] params[k]).0 == name;
            if k != i {
                assert(i + 1 <= k < params.len() && params[k].0 == name);
            }
        }
    }
}

/// The body of an accepted function fits the frame of the function: every
/// variable it reads or stores to has a slot there.
pub proof fn lemma_analyzed_function_fits(f: FunctionView, funcs: Seq<FunctionView>)
    requires
        analyze_function(f, funcs) is Ok,
        block_has_operators(f.body),
    ensures
        ir_function_fits(analyze_function(f, funcs)->Ok_0),
{
    let lowered = analyze_function(f, funcs)->Ok_0;
    let slots = slots_of_function(lowered);
    let scope = param_scope(f.params);
    lemma_one_slot_for_each_variable(lowered);
    assert forall|name: Seq<char>| scope.contains_key(name) implies #[trigger] slots.contains(
        name,
    ) by {
        lemma_param_scope(f.params, name);
    }
    lemma_analyzed_block_fits(f.body, 0, scope, funcs, f.ret_type, slots);
}

/// The body of each function of an accepted program fits the frame of the
/// function.
pub proof fn lemma_analyzed_functions_fit(fs: Seq<FunctionView>, i: int, funcs: Seq<FunctionView>)
    requires
        0 <= i,
        analyze_functions(fs, i, funcs) is Ok,
        forall|k: int| 0 <= k < fs.len() ==> block_has_operators((#[trigger] fs[k]).body),
    ensures
        forall|k: int|
            0 <= k < analyze_functions(fs, i, funcs)->Ok_0.len() ==> ir_function_fits(
                #[trigger] analyze_functions(fs, i, funcs)->Ok_0[k],
            ),
    decreases fs.len() - i,
{
    if i < fs.len() {
        let first = analyze_function(fs[i], funcs)->Ok_0;
        let rest = analyze_functions(fs, i + 1, funcs)->Ok_0;
        let all = analyze_functions(fs, i, funcs)->Ok_0;
        assert(all == seq![first] + rest);
        lemma_analyzed_function_fits(fs[i], funcs);
        lemma_analyzed_functions_fit(fs, i + 1, funcs);
        assert forall|k: int| 0 <= k < all.len() implies ir_function_fits(#[trigger] all[k]) by {
            if k > 0 {
                assert(all[k] == rest[k - 1]);
            }
        }
    }
}

/// Code generation for an accepted program never stops for an unknown
/// operator or for a variable without a slot, provided that the program
/// holds operators only, as every program does that the parser read.
pub proof fn lemma_accepted_program_is_generated(program: ProgramView, t: Target)
    requires
        analyze_program(program) is Ok,
        program_has_operators(program),
    ensures
        no_fault(program_text(t, analyze_program(program)->Ok_0)),
{
    lemma_analyzed_functions_fit(program.funcs, 0, program.funcs);
    lemma_fitting_program(t, analyze_program(program)->Ok_0);
}

/// Where the compilation of a source text fails in code generation, the
/// source has no function `main`, or prints something else than a string
/// literal, or needs too many labels. The two other failures of the code
/// generator, an unknown operator and a variable without a slot, would be
/// faults of the earlier stages, and never come.
pub proof fn lemma_no_fault_reaches_code_generation(source: Seq<char>, t: Target)
    ensures
        compile_spec(source, t) matches Err(CompileErrorView::Codegen(e)) ==> e is MissingMain
            || e is UnprintableArgument || e is TooManyLabels,
{
    if let Ok(tokens) = lex_spec(source) {
        if let Ok((program, _)) = parse_program(tokens, 0) {
            lemma_parsed_program_has_operators(tokens, 0);
            if analyze_program(program) is Ok {
                lemma_accepted_program_is_generated(program, t);
            }
        }
    }
}

/// Whether every `println` in `s`, itself and at any depth, is given a
/// string literal.
pub open spec fn stmt_prints_literals(s: IRView) -> bool
    decreases s,
{
    match s {
        IRView::Println(value) => value is Str,
        IRView::If(_, then_body, else_body) => {
            &&& forall|k: int|
                0 <= k < then_body.len() ==> stmt_prints_literals(#[trigger] then_body[k])
            &&& forall|k: int|
                0 <= k < else_body.len() ==> stmt_prints_literals(#[trigger] else_body[k])
        },
        _ => true,
    }
}

/// Whether every `println` in the instructions `ss` is given a string
/// literal.
pub open spec fn block_prints_literals(ss: Seq<IRView>) -> bool {
    forall|k: int| 0 <= k < ss.len() ==> stmt_prints_literals(#[trigger] ss[k])
}

/// The number of `if` instructions in the functions `fs` from index `i` on.
pub open spec fn ifs_in_functions(fs: Seq<IRFunctionView>, i: int) -> nat
    decreases fs.len() - i,
{
    if 0 <= i < fs.len() {
        ifs_in_block(fs[i].body, 0) + ifs_in_functions(fs, i + 1)
    } else {
        0
    }
}

/// Code is generated for an instruction that fits the frame and prints
/// literals only, as long as there are labels for its `if`s.
pub proof fn lemma_generated_stmt(
    t: Target,
    s: IRView,
    frame: FrameView,
    strings: Names,
    label: nat,
)
    requires
        ir_stmt_fits(s, frame.slots),
        stmt_prints_literals(s),
        label + 3 * ifs_in_stmt(s) <= label_limit(),
    ensures
        gen_stmt(t, s, frame, strings, label) is Ok,
        gen_stmt(t, s, frame, strings, label)->Ok_0.label == label + 3 * ifs_in_stmt(s),
    decreases s, 0nat,
{
    match s {
        IRView::StoreVar(name, value) => {
            lemma_fitting_expr(t, value, frame, strings);
            lemma_first_index(frame.slots, name);
        },
        IRView::Return(value) => {
            lemma_fitting_expr(t, value, frame, strings);
        },
        IRView::Println(value) => {},
        IRView::CallFunc(name, args) => {
            lemma_fitting_args(t, args, args.len() as int, frame, strings);
        },
        IRView::If(cond, then_body, else_body) => {
            lemma_fitting_expr(t, cond, frame, strings);
            lemma_generated_block(t, then_body, 0, frame, strings, label + 3);
            let middle = gen_block(t, then_body, 0, frame, strings, label + 3)->Ok_0.label;
            lemma_generated_block(t, else_body, 0, frame, strings, middle);
        },
    }
}

/// Code is generated for instructions that fit the frame and print
/// literals only, as long as there are labels for their `if`s.
pub proof fn lemma_generated_block(
    t: Target,
    ss: Seq<IRView>,
    i: int,
    frame: FrameView,
    strings: Names,
    label: nat,
)
    requires
        ir_block_fits(ss, frame.slots),
        block_prints_literals(ss),
        label + 3 * ifs_in_block(ss, i) <= label_limit(),
    ensures
        gen_block(t, ss, i, frame, strings, label) is Ok,
        gen_block(t, ss, i, frame, strings, label)->Ok_0.label == label + 3 * ifs_in_block(ss, i),
    decreases ss, ss.len() - i,
{
    if 0 <= i < ss.len() {
        lemma_generated_stmt(t, ss[i], frame, strings, label);
        let middle = gen_stmt(t, ss[i], frame, strings, label)->Ok_0.label;
        lemma_generated_block(t, ss, i + 1, frame, strings, middle);
    }
}

/// Code is generated for functions whose bodies fit their frames and print
/// literals only, as long as there are labels for their `if`s.
pub proof fn lemma_generated_functions(
    t: Target,
    fs: Seq<IRFunctionView>,
    i: int,
    strings: Names,
    label: nat,
)
    requires
        forall|k: int| 0 <= k < fs.len() ==> ir_function_fits(#[trigger] fs[k]),
        forall|k: int| 0 <= k < fs.len() ==> block_prints_literals((#[trigger] fs[k]).body),
        label + 3 * ifs_in_functions(fs, i) <= label_limit(),
    ensures
        gen_functions(t, fs, i, strings, label) is Ok,
    decreases fs.len() - i,
{
    if 0 <= i < fs.len() {
        let frame = FrameView { name: fs[i].name, slots: slots_of_function(fs[i]) };
        assert(ir_function_fits(fs[i]));
        assert(block_prints_literals(fs[i].body));
        lemma_generated_block(t, fs[i].body, 0, frame, strings, label);
        let middle = gen_function(t, fs[i], strings, label)->Ok_0.label;
        lemma_generated_functions(t, fs, i + 1, strings, middle);
    }
}

/// When code generation succeeds: the program has a function `main`, the
/// body of each function fits the frame of the function, every `println` is
/// given a string literal, and three labels for each `if` of the program do
/// not go beyond the largest label number.
pub proof fn lemma_generation_succeeds(t: Target, program: IRProgramView)
    requires
        has_main(program),
        forall|k: int|
            0 <= k < program.funcs.len() ==> ir_function_fits(#[trigger] program.funcs[k]),
        forall|k: int|
            0 <= k < program.funcs.len() ==> block_prints_literals(
                (#[trigger] program.funcs[k]).body,
            ),
        3 * ifs_in_functions(program.funcs, 0) <= label_limit(),
    ensures
        program_text(t, program) is Ok,
{
    lemma_generated_functions(t, program.funcs, 0, crate::layout::strings_of_program(program), 0);
}

} // verus!
