//! Where things live in the generated program: the table of string literals
//! of a program and the stack slots of the variables of a function.
use vstd::prelude::*;
use crate::parser::TypeName;
use crate::ir::{IRExprView, IRView, IRFunctionView, IRProgramView};
use crate::assembly::{Names, add_name, first_index, first_index_from, slot_offset, frame_size};

verus! {

/// `table`, followed by the string literals of `e` that are not in it yet,
/// in the order in which they are met.
pub open spec fn strings_of_expr(e: IRExprView, table: Names) -> Names
    decreases e, 0nat,
{
    match e {
        IRExprView::Str(s) => add_name(table, s),
        IRExprView::Binary(left, _, right) => strings_of_expr(
            *right,
            strings_of_expr(*left, table),
        ),
        IRExprView::Call(_, args) => strings_of_exprs(args, 0, table),
        _ => table,
    }
}

/// `table`, followed by the new string literals of the expressions `es` from
/// index `i` on.
pub open spec fn strings_of_exprs(es: Seq<IRExprView>, i: int, table: Names) -> Names
    decreases es, es.len() - i,
{
    if 0 <= i < es.len() {
        strings_of_exprs(es, i + 1, strings_of_expr(es[i], table))
    } else {
        table
    }
}

/// `table`, followed by the new string literals of the instruction `s`.
pub open spec fn strings_of_stmt(s: IRView, table: Names) -> Names
    decreases s, 0nat,
{
    match s {
        IRView::StoreVar(_, value) => strings_of_expr(value, table),
        IRView::Return(value) => strings_of_expr(value, table),
        IRView::Println(value) => strings_of_expr(value, table),
        IRView::CallFunc(_, args) => strings_of_exprs(args, 0, table),
        IRView::If(cond, then_body, else_body) => strings_of_block(
            else_body,
            0,
            strings_of_block(then_body, 0, strings_of_expr(cond, table)),
        ),
    }
}

/// `table`, followed by the new string literals of the instructions `ss`
/// from index `i` on.
pub open spec fn strings_of_block(ss: Seq<IRView>, i: int, table: Names) -> Names
    decreases ss, ss.len() - i,
{
    if 0 <= i < ss.len() {
        strings_of_block(ss, i + 1, strings_of_stmt(ss[i], table))
    } else {
        table
    }
}

/// `table`, followed by the new string literals of the functions `fs` from
/// index `i` on.
pub open spec fn strings_of_functions(fs: Seq<IRFunctionView>, i: int, table: Names) -> Names
    decreases fs.len() - i,
{
    if 0 <= i < fs.len() {
        strings_of_functions(fs, i + 1, strings_of_block(fs[i].body, 0, table))
    } else {
        table
    }
}

/// The string literals of a program: each distinct text once, in the order
/// of first occurrence.
pub open spec fn strings_of_program(program: IRProgramView) -> Names {
    strings_of_functions(program.funcs, 0, Seq::empty())
}

/// `names`, followed by the names of the parameters `params` from index `i`
/// on that are not in it yet.
pub open spec fn slots_of_params(params: Seq<(Seq<char>, TypeName)>, i: int, names: Names) -> Names
    decreases params.len() - i,
{
    if 0 <= i < params.len() {
        slots_of_params(params, i + 1, add_name(names, params[i].0))
    } else {
        names
    }
}

/// `names`, followed by the variables that the instruction `s` stores to and
/// that are not in it yet. Both branches of an `if` are gone through.
pub open spec fn slots_of_stmt(s: IRView, names: Names) -> Names
    decreases s, 0nat,
{
    match s {
        IRView::StoreVar(name, _) => add_name(names, name),
        IRView::If(_, then_body, else_body) => slots_of_block(
            else_body,
            0,
            slots_of_block(then_body, 0, names),
        ),
        _ => names,
    }
}

/// `names`, followed by the new variables of the instructions `ss` from
/// index `i` on.
pub open spec fn slots_of_block(ss: Seq<IRView>, i: int, names: Names) -> Names
    decreases ss, ss.len() - i,
{
    if 0 <= i < ss.len() {
        slots_of_block(ss, i + 1, slots_of_stmt(ss[i], names))
    } else {
        names
    }
}

/// The variables of a function, each distinct name once: the parameters in
/// order, then the variables stored to in the body in the order of first
/// occurrence. The variable at index `k` has slot `k` of the frame.
pub open spec fn slots_of_function(f: IRFunctionView) -> Names {
    slots_of_block(f.body, 0, slots_of_params(f.params, 0, Seq::empty()))
}

/// The first index of a name lies within the list exactly if the list holds
/// the name, and then the name stands there and nowhere before.
pub proof fn lemma_first_index(names: Names, name: Seq<char>)
    ensures
        0 <= first_index(names, name) <= names.len(),
        first_index(names, name) < names.len() <==> names.contains(name),
        first_index(names, name) < names.len() ==> names[first_index(names, name)] == name,
        forall|k: int| 0 <= k < first_index(names, name) ==> names[k] != name,
{
    lemma_first_index_from(names, name, 0);
    if names.contains(name) {
        let k = choose|k: int| 0 <= k < names.len() && names[k] == name;
        assert(names[k] == name);
    }
}

/// The first index of a name from `i` on lies between `i` and the length of
/// the list; the name stands there if that is within the list, and nowhere
/// between `i` and there.
pub proof fn lemma_first_index_from(names: Names, name: Seq<char>, i: int)
    requires
        0 <= i <= names.len(),
    ensures
        i <= first_index_from(names, name, i) <= names.len(),
        first_index_from(names, name, i) < names.len() ==> names[first_index_from(names, name, i)]
            == name,
        forall|k: int| i <= k < first_index_from(names, name, i) ==> names[k] != name,
    decreases names.len() - i,
{
    if i < names.len() && names[i] != name {
        lemma_first_index_from(names, name, i + 1);
    }
}

/// Adding a name keeps a list of distinct names distinct, keeps every name
/// where it is, and leaves the added name in the list.
pub proof fn lemma_add_name(names: Names, name: Seq<char>)
    requires
        names.no_duplicates(),
    ensures
        add_name(names, name).no_duplicates(),
        add_name(names, name).contains(name),
        names.len() <= add_name(names, name).len(),
        forall|k: int| 0 <= k < names.len() ==> add_name(names, name)[k] == names[k],
        forall|other: Seq<char>| names.contains(other) ==> add_name(names, name).contains(other),
        forall|other: Seq<char>|
            add_name(names, name).contains(other) ==> names.contains(other) || other == name,
{
    let added = add_name(names, name);
    if !names.contains(name) {
        assert(added[names.len() as int] == name);
        assert forall|other: Seq<char>| names.contains(other) implies added.contains(other) by {
            let k = choose|k: int| 0 <= k < names.len() && names[k] == other;
            assert(added[k] == other);
        }
    }
}

/// Whether the instruction `s` stores to the variable `name`, itself or in
/// one of its branches, at any depth.
pub open spec fn stmt_stores(s: IRView, name: Seq<char>) -> bool
    decreases s, 0nat,
{
    match s {
        IRView::StoreVar(stored, _) => stored == name,
        IRView::If(_, then_body, else_body) => block_stores(then_body, 0, name) || block_stores(
            else_body,
            0,
            name,
        ),
        _ => false,
    }
}

/// Whether one of the instructions `ss` from index `i` on stores to `name`.
pub open spec fn block_stores(ss: Seq<IRView>, i: int, name: Seq<char>) -> bool
    decreases ss, ss.len() - i,
{
    if 0 <= i < ss.len() {
        stmt_stores(ss[i], name) || block_stores(ss, i + 1, name)
    } else {
        false
    }
}

/// Whether one of the parameters `params` from index `i` on is named `name`.
pub open spec fn params_name(params: Seq<(Seq<char>, TypeName)>, i: int, name: Seq<char>) -> bool
    decreases params.len() - i,
{
    if 0 <= i < params.len() {
        params[i].0 == name || params_name(params, i + 1, name)
    } else {
        false
    }
}

/// Whether `longer` begins with `shorter`.
pub open spec fn extends(longer: Names, shorter: Names) -> bool {
    shorter.len() <= longer.len() && forall|k: int|
        0 <= k < shorter.len() ==> longer[k] == shorter[k]
}

/// What going through a piece of a program does to a list of distinct
/// names: the list stays distinct, keeps what it held where it was, and
/// holds besides exactly the names for which `found` holds.
pub open spec fn gathers(before: Names, after: Names, found: spec_fn(Seq<char>) -> bool) -> bool {
    &&& after.no_duplicates()
    &&& extends(after, before)
    &&& forall|name: Seq<char>| #[trigger]
        after.contains(name) <==> before.contains(name) || found(name)
}

/// Adding one name gathers that name.
pub proof fn lemma_add_name_gathers(names: Names, name: Seq<char>)
    requires
        names.no_duplicates(),
    ensures
        gathers(names, add_name(names, name), |x: Seq<char>| x == name),
{
    lemma_add_name(names, name);
}

/// Gathering in two steps gathers what either step finds.
pub proof fn lemma_gathers_twice(
    a: Names,
    b: Names,
    c: Names,
    first: spec_fn(Seq<char>) -> bool,
    second: spec_fn(Seq<char>) -> bool,
    both: spec_fn(Seq<char>) -> bool,
)
    requires
        gathers(a, b, first),
        gathers(b, c, second),
        forall|name: Seq<char>| #[trigger] both(name) <==> first(name) || second(name),
    ensures
        gathers(a, c, both),
{
    assert forall|name: Seq<char>| #[trigger]
        c.contains(name) <==> a.contains(name) || both(name) by {
        assert(b.contains(name) <==> a.contains(name) || first(name));
        assert(c.contains(name) <==> b.contains(name) || second(name));
    }
}

/// The slots of an instruction: the names before it, then the variables it
/// stores to that were not among them, each once.
pub proof fn lemma_slots_of_stmt(s: IRView, names: Names)
    requires
        names.no_duplicates(),
    ensures
        gathers(names, slots_of_stmt(s, names), |name: Seq<char>| stmt_stores(s, name)),
    decreases s, 0nat,
{
    match s {
        IRView::StoreVar(stored, _) => {
            lemma_add_name(names, stored);
        },
        IRView::If(_, then_body, else_body) => {
            let middle = slots_of_block(then_body, 0, names);
            let last = slots_of_block(else_body, 0, middle);
            lemma_slots_of_block(then_body, 0, names);
            lemma_slots_of_block(else_body, 0, middle);
            lemma_gathers_twice(
                names,
                middle,
                last,
                |name: Seq<char>| block_stores(then_body, 0, name),
                |name: Seq<char>| block_stores(else_body, 0, name),
                |name: Seq<char>| stmt_stores(s, name),
            );
        },
        _ => {},
    }
}

/// The slots of a block: the names before it, then the variables it stores
/// to that were not among them, each once.
pub proof fn lemma_slots_of_block(ss: Seq<IRView>, i: int, names: Names)
    requires
        names.no_duplicates(),
    ensures
        gathers(names, slots_of_block(ss, i, names), |name: Seq<char>| block_stores(ss, i, name)),
    decreases ss, ss.len() - i,
{
    if 0 <= i < ss.len() {
        let middle = slots_of_stmt(ss[i], names);
        lemma_slots_of_stmt(ss[i], names);
        lemma_slots_of_block(ss, i + 1, middle);
        lemma_gathers_twice(
            names,
            middle,
            slots_of_block(ss, i + 1, middle),
            |name: Seq<char>| stmt_stores(ss[i], name),
            |name: Seq<char>| block_stores(ss, i + 1, name),
            |name: Seq<char>| block_stores(ss, i, name),
        );
    }
}

/// The slots of parameters: the names before them, then the parameters
/// that were not among them, each once.
pub proof fn lemma_slots_of_params(params: Seq<(Seq<char>, TypeName)>, i: int, names: Names)
    requires
        names.no_duplicates(),
    ensures
        gathers(
            names,
            slots_of_params(params, i, names),
            |name: Seq<char>| params_name(params, i, name),
        ),
    decreases params.len() - i,
{
    if 0 <= i < params.len() {
        let middle = add_name(names, params[i].0);
        lemma_add_name_gathers(names, params[i].0);
        lemma_slots_of_params(params, i + 1, middle);
        lemma_gathers_twice(
            names,
            middle,
            slots_of_params(params, i + 1, middle),
            |name: Seq<char>| name == params[i].0,
            |name: Seq<char>| params_name(params, i + 1, name),
            |name: Seq<char>| params_name(params, i, name),
        );
    }
}

/// Every variable of a function has exactly one slot, however many
/// branches declare it: the list of slots holds no name twice, and it holds
/// a name exactly if a parameter bears it or the body stores to it, in
/// whatever branch and at whatever depth.
pub proof fn lemma_one_slot_for_each_variable(f: IRFunctionView)
    ensures
        slots_of_function(f).no_duplicates(),
        forall|name: Seq<char>| #[trigger]
            slots_of_function(f).contains(name) <==> params_name(f.params, 0, name)
                || block_stores(f.body, 0, name),
{
    let empty = Seq::<Seq<char>>::empty();
    let from_params = slots_of_params(f.params, 0, empty);
    lemma_slots_of_params(f.params, 0, empty);
    lemma_slots_of_block(f.body, 0, from_params);
    lemma_gathers_twice(
        empty,
        from_params,
        slots_of_function(f),
        |name: Seq<char>| params_name(f.params, 0, name),
        |name: Seq<char>| block_stores(f.body, 0, name),
        |name: Seq<char>| params_name(f.params, 0, name) || block_stores(f.body, 0, name),
    );
    assert forall|name: Seq<char>| #[trigger]
        slots_of_function(f).contains(name) <==> params_name(f.params, 0, name) || block_stores(
            f.body,
            0,
            name,
        ) by {
        assert(!empty.contains(name));
    }
}

/// Two variables of a function never share a slot: different names in the
/// list of slots stand at different indices, so their slots lie at different
/// distances below the frame pointer. Each distance is a positive multiple
/// of eight, and the frame is large enough for it.
pub proof fn lemma_slots_are_apart(slots: Names, a: Seq<char>, b: Seq<char>)
    requires
        slots.contains(a),
        slots.contains(b),
        a != b,
    ensures
        first_index(slots, a) != first_index(slots, b),
        slot_offset(first_index(slots, a)) != slot_offset(first_index(slots, b)),
        slot_offset(first_index(slots, a)) % 8 == 0,
        0 < slot_offset(first_index(slots, a)) <= frame_size(slots.len()),
{
    lemma_first_index(slots, a);
    lemma_first_index(slots, b);
}

/// Whether the string literal `text` occurs in the expression `e`.
pub open spec fn expr_mentions(e: IRExprView, text: Seq<char>) -> bool
    decreases e, 0nat,
{
    match e {
        IRExprView::Str(s) => s == text,
        IRExprView::Binary(left, _, right) => expr_mentions(*left, text) || expr_mentions(
            *right,
            text,
        ),
        IRExprView::Call(_, args) => exprs_mention(args, 0, text),
        _ => false,
    }
}

/// Whether the string literal `text` occurs in one of the expressions `es`
/// from index `i` on.
pub open spec fn exprs_mention(es: Seq<IRExprView>, i: int, text: Seq<char>) -> bool
    decreases es, es.len() - i,
{
    if 0 <= i < es.len() {
        expr_mentions(es[i], text) || exprs_mention(es, i + 1, text)
    } else {
        false
    }
}

/// Whether the string literal `text` occurs in the instruction `s`.
pub open spec fn stmt_mentions(s: IRView, text: Seq<char>) -> bool
    decreases s, 0nat,
{
    match s {
        IRView::StoreVar(_, value) => expr_mentions(value, text),
        IRView::Return(value) => expr_mentions(value, text),
        IRView::Println(value) => expr_mentions(value, text),
        IRView::CallFunc(_, args) => exprs_mention(args, 0, text),
        IRView::If(cond, then_body, else_body) => expr_mentions(cond, text) || block_mentions(
            then_body,
            0,
            text,
        ) || block_mentions(else_body, 0, text),
    }
}

/// Whether the string literal `text` occurs in one of the instructions `ss`
/// from index `i` on.
pub open spec fn block_mentions(ss: Seq<IRView>, i: int, text: Seq<char>) -> bool
    decreases ss, ss.len() - i,
{
    if 0 <= i < ss.len() {
        stmt_mentions(ss[i], text) || block_mentions(ss, i + 1, text)
    } else {
        false
    }
}

/// Whether the string literal `text` occurs in one of the functions `fs`
/// from index `i` on.
pub open spec fn functions_mention(fs: Seq<IRFunctionView>, i: int, text: Seq<char>) -> bool
    decreases fs.len() - i,
{
    if 0 <= i < fs.len() {
        block_mentions(fs[i].body, 0, text) || functions_mention(fs, i + 1, text)
    } else {
        false
    }
}

/// The strings of an expression: the table before it, then its literals
/// that were not in the table, each once.
pub proof fn lemma_strings_of_expr(e: IRExprView, table: Names)
    requires
        table.no_duplicates(),
    ensures
        gathers(table, strings_of_expr(e, table), |text: Seq<char>| expr_mentions(e, text)),
    decreases e, 0nat,
{
    match e {
        IRExprView::Str(s) => {
            lemma_add_name(table, s);
        },
        IRExprView::Binary(left, _, right) => {
            let middle = strings_of_expr(*left, table);
            lemma_strings_of_expr(*left, table);
            lemma_strings_of_expr(*right, middle);
            lemma_gathers_twice(
                table,
                middle,
                strings_of_expr(*right, middle),
                |text: Seq<char>| expr_mentions(*left, text),
                |text: Seq<char>| expr_mentions(*right, text),
                |text: Seq<char>| expr_mentions(e, text),
            );
        },
        IRExprView::Call(_, args) => {
            lemma_strings_of_exprs(args, 0, table);
        },
        _ => {},
    }
}

/// The strings of a list of expressions: the table before it, then its
/// literals that were not in the table, each once.
pub proof fn lemma_strings_of_exprs(es: Seq<IRExprView>, i: int, table: Names)
    requires
        table.no_duplicates(),
    ensures
        gathers(table, strings_of_exprs(es, i, table), |text: Seq<char>| exprs_mention(es, i, text)),
    decreases es, es.len() - i,
{
    if 0 <= i < es.len() {
        let middle = strings_of_expr(es[i], table);
        lemma_strings_of_expr(es[i], table);
        lemma_strings_of_exprs(es, i + 1, middle);
        lemma_gathers_twice(
            table,
            middle,
            strings_of_exprs(es, i + 1, middle),
            |text: Seq<char>| expr_mentions(es[i], text),
            |text: Seq<char>| exprs_mention(es, i + 1, text),
            |text: Seq<char>| exprs_mention(es, i, text),
        );
    }
}

/// The strings of an instruction: the table before it, then its literals
/// that were not in the table, each once.
pub proof fn lemma_strings_of_stmt(s: IRView, table: Names)
    requires
        table.no_duplicates(),
    ensures
        gathers(table, strings_of_stmt(s, table), |text: Seq<char>| stmt_mentions(s, text)),
    decreases s, 0nat,
{
    match s {
        IRView::StoreVar(_, value) => {
            lemma_strings_of_expr(value, table);
        },
        IRView::Return(value) => {
            lemma_strings_of_expr(value, table);
        },
        IRView::Println(value) => {
            lemma_strings_of_expr(value, table);
        },
        IRView::CallFunc(_, args) => {
            lemma_strings_of_exprs(args, 0, table);
        },
        IRView::If(cond, then_body, else_body) => {
            let after_cond = strings_of_expr(cond, table);
            let after_then = strings_of_block(then_body, 0, after_cond);
            let after_else = strings_of_block(else_body, 0, after_then);
            lemma_strings_of_expr(cond, table);
            lemma_strings_of_block(then_body, 0, after_cond);
            lemma_strings_of_block(else_body, 0, after_then);
            lemma_gathers_twice(
                table,
                after_cond,
                after_then,
                |text: Seq<char>| expr_mentions(cond, text),
                |text: Seq<char>| block_mentions(then_body, 0, text),
                |text: Seq<char>|
                    expr_mentions(cond, text) || block_mentions(then_body, 0, text),
            );
            lemma_gathers_twice(
                table,
                after_then,
                after_else,
                |text: Seq<char>|
                    expr_mentions(cond, text) || block_mentions(then_body, 0, text),
                |text: Seq<char>| block_mentions(else_body, 0, text),
                |text: Seq<char>| stmt_mentions(s, text),
            );
        },
    }
}

/// The strings of a block: the table before it, then its literals that
/// were not in the table, each once.
pub proof fn lemma_strings_of_block(ss: Seq<IRView>, i: int, table: Names)
    requires
        table.no_duplicates(),
    ensures
        gathers(table, strings_of_block(ss, i, table), |text: Seq<char>| block_mentions(ss, i, text)),
    decreases ss, ss.len() - i,
{
    if 0 <= i < ss.len() {
        let middle = strings_of_stmt(ss[i], table);
        lemma_strings_of_stmt(ss[i], table);
        lemma_strings_of_block(ss, i + 1, middle);
        lemma_gathers_twice(
            table,
            middle,
            strings_of_block(ss, i + 1, middle),
            |text: Seq<char>| stmt_mentions(ss[i], text),
            |text: Seq<char>| block_mentions(ss, i + 1, text),
            |text: Seq<char>| block_mentions(ss, i, text),
        );
    }
}

/// The strings of a list of functions: the table before it, then the
/// literals of their bodies that were not in the table, each once.
pub proof fn lemma_strings_of_functions(fs: Seq<IRFunctionView>, i: int, table: Names)
    requires
        table.no_duplicates(),
    ensures
        gathers(
            table,
            strings_of_functions(fs, i, table),
            |text: Seq<char>| functions_mention(fs, i, text),
        ),
    decreases fs.len() - i,
{
    if 0 <= i < fs.len() {
        let middle = strings_of_block(fs[i].body, 0, table);
        lemma_strings_of_block(fs[i].body, 0, table);
        lemma_strings_of_functions(fs, i + 1, middle);
        lemma_gathers_twice(
            table,
            middle,
            strings_of_functions(fs, i + 1, middle),
            |text: Seq<char>| block_mentions(fs[i].body, 0, text),
            |text: Seq<char>| functions_mention(fs, i + 1, text),
            |text: Seq<char>| functions_mention(fs, i, text),
        );
    }
}

/// Every distinct string literal of a program stands in its table exactly
/// once, however often the program uses it, and the table holds nothing
/// else. So each literal has one number, below the length of the table, and
/// one data entry.
pub proof fn lemma_one_entry_for_each_literal(program: IRProgramView)
    ensures
        strings_of_program(program).no_duplicates(),
        forall|text: Seq<char>| #[trigger]
            strings_of_program(program).contains(text) <==> functions_mention(
                program.funcs,
                0,
                text,
            ),
        forall|text: Seq<char>|
            functions_mention(program.funcs, 0, text) ==> {
                let k = #[trigger] first_index(strings_of_program(program), text);
                0 <= k < strings_of_program(program).len() && strings_of_program(program)[k] == text
            },
{
    let empty = Seq::<Seq<char>>::empty();
    let table = strings_of_program(program);
    lemma_strings_of_functions(program.funcs, 0, empty);
    assert forall|text: Seq<char>| #[trigger]
        table.contains(text) <==> functions_mention(program.funcs, 0, text) by {
        assert(!empty.contains(text));
    }
    assert forall|text: Seq<char>| functions_mention(program.funcs, 0, text) implies {
        let k = #[trigger] first_index(table, text);
        0 <= k < table.len() && table[k] == text
    } by {
        assert(table.contains(text));
        lemma_first_index(table, text);
    }
}

} // verus!
