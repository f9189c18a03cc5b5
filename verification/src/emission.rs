//! The text that is emitted for each part of a lowered program, from an
//! expression up to the whole program.
use vstd::prelude::*;
use crate::parser::TypeName;
use crate::ir::{IRExprView, IRView, IRFunctionView, IRProgramView};
use crate::codegen::{Arch, Target};
use crate::assembly::{
    CodegenErrorView,
    Text,
    Names,
    first_index,
    slot_offset,
    frame_size,
    load_int,
    load_str,
    load_var,
    store_var,
    push_result,
    pop_operands,
    operate,
    branch_if_zero,
    jump,
    label_def,
    call,
    return_jump,
    prologue,
    load_param,
    epilogue,
    print_string,
    uses_syscalls,
    entry_symbol,
    printf_symbol,
    string_label,
    function_label,
    function_end_label,
};
use crate::layout::{slots_of_function, strings_of_program};

verus! {

/// What the code of a function body is generated against: the name of the
/// function and the variables that have a slot in its frame.
pub struct FrameView {
    pub name: Seq<char>,
    pub slots: Names,
}

/// Emitted text, and the number of the next free label after it.
pub struct Emitted {
    pub text: Text,
    pub label: nat,
}

/// The largest label number.
pub open spec fn label_limit() -> nat {
    u64::MAX as nat
}

/// The code that leaves the value of `e` in the result register.
///
/// A binary operation evaluates its left operand, keeps it on the stack,
/// evaluates its right operand and combines the two. A call pushes its
/// arguments and calls.
pub open spec fn gen_expr(t: Target, e: IRExprView, frame: FrameView, strings: Names) -> Result<
    Text,
    CodegenErrorView,
>
    decreases e, 0nat,
{
    match e {
        IRExprView::Int(n) => Ok(load_int(t.arch, n as int)),
        IRExprView::Str(s) => Ok(load_str(t, first_index(strings, s))),
        IRExprView::Var(name) => {
            let k = first_index(frame.slots, name);
            if k < frame.slots.len() {
                Ok(load_var(t.arch, slot_offset(k)))
            } else {
                Err(CodegenErrorView::UnboundVariable(name))
            }
        },
        IRExprView::Binary(left, op, right) => match gen_expr(t, *left, frame, strings) {
            Err(e) => Err(e),
            Ok(left_code) => match gen_expr(t, *right, frame, strings) {
                Err(e) => Err(e),
                Ok(right_code) => match operate(t.arch, op) {
                    None => Err(CodegenErrorView::UnknownOperator(op)),
                    Some(op_code) => Ok(
                        left_code + push_result(t.arch) + right_code + pop_operands(t.arch)
                            + op_code,
                    ),
                },
            },
        },
        IRExprView::Call(name, args) => gen_call(t, name, args, frame, strings),
    }
}

/// The code that evaluates the first `n` of the arguments `args`, from the
/// last of them to the first, and pushes each.
pub open spec fn gen_args(t: Target, args: Seq<IRExprView>, n: int, frame: FrameView, strings: Names)
    -> Result<Text, CodegenErrorView>
    decreases args, n,
{
    if 0 < n <= args.len() {
        match gen_expr(t, args[n - 1], frame, strings) {
            Err(e) => Err(e),
            Ok(code) => match gen_args(t, args, n - 1, frame, strings) {
                Err(e) => Err(e),
                Ok(rest) => Ok(code + push_result(t.arch) + rest),
            },
        }
    } else {
        Ok(Seq::empty())
    }
}

/// The code of a call: the arguments pushed, the function called, the
/// arguments taken off the stack.
pub open spec fn gen_call(
    t: Target,
    name: Seq<char>,
    args: Seq<IRExprView>,
    frame: FrameView,
    strings: Names,
) -> Result<Text, CodegenErrorView>
    decreases args, args.len() + 1,
{
    match gen_args(t, args, args.len() as int, frame, strings) {
        Err(e) => Err(e),
        Ok(code) => Ok(code + call(t.arch, name, args.len())),
    }
}

/// The code of `println`: its argument must be a string literal.
pub open spec fn gen_print(t: Target, value: IRExprView, strings: Names) -> Result<
    Text,
    CodegenErrorView,
> {
    match value {
        IRExprView::Str(s) => Ok(print_string(t, first_index(strings, s))),
        _ => Err(CodegenErrorView::UnprintableArgument),
    }
}

/// The code of an instruction, with labels numbered from `label` on.
///
/// An `if` takes three labels, for its first branch, its second branch and
/// its end, before the labels of its branches.
pub open spec fn gen_stmt(
    t: Target,
    s: IRView,
    frame: FrameView,
    strings: Names,
    label: nat,
) -> Result<Emitted, CodegenErrorView>
    decreases s, 0nat,
{
    match s {
        IRView::StoreVar(name, value) => match gen_expr(t, value, frame, strings) {
            Err(e) => Err(e),
            Ok(code) => {
                let k = first_index(frame.slots, name);
                if k < frame.slots.len() {
                    Ok(Emitted { text: code + store_var(t.arch, slot_offset(k)), label })
                } else {
                    Err(CodegenErrorView::UnboundVariable(name))
                }
            },
        },
        IRView::Return(value) => match gen_expr(t, value, frame, strings) {
            Err(e) => Err(e),
            Ok(code) => Ok(Emitted { text: code + return_jump(t.arch, frame.name), label }),
        },
        IRView::Println(value) => match gen_print(t, value, strings) {
            Err(e) => Err(e),
            Ok(code) => Ok(Emitted { text: code, label }),
        },
        IRView::CallFunc(name, args) => match gen_call(t, name, args, frame, strings) {
            Err(e) => Err(e),
            Ok(code) => Ok(Emitted { text: code, label }),
        },
        IRView::If(cond, then_body, else_body) => match gen_expr(t, cond, frame, strings) {
            Err(e) => Err(e),
            Ok(cond_code) => {
                if label + 3 > label_limit() {
                    Err(CodegenErrorView::TooManyLabels)
                } else {
                    match gen_block(t, then_body, 0, frame, strings, label + 3) {
                        Err(e) => Err(e),
                        Ok(then_part) => match gen_block(
                            t,
                            else_body,
                            0,
                            frame,
                            strings,
                            then_part.label,
                        ) {
                            Err(e) => Err(e),
                            Ok(else_part) => Ok(
                                Emitted {
                                    text: cond_code + branch_if_zero(t.arch, label + 1) + label_def(
                                        label,
                                    ) + then_part.text + jump(t.arch, label + 2) + label_def(
                                        label + 1,
                                    ) + else_part.text + label_def(label + 2),
                                    label: else_part.label,
                                },
                            ),
                        },
                    }
                }
            },
        },
    }
}

/// The code of the instructions `ss` from index `i` on, one after another.
pub open spec fn gen_block(
    t: Target,
    ss: Seq<IRView>,
    i: int,
    frame: FrameView,
    strings: Names,
    label: nat,
) -> Result<Emitted, CodegenErrorView>
    decreases ss, ss.len() - i,
{
    if 0 <= i < ss.len() {
        match gen_stmt(t, ss[i], frame, strings, label) {
            Err(e) => Err(e),
            Ok(first) => match gen_block(t, ss, i + 1, frame, strings, first.label) {
                Err(e) => Err(e),
                Ok(rest) => Ok(Emitted { text: first.text + rest.text, label: rest.label }),
            },
        }
    } else {
        Ok(Emitted { text: Seq::empty(), label })
    }
}

/// The code that copies the arguments of a call, from number `i` on, into
/// the slots of the parameters.
pub open spec fn gen_params(arch: Arch, params: Seq<(Seq<char>, TypeName)>, i: int, slots: Names)
    -> Text
    decreases params.len() - i,
{
    if 0 <= i < params.len() {
        load_param(arch, i as nat) + store_var(
            arch,
            slot_offset(first_index(slots, params[i].0)),
        ) + gen_params(arch, params, i + 1, slots)
    } else {
        Seq::empty()
    }
}

/// The code of a function: the frame set up, the arguments copied into it,
/// the body, the frame taken down.
pub open spec fn gen_function(t: Target, f: IRFunctionView, strings: Names, label: nat) -> Result<
    Emitted,
    CodegenErrorView,
> {
    let slots = slots_of_function(f);
    let frame = FrameView { name: f.name, slots };
    match gen_block(t, f.body, 0, frame, strings, label) {
        Err(e) => Err(e),
        Ok(body) => Ok(
            Emitted {
                text: prologue(t.arch, f.name, frame_size(slots.len())) + gen_params(
                    t.arch,
                    f.params,
                    0,
                    slots,
                ) + body.text + epilogue(t.arch, f.name),
                label: body.label,
            },
        ),
    }
}

/// The code of the functions `fs` from index `i` on, one after another.
/// Labels are numbered through all of them.
pub open spec fn gen_functions(
    t: Target,
    fs: Seq<IRFunctionView>,
    i: int,
    strings: Names,
    label: nat,
) -> Result<Emitted, CodegenErrorView>
    decreases fs.len() - i,
{
    if 0 <= i < fs.len() {
        match gen_function(t, fs[i], strings, label) {
            Err(e) => Err(e),
            Ok(first) => match gen_functions(t, fs, i + 1, strings, first.label) {
                Err(e) => Err(e),
                Ok(rest) => Ok(Emitted { text: first.text + rest.text, label: rest.label }),
            },
        }
    } else {
        Ok(Emitted { text: Seq::empty(), label })
    }
}

/// The data entry of string literal number `k`, whose text is `s`. Where
/// output goes by system calls, the length of the text follows it.
pub open spec fn string_entry(t: Target, k: int, s: Seq<char>) -> Text {
    match t.arch {
        Arch::X86_64 => {
            let entry = string_label(k) + ": db \""@ + s + "\", 0\n"@;
            if uses_syscalls(t) {
                entry + string_label(k) + "_len: equ $ - "@ + string_label(k) + " - 1\n"@
            } else {
                entry
            }
        },
        Arch::Arm64 => string_label(k) + ":\n    .asciz \""@ + s + "\"\n"@,
    }
}

/// The data entries of the string literals `strings` from number `k` on.
pub open spec fn string_entries(t: Target, strings: Names, k: int) -> Text
    decreases strings.len() - k,
{
    if 0 <= k < strings.len() {
        string_entry(t, k, strings[k]) + string_entries(t, strings, k + 1)
    } else {
        Seq::empty()
    }
}

/// The head of the data section: what writing a line needs besides the
/// string itself.
pub open spec fn data_header(t: Target) -> Text {
    match t.arch {
        Arch::X86_64 => {
            if uses_syscalls(t) {
                "section .data\nnewline: db 10\n"@
            } else {
                "section .data\nfmt_str: db \"%s\", 10, 0\n"@
            }
        },
        Arch::Arm64 => ".data\nfmt_str:\n    .asciz \"%s\\n\"\n"@,
    }
}

/// The data section: its head and one entry for each string literal.
pub open spec fn data_section(t: Target, strings: Names) -> Text {
    data_header(t) + string_entries(t, strings, 0)
}

/// The lines that make the labels of the functions `fs` from index `i` on
/// visible to the linker.
pub open spec fn function_globals(fs: Seq<IRFunctionView>, i: int) -> Text
    decreases fs.len() - i,
{
    if 0 <= i < fs.len() {
        "global "@ + function_label(fs[i].name) + "\nglobal "@ + function_end_label(fs[i].name)
            + "\n"@ + function_globals(fs, i + 1)
    } else {
        Seq::empty()
    }
}

/// The head of the text section: the entry symbol made visible, and the
/// symbols that the code refers to declared.
pub open spec fn text_header(t: Target, fs: Seq<IRFunctionView>) -> Text {
    match t.arch {
        Arch::X86_64 => {
            let head = "section .text\nglobal "@ + entry_symbol(t) + "\n"@;
            if uses_syscalls(t) {
                head + function_globals(fs, 0)
            } else {
                head + "extern "@ + printf_symbol(t) + "\n"@ + function_globals(fs, 0)
            }
        },
        Arch::Arm64 => ".text\n.global "@ + entry_symbol(t) + "\n"@,
    }
}

/// The entry block: it calls `main` and ends the process with the value that
/// `main` returned as its status.
pub open spec fn entry_block(t: Target) -> Text {
    match t.arch {
        Arch::X86_64 => {
            if uses_syscalls(t) {
                entry_symbol(t)
                    + ":\n    call main_func\n    mov rdi, rax\n    mov rax, 60\n    syscall\n"@
            } else {
                entry_symbol(t)
                    + ":\n    push rbp\n    mov rbp, rsp\n    call main_func\n    pop rbp\n    ret\n"@
            }
        },
        Arch::Arm64 => entry_symbol(t)
            + ":\n    stp x29, x30, [sp, #-16]!\n    mov x29, sp\n    bl main_func\n    ldp x29, x30, [sp], #16\n    ret\n\n"@,
    }
}

/// Whether one of the functions `fs` from index `i` on is named `main`.
pub open spec fn has_main_from(fs: Seq<IRFunctionView>, i: int) -> bool
    decreases fs.len() - i,
{
    if 0 <= i < fs.len() {
        fs[i].name == "main"@ || has_main_from(fs, i + 1)
    } else {
        false
    }
}

/// A function named `main` is among the functions from index `i` on exactly
/// if one of them bears that name.
pub proof fn lemma_has_main(fs: Seq<IRFunctionView>, i: int)
    requires
        0 <= i <= fs.len(),
    ensures
        has_main_from(fs, i) <==> exists|k: int|
            i <= k < fs.len() && #[trigger] fs[k].name == "main"@,
    decreases fs.len() - i,
{
    if i < fs.len() {
        lemma_has_main(fs, i + 1);
        if has_main_from(fs, i) {
            if fs[i].name == "main"@ {
                assert(i <= i < fs.len() && fs[i].name == "main"@);
            } else {
                let k = choose|k: int| i + 1 <= k < fs.len() && #[trigger] fs[k].name == "main"@;
                assert(i <= k < fs.len() && fs[k].name == "main"@);
            }
        }
        if exists|k: int| i <= k < fs.len() && #[trigger] fs[k].name == "main"@ {
            let k = choose|k: int| i <= k < fs.len() && #[trigger] fs[k].name == "main"@;
            if k != i {
                assert(i + 1 <= k < fs.len() && fs[k].name == "main"@);
            }
        }
    }
}

/// Whether the program has a function named `main`.
pub open spec fn has_main(program: IRProgramView) -> bool {
    has_main_from(program.funcs, 0)
}

/// The assembly text of a program for the target `t`.
///
/// On x86-64 the text is the data section, the head of the text section,
/// the functions in the order of the program and the entry block; on
/// AArch64 the entry block stands before the functions.
pub open spec fn program_text(t: Target, program: IRProgramView) -> Result<Text, CodegenErrorView> {
    if !has_main(program) {
        Err(CodegenErrorView::MissingMain)
    } else {
        let strings = strings_of_program(program);
        match gen_functions(t, program.funcs, 0, strings, 0) {
            Err(e) => Err(e),
            Ok(code) => match t.arch {
                Arch::X86_64 => Ok(
                    data_section(t, strings) + text_header(t, program.funcs) + code.text
                        + entry_block(t),
                ),
                Arch::Arm64 => Ok(
                    data_section(t, strings) + text_header(t, program.funcs) + entry_block(t)
                        + code.text,
                ),
            },
        }
    }
}

/// The number of `if` instructions in `s`, itself and at any depth in its
/// branches.
pub open spec fn ifs_in_stmt(s: IRView) -> nat
    decreases s, 0nat,
{
    match s {
        IRView::If(_, then_body, else_body) => 1 + ifs_in_block(then_body, 0) + ifs_in_block(
            else_body,
            0,
        ),
        _ => 0,
    }
}

/// The number of `if` instructions in the instructions `ss` from index `i`
/// on.
pub open spec fn ifs_in_block(ss: Seq<IRView>, i: int) -> nat
    decreases ss, ss.len() - i,
{
    if 0 <= i < ss.len() {
        ifs_in_stmt(ss[i]) + ifs_in_block(ss, i + 1)
    } else {
        0
    }
}

/// The code of an instruction takes three labels for each `if` in it and no
/// other: the next free label after it lies three times the number of its
/// `if`s above the first one it was given. So the labels of an `if` are
/// fresh: those of its branches come after its own three, those of its
/// second branch after those of its first, and what follows the `if` is
/// numbered after all of them.
pub proof fn lemma_labels_of_stmt(
    t: Target,
    s: IRView,
    frame: FrameView,
    strings: Names,
    label: nat,
)
    requires
        gen_stmt(t, s, frame, strings, label) is Ok,
        label <= label_limit(),
    ensures
        gen_stmt(t, s, frame, strings, label)->Ok_0.label == label + 3 * ifs_in_stmt(s),
        gen_stmt(t, s, frame, strings, label)->Ok_0.label <= label_limit(),
    decreases s, 0nat,
{
    match s {
        IRView::If(cond, then_body, else_body) => {
            lemma_labels_of_block(t, then_body, 0, frame, strings, label + 3);
            let middle = gen_block(t, then_body, 0, frame, strings, label + 3)->Ok_0.label;
            lemma_labels_of_block(t, else_body, 0, frame, strings, middle);
        },
        _ => {},
    }
}

/// The code of a block takes three labels for each `if` in it and no
/// other.
pub proof fn lemma_labels_of_block(
    t: Target,
    ss: Seq<IRView>,
    i: int,
    frame: FrameView,
    strings: Names,
    label: nat,
)
    requires
        gen_block(t, ss, i, frame, strings, label) is Ok,
        label <= label_limit(),
    ensures
        gen_block(t, ss, i, frame, strings, label)->Ok_0.label == label + 3 * ifs_in_block(ss, i),
        gen_block(t, ss, i, frame, strings, label)->Ok_0.label <= label_limit(),
    decreases ss, ss.len() - i,
{
    if 0 <= i < ss.len() {
        lemma_labels_of_stmt(t, ss[i], frame, strings, label);
        let middle = gen_stmt(t, ss[i], frame, strings, label)->Ok_0.label;
        lemma_labels_of_block(t, ss, i + 1, frame, strings, middle);
    }
}

} // verus!
