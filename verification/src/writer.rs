//! Writing instruction sequences: each function appends to a text what the
//! function of the same purpose in [`crate::assembly`] says.
use vstd::prelude::*;
use crate::text::{push_text, push_decimal, push_signed_decimal, text_is};
use crate::codegen::{Arch, Os, Target};
use crate::assembly;
use crate::assembly::{names_view, first_index, first_index_from};

verus! {

/// The first index at which `names` holds `name`, or the length of `names`.
pub fn position(names: &Vec<String>, name: &String) -> (k: usize)
    ensures
        k == first_index(names_view(names@), name@),
        k <= names.len(),
{
    let ghost views = names_view(names@);
    let mut i: usize = 0;
    while i < names.len()
        invariant
            i <= names.len(),
            views == names_view(names@),
            first_index(views, name@) == first_index_from(views, name@, i as int),
        decreases names.len() - i,
    {
        if names[i] == *name {
            return i;
        }
        i += 1;
    }
    i
}

/// Whether `names` holds `name`.
pub fn holds(names: &Vec<String>, name: &String) -> (b: bool)
    ensures
        b == names_view(names@).contains(name@),
{
    let k = position(names, name);
    proof {
        crate::layout::lemma_first_index(names_view(names@), name@);
    }
    k < names.len()
}

/// Puts `name` at the end of `names` unless it is among them already.
pub fn add(names: &mut Vec<String>, name: &String)
    ensures
        names_view(final(names)@) == assembly::add_name(names_view(old(names)@), name@),
{
    if !holds(names, name) {
        names.push(name.clone());
        assert(names_view(names@) =~= names_view(old(names)@).push(name@));
    }
}

/// Appends the text of label number `n`.
pub fn write_label_name(out: &mut String, n: u64)
    ensures
        final(out)@ == old(out)@ + assembly::label_name(n as nat),
{
    push_text(out, "label_");
    push_decimal(out, n as u128);
    assert(final(out)@ =~= old(out)@ + assembly::label_name(n as nat));
}

/// Appends the label of string literal number `k`.
pub fn write_string_label(out: &mut String, k: usize)
    ensures
        final(out)@ == old(out)@ + assembly::string_label(k as int),
{
    push_text(out, "str_");
    push_decimal(out, k as u128);
    assert(final(out)@ =~= old(out)@ + assembly::string_label(k as int));
}

/// Appends the label at which the function `name` begins.
pub fn write_function_label(out: &mut String, name: &String)
    ensures
        final(out)@ == old(out)@ + assembly::function_label(name@),
{
    push_text(out, name.as_str());
    push_text(out, "_func");
    assert(final(out)@ =~= old(out)@ + assembly::function_label(name@));
}

/// Appends the label at which the function `name` is left.
pub fn write_function_end_label(out: &mut String, name: &String)
    ensures
        final(out)@ == old(out)@ + assembly::function_end_label(name@),
{
    push_text(out, name.as_str());
    push_text(out, "_func_end");
    assert(final(out)@ =~= old(out)@ + assembly::function_end_label(name@));
}

/// Appends the code that loads the integer `n` into the result register.
pub fn write_load_int(out: &mut String, arch: Arch, n: i64)
    ensures
        final(out)@ == old(out)@ + assembly::load_int(arch, n as int),
{
    match arch {
        Arch::X86_64 => {
            push_text(out, "    mov rax, ");
        },
        Arch::Arm64 => {
            push_text(out, "    ldr x0, =");
        },
    }
    push_signed_decimal(out, n);
    push_text(out, "\n");
    assert(final(out)@ =~= old(out)@ + assembly::load_int(arch, n as int));
}

/// Appends the code that loads the address of string literal number `k`
/// into the result register.
pub fn write_load_str(out: &mut String, t: Target, k: usize)
    ensures
        final(out)@ == old(out)@ + assembly::load_str(t, k as int),
{
    match t.arch {
        Arch::X86_64 => {
            push_text(out, "    lea rax, [rel ");
            write_string_label(out, k);
            push_text(out, "]\n");
        },
        Arch::Arm64 => {
            if t.os == Os::MacOs {
                push_text(out, "    adrp x0, ");
                write_string_label(out, k);
                push_text(out, "@PAGE\n    add x0, x0, ");
                write_string_label(out, k);
                push_text(out, "@PAGEOFF\n");
            } else {
                push_text(out, "    adrp x0, ");
                write_string_label(out, k);
                push_text(out, "\n    add x0, x0, :lo12:");
                write_string_label(out, k);
                push_text(out, "\n");
            }
        },
    }
    assert(final(out)@ =~= old(out)@ + assembly::load_str(t, k as int));
}

/// The distance of slot `k` below the frame pointer.
pub fn offset_of_slot(k: usize) -> (offset: u128)
    ensures
        offset == assembly::slot_offset(k as int),
{
    8 * (k as u128 + 1)
}

/// Appends the code that loads the slot `offset` bytes below the frame
/// pointer into the result register.
pub fn write_load_var(out: &mut String, arch: Arch, offset: u128)
    ensures
        final(out)@ == old(out)@ + assembly::load_var(arch, offset as nat),
{
    match arch {
        Arch::X86_64 => {
            push_text(out, "    mov rax, [rbp-");
            push_decimal(out, offset);
            push_text(out, "]\n");
        },
        Arch::Arm64 => {
            push_text(out, "    ldr x9, =");
            push_decimal(out, offset);
            push_text(out, "\n    sub x9, x29, x9\n    ldr x0, [x9]\n");
        },
    }
    assert(final(out)@ =~= old(out)@ + assembly::load_var(arch, offset as nat));
}

/// Appends the code that stores the result register in the slot `offset`
/// bytes below the frame pointer.
pub fn write_store_var(out: &mut String, arch: Arch, offset: u128)
    ensures
        final(out)@ == old(out)@ + assembly::store_var(arch, offset as nat),
{
    match arch {
        Arch::X86_64 => {
            push_text(out, "    mov [rbp-");
            push_decimal(out, offset);
            push_text(out, "], rax\n");
        },
        Arch::Arm64 => {
            push_text(out, "    ldr x9, =");
            push_decimal(out, offset);
            push_text(out, "\n    sub x9, x29, x9\n    str x0, [x9]\n");
        },
    }
    assert(final(out)@ =~= old(out)@ + assembly::store_var(arch, offset as nat));
}

/// Appends the code that pushes the result register on the stack.
pub fn write_push_result(out: &mut String, arch: Arch)
    ensures
        final(out)@ == old(out)@ + assembly::push_result(arch),
{
    match arch {
        Arch::X86_64 => {
            push_text(out, "    push rax\n");
        },
        Arch::Arm64 => {
            push_text(out, "    str x0, [sp, #-16]!\n");
        },
    }
}

/// Appends the code that brings the two operands of a binary operation
/// into their registers.
pub fn write_pop_operands(out: &mut String, arch: Arch)
    ensures
        final(out)@ == old(out)@ + assembly::pop_operands(arch),
{
    match arch {
        Arch::X86_64 => {
            push_text(out, "    mov rcx, rax\n    pop rax\n");
        },
        Arch::Arm64 => {
            push_text(out, "    mov x1, x0\n    ldr x0, [sp], #16\n");
        },
    }
}

/// The instructions of the operator `op`, if it is one.
pub fn operation(arch: Arch, op: &String) -> (code: Option<&'static str>)
    ensures
        match assembly::operate(arch, op@) {
            Some(text) => code is Some && code->Some_0@ == text,
            None => code is None,
        },
{
    let op = op.as_str();
    match arch {
        Arch::X86_64 => {
            if text_is(op, "+") {
                Some("    add rax, rcx\n")
            } else if text_is(op, "-") {
                Some("    sub rax, rcx\n")
            } else if text_is(op, "*") {
                Some("    imul rax, rcx\n")
            } else if text_is(op, "/") {
                Some("    cqo\n    idiv rcx\n")
            } else if text_is(op, ">") {
                Some("    cmp rax, rcx\n    setg al\n    movzx rax, al\n")
            } else if text_is(op, "<") {
                Some("    cmp rax, rcx\n    setl al\n    movzx rax, al\n")
            } else if text_is(op, "==") {
                Some("    cmp rax, rcx\n    sete al\n    movzx rax, al\n")
            } else if text_is(op, "!=") {
                Some("    cmp rax, rcx\n    setne al\n    movzx rax, al\n")
            } else {
                None
            }
        },
        Arch::Arm64 => {
            if text_is(op, "+") {
                Some("    add x0, x0, x1\n")
            } else if text_is(op, "-") {
                Some("    sub x0, x0, x1\n")
            } else if text_is(op, "*") {
                Some("    mul x0, x0, x1\n")
            } else if text_is(op, "/") {
                Some("    sdiv x0, x0, x1\n")
            } else if text_is(op, ">") {
                Some("    cmp x0, x1\n    cset x0, gt\n")
            } else if text_is(op, "<") {
                Some("    cmp x0, x1\n    cset x0, lt\n")
            } else if text_is(op, "==") {
                Some("    cmp x0, x1\n    cset x0, eq\n")
            } else if text_is(op, "!=") {
                Some("    cmp x0, x1\n    cset x0, ne\n")
            } else {
                None
            }
        },
    }
}

/// Appends the code that jumps to label `n` if the result register holds
/// zero.
pub fn write_branch_if_zero(out: &mut String, arch: Arch, n: u64)
    ensures
        final(out)@ == old(out)@ + assembly::branch_if_zero(arch, n as nat),
{
    match arch {
        Arch::X86_64 => {
            push_text(out, "    cmp rax, 0\n    je ");
        },
        Arch::Arm64 => {
            push_text(out, "    cmp x0, #0\n    b.eq ");
        },
    }
    write_label_name(out, n);
    push_text(out, "\n");
    assert(final(out)@ =~= old(out)@ + assembly::branch_if_zero(arch, n as nat));
}

/// Appends the code that jumps to label `n`.
pub fn write_jump(out: &mut String, arch: Arch, n: u64)
    ensures
        final(out)@ == old(out)@ + assembly::jump(arch, n as nat),
{
    match arch {
        Arch::X86_64 => {
            push_text(out, "    jmp ");
        },
        Arch::Arm64 => {
            push_text(out, "    b ");
        },
    }
    write_label_name(out, n);
    push_text(out, "\n");
    assert(final(out)@ =~= old(out)@ + assembly::jump(arch, n as nat));
}

/// Appends the definition of label `n`.
pub fn write_label_def(out: &mut String, n: u64)
    ensures
        final(out)@ == old(out)@ + assembly::label_def(n as nat),
{
    write_label_name(out, n);
    push_text(out, ":\n");
    assert(final(out)@ =~= old(out)@ + assembly::label_def(n as nat));
}

/// Appends the code that calls the function `name` and takes its `count`
/// arguments off the stack.
pub fn write_call(out: &mut String, arch: Arch, name: &String, count: usize)
    ensures
        final(out)@ == old(out)@ + assembly::call(arch, name@, count as nat),
{
    match arch {
        Arch::X86_64 => {
            push_text(out, "    call ");
            write_function_label(out, name);
            push_text(out, "\n    add rsp, ");
            push_decimal(out, 8 * (count as u128));
            push_text(out, "\n");
        },
        Arch::Arm64 => {
            push_text(out, "    bl ");
            write_function_label(out, name);
            push_text(out, "\n    ldr x9, =");
            push_decimal(out, 16 * (count as u128));
            push_text(out, "\n    add sp, sp, x9\n");
        },
    }
    assert(final(out)@ =~= old(out)@ + assembly::call(arch, name@, count as nat));
}

/// Appends the code that leaves the function `name`.
pub fn write_return_jump(out: &mut String, arch: Arch, name: &String)
    ensures
        final(out)@ == old(out)@ + assembly::return_jump(arch, name@),
{
    match arch {
        Arch::X86_64 => {
            push_text(out, "    jmp ");
        },
        Arch::Arm64 => {
            push_text(out, "    b ");
        },
    }
    write_function_end_label(out, name);
    push_text(out, "\n");
    assert(final(out)@ =~= old(out)@ + assembly::return_jump(arch, name@));
}

/// The size of a frame of `n` slots.
pub fn size_of_frame(n: usize) -> (size: u128)
    ensures
        size == assembly::frame_size(n as nat),
{
    16 * ((n as u128 + 1) / 2)
}

/// Appends the beginning of the function `name`: its label, and a frame of
/// `frame` bytes.
pub fn write_prologue(out: &mut String, arch: Arch, name: &String, frame: u128)
    ensures
        final(out)@ == old(out)@ + assembly::prologue(arch, name@, frame as nat),
{
    write_function_label(out, name);
    match arch {
        Arch::X86_64 => {
            push_text(out, ":\n    push rbp\n    mov rbp, rsp\n    sub rsp, ");
            push_decimal(out, frame);
            push_text(out, "\n");
        },
        Arch::Arm64 => {
            push_text(out, ":\n    stp x29, x30, [sp, #-16]!\n    mov x29, sp\n    ldr x9, =");
            push_decimal(out, frame);
            push_text(out, "\n    sub sp, sp, x9\n");
        },
    }
    assert(final(out)@ =~= old(out)@ + assembly::prologue(arch, name@, frame as nat));
}

/// Appends the code that loads argument number `i` of the running function
/// into the result register.
pub fn write_load_param(out: &mut String, arch: Arch, i: usize)
    ensures
        final(out)@ == old(out)@ + assembly::load_param(arch, i as nat),
{
    match arch {
        Arch::X86_64 => {
            push_text(out, "    mov rax, [rbp+");
            push_decimal(out, 16 + 8 * (i as u128));
            push_text(out, "]\n");
        },
        Arch::Arm64 => {
            push_text(out, "    ldr x9, =");
            push_decimal(out, 16 + 16 * (i as u128));
            push_text(out, "\n    add x9, x29, x9\n    ldr x0, [x9]\n");
        },
    }
    assert(final(out)@ =~= old(out)@ + assembly::load_param(arch, i as nat));
}

/// Appends the end of the function `name`: the label at which it is left,
/// and the return to the caller.
pub fn write_epilogue(out: &mut String, arch: Arch, name: &String)
    ensures
        final(out)@ == old(out)@ + assembly::epilogue(arch, name@),
{
    write_function_end_label(out, name);
    match arch {
        Arch::X86_64 => {
            push_text(out, ":\n    mov rsp, rbp\n    pop rbp\n    ret\n");
        },
        Arch::Arm64 => {
            push_text(out, ":\n    mov sp, x29\n    ldp x29, x30, [sp], #16\n    ret\n\n");
        },
    }
    assert(final(out)@ =~= old(out)@ + assembly::epilogue(arch, name@));
}

} // verus!
