//! The assembly text of a lowered program, as a function of the program and
//! the target.
//!
//! Calling convention, on both architectures: the caller evaluates the
//! arguments from the last to the first and pushes each, so that the first
//! lies on top; it calls the function and then takes the arguments off the
//! stack. The callee copies them into its frame. A value is returned in the
//! result register (`rax`, `x0`).
use vstd::prelude::*;
use crate::text::{decimal, signed_decimal};
use crate::codegen::{Arch, Os, Target, CodegenError};

verus! {

/// What a [`CodegenError`] is.
pub enum CodegenErrorView {
    MissingMain,
    UnknownOperator(Seq<char>),
    UnboundVariable(Seq<char>),
    UnprintableArgument,
    TooManyLabels,
}

impl View for CodegenError {
    type V = CodegenErrorView;

    open spec fn view(&self) -> CodegenErrorView {
        match self {
            CodegenError::MissingMain => CodegenErrorView::MissingMain,
            CodegenError::UnknownOperator(op) => CodegenErrorView::UnknownOperator(op@),
            CodegenError::UnboundVariable(name) => CodegenErrorView::UnboundVariable(name@),
            CodegenError::UnprintableArgument => CodegenErrorView::UnprintableArgument,
            CodegenError::TooManyLabels => CodegenErrorView::TooManyLabels,
        }
    }
}

/// Text, as it is emitted.
pub type Text = Seq<char>;

/// An ordered list of distinct names: the string literals of a program, or
/// the variables of a function.
pub type Names = Seq<Seq<char>>;

/// What a list of texts is: the characters of each, in order.
pub open spec fn names_view(names: Seq<String>) -> Names {
    names.map_values(|s: String| s@)
}

// ------------------------------------------------------------------------
// Targets
// ------------------------------------------------------------------------
/// Whether output is written by system calls rather than through the C
/// library. Where it is, the program also starts and ends without the C
/// library.
pub open spec fn uses_syscalls(t: Target) -> bool {
    t.arch == Arch::X86_64 && t.os == Os::Linux
}

/// The symbol at which the operating system, or the C library, enters the
/// program.
pub open spec fn entry_symbol(t: Target) -> Text {
    if t.os == Os::Windows {
        "main"@
    } else if uses_syscalls(t) {
        "_start"@
    } else {
        "_main"@
    }
}

/// The symbol of the C library's `printf`.
pub open spec fn printf_symbol(t: Target) -> Text {
    if t.os == Os::MacOs {
        "_printf"@
    } else {
        "printf"@
    }
}

// ------------------------------------------------------------------------
// Names, slots and labels
// ------------------------------------------------------------------------
/// The first index from `i` on at which `names` holds `name`, or the length
/// of `names` if it holds it nowhere from there on.
pub open spec fn first_index_from(names: Names, name: Seq<char>, i: int) -> int
    decreases names.len() - i,
{
    if 0 <= i < names.len() {
        if names[i] == name {
            i
        } else {
            first_index_from(names, name, i + 1)
        }
    } else {
        names.len() as int
    }
}

/// The first index at which `names` holds `name`, or the length of `names`
/// if it does not hold it.
pub open spec fn first_index(names: Names, name: Seq<char>) -> int {
    first_index_from(names, name, 0)
}

/// `names`, with `name` at its end unless it is among them already.
pub open spec fn add_name(names: Names, name: Seq<char>) -> Names {
    if names.contains(name) {
        names
    } else {
        names.push(name)
    }
}

/// The distance of slot `k` below the frame pointer, in bytes.
pub open spec fn slot_offset(k: int) -> nat {
    (8 * (k + 1)) as nat
}

/// The size in bytes of a frame of `n` slots: eight bytes a slot, rounded up
/// to a multiple of sixteen.
pub open spec fn frame_size(n: nat) -> nat {
    16 * ((n + 1) / 2)
}

/// The text of label number `n`.
pub open spec fn label_name(n: nat) -> Text {
    "label_"@ + decimal(n)
}

/// The text of the label of string literal number `k`.
pub open spec fn string_label(k: int) -> Text {
    "str_"@ + decimal(k as nat)
}

/// The label at which the function `name` begins.
pub open spec fn function_label(name: Seq<char>) -> Text {
    name + "_func"@
}

/// The label at which the function `name` is left.
pub open spec fn function_end_label(name: Seq<char>) -> Text {
    name + "_func_end"@
}

// ------------------------------------------------------------------------
// Instruction sequences
// ------------------------------------------------------------------------
/// Loads the integer `n` into the result register.
pub open spec fn load_int(arch: Arch, n: int) -> Text {
    match arch {
        Arch::X86_64 => "    mov rax, "@ + signed_decimal(n) + "\n"@,
        Arch::Arm64 => "    ldr x0, ="@ + signed_decimal(n) + "\n"@,
    }
}

/// Loads the address of string literal number `k` into the result register.
pub open spec fn load_str(t: Target, k: int) -> Text {
    match t.arch {
        Arch::X86_64 => "    lea rax, [rel "@ + string_label(k) + "]\n"@,
        Arch::Arm64 => {
            if t.os == Os::MacOs {
                "    adrp x0, "@ + string_label(k) + "@PAGE\n    add x0, x0, "@ + string_label(k)
                    + "@PAGEOFF\n"@
            } else {
                "    adrp x0, "@ + string_label(k) + "\n    add x0, x0, :lo12:"@ + string_label(k)
                    + "\n"@
            }
        },
    }
}

/// Loads the slot `offset` bytes below the frame pointer into the result
/// register.
pub open spec fn load_var(arch: Arch, offset: nat) -> Text {
    match arch {
        Arch::X86_64 => "    mov rax, [rbp-"@ + decimal(offset) + "]\n"@,
        Arch::Arm64 => "    ldr x9, ="@ + decimal(offset)
            + "\n    sub x9, x29, x9\n    ldr x0, [x9]\n"@,
    }
}

/// Stores the result register in the slot `offset` bytes below the frame
/// pointer.
pub open spec fn store_var(arch: Arch, offset: nat) -> Text {
    match arch {
        Arch::X86_64 => "    mov [rbp-"@ + decimal(offset) + "], rax\n"@,
        Arch::Arm64 => "    ldr x9, ="@ + decimal(offset)
            + "\n    sub x9, x29, x9\n    str x0, [x9]\n"@,
    }
}

/// Pushes the result register on the stack.
pub open spec fn push_result(arch: Arch) -> Text {
    match arch {
        Arch::X86_64 => "    push rax\n"@,
        Arch::Arm64 => "    str x0, [sp, #-16]!\n"@,
    }
}

/// Moves the right operand from the result register to the second register
/// and pops the left operand into the result register.
pub open spec fn pop_operands(arch: Arch) -> Text {
    match arch {
        Arch::X86_64 => "    mov rcx, rax\n    pop rax\n"@,
        Arch::Arm64 => "    mov x1, x0\n    ldr x0, [sp], #16\n"@,
    }
}

/// Combines the two operands in the result register, if `op` is an operator
/// of the language. A comparison leaves 1 where it holds and 0 where it
/// does not.
pub open spec fn operate(arch: Arch, op: Seq<char>) -> Option<Text> {
    match arch {
        Arch::X86_64 => {
            if op == "+"@ {
                Some("    add rax, rcx\n"@)
            } else if op == "-"@ {
                Some("    sub rax, rcx\n"@)
            } else if op == "*"@ {
                Some("    imul rax, rcx\n"@)
            } else if op == "/"@ {
                Some("    cqo\n    idiv rcx\n"@)
            } else if op == ">"@ {
                Some("    cmp rax, rcx\n    setg al\n    movzx rax, al\n"@)
            } else if op == "<"@ {
                Some("    cmp rax, rcx\n    setl al\n    movzx rax, al\n"@)
            } else if op == "=="@ {
                Some("    cmp rax, rcx\n    sete al\n    movzx rax, al\n"@)
            } else if op == "!="@ {
                Some("    cmp rax, rcx\n    setne al\n    movzx rax, al\n"@)
            } else {
                None
            }
        },
        Arch::Arm64 => {
            if op == "+"@ {
                Some("    add x0, x0, x1\n"@)
            } else if op == "-"@ {
                Some("    sub x0, x0, x1\n"@)
            } else if op == "*"@ {
                Some("    mul x0, x0, x1\n"@)
            } else if op == "/"@ {
                Some("    sdiv x0, x0, x1\n"@)
            } else if op == ">"@ {
                Some("    cmp x0, x1\n    cset x0, gt\n"@)
            } else if op == "<"@ {
                Some("    cmp x0, x1\n    cset x0, lt\n"@)
            } else if op == "=="@ {
                Some("    cmp x0, x1\n    cset x0, eq\n"@)
            } else if op == "!="@ {
                Some("    cmp x0, x1\n    cset x0, ne\n"@)
            } else {
                None
            }
        },
    }
}

/// Jumps to label `n` if the result register holds zero.
pub open spec fn branch_if_zero(arch: Arch, n: nat) -> Text {
    match arch {
        Arch::X86_64 => "    cmp rax, 0\n    je "@ + label_name(n) + "\n"@,
        Arch::Arm64 => "    cmp x0, #0\n    b.eq "@ + label_name(n) + "\n"@,
    }
}

/// Jumps to label `n`.
pub open spec fn jump(arch: Arch, n: nat) -> Text {
    match arch {
        Arch::X86_64 => "    jmp "@ + label_name(n) + "\n"@,
        Arch::Arm64 => "    b "@ + label_name(n) + "\n"@,
    }
}

/// Defines label `n`.
pub open spec fn label_def(n: nat) -> Text {
    label_name(n) + ":\n"@
}

/// Calls the function `name` and takes its `count` arguments off the stack.
pub open spec fn call(arch: Arch, name: Seq<char>, count: nat) -> Text {
    match arch {
        Arch::X86_64 => "    call "@ + function_label(name) + "\n    add rsp, "@ + decimal(
            8 * count,
        ) + "\n"@,
        Arch::Arm64 => "    bl "@ + function_label(name) + "\n    ldr x9, ="@ + decimal(16 * count)
            + "\n    add sp, sp, x9\n"@,
    }
}

/// Leaves the function `name` with the result register as it is.
pub open spec fn return_jump(arch: Arch, name: Seq<char>) -> Text {
    match arch {
        Arch::X86_64 => "    jmp "@ + function_end_label(name) + "\n"@,
        Arch::Arm64 => "    b "@ + function_end_label(name) + "\n"@,
    }
}

/// Begins the function `name`: its label, and a frame of `frame` bytes.
pub open spec fn prologue(arch: Arch, name: Seq<char>, frame: nat) -> Text {
    match arch {
        Arch::X86_64 => function_label(name) + ":\n    push rbp\n    mov rbp, rsp\n    sub rsp, "@
            + decimal(frame) + "\n"@,
        Arch::Arm64 => function_label(name)
            + ":\n    stp x29, x30, [sp, #-16]!\n    mov x29, sp\n    ldr x9, ="@ + decimal(frame)
            + "\n    sub sp, sp, x9\n"@,
    }
}

/// Loads argument number `i` of the running function into the result
/// register.
pub open spec fn load_param(arch: Arch, i: nat) -> Text {
    match arch {
        Arch::X86_64 => "    mov rax, [rbp+"@ + decimal(16 + 8 * i) + "]\n"@,
        Arch::Arm64 => "    ldr x9, ="@ + decimal(16 + 16 * i)
            + "\n    add x9, x29, x9\n    ldr x0, [x9]\n"@,
    }
}

/// Ends the function `name`: the label at which it is left, and the return
/// to the caller with the frame taken down.
pub open spec fn epilogue(arch: Arch, name: Seq<char>) -> Text {
    match arch {
        Arch::X86_64 => function_end_label(name) + ":\n    mov rsp, rbp\n    pop rbp\n    ret\n"@,
        Arch::Arm64 => function_end_label(name)
            + ":\n    mov sp, x29\n    ldp x29, x30, [sp], #16\n    ret\n\n"@,
    }
}

/// Writes string literal number `k` and a line break, on x86-64.
pub open spec fn print_x86(os: Os, k: int) -> Text {
    match os {
        Os::Linux => "    mov rax, 1\n    mov rdi, 1\n    lea rsi, [rel "@ + string_label(k)
            + "]\n    mov rdx, "@ + string_label(k)
            + "_len\n    syscall\n    mov rax, 1\n    mov rdi, 1\n    lea rsi, [rel newline]\n    mov rdx, 1\n    syscall\n"@,
        Os::MacOs => "    lea rdi, [rel fmt_str]\n    lea rsi, [rel "@ + string_label(k)
            + "]\n    xor eax, eax\n    call _printf\n"@,
        Os::Windows => "    lea rcx, [rel fmt_str]\n    lea rdx, [rel "@ + string_label(k)
            + "]\n    sub rsp, 32\n    call printf\n    add rsp, 32\n"@,
    }
}

/// Writes string literal number `k` and a line break, on AArch64.
pub open spec fn print_arm64(os: Os, k: int) -> Text {
    match os {
        Os::MacOs => "    adrp x0, fmt_str@PAGE\n    add x0, x0, fmt_str@PAGEOFF\n    adrp x1, "@
            + string_label(k) + "@PAGE\n    add x1, x1, "@ + string_label(k)
            + "@PAGEOFF\n    str x1, [sp, #-16]!\n    bl _printf\n    add sp, sp, #16\n"@,
        _ => "    adrp x0, fmt_str\n    add x0, x0, :lo12:fmt_str\n    adrp x1, "@ + string_label(k)
            + "\n    add x1, x1, :lo12:"@ + string_label(k) + "\n    bl printf\n"@,
    }
}

/// Writes string literal number `k` and a line break.
pub open spec fn print_string(t: Target, k: int) -> Text {
    match t.arch {
        Arch::X86_64 => print_x86(t.os, k),
        Arch::Arm64 => print_arm64(t.os, k),
    }
}

} // verus!
