use rlkc::codegen::{Arch, Codegen, CodegenError, Os, Target};
use rlkc::driver::{compile, CompileError};
use rlkc::lexer::LexError;
use rlkc::parser::{Expected, ParseError, TypeName};
use rlkc::semantic::{IRExpr, IRFunction, IRProgram, SemanticError, IR};

const X86_LINUX: Target = Target { arch: Arch::X86_64, os: Os::Linux };
const X86_MACOS: Target = Target { arch: Arch::X86_64, os: Os::MacOs };
const X86_WINDOWS: Target = Target { arch: Arch::X86_64, os: Os::Windows };
const ARM_LINUX: Target = Target { arch: Arch::Arm64, os: Os::Linux };
const ARM_MACOS: Target = Target { arch: Arch::Arm64, os: Os::MacOs };
const ARM_WINDOWS: Target = Target { arch: Arch::Arm64, os: Os::Windows };

fn main_with(body: Vec<IR>) -> IRProgram {
    IRProgram {
        funcs: vec![IRFunction {
            name: "main".to_string(),
            params: vec![],
            ret_type: TypeName::Int,
            body,
        }],
    }
}

fn generate(target: Target, body: Vec<IR>) -> Result<String, CodegenError> {
    Codegen::new(target).generate(&main_with(body))
}

fn lit(n: i64) -> IRExpr {
    IRExpr::Int(n)
}

fn text(s: &str) -> IRExpr {
    IRExpr::Str(s.to_string())
}

fn var(name: &str) -> IRExpr {
    IRExpr::Var(name.to_string())
}

fn bin(left: IRExpr, op: &str, right: IRExpr) -> IRExpr {
    IRExpr::Binary(Box::new(left), op.to_string(), Box::new(right))
}

fn store(name: &str, value: IRExpr) -> IR {
    IR::StoreVar(name.to_string(), value)
}

fn count(haystack: &str, needle: &str) -> usize {
    haystack.matches(needle).count()
}

#[test]
fn main_returning_42_on_linux_exits_with_it() {
    let text = compile("func main(): int { return 42; }", X86_LINUX).unwrap();
    let expected = "\
section .data
newline: db 10
section .text
global _start
global main_func
global main_func_end
main_func:
    push rbp
    mov rbp, rsp
    sub rsp, 0
    mov rax, 42
    jmp main_func_end
main_func_end:
    mov rsp, rbp
    pop rbp
    ret
_start:
    call main_func
    mov rdi, rax
    mov rax, 60
    syscall
";
    assert_eq!(text, expected);
}

#[test]
fn main_returning_42_with_the_c_library_returns_it() {
    let text = compile("func main(): int { return 42; }", X86_WINDOWS).unwrap();
    let expected = "\
section .data
fmt_str: db \"%s\", 10, 0
section .text
global main
extern printf
global main_func
global main_func_end
main_func:
    push rbp
    mov rbp, rsp
    sub rsp, 0
    mov rax, 42
    jmp main_func_end
main_func_end:
    mov rsp, rbp
    pop rbp
    ret
main:
    push rbp
    mov rbp, rsp
    call main_func
    pop rbp
    ret
";
    assert_eq!(text, expected);
}

#[test]
fn main_returning_42_on_arm64() {
    let text = compile("func main(): int { return 42; }", ARM_MACOS).unwrap();
    let expected = "\
.data
fmt_str:
    .asciz \"%s\\n\"
.text
.global _main
_main:
    stp x29, x30, [sp, #-16]!
    mov x29, sp
    bl main_func
    ldp x29, x30, [sp], #16
    ret

main_func:
    stp x29, x30, [sp, #-16]!
    mov x29, sp
    ldr x9, =0
    sub sp, sp, x9
    ldr x0, =42
    b main_func_end
main_func_end:
    mov sp, x29
    ldp x29, x30, [sp], #16
    ret

";
    assert_eq!(text, expected);
}

#[test]
fn entry_block_never_overwrites_the_result_of_main() {
    for target in [X86_LINUX, X86_MACOS, X86_WINDOWS, ARM_LINUX, ARM_MACOS, ARM_WINDOWS] {
        let text = compile("func main(): int { return 42; }", target).unwrap();
        assert!(!text.contains("mov eax, 0"));
        assert!(!text.contains("mov w0, 0"));
        assert_eq!(count(&text, "main_func\n"), 2 - (target.arch == Arch::Arm64) as usize);
    }
}

#[test]
fn entry_symbol_follows_the_target() {
    let entry = |target: Target| {
        let text = compile("func main(): int { return 0; }", target).unwrap();
        let global = if target.arch == Arch::X86_64 { "global " } else { ".global " };
        let line = text.lines().find(|l| l.starts_with(global)).unwrap().to_string();
        let symbol = line[global.len()..].to_string();
        assert!(text.contains(&format!("\n{}:\n", symbol)));
        symbol
    };
    assert_eq!(entry(X86_LINUX), "_start");
    assert_eq!(entry(X86_MACOS), "_main");
    assert_eq!(entry(X86_WINDOWS), "main");
    assert_eq!(entry(ARM_LINUX), "_main");
    assert_eq!(entry(ARM_MACOS), "_main");
    assert_eq!(entry(ARM_WINDOWS), "main");
}

#[test]
fn println_hi_on_linux_writes_the_text_and_one_line_break() {
    let text = compile("func main(): int { println(\"hi\"); }", X86_LINUX).unwrap();
    let expected = "\
section .data
newline: db 10
str_0: db \"hi\", 0
str_0_len: equ $ - str_0 - 1
section .text
global _start
global main_func
global main_func_end
main_func:
    push rbp
    mov rbp, rsp
    sub rsp, 0
    mov rax, 1
    mov rdi, 1
    lea rsi, [rel str_0]
    mov rdx, str_0_len
    syscall
    mov rax, 1
    mov rdi, 1
    lea rsi, [rel newline]
    mov rdx, 1
    syscall
main_func_end:
    mov rsp, rbp
    pop rbp
    ret
_start:
    call main_func
    mov rdi, rax
    mov rax, 60
    syscall
";
    assert_eq!(text, expected);
}

#[test]
fn println_hi_through_printf() {
    let mac = compile("func main(): int { println(\"hi\"); }", X86_MACOS).unwrap();
    assert!(mac.contains("fmt_str: db \"%s\", 10, 0\nstr_0: db \"hi\", 0\nsection .text\n"));
    assert!(mac.contains("extern _printf\n"));
    assert!(mac.contains(
        "    lea rdi, [rel fmt_str]\n    lea rsi, [rel str_0]\n    xor eax, eax\n    call _printf\n"
    ));
    assert!(!mac.contains("str_0_len"));
    let windows = compile("func main(): int { println(\"hi\"); }", X86_WINDOWS).unwrap();
    assert!(windows.contains("extern printf\n"));
    assert!(windows.contains(
        "    lea rcx, [rel fmt_str]\n    lea rdx, [rel str_0]\n    sub rsp, 32\n    call printf\n    add rsp, 32\n"
    ));
    let arm_mac = compile("func main(): int { println(\"hi\"); }", ARM_MACOS).unwrap();
    assert!(arm_mac.contains("str_0:\n    .asciz \"hi\"\n"));
    assert!(arm_mac.contains(
        "    adrp x0, fmt_str@PAGE\n    add x0, x0, fmt_str@PAGEOFF\n    adrp x1, str_0@PAGE\n    add x1, x1, str_0@PAGEOFF\n    str x1, [sp, #-16]!\n    bl _printf\n    add sp, sp, #16\n"
    ));
    let arm_linux = compile("func main(): int { println(\"hi\"); }", ARM_LINUX).unwrap();
    assert!(arm_linux.contains(
        "    adrp x0, fmt_str\n    add x0, x0, :lo12:fmt_str\n    adrp x1, str_0\n    add x1, x1, :lo12:str_0\n    bl printf\n"
    ));
}

#[test]
fn literal_used_twice_has_one_data_entry() {
    for target in [X86_LINUX, X86_MACOS, X86_WINDOWS, ARM_LINUX, ARM_MACOS] {
        let text = compile("func main(): int { println(\"x\"); println(\"x\"); }", target).unwrap();
        assert_eq!(count(&text, "\nstr_0:"), 1);
        assert_eq!(count(&text, "\"x\""), 1);
        assert_eq!(count(&text, "str_1"), 0);
        let uses = if target.arch == Arch::X86_64 { "[rel str_0]" } else { "adrp x1, str_0" };
        assert_eq!(count(&text, uses), 2);
    }
}

#[test]
fn literals_are_numbered_in_order_of_first_occurrence() {
    let source = "func f(): string { return \"b\"; } func main(): int { println(\"a\"); let s: string = \"b\" + \"c\"; println(\"a\"); return g(\"d\", \"a\"); } func g(x: string, y: string): int { if 1 { println(\"e\"); } else { println(\"c\"); } return 0; }";
    let text = compile(source, X86_MACOS).unwrap();
    assert!(text.contains(
        "str_0: db \"b\", 0\nstr_1: db \"a\", 0\nstr_2: db \"c\", 0\nstr_3: db \"d\", 0\nstr_4: db \"e\", 0\nsection .text\n"
    ));
    assert_eq!(count(&text, ": db \""), 6);
}

#[test]
fn sibling_branches_declaring_one_name_share_one_slot() {
    let source = "func main(): int { if 1 { let v: int = 1; } else { let v: int = 2; } return v; }";
    let text = compile(source, X86_LINUX).unwrap();
    let expected_function = "\
main_func:
    push rbp
    mov rbp, rsp
    sub rsp, 16
    mov rax, 1
    cmp rax, 0
    je label_1
label_0:
    mov rax, 1
    mov [rbp-8], rax
    jmp label_2
label_1:
    mov rax, 2
    mov [rbp-8], rax
label_2:
    mov rax, [rbp-8]
    jmp main_func_end
main_func_end:
    mov rsp, rbp
    pop rbp
    ret
";
    assert!(text.contains(expected_function));
    assert_eq!(count(&text, "[rbp-16]"), 0);
}

#[test]
fn slots_are_given_in_order_of_first_occurrence() {
    let source = "func f(p: int, q: int): int { let a: int = p; if a { let b: int = q; } else { let c: int = 3; let a: int = 4; } let d: int = 5; return c; } func main(): int { return f(1, 2); }";
    let text = compile(source, X86_LINUX).unwrap();
    let expected_function = "\
f_func:
    push rbp
    mov rbp, rsp
    sub rsp, 48
    mov rax, [rbp+16]
    mov [rbp-8], rax
    mov rax, [rbp+24]
    mov [rbp-16], rax
    mov rax, [rbp-8]
    mov [rbp-24], rax
    mov rax, [rbp-24]
    cmp rax, 0
    je label_1
label_0:
    mov rax, [rbp-16]
    mov [rbp-32], rax
    jmp label_2
label_1:
    mov rax, 3
    mov [rbp-40], rax
    mov rax, 4
    mov [rbp-24], rax
label_2:
    mov rax, 5
    mov [rbp-48], rax
    mov rax, [rbp-40]
    jmp f_func_end
f_func_end:
    mov rsp, rbp
    pop rbp
    ret
";
    assert!(text.contains(expected_function), "{}", text);
    let expected_call = "\
    mov rax, 2
    push rax
    mov rax, 1
    push rax
    call f_func
    add rsp, 16
    jmp main_func_end
";
    assert!(text.contains(expected_call), "{}", text);
}

#[test]
fn frame_size_is_a_multiple_of_sixteen() {
    let frame = |lets: usize| {
        let body: Vec<IR> = (0..lets).map(|i| store(&format!("v{}", i), lit(0))).collect();
        let text = generate(X86_LINUX, body).unwrap();
        let line = text.lines().find(|l| l.starts_with("    sub rsp, ")).unwrap();
        line["    sub rsp, ".len()..].parse::<u64>().unwrap()
    };
    assert_eq!(frame(0), 0);
    assert_eq!(frame(1), 16);
    assert_eq!(frame(2), 16);
    assert_eq!(frame(3), 32);
    assert_eq!(frame(4), 32);
    assert_eq!(frame(11), 96);
}

#[test]
fn binary_operations_on_x86() {
    let code = |op: &str| {
        let text = generate(X86_LINUX, vec![IR::Return(bin(lit(7), op, lit(-2)))]).unwrap();
        let start = text.find("    mov rax, 7\n").unwrap();
        let end = text.find("    jmp main_func_end\n").unwrap();
        text[start..end].to_string()
    };
    let around = |middle: &str| {
        format!("    mov rax, 7\n    push rax\n    mov rax, -2\n    mov rcx, rax\n    pop rax\n{}", middle)
    };
    assert_eq!(code("+"), around("    add rax, rcx\n"));
    assert_eq!(code("-"), around("    sub rax, rcx\n"));
    assert_eq!(code("*"), around("    imul rax, rcx\n"));
    assert_eq!(code("/"), around("    cqo\n    idiv rcx\n"));
    assert_eq!(code(">"), around("    cmp rax, rcx\n    setg al\n    movzx rax, al\n"));
    assert_eq!(code("<"), around("    cmp rax, rcx\n    setl al\n    movzx rax, al\n"));
    assert_eq!(code("=="), around("    cmp rax, rcx\n    sete al\n    movzx rax, al\n"));
    assert_eq!(code("!="), around("    cmp rax, rcx\n    setne al\n    movzx rax, al\n"));
}

#[test]
fn binary_operations_on_arm64() {
    let code = |op: &str| {
        let text = generate(ARM_LINUX, vec![IR::Return(bin(lit(7), op, lit(3)))]).unwrap();
        let start = text.find("    ldr x0, =7\n").unwrap();
        let end = text.find("    b main_func_end\n").unwrap();
        text[start..end].to_string()
    };
    let around = |middle: &str| {
        format!(
            "    ldr x0, =7\n    str x0, [sp, #-16]!\n    ldr x0, =3\n    mov x1, x0\n    ldr x0, [sp], #16\n{}",
            middle
        )
    };
    assert_eq!(code("+"), around("    add x0, x0, x1\n"));
    assert_eq!(code("-"), around("    sub x0, x0, x1\n"));
    assert_eq!(code("*"), around("    mul x0, x0, x1\n"));
    assert_eq!(code("/"), around("    sdiv x0, x0, x1\n"));
    assert_eq!(code(">"), around("    cmp x0, x1\n    cset x0, gt\n"));
    assert_eq!(code("<"), around("    cmp x0, x1\n    cset x0, lt\n"));
    assert_eq!(code("=="), around("    cmp x0, x1\n    cset x0, eq\n"));
    assert_eq!(code("!="), around("    cmp x0, x1\n    cset x0, ne\n"));
}

#[test]
fn arm64_function_with_variables_and_a_call() {
    let source = "func f(p: int): int { let a: int = p; return a; } func main(): int { let s: string = \"t\"; return f(5); }";
    let text = compile(source, ARM_LINUX).unwrap();
    let expected = "\
f_func:
    stp x29, x30, [sp, #-16]!
    mov x29, sp
    ldr x9, =16
    sub sp, sp, x9
    ldr x9, =16
    add x9, x29, x9
    ldr x0, [x9]
    ldr x9, =8
    sub x9, x29, x9
    str x0, [x9]
    ldr x9, =8
    sub x9, x29, x9
    ldr x0, [x9]
    ldr x9, =16
    sub x9, x29, x9
    str x0, [x9]
    ldr x9, =16
    sub x9, x29, x9
    ldr x0, [x9]
    b f_func_end
f_func_end:
    mov sp, x29
    ldp x29, x30, [sp], #16
    ret

main_func:
    stp x29, x30, [sp, #-16]!
    mov x29, sp
    ldr x9, =16
    sub sp, sp, x9
    adrp x0, str_0
    add x0, x0, :lo12:str_0
    ldr x9, =8
    sub x9, x29, x9
    str x0, [x9]
    ldr x0, =5
    str x0, [sp, #-16]!
    bl f_func
    ldr x9, =16
    add sp, sp, x9
    b main_func_end
main_func_end:
    mov sp, x29
    ldp x29, x30, [sp], #16
    ret

";
    assert!(text.ends_with(expected), "{}", text);
    let mac = compile(source, ARM_MACOS).unwrap();
    assert!(mac.contains("    adrp x0, str_0@PAGE\n    add x0, x0, str_0@PAGEOFF\n"));
}

#[test]
fn labels_are_numbered_through_the_whole_program() {
    let source = "func f(): int { if 1 { if 2 { } else { } } else { if 3 { } else { } } return 0; } func main(): int { if 4 { } else { } return 0; }";
    let text = compile(source, X86_LINUX).unwrap();
    for n in 0..12 {
        assert_eq!(count(&text, &format!("\nlabel_{}:\n", n)), 1, "label {}", n);
    }
    assert_eq!(count(&text, "label_12"), 0);
    let f = "\
    mov rax, 1
    cmp rax, 0
    je label_1
label_0:
    mov rax, 2
    cmp rax, 0
    je label_4
label_3:
    jmp label_5
label_4:
label_5:
    jmp label_2
label_1:
    mov rax, 3
    cmp rax, 0
    je label_7
label_6:
    jmp label_8
label_7:
label_8:
label_2:
";
    assert!(text.contains(f), "{}", text);
    assert!(text.contains("    mov rax, 4\n    cmp rax, 0\n    je label_10\nlabel_9:\n    jmp label_11\nlabel_10:\nlabel_11:\n"));
}

#[test]
fn statement_call_discards_the_result() {
    let text = generate(X86_LINUX, vec![IR::CallFunc("main".to_string(), vec![lit(1), lit(2), lit(3)])]).unwrap();
    assert!(text.contains(
        "    mov rax, 3\n    push rax\n    mov rax, 2\n    push rax\n    mov rax, 1\n    push rax\n    call main_func\n    add rsp, 24\nmain_func_end:\n"
    ));
    let none = generate(X86_LINUX, vec![IR::CallFunc("main".to_string(), vec![])]).unwrap();
    assert!(none.contains("    sub rsp, 0\n    call main_func\n    add rsp, 0\nmain_func_end:\n"));
}

#[test]
fn integer_literals_are_written_in_decimal() {
    for n in [0i64, 7, 10, 42, 100, 1234567890, -1, -10, i64::MAX, i64::MIN] {
        let text = generate(X86_LINUX, vec![IR::Return(lit(n))]).unwrap();
        assert!(text.contains(&format!("    mov rax, {}\n", n)), "{}", n);
        let arm = generate(ARM_LINUX, vec![IR::Return(lit(n))]).unwrap();
        assert!(arm.contains(&format!("    ldr x0, ={}\n", n)), "{}", n);
    }
}

#[test]
fn program_without_main_is_refused() {
    let program = IRProgram {
        funcs: vec![IRFunction {
            name: "main_".to_string(),
            params: vec![],
            ret_type: TypeName::Int,
            body: vec![IR::Return(var("nowhere"))],
        }],
    };
    for target in [X86_LINUX, ARM_MACOS] {
        assert_eq!(Codegen::new(target).generate(&program), Err(CodegenError::MissingMain));
    }
    assert_eq!(Codegen::new(X86_LINUX).generate(&IRProgram { funcs: vec![] }), Err(CodegenError::MissingMain));
    assert_eq!(
        compile("func start(): int { return 0; }", X86_LINUX),
        Err(CompileError::Codegen(CodegenError::MissingMain))
    );
}

#[test]
fn unknown_operator_is_refused() {
    assert_eq!(
        generate(X86_LINUX, vec![IR::Return(bin(lit(1), "%", lit(2)))]),
        Err(CodegenError::UnknownOperator("%".to_string()))
    );
    assert_eq!(
        generate(ARM_LINUX, vec![store("x", bin(lit(1), "", lit(2)))]),
        Err(CodegenError::UnknownOperator("".to_string()))
    );
}

#[test]
fn variable_without_slot_is_refused() {
    assert_eq!(
        generate(X86_LINUX, vec![IR::Return(var("ghost"))]),
        Err(CodegenError::UnboundVariable("ghost".to_string()))
    );
    assert_eq!(
        generate(X86_LINUX, vec![IR::Return(var("later")), store("later", lit(1))]).map(|_| ()),
        Ok(())
    );
}

#[test]
fn println_of_anything_but_a_literal_is_refused() {
    assert_eq!(generate(X86_LINUX, vec![IR::Println(lit(1))]), Err(CodegenError::UnprintableArgument));
    assert_eq!(
        generate(X86_MACOS, vec![store("s", text("a")), IR::Println(var("s"))]),
        Err(CodegenError::UnprintableArgument)
    );
    assert_eq!(
        compile("func main(): int { let s: string = \"a\"; println(s); return 0; }", ARM_LINUX),
        Err(CompileError::Codegen(CodegenError::UnprintableArgument))
    );
}

#[test]
fn generate_picks_the_back_end_by_architecture() {
    let program = main_with(vec![IR::Println(text("hi")), IR::Return(lit(0))]);
    for os in [Os::Linux, Os::MacOs, Os::Windows] {
        let x86 = Codegen::new(Target { arch: Arch::X86_64, os });
        let arm = Codegen::new(Target { arch: Arch::Arm64, os });
        assert_eq!(x86.generate(&program), x86.generate_x86_64(&program));
        assert_eq!(arm.generate(&program), arm.generate_arm64(&program));
        assert_eq!(x86.generate_arm64(&program), arm.generate(&program));
        assert_eq!(arm.generate_x86_64(&program), x86.generate(&program));
        assert!(x86.generate(&program).unwrap().starts_with("section .data\n"));
        assert!(arm.generate(&program).unwrap().starts_with(".data\n"));
    }
}

#[test]
fn compile_reports_the_stage_that_failed() {
    assert_eq!(
        compile("func main(): int { return 99999999999999999999; }", X86_LINUX),
        Err(CompileError::Lex(LexError::NumberTooLarge { at: 26 }))
    );
    assert_eq!(
        compile("func main(): int { return 1 }", X86_LINUX),
        Err(CompileError::Parse(ParseError { expected: Expected::Semicolon, at: 9 }))
    );
    assert_eq!(
        compile("func main(): int { let s: string = 1; return 0; }", X86_LINUX),
        Err(CompileError::Semantic(SemanticError::LetTypeMismatch {
            name: "s".to_string(),
            expected: TypeName::String,
            found: TypeName::Int,
        }))
    );
    assert_eq!(
        compile("func main(): int { return missing(); }", X86_LINUX),
        Err(CompileError::Semantic(SemanticError::UnknownFunction("missing".to_string())))
    );
    assert_eq!(
        compile("func main(): int { print(\"a\"); return 0; }", X86_LINUX).map(|t| t.contains("call print_func")),
        Ok(true)
    );
}

#[test]
fn accepted_source_never_fails_for_operator_or_slot() {
    let sources = [
        "func main(): int { let a: int = 1 + 2 - 3 * 4 / 5 > 6 < 7 == 8 != 9; return a; }",
        "func f(a: int, b: int): int { if a > b { let c: int = a; } else { let d: int = b; } return c + d; } func main(): int { 1 + 2; return f(1, 2); }",
        "func main(): int { let s: string = \"a\"; println(s); return 0; }",
        "func helper(): int { return 0; }",
    ];
    for source in sources {
        for target in [X86_LINUX, X86_MACOS, X86_WINDOWS, ARM_LINUX, ARM_MACOS, ARM_WINDOWS] {
            match compile(source, target) {
                Ok(_) => {}
                Err(CompileError::Codegen(e)) => assert!(
                    matches!(e, CodegenError::MissingMain | CodegenError::UnprintableArgument),
                    "{:?}",
                    e
                ),
                Err(other) => panic!("{:?}", other),
            }
        }
    }
}
