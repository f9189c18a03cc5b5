//! The code generator: from the intermediate representation to assembly
//! text.
use vstd::prelude::*;
use crate::text::push_text;
use crate::semantic::{IR, IRExpr, IRFunction, IRProgram};
use crate::ast::params_view;
use crate::ir::{ir_exprs_view, irs_view};
use crate::assembly;
use crate::assembly::{CodegenErrorView, Text, names_view};
use crate::layout;
use crate::emission;
use crate::emission::{FrameView, Emitted};
use crate::writer;

verus! {

/// The processor architectures that code is generated for.
#[derive(Debug, Clone, Copy, PartialEq, Eq, Structural)]
pub enum Arch {
    /// x86-64, in the Intel syntax of NASM.
    X86_64,
    /// AArch64, in the syntax of the GNU assembler.
    Arm64,
}

/// The operating systems that code is generated for.
#[derive(Debug, Clone, Copy, PartialEq, Eq, Structural)]
pub enum Os {
    Linux,
    MacOs,
    Windows,
}

/// What code is generated for: an architecture and an operating system.
#[derive(Debug, Clone, Copy, PartialEq, Eq, Structural)]
pub struct Target {
    pub arch: Arch,
    pub os: Os,
}

/// Why no code is generated for a lowered program.
#[derive(Debug, Clone, PartialEq)]
pub enum CodegenError {
    /// The program has no function named `main`.
    MissingMain,
    /// A binary operation has a symbol that is no operator of the language.
    UnknownOperator(String),
    /// A variable is read or stored that has no slot in the frame of its
    /// function.
    UnboundVariable(String),
    /// `println` is given something else than a string literal.
    UnprintableArgument,
    /// The program needs more labels than there are numbers for them.
    TooManyLabels,
}

/// The frame of the function whose body is being generated.
pub struct Frame {
    pub name: String,
    pub slots: Vec<String>,
}

impl View for Frame {
    type V = FrameView;

    open spec fn view(&self) -> FrameView {
        FrameView { name: self.name@, slots: names_view(self.slots@) }
    }
}

/// The code generator for one target.
pub struct Codegen {
    pub target: Target,
}

impl Codegen {
    /// A code generator for `target`.
    pub fn new(target: Target) -> (codegen: Self)
        ensures
            codegen.target == target,
    {
        Codegen { target }
    }

    /// Adds to `table` the string literals of `expr` that it does not hold
    /// yet.
    fn collect_str_expr(expr: &IRExpr, table: &mut Vec<String>)
        ensures
            names_view(final(table)@) == layout::strings_of_expr(expr@, names_view(old(table)@)),
        decreases expr,
    {
        match expr {
            IRExpr::Str(s) => {
                writer::add(table, s);
            },
            IRExpr::Binary(left, _, right) => {
                Self::collect_str_expr(left, table);
                Self::collect_str_expr(right, table);
            },
            IRExpr::Call(_, args) => {
                Self::collect_str_exprs(args, table);
            },
            _ => {},
        }
    }

    /// Adds to `table` the new string literals of the expressions `args`.
    fn collect_str_exprs(args: &Vec<IRExpr>, table: &mut Vec<String>)
        ensures
            names_view(final(table)@) == layout::strings_of_exprs(
                ir_exprs_view(*args),
                0,
                names_view(old(table)@),
            ),
        decreases args,
    {
        let ghost views = ir_exprs_view(*args);
        let mut i: usize = 0;
        while i < args.len()
            invariant
                i <= args.len(),
                views == ir_exprs_view(*args),
                layout::strings_of_exprs(views, 0, names_view(old(table)@))
                    == layout::strings_of_exprs(views, i as int, names_view(table@)),
            decreases args.len() - i,
        {
            Self::collect_str_expr(&args[i], table);
            i += 1;
        }
    }

    /// Adds to `table` the string literals of `stmt` that it does not hold
    /// yet.
    fn collect_str(&self, stmt: &IR, table: &mut Vec<String>)
        ensures
            names_view(final(table)@) == layout::strings_of_stmt(stmt@, names_view(old(table)@)),
        decreases stmt,
    {
        match stmt {
            IR::StoreVar(_, value) => {
                Self::collect_str_expr(value, table);
            },
            IR::Return(value) => {
                Self::collect_str_expr(value, table);
            },
            IR::Println(value) => {
                Self::collect_str_expr(value, table);
            },
            IR::CallFunc(_, args) => {
                Self::collect_str_exprs(args, table);
            },
            IR::If(cond, then_body, else_body) => {
                Self::collect_str_expr(cond, table);
                self.collect_str_block(then_body, table);
                self.collect_str_block(else_body, table);
            },
        }
    }

    /// Adds to `table` the new string literals of the instructions `stmts`.
    fn collect_str_block(&self, stmts: &Vec<IR>, table: &mut Vec<String>)
        ensures
            names_view(final(table)@) == layout::strings_of_block(
                irs_view(*stmts),
                0,
                names_view(old(table)@),
            ),
        decreases stmts,
    {
        let ghost views = irs_view(*stmts);
        let mut i: usize = 0;
        while i < stmts.len()
            invariant
                i <= stmts.len(),
                views == irs_view(*stmts),
                layout::strings_of_block(views, 0, names_view(old(table)@))
                    == layout::strings_of_block(views, i as int, names_view(table@)),
            decreases stmts.len() - i,
        {
            self.collect_str(&stmts[i], table);
            i += 1;
        }
    }

    /// The string literals of the program: each distinct text once, in the
    /// order of first occurrence.
    fn collect_strings(&self, ir: &IRProgram) -> (table: Vec<String>)
        ensures
            names_view(table@) == layout::strings_of_program(ir@),
    {
        let ghost funcs = ir@.funcs;
        let mut table: Vec<String> = Vec::new();
        assert(names_view(table@) =~= Seq::<Seq<char>>::empty());
        let mut i: usize = 0;
        while i < ir.funcs.len()
            invariant
                i <= ir.funcs.len(),
                funcs == ir@.funcs,
                layout::strings_of_program(ir@) == layout::strings_of_functions(
                    funcs,
                    i as int,
                    names_view(table@),
                ),
            decreases ir.funcs.len() - i,
        {
            self.collect_str_block(&ir.funcs[i].body, &mut table);
            i += 1;
        }
        table
    }

    /// Adds to `slots` the variables that `stmt` stores to and that it does
    /// not hold yet.
    fn collect_slots(stmt: &IR, slots: &mut Vec<String>)
        ensures
            names_view(final(slots)@) == layout::slots_of_stmt(stmt@, names_view(old(slots)@)),
        decreases stmt,
    {
        match stmt {
            IR::StoreVar(name, _) => {
                writer::add(slots, name);
            },
            IR::If(_, then_body, else_body) => {
                Self::collect_slots_block(then_body, slots);
                Self::collect_slots_block(else_body, slots);
            },
            _ => {},
        }
    }

    /// Adds to `slots` the new variables of the instructions `stmts`.
    fn collect_slots_block(stmts: &Vec<IR>, slots: &mut Vec<String>)
        ensures
            names_view(final(slots)@) == layout::slots_of_block(
                irs_view(*stmts),
                0,
                names_view(old(slots)@),
            ),
        decreases stmts,
    {
        let ghost views = irs_view(*stmts);
        let mut i: usize = 0;
        while i < stmts.len()
            invariant
                i <= stmts.len(),
                views == irs_view(*stmts),
                layout::slots_of_block(views, 0, names_view(old(slots)@)) == layout::slots_of_block(
                    views,
                    i as int,
                    names_view(slots@),
                ),
            decreases stmts.len() - i,
        {
            Self::collect_slots(&stmts[i], slots);
            i += 1;
        }
    }

    /// The frame of the function `f`: one slot for each of its variables.
    fn frame_of(f: &IRFunction) -> (frame: Frame)
        ensures
            frame@ == (FrameView { name: f@.name, slots: layout::slots_of_function(f@) }),
    {
        let ghost params = params_view(f.params);
        let mut slots: Vec<String> = Vec::new();
        assert(names_view(slots@) =~= Seq::<Seq<char>>::empty());
        let mut i: usize = 0;
        while i < f.params.len()
            invariant
                i <= f.params.len(),
                params == params_view(f.params),
                layout::slots_of_params(params, 0, Seq::empty()) == layout::slots_of_params(
                    params,
                    i as int,
                    names_view(slots@),
                ),
            decreases f.params.len() - i,
        {
            writer::add(&mut slots, &f.params[i].0);
            i += 1;
        }
        Self::collect_slots_block(&f.body, &mut slots);
        Frame { name: f.name.clone(), slots }
    }

    /// Appends to `out` the code that leaves the value of `expr` in the
    /// result register.
    fn gen_expr(&self, out: &mut String, expr: &IRExpr, frame: &Frame, strs: &Vec<String>) -> (r:
        Result<(), CodegenError>)
        ensures
            match emission::gen_expr(self.target, expr@, frame@, names_view(strs@)) {
                Ok(code) => r is Ok && final(out)@ == old(out)@ + code,
                Err(e) => r is Err && r->Err_0@ == e,
            },
        decreases expr,
    {
        let arch = self.target.arch;
        match expr {
            IRExpr::Int(n) => {
                writer::write_load_int(out, arch, *n);
                Ok(())
            },
            IRExpr::Str(s) => {
                writer::write_load_str(out, self.target, writer::position(strs, s));
                Ok(())
            },
            IRExpr::Var(name) => {
                let k = writer::position(&frame.slots, name);
                if k < frame.slots.len() {
                    writer::write_load_var(out, arch, writer::offset_of_slot(k));
                    Ok(())
                } else {
                    Err(CodegenError::UnboundVariable(name.clone()))
                }
            },
            IRExpr::Binary(left, op, right) => {
                let ghost start = out@;
                match self.gen_expr(out, left, frame, strs) {
                    Ok(()) => {},
                    Err(e) => {
                        return Err(e);
                    },
                }
                writer::write_push_result(out, arch);
                match self.gen_expr(out, right, frame, strs) {
                    Ok(()) => {},
                    Err(e) => {
                        return Err(e);
                    },
                }
                match writer::operation(arch, op) {
                    Some(op_code) => {
                        writer::write_pop_operands(out, arch);
                        push_text(out, op_code);
                        proof {
                            let left_code = emission::gen_expr(
                                self.target,
                                left@,
                                frame@,
                                names_view(strs@),
                            )->Ok_0;
                            let right_code = emission::gen_expr(
                                self.target,
                                right@,
                                frame@,
                                names_view(strs@),
                            )->Ok_0;
                            assert(out@ =~= start + (left_code + assembly::push_result(arch)
                                + right_code + assembly::pop_operands(arch) + op_code@));
                        }
                        Ok(())
                    },
                    None => Err(CodegenError::UnknownOperator(op.clone())),
                }
            },
            IRExpr::Call(name, args) => self.gen_call(out, name, args, frame, strs),
        }
    }

    /// Appends to `out` the code of a call of `name` with the arguments
    /// `args`.
    fn gen_call(
        &self,
        out: &mut String,
        name: &String,
        args: &Vec<IRExpr>,
        frame: &Frame,
        strs: &Vec<String>,
    ) -> (r: Result<(), CodegenError>)
        ensures
            match emission::gen_call(
                self.target,
                name@,
                ir_exprs_view(*args),
                frame@,
                names_view(strs@),
            ) {
                Ok(code) => r is Ok && final(out)@ == old(out)@ + code,
                Err(e) => r is Err && r->Err_0@ == e,
            },
        decreases args,
    {
        let arch = self.target.arch;
        let ghost start = out@;
        let ghost views = ir_exprs_view(*args);
        let ghost whole = emission::gen_args(
            self.target,
            views,
            args.len() as int,
            frame@,
            names_view(strs@),
        );
        let mut n: usize = args.len();
        let ghost mut done: Text = Seq::empty();
        proof {
            assert(out@ =~= start + done);
            if let Ok(rest) = whole {
                assert(done + rest =~= rest);
            }
        }
        while n > 0
            invariant
                n <= args.len(),
                arch == self.target.arch,
                views == ir_exprs_view(*args),
                out@ == start + done,
                whole == emission::gen_args(
                    self.target,
                    views,
                    args.len() as int,
                    frame@,
                    names_view(strs@),
                ),
                whole == after_text(
                    done,
                    emission::gen_args(self.target, views, n as int, frame@, names_view(strs@)),
                ),
            decreases n,
        {
            let ghost before = out@;
            match self.gen_expr(out, &args[n - 1], frame, strs) {
                Ok(()) => {},
                Err(e) => {
                    return Err(e);
                },
            }
            writer::write_push_result(out, arch);
            proof {
                let code = emission::gen_expr(
                    self.target,
                    views[n - 1],
                    frame@,
                    names_view(strs@),
                )->Ok_0;
                let step = code + assembly::push_result(arch);
                assert(out@ =~= start + (done + step));
                if let Ok(rest) = emission::gen_args(
                    self.target,
                    views,
                    n - 1,
                    frame@,
                    names_view(strs@),
                ) {
                    assert(done + (code + assembly::push_result(arch) + rest) =~= (done + step)
                        + rest);
                }
                done = done + step;
            }
            n -= 1;
        }
        writer::write_call(out, arch, name, args.len());
        proof {
            assert(done + Seq::<char>::empty() =~= done);
            assert(out@ =~= start + (done + assembly::call(arch, name@, args.len() as nat)));
        }
        Ok(())
    }

    /// Appends to `out` the x86-64 code that writes string literal number
    /// `k` and a line break.
    fn gen_print_x86(&self, out: &mut String, k: usize)
        ensures
            final(out)@ == old(out)@ + assembly::print_x86(self.target.os, k as int),
    {
        match self.target.os {
            Os::Linux => {
                push_text(out, "    mov rax, 1\n    mov rdi, 1\n    lea rsi, [rel ");
                writer::write_string_label(out, k);
                push_text(out, "]\n    mov rdx, ");
                writer::write_string_label(out, k);
                push_text(
                    out,
                    "_len\n    syscall\n    mov rax, 1\n    mov rdi, 1\n    lea rsi, [rel newline]\n    mov rdx, 1\n    syscall\n",
                );
            },
            Os::MacOs => {
                push_text(out, "    lea rdi, [rel fmt_str]\n    lea rsi, [rel ");
                writer::write_string_label(out, k);
                push_text(out, "]\n    xor eax, eax\n    call _printf\n");
            },
            Os::Windows => {
                push_text(out, "    lea rcx, [rel fmt_str]\n    lea rdx, [rel ");
                writer::write_string_label(out, k);
                push_text(out, "]\n    sub rsp, 32\n    call printf\n    add rsp, 32\n");
            },
        }
        assert(final(out)@ =~= old(out)@ + assembly::print_x86(self.target.os, k as int));
    }

    /// Appends to `out` the AArch64 code that writes string literal number
    /// `k` and a line break.
    fn gen_print_arm64(&self, out: &mut String, k: usize)
        ensures
            final(out)@ == old(out)@ + assembly::print_arm64(self.target.os, k as int),
    {
        match self.target.os {
            Os::MacOs => {
                push_text(
                    out,
                    "    adrp x0, fmt_str@PAGE\n    add x0, x0, fmt_str@PAGEOFF\n    adrp x1, ",
                );
                writer::write_string_label(out, k);
                push_text(out, "@PAGE\n    add x1, x1, ");
                writer::write_string_label(out, k);
                push_text(out, "@PAGEOFF\n    str x1, [sp, #-16]!\n    bl _printf\n    add sp, sp, #16\n");
            },
            _ => {
                push_text(out, "    adrp x0, fmt_str\n    add x0, x0, :lo12:fmt_str\n    adrp x1, ");
                writer::write_string_label(out, k);
                push_text(out, "\n    add x1, x1, :lo12:");
                writer::write_string_label(out, k);
                push_text(out, "\n    bl printf\n");
            },
        }
        assert(final(out)@ =~= old(out)@ + assembly::print_arm64(self.target.os, k as int));
    }

    /// Appends to `out` the code of `println` of `value`.
    fn gen_print(&self, out: &mut String, value: &IRExpr, strs: &Vec<String>) -> (r: Result<
        (),
        CodegenError,
    >)
        ensures
            match emission::gen_print(self.target, value@, names_view(strs@)) {
                Ok(code) => r is Ok && final(out)@ == old(out)@ + code,
                Err(e) => r is Err && r->Err_0@ == e,
            },
    {
        match value {
            IRExpr::Str(s) => {
                let k = writer::position(strs, s);
                match self.target.arch {
                    Arch::X86_64 => self.gen_print_x86(out, k),
                    Arch::Arm64 => self.gen_print_arm64(out, k),
                }
                Ok(())
            },
            _ => Err(CodegenError::UnprintableArgument),
        }
    }

    /// Appends to `out` the code of the instruction `stmt`, taking labels
    /// from `label` on.
    fn gen_stmt(
        &self,
        out: &mut String,
        stmt: &IR,
        frame: &Frame,
        strs: &Vec<String>,
        label: &mut u64,
    ) -> (r: Result<(), CodegenError>)
        ensures
            match emission::gen_stmt(
                self.target,
                stmt@,
                frame@,
                names_view(strs@),
                *old(label) as nat,
            ) {
                Ok(emitted) => r is Ok && final(out)@ == old(out)@ + emitted.text && *final(label)
                    == emitted.label,
                Err(e) => r is Err && r->Err_0@ == e,
            },
        decreases stmt,
    {
        let arch = self.target.arch;
        let ghost start = out@;
        match stmt {
            IR::StoreVar(name, value) => {
                match self.gen_expr(out, value, frame, strs) {
                    Ok(()) => {},
                    Err(e) => {
                        return Err(e);
                    },
                }
                let k = writer::position(&frame.slots, name);
                if k < frame.slots.len() {
                    writer::write_store_var(out, arch, writer::offset_of_slot(k));
                    proof {
                        let code = emission::gen_expr(
                            self.target,
                            value@,
                            frame@,
                            names_view(strs@),
                        )->Ok_0;
                        assert(out@ =~= start + (code + assembly::store_var(
                            arch,
                            assembly::slot_offset(k as int),
                        )));
                    }
                    Ok(())
                } else {
                    Err(CodegenError::UnboundVariable(name.clone()))
                }
            },
            IR::Return(value) => {
                match self.gen_expr(out, value, frame, strs) {
                    Ok(()) => {},
                    Err(e) => {
                        return Err(e);
                    },
                }
                writer::write_return_jump(out, arch, &frame.name);
                proof {
                    let code = emission::gen_expr(
                        self.target,
                        value@,
                        frame@,
                        names_view(strs@),
                    )->Ok_0;
                    assert(out@ =~= start + (code + assembly::return_jump(arch, frame@.name)));
                }
                Ok(())
            },
            IR::Println(value) => self.gen_print(out, value, strs),
            IR::CallFunc(name, args) => self.gen_call(out, name, args, frame, strs),
            IR::If(cond, then_body, else_body) => {
                match self.gen_expr(out, cond, frame, strs) {
                    Ok(()) => {},
                    Err(e) => {
                        return Err(e);
                    },
                }
                let first = *label;
                if first > u64::MAX - 3 {
                    return Err(CodegenError::TooManyLabels);
                }
                *label = first + 3;
                writer::write_branch_if_zero(out, arch, first + 1);
                writer::write_label_def(out, first);
                match self.gen_block(out, then_body, frame, strs, label) {
                    Ok(()) => {},
                    Err(e) => {
                        return Err(e);
                    },
                }
                writer::write_jump(out, arch, first + 2);
                writer::write_label_def(out, first + 1);
                match self.gen_block(out, else_body, frame, strs, label) {
                    Ok(()) => {},
                    Err(e) => {
                        return Err(e);
                    },
                }
                writer::write_label_def(out, first + 2);
                proof {
                    let names = names_view(strs@);
                    let n = first as nat;
                    let cond_code = emission::gen_expr(self.target, cond@, frame@, names)->Ok_0;
                    let then_part = emission::gen_block(
                        self.target,
                        irs_view(*then_body),
                        0,
                        frame@,
                        names,
                        n + 3,
                    )->Ok_0;
                    let else_part = emission::gen_block(
                        self.target,
                        irs_view(*else_body),
                        0,
                        frame@,
                        names,
                        then_part.label,
                    )->Ok_0;
                    assert(out@ =~= start + (cond_code + assembly::branch_if_zero(arch, n + 1)
                        + assembly::label_def(n) + then_part.text + assembly::jump(arch, n + 2)
                        + assembly::label_def(n + 1) + else_part.text + assembly::label_def(
                        n + 2,
                    )));
                }
                Ok(())
            },
        }
    }

    /// Appends to `out` the code of the instructions `stmts`, one after
    /// another, taking labels from `label` on.
    fn gen_block(
        &self,
        out: &mut String,
        stmts: &Vec<IR>,
        frame: &Frame,
        strs: &Vec<String>,
        label: &mut u64,
    ) -> (r: Result<(), CodegenError>)
        ensures
            match emission::gen_block(
                self.target,
                irs_view(*stmts),
                0,
                frame@,
                names_view(strs@),
                *old(label) as nat,
            ) {
                Ok(emitted) => r is Ok && final(out)@ == old(out)@ + emitted.text && *final(label)
                    == emitted.label,
                Err(e) => r is Err && r->Err_0@ == e,
            },
        decreases stmts,
    {
        let ghost start = out@;
        let ghost views = irs_view(*stmts);
        let ghost names = names_view(strs@);
        let ghost whole = emission::gen_block(self.target, views, 0, frame@, names, *label as nat);
        let ghost mut done: Text = Seq::empty();
        let mut i: usize = 0;
        proof {
            assert(out@ =~= start + done);
            if let Ok(rest) = whole {
                assert(done + rest.text =~= rest.text);
            }
        }
        while i < stmts.len()
            invariant
                i <= stmts.len(),
                views == irs_view(*stmts),
                names == names_view(strs@),
                out@ == start + done,
                whole == emission::gen_block(
                    self.target,
                    views,
                    0,
                    frame@,
                    names,
                    *old(label) as nat,
                ),
                whole == after_emitted(
                    done,
                    emission::gen_block(self.target, views, i as int, frame@, names, *label as nat),
                ),
            decreases stmts.len() - i,
        {
            let ghost before = *label as nat;
            match self.gen_stmt(out, &stmts[i], frame, strs, label) {
                Ok(()) => {},
                Err(e) => {
                    return Err(e);
                },
            }
            proof {
                let step = emission::gen_stmt(self.target, views[i as int], frame@, names, before)->Ok_0;
                assert(out@ =~= start + (done + step.text));
                if let Ok(rest) = emission::gen_block(
                    self.target,
                    views,
                    i + 1,
                    frame@,
                    names,
                    step.label,
                ) {
                    assert(done + (step.text + rest.text) =~= (done + step.text) + rest.text);
                }
                done = done + step.text;
            }
            i += 1;
        }
        proof {
            assert(done + Seq::<char>::empty() =~= done);
        }
        Ok(())
    }

    /// Appends to `out` the code of the function `f`, taking labels from
    /// `label` on: the frame set up, the arguments copied into it, the body,
    /// the frame taken down.
    fn gen_function(&self, out: &mut String, f: &IRFunction, strs: &Vec<String>, label: &mut u64)
        -> (r: Result<(), CodegenError>)
        ensures
            match emission::gen_function(self.target, f@, names_view(strs@), *old(label) as nat) {
                Ok(emitted) => r is Ok && final(out)@ == old(out)@ + emitted.text && *final(label)
                    == emitted.label,
                Err(e) => r is Err && r->Err_0@ == e,
            },
    {
        let arch = self.target.arch;
        let ghost start = out@;
        let frame = Self::frame_of(f);
        let ghost slots = layout::slots_of_function(f@);
        let ghost params = params_view(f.params);
        writer::write_prologue(out, arch, &f.name, writer::size_of_frame(frame.slots.len()));
        let ghost head = assembly::prologue(arch, f@.name, assembly::frame_size(slots.len()));
        let ghost mut copied: Text = Seq::empty();
        let mut i: usize = 0;
        proof {
            assert(out@ =~= start + head + copied);
            assert(copied + emission::gen_params(arch, params, 0, slots) =~= emission::gen_params(
                arch,
                params,
                0,
                slots,
            ));
        }
        while i < f.params.len()
            invariant
                i <= f.params.len(),
                params == params_view(f.params),
                slots == names_view(frame.slots@),
                out@ == start + head + copied,
                emission::gen_params(arch, params, 0, slots) == copied + emission::gen_params(
                    arch,
                    params,
                    i as int,
                    slots,
                ),
            decreases f.params.len() - i,
        {
            let k = writer::position(&frame.slots, &f.params[i].0);
            writer::write_load_param(out, arch, i);
            writer::write_store_var(out, arch, writer::offset_of_slot(k));
            proof {
                let step = assembly::load_param(arch, i as nat) + assembly::store_var(
                    arch,
                    assembly::slot_offset(k as int),
                );
                assert(out@ =~= start + head + (copied + step));
                assert(copied + (step + emission::gen_params(arch, params, i + 1, slots)) =~= (
                copied + step) + emission::gen_params(arch, params, i + 1, slots));
                copied = copied + step;
            }
            i += 1;
        }
        proof {
            assert(copied + Seq::<char>::empty() =~= copied);
        }
        let ghost at_body = *label as nat;
        match self.gen_block(out, &f.body, &frame, strs, label) {
            Ok(()) => {},
            Err(e) => {
                return Err(e);
            },
        }
        writer::write_epilogue(out, arch, &f.name);
        proof {
            let body = emission::gen_block(
                self.target,
                f@.body,
                0,
                frame@,
                names_view(strs@),
                at_body,
            )->Ok_0;
            assert(out@ =~= start + (head + copied + body.text + assembly::epilogue(
                arch,
                f@.name,
            )));
        }
        Ok(())
    }

    /// Appends to `out` the code of all functions of the program, in order,
    /// with labels numbered through from zero.
    fn gen_functions(&self, out: &mut String, ir: &IRProgram, strs: &Vec<String>) -> (r: Result<
        (),
        CodegenError,
    >)
        ensures
            match emission::gen_functions(self.target, ir@.funcs, 0, names_view(strs@), 0) {
                Ok(emitted) => r is Ok && final(out)@ == old(out)@ + emitted.text,
                Err(e) => r is Err && r->Err_0@ == e,
            },
    {
        let ghost start = out@;
        let ghost funcs = ir@.funcs;
        let ghost names = names_view(strs@);
        let ghost whole = emission::gen_functions(self.target, funcs, 0, names, 0);
        let ghost mut done: Text = Seq::empty();
        let mut label: u64 = 0;
        let mut i: usize = 0;
        proof {
            assert(out@ =~= start + done);
            if let Ok(rest) = whole {
                assert(done + rest.text =~= rest.text);
            }
        }
        while i < ir.funcs.len()
            invariant
                i <= ir.funcs.len(),
                funcs == ir@.funcs,
                names == names_view(strs@),
                out@ == start + done,
                whole == emission::gen_functions(self.target, funcs, 0, names, 0),
                whole == after_emitted(
                    done,
                    emission::gen_functions(self.target, funcs, i as int, names, label as nat),
                ),
            decreases ir.funcs.len() - i,
        {
            let ghost before = label as nat;
            match self.gen_function(out, &ir.funcs[i], strs, &mut label) {
                Ok(()) => {},
                Err(e) => {
                    return Err(e);
                },
            }
            proof {
                let step = emission::gen_function(self.target, funcs[i as int], names, before)->Ok_0;
                assert(out@ =~= start + (done + step.text));
                if let Ok(rest) = emission::gen_functions(
                    self.target,
                    funcs,
                    i + 1,
                    names,
                    step.label,
                ) {
                    assert(done + (step.text + rest.text) =~= (done + step.text) + rest.text);
                }
                done = done + step.text;
            }
            i += 1;
        }
        proof {
            assert(done + Seq::<char>::empty() =~= done);
        }
        Ok(())
    }

    /// Whether output is written by system calls on this target.
    fn uses_syscalls(&self) -> (b: bool)
        ensures
            b == assembly::uses_syscalls(self.target),
    {
        self.target.arch == Arch::X86_64 && self.target.os == Os::Linux
    }

    /// The symbol at which the program is entered on this target.
    fn entry_symbol(&self) -> (symbol: &'static str)
        ensures
            symbol@ == assembly::entry_symbol(self.target),
    {
        if self.target.os == Os::Windows {
            "main"
        } else if self.uses_syscalls() {
            "_start"
        } else {
            "_main"
        }
    }

    /// The symbol of `printf` on this target.
    fn printf_symbol(&self) -> (symbol: &'static str)
        ensures
            symbol@ == assembly::printf_symbol(self.target),
    {
        if self.target.os == Os::MacOs {
            "_printf"
        } else {
            "printf"
        }
    }

    /// Whether the program has a function named `main`.
    fn has_main(ir: &IRProgram) -> (b: bool)
        ensures
            b == emission::has_main(ir@),
    {
        let ghost funcs = ir@.funcs;
        let mut i: usize = 0;
        while i < ir.funcs.len()
            invariant
                i <= ir.funcs.len(),
                funcs == ir@.funcs,
                emission::has_main(ir@) == emission::has_main_from(funcs, i as int),
            decreases ir.funcs.len() - i,
        {
            if crate::text::text_is(ir.funcs[i].name.as_str(), "main") {
                return true;
            }
            i += 1;
        }
        false
    }

    /// Appends to `out` the data section: its head and one entry for each
    /// string literal of `strs`.
    fn gen_data(&self, out: &mut String, strs: &Vec<String>)
        ensures
            final(out)@ == old(out)@ + emission::data_section(self.target, names_view(strs@)),
    {
        let ghost start = out@;
        let ghost names = names_view(strs@);
        let t = self.target;
        match t.arch {
            Arch::X86_64 => {
                if self.uses_syscalls() {
                    push_text(out, "section .data\nnewline: db 10\n");
                } else {
                    push_text(out, "section .data\nfmt_str: db \"%s\", 10, 0\n");
                }
            },
            Arch::Arm64 => {
                push_text(out, ".data\nfmt_str:\n    .asciz \"%s\\n\"\n");
            },
        }
        let ghost head = emission::data_header(t);
        let ghost mut done: Text = Seq::empty();
        let mut k: usize = 0;
        proof {
            assert(out@ =~= start + head + done);
            assert(done + emission::string_entries(t, names, 0) =~= emission::string_entries(
                t,
                names,
                0,
            ));
        }
        while k < strs.len()
            invariant
                k <= strs.len(),
                t == self.target,
                names == names_view(strs@),
                out@ == start + head + done,
                emission::string_entries(t, names, 0) == done + emission::string_entries(
                    t,
                    names,
                    k as int,
                ),
            decreases strs.len() - k,
        {
            let ghost before = out@;
            match t.arch {
                Arch::X86_64 => {
                    writer::write_string_label(out, k);
                    push_text(out, ": db \"");
                    push_text(out, strs[k].as_str());
                    push_text(out, "\", 0\n");
                    if self.uses_syscalls() {
                        writer::write_string_label(out, k);
                        push_text(out, "_len: equ $ - ");
                        writer::write_string_label(out, k);
                        push_text(out, " - 1\n");
                    }
                },
                Arch::Arm64 => {
                    writer::write_string_label(out, k);
                    push_text(out, ":\n    .asciz \"");
                    push_text(out, strs[k].as_str());
                    push_text(out, "\"\n");
                },
            }
            proof {
                let step = emission::string_entry(t, k as int, names[k as int]);
                assert(out@ =~= before + step);
                assert(out@ =~= start + head + (done + step));
                assert(done + (step + emission::string_entries(t, names, k + 1)) =~= (done + step)
                    + emission::string_entries(t, names, k + 1));
                done = done + step;
            }
            k += 1;
        }
        proof {
            assert(done + Seq::<char>::empty() =~= done);
            assert(out@ =~= start + (head + done));
        }
    }

    /// Appends to `out` the lines that make the labels of the functions
    /// visible to the linker.
    fn gen_globals(out: &mut String, ir: &IRProgram)
        ensures
            final(out)@ == old(out)@ + emission::function_globals(ir@.funcs, 0),
    {
        let ghost start = out@;
        let ghost funcs = ir@.funcs;
        let ghost mut done: Text = Seq::empty();
        let mut i: usize = 0;
        proof {
            assert(out@ =~= start + done);
            assert(done + emission::function_globals(funcs, 0) =~= emission::function_globals(
                funcs,
                0,
            ));
        }
        while i < ir.funcs.len()
            invariant
                i <= ir.funcs.len(),
                funcs == ir@.funcs,
                out@ == start + done,
                emission::function_globals(funcs, 0) == done + emission::function_globals(
                    funcs,
                    i as int,
                ),
            decreases ir.funcs.len() - i,
        {
            let ghost before = out@;
            push_text(out, "global ");
            writer::write_function_label(out, &ir.funcs[i].name);
            push_text(out, "\nglobal ");
            writer::write_function_end_label(out, &ir.funcs[i].name);
            push_text(out, "\n");
            proof {
                let name = funcs[i as int].name;
                let step = "global "@ + assembly::function_label(name) + "\nglobal "@
                    + assembly::function_end_label(name) + "\n"@;
                assert(out@ =~= before + step);
                assert(out@ =~= start + (done + step));
                assert(done + (step + emission::function_globals(funcs, i + 1)) =~= (done + step)
                    + emission::function_globals(funcs, i + 1));
                done = done + step;
            }
            i += 1;
        }
        proof {
            assert(done + Seq::<char>::empty() =~= done);
        }
    }

    /// Appends to `out` the head of the text section.
    fn gen_text_header(&self, out: &mut String, ir: &IRProgram)
        ensures
            final(out)@ == old(out)@ + emission::text_header(self.target, ir@.funcs),
    {
        match self.target.arch {
            Arch::X86_64 => {
                push_text(out, "section .text\nglobal ");
                push_text(out, self.entry_symbol());
                push_text(out, "\n");
                if !self.uses_syscalls() {
                    push_text(out, "extern ");
                    push_text(out, self.printf_symbol());
                    push_text(out, "\n");
                }
                Self::gen_globals(out, ir);
            },
            Arch::Arm64 => {
                push_text(out, ".text\n.global ");
                push_text(out, self.entry_symbol());
                push_text(out, "\n");
            },
        }
        assert(final(out)@ =~= old(out)@ + emission::text_header(self.target, ir@.funcs));
    }

    /// Appends to `out` the entry block, which calls `main` and ends the
    /// process with what `main` returned.
    fn gen_entry(&self, out: &mut String)
        ensures
            final(out)@ == old(out)@ + emission::entry_block(self.target),
    {
        push_text(out, self.entry_symbol());
        match self.target.arch {
            Arch::X86_64 => {
                if self.uses_syscalls() {
                    push_text(
                        out,
                        ":\n    call main_func\n    mov rdi, rax\n    mov rax, 60\n    syscall\n",
                    );
                } else {
                    push_text(
                        out,
                        ":\n    push rbp\n    mov rbp, rsp\n    call main_func\n    pop rbp\n    ret\n",
                    );
                }
            },
            Arch::Arm64 => {
                push_text(
                    out,
                    ":\n    stp x29, x30, [sp, #-16]!\n    mov x29, sp\n    bl main_func\n    ldp x29, x30, [sp], #16\n    ret\n\n",
                );
            },
        }
        assert(final(out)@ =~= old(out)@ + emission::entry_block(self.target));
    }

    /// The assembly text of the program for x86-64 and the operating system
    /// of this generator's target, in the Intel syntax of NASM.
    ///
    /// The text holds the data section, with one entry for each distinct
    /// string literal, the functions in the order of the program, and the
    /// entry block. No text is generated for a program without a function
    /// `main`, nor for one that holds an unknown operator, a variable
    /// without a slot, or a `println` of something else than a string
    /// literal.
    pub fn generate_x86_64(&self, ir: &IRProgram) -> (r: Result<String, CodegenError>)
        ensures
            match emission::program_text(Target { arch: Arch::X86_64, os: self.target.os }, ir@) {
                Ok(text) => r is Ok && r->Ok_0@ == text,
                Err(e) => r is Err && r->Err_0@ == e,
            },
    {
        let generator = Codegen { target: Target { arch: Arch::X86_64, os: self.target.os } };
        if !Self::has_main(ir) {
            return Err(CodegenError::MissingMain);
        }
        let strs = generator.collect_strings(ir);
        let mut out = String::new();
        generator.gen_data(&mut out, &strs);
        generator.gen_text_header(&mut out, ir);
        match generator.gen_functions(&mut out, ir, &strs) {
            Ok(()) => {},
            Err(e) => {
                return Err(e);
            },
        }
        generator.gen_entry(&mut out);
        proof {
            let t = generator.target;
            let names = names_view(strs@);
            let code = emission::gen_functions(t, ir@.funcs, 0, names, 0)->Ok_0;
            assert(out@ =~= emission::data_section(t, names) + emission::text_header(
                t,
                ir@.funcs,
            ) + code.text + emission::entry_block(t));
        }
        Ok(out)
    }

    /// The assembly text of the program for AArch64 and the operating system
    /// of this generator's target, in the syntax of the GNU assembler.
    ///
    /// The text holds the data section, with one entry for each distinct
    /// string literal, the entry block, and the functions in the order of
    /// the program. It is refused as [`Codegen::generate_x86_64`] refuses it.
    pub fn generate_arm64(&self, ir: &IRProgram) -> (r: Result<String, CodegenError>)
        ensures
            match emission::program_text(Target { arch: Arch::Arm64, os: self.target.os }, ir@) {
                Ok(text) => r is Ok && r->Ok_0@ == text,
                Err(e) => r is Err && r->Err_0@ == e,
            },
    {
        let generator = Codegen { target: Target { arch: Arch::Arm64, os: self.target.os } };
        if !Self::has_main(ir) {
            return Err(CodegenError::MissingMain);
        }
        let strs = generator.collect_strings(ir);
        let mut out = String::new();
        generator.gen_data(&mut out, &strs);
        generator.gen_text_header(&mut out, ir);
        generator.gen_entry(&mut out);
        match generator.gen_functions(&mut out, ir, &strs) {
            Ok(()) => {},
            Err(e) => {
                return Err(e);
            },
        }
        proof {
            let t = generator.target;
            let names = names_view(strs@);
            let code = emission::gen_functions(t, ir@.funcs, 0, names, 0)->Ok_0;
            assert(out@ =~= emission::data_section(t, names) + emission::text_header(
                t,
                ir@.funcs,
            ) + emission::entry_block(t) + code.text);
        }
        Ok(out)
    }

    /// The assembly text of the program for this generator's target.
    pub fn generate(&self, ir: &IRProgram) -> (r: Result<String, CodegenError>)
        ensures
            match emission::program_text(self.target, ir@) {
                Ok(text) => r is Ok && r->Ok_0@ == text,
                Err(e) => r is Err && r->Err_0@ == e,
            },
    {
        match self.target.arch {
            Arch::Arm64 => self.generate_arm64(ir),
            Arch::X86_64 => self.generate_x86_64(ir),
        }
    }
}

/// Text emitted so far, followed by what emitting the rest gives.
pub open spec fn after_text(done: Text, rest: Result<Text, CodegenErrorView>) -> Result<
    Text,
    CodegenErrorView,
> {
    match rest {
        Ok(text) => Ok(done + text),
        Err(e) => Err(e),
    }
}

/// Text emitted so far, followed by what emitting the rest gives, with the
/// next free label after the rest.
pub open spec fn after_emitted(done: Text, rest: Result<Emitted, CodegenErrorView>) -> Result<
    Emitted,
    CodegenErrorView,
> {
    match rest {
        Ok(emitted) => Ok(Emitted { text: done + emitted.text, label: emitted.label }),
        Err(e) => Err(e),
    }
}

} // verus!
