//! A small ahead-of-time compiler for a minimal statically typed imperative
//! language: functions, typed `let` bindings, `if`/`else`, integer and string
//! literals, binary operators, calls and a `println` builtin. It lowers
//! source text to assembly text for x86-64 (NASM) or AArch64 (GNU syntax).
//!
//! Source text passes through four stages, and each reports its failures as
//! values:
//!
//! - [`lexer`] turns characters into tokens;
//! - [`parser`] turns tokens into a syntax tree, by the rules of [`grammar`];
//! - [`semantic`] checks the tree by the rules of [`typing`] and lowers it to
//!   an intermediate representation, of which [`scoping`] says what holds;
//! - [`codegen`] walks that representation and writes the text that
//!   [`emission`] describes, made of the instruction sequences of
//!   [`assembly`], with strings and variables placed as [`layout`] says.
//!
//! [`driver`] runs the four stages one after another. [`ast`] and [`ir`] say
//! what the trees are as mathematical values, and [`soundness`] holds what
//! the stages can rely on from one another.
pub mod text;
pub mod lexer;
pub mod ast;
pub mod grammar;
pub mod parser;
pub mod ir;
pub mod typing;
pub mod scoping;
pub mod semantic;
pub mod assembly;
pub mod layout;
pub mod emission;
pub mod writer;
pub mod codegen;
pub mod driver;
pub mod soundness;
