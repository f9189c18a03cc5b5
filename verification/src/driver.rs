//! The whole pipeline: from source text to assembly text.
use vstd::prelude::*;
use crate::lexer::{lex, lex_spec, LexError};
use crate::parser::{Parser, ParseError};
use crate::grammar::parse_program;
use crate::semantic::{SemanticAnalyzer, SemanticError};
use crate::ir::SemanticErrorView;
use crate::typing::{analyze_program, lemma_analysis_keeps_declaration_order};
use crate::codegen::{Codegen, CodegenError, Target};
use crate::assembly::{CodegenErrorView, Text};
use crate::emission::{program_text, has_main, lemma_has_main};

verus! {

/// Why a source text is not compiled: the error of the stage that gave up.
#[derive(Debug, Clone, PartialEq)]
pub enum CompileError {
    Lex(LexError),
    Parse(ParseError),
    Semantic(SemanticError),
    Codegen(CodegenError),
}

/// What a [`CompileError`] is.
pub enum CompileErrorView {
    Lex(LexError),
    Parse(ParseError),
    Semantic(SemanticErrorView),
    Codegen(CodegenErrorView),
}

impl View for CompileError {
    type V = CompileErrorView;

    open spec fn view(&self) -> CompileErrorView {
        match self {
            CompileError::Lex(e) => CompileErrorView::Lex(*e),
            CompileError::Parse(e) => CompileErrorView::Parse(*e),
            CompileError::Semantic(e) => CompileErrorView::Semantic(e@),
            CompileError::Codegen(e) => CompileErrorView::Codegen(e@),
        }
    }
}

/// The assembly text of a source text for the target `t`: the text is
/// lexed, the tokens parsed, the tree analyzed and lowered, and code
/// generated for the lowered program. The first stage that fails ends the
/// compilation.
pub open spec fn compile_spec(source: Seq<char>, t: Target) -> Result<Text, CompileErrorView> {
    match lex_spec(source) {
        Err(e) => Err(CompileErrorView::Lex(e)),
        Ok(tokens) => match parse_program(tokens, 0) {
            Err(e) => Err(CompileErrorView::Parse(e)),
            Ok((program, _)) => match analyze_program(program) {
                Err(e) => Err(CompileErrorView::Semantic(e)),
                Ok(lowered) => match program_text(t, lowered) {
                    Err(e) => Err(CompileErrorView::Codegen(e)),
                    Ok(text) => Ok(text),
                },
            },
        },
    }
}

/// Compiles a source text to assembly text for `target`.
pub fn compile(source: &str, target: Target) -> (r: Result<String, CompileError>)
    ensures
        match compile_spec(source@, target) {
            Ok(text) => r is Ok && r->Ok_0@ == text,
            Err(e) => r is Err && r->Err_0@ == e,
        },
        r matches Err(CompileError::Codegen(e)) ==> e@ is MissingMain || e@ is UnprintableArgument
            || e@ is TooManyLabels,
{
    proof {
        crate::soundness::lemma_no_fault_reaches_code_generation(source@, target);
    }
    let tokens = match lex(source) {
        Ok(tokens) => tokens,
        Err(e) => {
            return Err(CompileError::Lex(e));
        },
    };
    let mut parser = Parser::new(tokens);
    let program = match parser.parse_program() {
        Ok(program) => program,
        Err(e) => {
            return Err(CompileError::Parse(e));
        },
    };
    let analyzer = SemanticAnalyzer::new(program);
    let lowered = match analyzer.analyze() {
        Ok(lowered) => lowered,
        Err(e) => {
            return Err(CompileError::Semantic(e));
        },
    };
    match Codegen::new(target).generate(&lowered) {
        Ok(text) => Ok(text),
        Err(e) => Err(CompileError::Codegen(e)),
    }
}

/// Through lexing, parsing and analysis the functions of a source text keep
/// their order: the lowered program holds one function for each function
/// that the parser read, at the same place and under the same name, with
/// the same parameters and return type. So the lowered program has a function
/// named `main` exactly if the source declares one.
pub proof fn lemma_pipeline_keeps_declaration_order(source: Seq<char>)
    requires
        lex_spec(source) is Ok,
        parse_program(lex_spec(source)->Ok_0, 0) is Ok,
        analyze_program(parse_program(lex_spec(source)->Ok_0, 0)->Ok_0.0) is Ok,
    ensures
        ({
            let program = parse_program(lex_spec(source)->Ok_0, 0)->Ok_0.0;
            let lowered = analyze_program(program)->Ok_0;
            &&& lowered.funcs.len() == program.funcs.len()
            &&& forall|k: int|
                0 <= k < program.funcs.len() ==> {
                    &&& (#[trigger] lowered.funcs[k]).name == program.funcs[k].name
                    &&& lowered.funcs[k].params == program.funcs[k].params
                    &&& lowered.funcs[k].ret_type == program.funcs[k].ret_type
                }
            &&& has_main(lowered) <==> exists|k: int|
                0 <= k < program.funcs.len() && #[trigger] program.funcs[k].name == "main"@
        }),
{
    let program = parse_program(lex_spec(source)->Ok_0, 0)->Ok_0.0;
    let lowered = analyze_program(program)->Ok_0;
    lemma_analysis_keeps_declaration_order(program);
    lemma_has_main(lowered.funcs, 0);
    if has_main(lowered) {
        let k = choose|k: int|
            0 <= k < lowered.funcs.len() && #[trigger] lowered.funcs[k].name == "main"@;
        assert(program.funcs[k].name == "main"@);
    }
    if exists|k: int| 0 <= k < program.funcs.len() && #[trigger] program.funcs[k].name == "main"@ {
        let k = choose|k: int|
            0 <= k < program.funcs.len() && #[trigger] program.funcs[k].name == "main"@;
        assert(lowered.funcs[k].name == "main"@);
    }
}

} // verus!
