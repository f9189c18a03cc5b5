use rlkc::lexer::lex;
use rlkc::parser::{Expr, Function, Parser, Program, Stmt, TypeName};
use rlkc::semantic::{IRExpr, IRProgram, SemanticAnalyzer, SemanticError, SymbolTable, IR};

fn analyze(source: &str) -> Result<IRProgram, SemanticError> {
    let program = Parser::new(lex(source).unwrap()).parse_program().unwrap();
    SemanticAnalyzer::new(program).analyze()
}

fn main_body(statements: &str) -> Result<Vec<IR>, SemanticError> {
    let source = format!("func main(): int {{ {} }}", statements);
    analyze(&source).map(|mut ir| ir.funcs.remove(0).body)
}

fn error_of(statements: &str) -> SemanticError {
    main_body(statements).unwrap_err()
}

fn lit(n: i64) -> IRExpr {
    IRExpr::Int(n)
}

fn text(s: &str) -> IRExpr {
    IRExpr::Str(s.to_string())
}

fn var(name: &str) -> IRExpr {
    IRExpr::Var(name.to_string())
}

fn bin(left: IRExpr, op: &str, right: IRExpr) -> IRExpr {
    IRExpr::Binary(Box::new(left), op.to_string(), Box::new(right))
}

fn store(name: &str, value: IRExpr) -> IR {
    IR::StoreVar(name.to_string(), value)
}

fn eval(e: &IRExpr) -> i64 {
    match e {
        IRExpr::Int(n) => *n,
        IRExpr::Binary(l, op, r) => match op.as_str() {
            "+" => eval(l) + eval(r),
            "*" => eval(l) * eval(r),
            _ => unreachable!(),
        },
        _ => unreachable!(),
    }
}

#[test]
fn declaration_order_is_kept() {
    let ir = analyze(
        "func zeta(): int { return main(); } func main(): int { return 0; } func alpha(x: int): string { return \"a\"; }",
    )
    .unwrap();
    let names: Vec<&str> = ir.funcs.iter().map(|f| f.name.as_str()).collect();
    assert_eq!(names, vec!["zeta", "main", "alpha"]);
    assert_eq!(ir.funcs[2].params, vec![("x".to_string(), TypeName::Int)]);
    assert_eq!(ir.funcs[2].ret_type, TypeName::String);
    assert_eq!(ir.funcs.iter().position(|f| f.name == "main"), Some(1));
}

#[test]
fn let_stores_the_left_grouped_value() {
    let body = main_body("let x: int = 1 + 2 * 3;").unwrap();
    assert_eq!(body, vec![store("x", bin(bin(lit(1), "+", lit(2)), "*", lit(3)))]);
    match &body[0] {
        IR::StoreVar(_, value) => assert_eq!(eval(value), 9),
        _ => unreachable!(),
    }
}

#[test]
fn string_let_with_int_initializer_is_a_type_mismatch() {
    assert_eq!(
        error_of("let s: string = 1 + 2;"),
        SemanticError::LetTypeMismatch {
            name: "s".to_string(),
            expected: TypeName::String,
            found: TypeName::Int,
        }
    );
    assert_eq!(
        error_of("let n: int = \"a\";"),
        SemanticError::LetTypeMismatch {
            name: "n".to_string(),
            expected: TypeName::Int,
            found: TypeName::String,
        }
    );
}

#[test]
fn call_of_undeclared_function_is_unknown_function() {
    assert_eq!(error_of("let x: int = nothing(1);"), SemanticError::UnknownFunction("nothing".to_string()));
    assert_eq!(error_of("nothing();"), SemanticError::UnknownFunction("nothing".to_string()));
    assert_eq!(error_of("return printl(\"a\");"), SemanticError::UnknownFunction("printl".to_string()));
    assert_eq!(error_of("Println(\"a\");"), SemanticError::UnknownFunction("Println".to_string()));
    assert_eq!(error_of("nothing(undefined);"), SemanticError::UnknownFunction("nothing".to_string()));
}

#[test]
fn unknown_variable_is_rejected() {
    assert_eq!(error_of("return y;"), SemanticError::UnknownVariable("y".to_string()));
    assert_eq!(error_of("y;"), SemanticError::UnknownVariable("y".to_string()));
    assert_eq!(error_of("let x: int = x;"), SemanticError::UnknownVariable("x".to_string()));
    assert_eq!(error_of("print(y);"), SemanticError::UnknownVariable("y".to_string()));
    assert_eq!(error_of("println(y);"), SemanticError::UnknownVariable("y".to_string()));
}

#[test]
fn arity_and_argument_types_are_checked() {
    let with_f = |statements: &str| {
        analyze(&format!(
            "func f(a: int, b: string): int {{ return a; }} func main(): int {{ {} }}",
            statements
        ))
    };
    assert!(with_f("return f(1, \"x\");").is_ok());
    assert_eq!(
        with_f("return f(1);").unwrap_err(),
        SemanticError::ArityMismatch { name: "f".to_string(), expected: 2, found: 1 }
    );
    assert_eq!(
        with_f("f(1, \"x\", 3);").unwrap_err(),
        SemanticError::ArityMismatch { name: "f".to_string(), expected: 2, found: 3 }
    );
    assert_eq!(
        with_f("return f(1, 2);").unwrap_err(),
        SemanticError::ArgumentTypeMismatch {
            name: "f".to_string(),
            index: 1,
            expected: TypeName::String,
            found: TypeName::Int,
        }
    );
    assert_eq!(
        with_f("return f(\"x\", y);").unwrap_err(),
        SemanticError::ArgumentTypeMismatch {
            name: "f".to_string(),
            index: 0,
            expected: TypeName::Int,
            found: TypeName::String,
        }
    );
    assert_eq!(with_f("return f(y, 2);").unwrap_err(), SemanticError::UnknownVariable("y".to_string()));
}

#[test]
fn return_type_is_checked() {
    assert_eq!(
        error_of("return \"a\";"),
        SemanticError::ReturnTypeMismatch { expected: TypeName::Int, found: TypeName::String }
    );
    assert_eq!(
        analyze("func f(): string { return 1; } func main(): int { return 0; }").unwrap_err(),
        SemanticError::ReturnTypeMismatch { expected: TypeName::String, found: TypeName::Int }
    );
    assert_eq!(
        error_of("if 1 { return \"a\"; } else { }"),
        SemanticError::ReturnTypeMismatch { expected: TypeName::Int, found: TypeName::String }
    );
}

#[test]
fn condition_must_be_int() {
    assert_eq!(
        error_of("if \"a\" { } else { }"),
        SemanticError::ConditionNotInt { found: TypeName::String }
    );
    assert!(main_body("if 1 < 2 { } else { }").is_ok());
}

#[test]
fn binary_operator_typing() {
    assert_eq!(
        main_body("let s: string = \"a\" + \"b\";").unwrap(),
        vec![store("s", bin(text("a"), "+", text("b")))]
    );
    assert_eq!(error_of("return \"a\" - \"b\";"), SemanticError::OperandsNotInt { op: "-".to_string() });
    assert_eq!(error_of("return \"a\" == \"b\";"), SemanticError::OperandsNotInt { op: "==".to_string() });
    assert_eq!(error_of("return 1 + \"b\";"), SemanticError::OperandsNotInt { op: "+".to_string() });
    assert_eq!(error_of("return \"a\" + 1;"), SemanticError::OperandsNotInt { op: "+".to_string() });
    assert_eq!(error_of("1 * \"b\";"), SemanticError::OperandsNotInt { op: "*".to_string() });
    for op in ["+", "-", "*", "/", ">", "<", "==", "!="] {
        assert!(main_body(&format!("return 1 {} 2;", op)).is_ok());
    }
}

#[test]
fn println_statement_takes_one_string() {
    assert_eq!(main_body("println(\"hi\");").unwrap(), vec![IR::Println(text("hi"))]);
    assert_eq!(
        main_body("let s: string = \"a\"; println(s);").unwrap(),
        vec![store("s", text("a")), IR::Println(var("s"))]
    );
    assert_eq!(error_of("println();"), SemanticError::PrintlnArity { found: 0 });
    assert_eq!(error_of("println(\"a\", \"b\");"), SemanticError::PrintlnArity { found: 2 });
    assert_eq!(error_of("println(1);"), SemanticError::PrintlnNotString { found: TypeName::Int });
}

#[test]
fn builtin_calls_are_not_checked_against_parameters() {
    assert_eq!(
        main_body("print(1, \"a\");").unwrap(),
        vec![IR::CallFunc("print".to_string(), vec![lit(1), text("a")])]
    );
    assert_eq!(
        main_body("let x: int = println(1, 2);").unwrap(),
        vec![store("x", IRExpr::Call("println".to_string(), vec![lit(1), lit(2)]))]
    );
    assert_eq!(
        error_of("let s: string = print(\"a\");"),
        SemanticError::LetTypeMismatch {
            name: "s".to_string(),
            expected: TypeName::String,
            found: TypeName::Int,
        }
    );
}

#[test]
fn builtin_names_win_over_declarations() {
    let ir = analyze("func print(a: int): string { return \"x\"; } func main(): int { return print(); }");
    assert!(ir.is_ok());
}

#[test]
fn statement_call_of_a_function_is_lowered_to_callfunc() {
    let ir = analyze("func f(a: int): int { return a; } func main(): int { f(3); return 0; }").unwrap();
    assert_eq!(
        ir.funcs[1].body,
        vec![IR::CallFunc("f".to_string(), vec![lit(3)]), IR::Return(lit(0))]
    );
}

#[test]
fn other_expression_statements_are_stored_under_a_fixed_name() {
    assert_eq!(main_body("1 + 2;").unwrap(), vec![store("_expr_tmp", bin(lit(1), "+", lit(2)))]);
}

#[test]
fn forward_references_are_allowed() {
    assert!(analyze("func main(): int { return later(1); } func later(a: int): int { return a; }").is_ok());
}

#[test]
fn of_two_functions_of_one_name_the_last_counts() {
    let source = "func f(): int { return 1; } func f(a: string): string { return a; } func main(): int { let s: string = f(\"x\"); return 0; }";
    let ir = analyze(source).unwrap();
    assert_eq!(ir.funcs.len(), 3);
    assert_eq!(
        analyze("func f(a: string): string { return a; } func f(): int { return 1; } func main(): int { let s: string = f(\"x\"); return 0; }")
            .unwrap_err(),
        SemanticError::ArityMismatch { name: "f".to_string(), expected: 0, found: 1 }
    );
}

#[test]
fn let_in_a_branch_stays_in_sight() {
    let body = main_body("if 1 { let a: int = 1; } else { let b: int = a; } return a + b;").unwrap();
    assert_eq!(
        body,
        vec![
            IR::If(lit(1), vec![store("a", lit(1))], vec![store("b", var("a"))]),
            IR::Return(bin(var("a"), "+", var("b"))),
        ]
    );
}

#[test]
fn second_let_of_a_name_replaces_the_first() {
    assert!(main_body("let x: int = 1; let x: string = \"a\"; println(x);").is_ok());
    assert_eq!(
        error_of("let x: int = 1; let x: string = \"a\"; return x;"),
        SemanticError::ReturnTypeMismatch { expected: TypeName::Int, found: TypeName::String }
    );
}

#[test]
fn parameters_are_in_sight_and_the_later_of_one_name_counts() {
    assert!(analyze("func f(a: int, a: string): string { return a; } func main(): int { return 0; }").is_ok());
    assert_eq!(
        analyze("func f(a: string, a: int): string { return a; } func main(): int { return 0; }").unwrap_err(),
        SemanticError::ReturnTypeMismatch { expected: TypeName::String, found: TypeName::Int }
    );
}

#[test]
fn variables_of_one_function_are_not_in_sight_in_another() {
    assert_eq!(
        analyze("func f(a: int): int { let b: int = a; return b; } func main(): int { return b; }").unwrap_err(),
        SemanticError::UnknownVariable("b".to_string())
    );
}

#[test]
fn first_error_in_program_order_is_reported() {
    assert_eq!(
        analyze("func f(): int { return x; } func main(): int { return \"a\"; }").unwrap_err(),
        SemanticError::UnknownVariable("x".to_string())
    );
    assert_eq!(
        error_of("let a: int = \"s\"; return zz;"),
        SemanticError::LetTypeMismatch {
            name: "a".to_string(),
            expected: TypeName::Int,
            found: TypeName::String,
        }
    );
}

#[test]
fn hand_built_tree_is_analyzed() {
    let program = Program {
        funcs: vec![Function {
            name: "main".to_string(),
            params: vec![("n".to_string(), TypeName::Int)],
            ret_type: TypeName::Int,
            body: vec![Stmt::Return(Expr::Binary(
                Box::new(Expr::Var("n".to_string())),
                "%".to_string(),
                Box::new(Expr::Number(2)),
            ))],
        }],
    };
    let ir = SemanticAnalyzer::new(program).analyze().unwrap();
    assert_eq!(ir.funcs[0].body, vec![IR::Return(bin(var("n"), "%", lit(2)))]);
}

#[test]
fn symbol_table_keeps_the_last_binding() {
    let mut table = SymbolTable::new();
    assert_eq!(table.get(&"x".to_string()), None);
    table.insert("x".to_string(), TypeName::Int);
    table.insert("y".to_string(), TypeName::String);
    assert_eq!(table.get(&"x".to_string()), Some(TypeName::Int));
    table.insert("x".to_string(), TypeName::String);
    assert_eq!(table.get(&"x".to_string()), Some(TypeName::String));
    assert_eq!(table.get(&"y".to_string()), Some(TypeName::String));
    assert_eq!(table.get(&"z".to_string()), None);
}
