use rlkc::lexer::{lex, Token};
use rlkc::parser::{Expected, Expr, Function, ParseError, Parser, Program, Stmt, TypeName};

fn parse(source: &str) -> Result<Program, ParseError> {
    Parser::new(lex(source).unwrap()).parse_program()
}

fn body_of(source: &str) -> Vec<Stmt> {
    let wrapped = format!("func main(): int {{ {} }}", source);
    let mut program = parse(&wrapped).unwrap();
    assert_eq!(program.funcs.len(), 1);
    program.funcs.remove(0).body
}

fn error_of(source: &str) -> ParseError {
    parse(source).unwrap_err()
}

fn num(n: i64) -> Expr {
    Expr::Number(n)
}

fn var(name: &str) -> Expr {
    Expr::Var(name.to_string())
}

fn bin(left: Expr, op: &str, right: Expr) -> Expr {
    Expr::Binary(Box::new(left), op.to_string(), Box::new(right))
}

fn call(name: &str, args: Vec<Expr>) -> Expr {
    Expr::Call(name.to_string(), args)
}

fn eval(e: &Expr) -> i64 {
    match e {
        Expr::Number(n) => *n,
        Expr::Binary(l, op, r) => match op.as_str() {
            "+" => eval(l) + eval(r),
            "-" => eval(l) - eval(r),
            "*" => eval(l) * eval(r),
            "/" => eval(l) / eval(r),
            _ => unreachable!(),
        },
        _ => unreachable!(),
    }
}

#[test]
fn parse_empty_program() {
    assert_eq!(parse(""), Ok(Program { funcs: vec![] }));
}

#[test]
fn parse_main_returning_a_number() {
    assert_eq!(
        parse("func main(): int { return 42; }"),
        Ok(Program {
            funcs: vec![Function {
                name: "main".to_string(),
                params: vec![],
                ret_type: TypeName::Int,
                body: vec![Stmt::Return(num(42))],
            }],
        })
    );
}

#[test]
fn operators_have_one_precedence_and_group_to_the_left() {
    let body = body_of("let x: int = 1 + 2 * 3;");
    let expected = bin(bin(num(1), "+", num(2)), "*", num(3));
    assert_eq!(body, vec![Stmt::Let("x".to_string(), TypeName::Int, bin(bin(num(1), "+", num(2)), "*", num(3)))]);
    assert_eq!(eval(&expected), 9);
    match &body[0] {
        Stmt::Let(_, _, init) => assert_eq!(eval(init), 9),
        _ => unreachable!(),
    }
}

#[test]
fn subtraction_and_division_group_to_the_left() {
    assert_eq!(
        body_of("return 10 - 4 - 3;"),
        vec![Stmt::Return(bin(bin(num(10), "-", num(4)), "-", num(3)))]
    );
    assert_eq!(
        body_of("return 2 * 3 + 4 / 2;"),
        vec![Stmt::Return(bin(bin(bin(num(2), "*", num(3)), "+", num(4)), "/", num(2)))]
    );
}

#[test]
fn parentheses_group_and_leave_no_node() {
    assert_eq!(
        body_of("return 1 + (2 * 3);"),
        vec![Stmt::Return(bin(num(1), "+", bin(num(2), "*", num(3))))]
    );
    assert_eq!(body_of("return ((7));"), vec![Stmt::Return(num(7))]);
}

#[test]
fn every_operator_token_gives_its_symbol() {
    for op in ["+", "-", "*", "/", ">", "<", "==", "!="] {
        let source = format!("return a {} b;", op);
        assert_eq!(body_of(&source), vec![Stmt::Return(bin(var("a"), op, var("b")))]);
    }
}

#[test]
fn identifier_followed_by_parenthesis_is_a_call() {
    assert_eq!(body_of("return f;"), vec![Stmt::Return(var("f"))]);
    assert_eq!(body_of("return f();"), vec![Stmt::Return(call("f", vec![]))]);
    assert_eq!(
        body_of("return f(1, x, g(2));"),
        vec![Stmt::Return(call("f", vec![num(1), var("x"), call("g", vec![num(2)])]))]
    );
}

#[test]
fn commas_between_arguments_are_optional() {
    let expected = vec![Stmt::Return(call("f", vec![num(1), num(2)]))];
    assert_eq!(body_of("return f(1, 2);"), expected);
    assert_eq!(body_of("return f(1 2);"), expected);
    assert_eq!(body_of("return f(1, 2,);"), expected);
}

#[test]
fn parse_parameters_and_types() {
    let program = parse("func f(a: int, b: string): string { return b; }").unwrap();
    assert_eq!(
        program.funcs,
        vec![Function {
            name: "f".to_string(),
            params: vec![("a".to_string(), TypeName::Int), ("b".to_string(), TypeName::String)],
            ret_type: TypeName::String,
            body: vec![Stmt::Return(var("b"))],
        }]
    );
    let loose = parse("func f(a: int b: string,): string { return b; }").unwrap();
    assert_eq!(loose, program);
}

#[test]
fn parse_statements_of_each_kind() {
    assert_eq!(
        body_of("let s: string = \"a\"; println(s); if s { return 1; } else { f(); } return 0;"),
        vec![
            Stmt::Let("s".to_string(), TypeName::String, Expr::StringLiteral("a".to_string())),
            Stmt::ExprStmt(call("println", vec![var("s")])),
            Stmt::If(var("s"), vec![Stmt::Return(num(1))], vec![Stmt::ExprStmt(call("f", vec![]))]),
            Stmt::Return(num(0)),
        ]
    );
}

#[test]
fn parse_nested_if() {
    assert_eq!(
        body_of("if a { if b { } else { return 1; } } else { }"),
        vec![Stmt::If(
            var("a"),
            vec![Stmt::If(var("b"), vec![], vec![Stmt::Return(num(1))])],
            vec![],
        )]
    );
}

#[test]
fn functions_keep_the_order_of_the_text() {
    let program =
        parse("func b(): int { return 1; } func main(): int { return 2; } func a(): int { return 3; }")
            .unwrap();
    let names: Vec<&str> = program.funcs.iter().map(|f| f.name.as_str()).collect();
    assert_eq!(names, vec!["b", "main", "a"]);
}

#[test]
fn else_is_mandatory() {
    //                    0    1    2 3 4 5   6 7  8 9 10 11   12
    assert_eq!(
        error_of("func main ( ) : int { if x { } return 0 ; }"),
        ParseError { expected: Expected::Else, at: 11 }
    );
    assert_eq!(
        error_of("func main(): int { if x { } else if y { } else { } }"),
        ParseError { expected: Expected::LBrace, at: 12 }
    );
}

#[test]
fn error_names_what_was_expected_and_where() {
    assert_eq!(error_of("let"), ParseError { expected: Expected::Func, at: 0 });
    assert_eq!(error_of("func"), ParseError { expected: Expected::Identifier, at: 1 });
    assert_eq!(error_of("func f"), ParseError { expected: Expected::LParen, at: 2 });
    assert_eq!(error_of("func f(1"), ParseError { expected: Expected::Identifier, at: 3 });
    assert_eq!(error_of("func f(a"), ParseError { expected: Expected::Colon, at: 4 });
    assert_eq!(error_of("func f(a: x"), ParseError { expected: Expected::Type, at: 5 });
    assert_eq!(error_of("func f(a: int"), ParseError { expected: Expected::Identifier, at: 6 });
    assert_eq!(error_of("func f()"), ParseError { expected: Expected::Colon, at: 4 });
    assert_eq!(error_of("func f():"), ParseError { expected: Expected::Type, at: 5 });
    assert_eq!(error_of("func f(): int"), ParseError { expected: Expected::LBrace, at: 6 });
    assert_eq!(error_of("func f(): int {"), ParseError { expected: Expected::Expression, at: 7 });
    assert_eq!(error_of("func f(): int { let"), ParseError { expected: Expected::Identifier, at: 8 });
    assert_eq!(error_of("func f(): int { let x: int 1"), ParseError { expected: Expected::Assign, at: 11 });
    assert_eq!(error_of("func f(): int { return 1 }"), ParseError { expected: Expected::Semicolon, at: 9 });
    assert_eq!(error_of("func f(): int { return (1; }"), ParseError { expected: Expected::RParen, at: 10 });
    assert_eq!(error_of("func f(): int { return g(1; }"), ParseError { expected: Expected::Expression, at: 11 });
    assert_eq!(error_of("func f(): int { return 1 + ; }"), ParseError { expected: Expected::Expression, at: 10 });
    assert_eq!(error_of("func f(): int { if 1 { return 1; "), ParseError { expected: Expected::Expression, at: 13 });
    assert_eq!(error_of("func f(): int { if 1 return"), ParseError { expected: Expected::LBrace, at: 9 });
}

#[test]
fn missing_end_of_stream_marker_reads_as_one() {
    let mut tokens = lex("func main(): int { return 1; }").unwrap();
    assert_eq!(tokens.pop(), Some(Token::EOF));
    let with_marker = parse("func main(): int { return 1; }").unwrap();
    assert_eq!(Parser::new(tokens).parse_program(), Ok(with_marker));
    assert_eq!(Parser::new(vec![]).parse_program(), Ok(Program { funcs: vec![] }));
    assert_eq!(
        Parser::new(vec![Token::Func]).parse_program(),
        Err(ParseError { expected: Expected::Identifier, at: 1 })
    );
}

#[test]
fn parsing_goes_on_from_the_cursor() {
    let mut parser = Parser::new(lex("func a(): int { } func b(): int { }").unwrap());
    let first = parser.parse_program().unwrap();
    assert_eq!(first.funcs.len(), 2);
    assert_eq!(parser.parse_program(), Ok(Program { funcs: vec![] }));
}

#[test]
fn tokens_after_the_marker_are_not_read() {
    let mut tokens = lex("func a(): int { }").unwrap();
    tokens.push(Token::RBrace);
    let program = Parser::new(tokens).parse_program().unwrap();
    assert_eq!(program.funcs.len(), 1);
}
