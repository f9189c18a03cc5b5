use rlkc::parser::{Expr, Stmt, TypeName};
use rlkc::semantic::{IRExpr, IR};
use rlkc::text::{
    char_is_digit, char_is_word_part, char_is_word_start, chars_of, push_decimal,
    push_signed_decimal, push_text, spells, text_between, text_is,
};

#[test]
fn decimal_numerals() {
    for (n, expected) in [
        (0u128, "0"),
        (9, "9"),
        (10, "10"),
        (4096, "4096"),
        (18446744073709551615, "18446744073709551615"),
        (u128::MAX, "340282366920938463463374607431768211455"),
    ] {
        let mut out = String::from("n=");
        push_decimal(&mut out, n);
        assert_eq!(out, format!("n={}", expected));
    }
}

#[test]
fn signed_decimal_numerals() {
    for n in [0i64, 1, -1, 42, -42, 1000, i64::MAX, i64::MIN] {
        let mut out = String::from("<");
        push_signed_decimal(&mut out, n);
        push_text(&mut out, ">");
        assert_eq!(out, format!("<{}>", n));
    }
}

#[test]
fn character_classes() {
    assert!(char_is_digit('0') && char_is_digit('9'));
    assert!(!char_is_digit('a') && !char_is_digit('/') && !char_is_digit(':'));
    assert!(char_is_word_start('a') && char_is_word_start('Z') && char_is_word_start('_'));
    assert!(!char_is_word_start('1') && !char_is_word_start('-') && !char_is_word_start('\u{e9}'));
    assert!(char_is_word_part('1') && char_is_word_part('q') && char_is_word_part('_'));
    assert!(!char_is_word_part(' ') && !char_is_word_part('"'));
}

#[test]
fn texts_and_their_characters() {
    let chars = chars_of("let x\u{e9}y");
    assert_eq!(chars, vec!['l', 'e', 't', ' ', 'x', '\u{e9}', 'y']);
    assert_eq!(text_between(&chars, 4, 7), "x\u{e9}y");
    assert_eq!(text_between(&chars, 2, 2), "");
    assert!(spells(&chars, 0, 3, "let"));
    assert!(!spells(&chars, 0, 3, "lex"));
    assert!(!spells(&chars, 0, 4, "let"));
    assert!(!spells(&chars, 0, 2, "let"));
    assert!(spells(&chars, 3, 3, ""));
    assert!(text_is("==", "=="));
    assert!(!text_is("=", "=="));
    assert!(!text_is("=!", "=="));
    assert!(text_is("", ""));
}

#[test]
fn clones_are_the_same_trees() {
    let e = Expr::Call(
        "f".to_string(),
        vec![
            Expr::Binary(Box::new(Expr::Number(1)), "+".to_string(), Box::new(Expr::Var("x".to_string()))),
            Expr::StringLiteral("s".to_string()),
        ],
    );
    assert_eq!(e.clone(), e);
    let s = Stmt::If(
        e.clone(),
        vec![Stmt::Let("a".to_string(), TypeName::Int, e.clone()), Stmt::Return(e.clone())],
        vec![Stmt::ExprStmt(e.clone()), Stmt::If(e.clone(), vec![], vec![])],
    );
    assert_eq!(s.clone(), s);
    let ir_e = IRExpr::Call(
        "f".to_string(),
        vec![
            IRExpr::Binary(Box::new(IRExpr::Int(1)), "+".to_string(), Box::new(IRExpr::Var("x".to_string()))),
            IRExpr::Str("s".to_string()),
        ],
    );
    assert_eq!(ir_e.clone(), ir_e);
    let ir = IR::If(
        ir_e.clone(),
        vec![IR::StoreVar("a".to_string(), ir_e.clone()), IR::Println(ir_e.clone())],
        vec![IR::CallFunc("g".to_string(), vec![ir_e.clone()]), IR::Return(ir_e.clone())],
    );
    assert_eq!(ir.clone(), ir);
}
