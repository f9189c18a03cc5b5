//! The grammar of the language, as functions from a token sequence and a
//! position to the syntax tree read there and the position after it.
use vstd::prelude::*;
use crate::lexer::TokenView;
use crate::ast::{ExprView, StmtView, FunctionView, ProgramView};
use crate::parser::{TypeName, Expected, ParseError};

verus! {

/// The tree read and the position of the first token after it, or the error
/// that stopped the reading.
pub type Parsed<T> = Result<(T, int), ParseError>;

/// The token at `pos`. Past the end of the sequence, and before its start,
/// stands the end-of-stream marker.
pub open spec fn token_at(tokens: Seq<TokenView>, pos: int) -> TokenView {
    if 0 <= pos < tokens.len() {
        tokens[pos]
    } else {
        TokenView::EOF
    }
}

/// The error of not finding `expected` at `pos`.
pub open spec fn missing(expected: Expected, pos: int) -> ParseError {
    ParseError { expected, at: pos as usize }
}

/// Passes over the token `token` at `pos`, or fails there.
pub open spec fn expect(tokens: Seq<TokenView>, pos: int, token: TokenView, expected: Expected)
    -> Result<int, ParseError> {
    if token_at(tokens, pos) == token {
        Ok(pos + 1)
    } else {
        Err(missing(expected, pos))
    }
}

/// Whether the cursor moved forward from `from` to `to` without leaving the
/// sequence. Every successful parse below moves it so; the grammar's
/// recursive rules ask for it before they go on, which is what makes them
/// well defined.
pub open spec fn advanced(tokens: Seq<TokenView>, from: int, to: int) -> bool {
    from < to <= tokens.len()
}

/// An identifier: its name.
pub open spec fn parse_ident(tokens: Seq<TokenView>, pos: int) -> Parsed<Seq<char>> {
    match token_at(tokens, pos) {
        TokenView::Ident(name) => Ok((name, pos + 1)),
        _ => Err(missing(Expected::Identifier, pos)),
    }
}

/// A type name: `int` or `string`.
pub open spec fn parse_type(tokens: Seq<TokenView>, pos: int) -> Parsed<TypeName> {
    match token_at(tokens, pos) {
        TokenView::IntType => Ok((TypeName::Int, pos + 1)),
        TokenView::StringType => Ok((TypeName::String, pos + 1)),
        _ => Err(missing(Expected::Type, pos)),
    }
}

/// The symbol of a binary operator token.
pub open spec fn operator(token: TokenView) -> Option<Seq<char>> {
    match token {
        TokenView::Plus => Some("+"@),
        TokenView::Minus => Some("-"@),
        TokenView::Star => Some("*"@),
        TokenView::Slash => Some("/"@),
        TokenView::Greater => Some(">"@),
        TokenView::Less => Some("<"@),
        TokenView::EqualEqual => Some("=="@),
        TokenView::NotEqual => Some("!="@),
        _ => None,
    }
}

/// A primary expression: a literal, a variable, a call, or an expression in
/// parentheses. An identifier is a call exactly if `(` follows it.
pub open spec fn parse_primary(tokens: Seq<TokenView>, pos: int) -> Parsed<ExprView>
    decreases tokens.len() - pos, 0nat,
{
    match token_at(tokens, pos) {
        TokenView::Number(n) => Ok((ExprView::Number(n), pos + 1)),
        TokenView::StringLiteral(s) => Ok((ExprView::StringLiteral(s), pos + 1)),
        TokenView::Ident(name) => {
            if token_at(tokens, pos + 1) == TokenView::LParen {
                match parse_args(tokens, pos + 2) {
                    Err(e) => Err(e),
                    Ok((args, close)) => match expect(
                        tokens,
                        close,
                        TokenView::RParen,
                        Expected::RParen,
                    ) {
                        Err(e) => Err(e),
                        Ok(end) => Ok((ExprView::Call(name, args), end)),
                    },
                }
            } else {
                Ok((ExprView::Var(name), pos + 1))
            }
        },
        TokenView::LParen => match parse_expr(tokens, pos + 1) {
            Err(e) => Err(e),
            Ok((inner, close)) => match expect(
                tokens,
                close,
                TokenView::RParen,
                Expected::RParen,
            ) {
                Err(e) => Err(e),
                Ok(end) => Ok((inner, end)),
            },
        },
        _ => Err(missing(Expected::Expression, pos)),
    }
}

/// The arguments of a call, up to but not including the closing `)`. A comma
/// after an argument is passed over; none is required.
pub open spec fn parse_args(tokens: Seq<TokenView>, pos: int) -> Parsed<Seq<ExprView>>
    decreases tokens.len() - pos, 3nat,
{
    if token_at(tokens, pos) == TokenView::RParen {
        Ok((Seq::empty(), pos))
    } else {
        match parse_expr(tokens, pos) {
            Err(e) => Err(e),
            Ok((first, after)) => {
                let next = if token_at(tokens, after) == TokenView::Comma {
                    after + 1
                } else {
                    after
                };
                if advanced(tokens, pos, next) {
                    match parse_args(tokens, next) {
                        Err(e) => Err(e),
                        Ok((rest, end)) => Ok((seq![first] + rest, end)),
                    }
                } else {
                    Err(missing(Expected::Expression, pos))
                }
            },
        }
    }
}

/// An expression: primaries joined by binary operators.
pub open spec fn parse_expr(tokens: Seq<TokenView>, pos: int) -> Parsed<ExprView>
    decreases tokens.len() - pos, 2nat,
{
    parse_binary(tokens, pos)
}

/// A chain of primaries joined by binary operators. All operators bind alike
/// and group to the left: `a + b * c` is `(a + b) * c`.
pub open spec fn parse_binary(tokens: Seq<TokenView>, pos: int) -> Parsed<ExprView>
    decreases tokens.len() - pos, 1nat,
{
    match parse_primary(tokens, pos) {
        Err(e) => Err(e),
        Ok((left, after)) => {
            if advanced(tokens, pos, after) {
                parse_operations(tokens, after, left)
            } else {
                Err(missing(Expected::Expression, pos))
            }
        },
    }
}

/// What follows the operand `left` of a chain: nothing, or an operator, a
/// primary, and what follows the two operands so joined.
pub open spec fn parse_operations(tokens: Seq<TokenView>, pos: int, left: ExprView) -> Parsed<
    ExprView,
>
    decreases tokens.len() - pos, 0nat,
{
    match operator(token_at(tokens, pos)) {
        None => Ok((left, pos)),
        Some(op) => match parse_primary(tokens, pos + 1) {
            Err(e) => Err(e),
            Ok((right, after)) => {
                if advanced(tokens, pos, after) {
                    parse_operations(
                        tokens,
                        after,
                        ExprView::Binary(Box::new(left), op, Box::new(right)),
                    )
                } else {
                    Err(missing(Expected::Expression, pos))
                }
            },
        },
    }
}

/// The position after an argument list lies at or after its start and within
/// the sequence.
pub proof fn lemma_args_stay_inside(tokens: Seq<TokenView>, pos: int)
    requires
        pos <= tokens.len(),
    ensures
        parse_args(tokens, pos) matches Ok((_, end)) ==> pos <= end <= tokens.len(),
    decreases tokens.len() - pos,
{
    if token_at(tokens, pos) != TokenView::RParen {
        if let Ok((first, after)) = parse_expr(tokens, pos) {
            let next = if token_at(tokens, after) == TokenView::Comma {
                after + 1
            } else {
                after
            };
            if advanced(tokens, pos, next) {
                lemma_args_stay_inside(tokens, next);
            }
        }
    }
}

/// The position after a chain's operations lies at or after their start and
/// within the sequence.
pub proof fn lemma_operations_stay_inside(tokens: Seq<TokenView>, pos: int, left: ExprView)
    requires
        pos <= tokens.len(),
    ensures
        parse_operations(tokens, pos, left) matches Ok((_, end)) ==> pos <= end <= tokens.len(),
    decreases tokens.len() - pos,
{
    if let Some(op) = operator(token_at(tokens, pos)) {
        if let Ok((right, after)) = parse_primary(tokens, pos + 1) {
            if advanced(tokens, pos, after) {
                lemma_operations_stay_inside(
                    tokens,
                    after,
                    ExprView::Binary(Box::new(left), op, Box::new(right)),
                );
            }
        }
    }
}

/// An expression takes at least one token and ends within the sequence.
pub proof fn lemma_expr_advances(tokens: Seq<TokenView>, pos: int)
    ensures
        parse_expr(tokens, pos) matches Ok((_, end)) ==> advanced(tokens, pos, end),
        parse_binary(tokens, pos) matches Ok((_, end)) ==> advanced(tokens, pos, end),
{
    if let Ok((left, after)) = parse_primary(tokens, pos) {
        if advanced(tokens, pos, after) {
            lemma_operations_stay_inside(tokens, after, left);
        }
    }
}

/// A primary expression takes at least one token and ends within the
/// sequence.
pub proof fn lemma_primary_advances(tokens: Seq<TokenView>, pos: int)
    ensures
        parse_primary(tokens, pos) matches Ok((_, end)) ==> advanced(tokens, pos, end),
{
    match token_at(tokens, pos) {
        TokenView::Ident(name) => {
            if token_at(tokens, pos + 1) == TokenView::LParen {
                lemma_args_stay_inside(tokens, pos + 2);
            }
        },
        TokenView::LParen => {
            lemma_expr_advances(tokens, pos + 1);
        },
        _ => {},
    }
}

/// Operators have no precedence: whatever the two operators are, a chain
/// of three primaries `a op1 b op2 c` is read as `(a op1 b) op2 c`.
pub proof fn lemma_operators_group_to_the_left(
    tokens: Seq<TokenView>,
    pos: int,
    a: ExprView,
    op1: Seq<char>,
    b: ExprView,
    op2: Seq<char>,
    c: ExprView,
    first_op: int,
    second_op: int,
    end: int,
)
    requires
        parse_primary(tokens, pos) == Ok::<(ExprView, int), ParseError>((a, first_op)),
        operator(token_at(tokens, first_op)) == Some(op1),
        parse_primary(tokens, first_op + 1) == Ok::<(ExprView, int), ParseError>((b, second_op)),
        operator(token_at(tokens, second_op)) == Some(op2),
        parse_primary(tokens, second_op + 1) == Ok::<(ExprView, int), ParseError>((c, end)),
        operator(token_at(tokens, end)) is None,
    ensures
        parse_expr(tokens, pos) == Ok::<(ExprView, int), ParseError>(
            (
                ExprView::Binary(
                    Box::new(ExprView::Binary(Box::new(a), op1, Box::new(b))),
                    op2,
                    Box::new(c),
                ),
                end,
            ),
        ),
{
    lemma_primary_advances(tokens, pos);
    lemma_primary_advances(tokens, first_op + 1);
    lemma_primary_advances(tokens, second_op + 1);
    let ab = ExprView::Binary(Box::new(a), op1, Box::new(b));
    let abc = ExprView::Binary(Box::new(ab), op2, Box::new(c));
    assert(parse_operations(tokens, end, abc) == Ok::<(ExprView, int), ParseError>((abc, end)));
    assert(parse_operations(tokens, second_op, ab) == parse_operations(tokens, end, abc));
    assert(parse_operations(tokens, first_op, a) == parse_operations(tokens, second_op, ab));
    assert(parse_binary(tokens, pos) == parse_operations(tokens, first_op, a));
}

/// `let` name `:` type `=` expression `;`, with `let` at `pos`.
pub open spec fn parse_let(tokens: Seq<TokenView>, pos: int) -> Parsed<StmtView> {
    match parse_ident(tokens, pos + 1) {
        Err(e) => Err(e),
        Ok((name, colon)) => match expect(tokens, colon, TokenView::Colon, Expected::Colon) {
            Err(e) => Err(e),
            Ok(annotation) => match parse_type(tokens, annotation) {
                Err(e) => Err(e),
                Ok((t, assign)) => match expect(
                    tokens,
                    assign,
                    TokenView::Assign,
                    Expected::Assign,
                ) {
                    Err(e) => Err(e),
                    Ok(start) => match parse_expr(tokens, start) {
                        Err(e) => Err(e),
                        Ok((init, semicolon)) => match expect(
                            tokens,
                            semicolon,
                            TokenView::Semicolon,
                            Expected::Semicolon,
                        ) {
                            Err(e) => Err(e),
                            Ok(end) => Ok((StmtView::Let(name, t, init), end)),
                        },
                    },
                },
            },
        },
    }
}

/// `return` expression `;`, with `return` at `pos`.
pub open spec fn parse_return(tokens: Seq<TokenView>, pos: int) -> Parsed<StmtView> {
    match parse_expr(tokens, pos + 1) {
        Err(e) => Err(e),
        Ok((value, semicolon)) => match expect(
            tokens,
            semicolon,
            TokenView::Semicolon,
            Expected::Semicolon,
        ) {
            Err(e) => Err(e),
            Ok(end) => Ok((StmtView::Return(value), end)),
        },
    }
}

/// expression `;`
pub open spec fn parse_expr_stmt(tokens: Seq<TokenView>, pos: int) -> Parsed<StmtView> {
    match parse_expr(tokens, pos) {
        Err(e) => Err(e),
        Ok((e, semicolon)) => match expect(
            tokens,
            semicolon,
            TokenView::Semicolon,
            Expected::Semicolon,
        ) {
            Err(e) => Err(e),
            Ok(end) => Ok((StmtView::ExprStmt(e), end)),
        },
    }
}

/// `if` condition `{` statements `}` `else` `{` statements `}`, with `if` at
/// `pos`. Both blocks are required.
pub open spec fn parse_if(tokens: Seq<TokenView>, pos: int) -> Parsed<StmtView>
    decreases tokens.len() - pos, 0nat,
{
    match parse_expr(tokens, pos + 1) {
        Err(e) => Err(e),
        Ok((cond, open)) => match expect(tokens, open, TokenView::LBrace, Expected::LBrace) {
            Err(e) => Err(e),
            Ok(then_start) => {
                proof {
                    lemma_expr_advances(tokens, pos + 1);
                }
                match parse_block(tokens, then_start) {
                    Err(e) => Err(e),
                    Ok((then_body, then_close)) => match expect(
                        tokens,
                        then_close,
                        TokenView::RBrace,
                        Expected::RBrace,
                    ) {
                        Err(e) => Err(e),
                        Ok(else_word) => match expect(
                            tokens,
                            else_word,
                            TokenView::Else,
                            Expected::Else,
                        ) {
                            Err(e) => Err(e),
                            Ok(else_open) => match expect(
                                tokens,
                                else_open,
                                TokenView::LBrace,
                                Expected::LBrace,
                            ) {
                                Err(e) => Err(e),
                                Ok(else_start) => {
                                    if advanced(tokens, pos, else_start) {
                                        match parse_block(tokens, else_start) {
                                            Err(e) => Err(e),
                                            Ok((else_body, else_close)) => match expect(
                                                tokens,
                                                else_close,
                                                TokenView::RBrace,
                                                Expected::RBrace,
                                            ) {
                                                Err(e) => Err(e),
                                                Ok(end) => Ok(
                                                    (
                                                        StmtView::If(cond, then_body, else_body),
                                                        end,
                                                    ),
                                                ),
                                            },
                                        }
                                    } else {
                                        Err(missing(Expected::LBrace, pos))
                                    }
                                },
                            },
                        },
                    },
                }
            },
        },
    }
}

/// A statement, told by its first token.
pub open spec fn parse_stmt(tokens: Seq<TokenView>, pos: int) -> Parsed<StmtView>
    decreases tokens.len() - pos, 1nat,
{
    match token_at(tokens, pos) {
        TokenView::Let => parse_let(tokens, pos),
        TokenView::Return => parse_return(tokens, pos),
        TokenView::If => parse_if(tokens, pos),
        _ => parse_expr_stmt(tokens, pos),
    }
}

/// The statements of a block, up to but not including the closing `}`.
pub open spec fn parse_block(tokens: Seq<TokenView>, pos: int) -> Parsed<Seq<StmtView>>
    decreases tokens.len() - pos, 2nat,
{
    if token_at(tokens, pos) == TokenView::RBrace {
        Ok((Seq::empty(), pos))
    } else {
        match parse_stmt(tokens, pos) {
            Err(e) => Err(e),
            Ok((first, next)) => {
                if advanced(tokens, pos, next) {
                    match parse_block(tokens, next) {
                        Err(e) => Err(e),
                        Ok((rest, end)) => Ok((seq![first] + rest, end)),
                    }
                } else {
                    Err(missing(Expected::Expression, pos))
                }
            },
        }
    }
}

/// The position after a block's statements lies at or after their start and
/// within the sequence.
pub proof fn lemma_block_stays_inside(tokens: Seq<TokenView>, pos: int)
    requires
        pos <= tokens.len(),
    ensures
        parse_block(tokens, pos) matches Ok((_, end)) ==> pos <= end <= tokens.len(),
    decreases tokens.len() - pos,
{
    if token_at(tokens, pos) != TokenView::RBrace {
        if let Ok((first, next)) = parse_stmt(tokens, pos) {
            if advanced(tokens, pos, next) {
                lemma_block_stays_inside(tokens, next);
            }
        }
    }
}

/// A statement takes at least one token and ends within the sequence.
pub proof fn lemma_stmt_advances(tokens: Seq<TokenView>, pos: int)
    ensures
        parse_stmt(tokens, pos) matches Ok((_, end)) ==> advanced(tokens, pos, end),
{
    match token_at(tokens, pos) {
        TokenView::Let => {
            if let Ok((name, colon)) = parse_ident(tokens, pos + 1) {
                lemma_expr_advances(tokens, colon + 3);
            }
        },
        TokenView::Return => {
            lemma_expr_advances(tokens, pos + 1);
        },
        TokenView::If => {
            lemma_expr_advances(tokens, pos + 1);
            if let Ok((cond, open)) = parse_expr(tokens, pos + 1) {
                if let Ok((then_body, then_close)) = parse_block(tokens, open + 1) {
                    if advanced(tokens, pos, then_close + 3) {
                        lemma_block_stays_inside(tokens, then_close + 3);
                    }
                }
            }
        },
        _ => {
            lemma_expr_advances(tokens, pos);
        },
    }
}

/// The parameters of a function, up to but not including the closing `)`:
/// each a name, `:` and a type. A comma after a parameter is passed over;
/// none is required.
pub open spec fn parse_params(tokens: Seq<TokenView>, pos: int) -> Parsed<
    Seq<(Seq<char>, TypeName)>,
>
    decreases tokens.len() - pos,
{
    if token_at(tokens, pos) == TokenView::RParen {
        Ok((Seq::empty(), pos))
    } else {
        match parse_ident(tokens, pos) {
            Err(e) => Err(e),
            Ok((name, colon)) => match expect(tokens, colon, TokenView::Colon, Expected::Colon) {
                Err(e) => Err(e),
                Ok(annotation) => match parse_type(tokens, annotation) {
                    Err(e) => Err(e),
                    Ok((t, after)) => {
                        let next = if token_at(tokens, after) == TokenView::Comma {
                            after + 1
                        } else {
                            after
                        };
                        match parse_params(tokens, next) {
                            Err(e) => Err(e),
                            Ok((rest, end)) => Ok((seq![(name, t)] + rest, end)),
                        }
                    },
                },
            },
        }
    }
}

/// The position after a parameter list lies at or after its start and within
/// the sequence.
pub proof fn lemma_params_stay_inside(tokens: Seq<TokenView>, pos: int)
    requires
        pos <= tokens.len(),
    ensures
        parse_params(tokens, pos) matches Ok((_, end)) ==> pos <= end <= tokens.len(),
    decreases tokens.len() - pos,
{
    if token_at(tokens, pos) != TokenView::RParen {
        if let Ok((name, colon)) = parse_ident(tokens, pos) {
            if let Ok(annotation) = expect(tokens, colon, TokenView::Colon, Expected::Colon) {
                if let Ok((t, after)) = parse_type(tokens, annotation) {
                    let next = if token_at(tokens, after) == TokenView::Comma {
                        after + 1
                    } else {
                        after
                    };
                    lemma_params_stay_inside(tokens, next);
                }
            }
        }
    }
}

/// `func` name `(` parameters `)` `:` type `{` statements `}`
pub open spec fn parse_function(tokens: Seq<TokenView>, pos: int) -> Parsed<FunctionView> {
    match expect(tokens, pos, TokenView::Func, Expected::Func) {
        Err(e) => Err(e),
        Ok(name_at) => match parse_ident(tokens, name_at) {
            Err(e) => Err(e),
            Ok((name, open)) => match expect(tokens, open, TokenView::LParen, Expected::LParen) {
                Err(e) => Err(e),
                Ok(params_at) => match parse_params(tokens, params_at) {
                    Err(e) => Err(e),
                    Ok((params, close)) => match expect(
                        tokens,
                        close,
                        TokenView::RParen,
                        Expected::RParen,
                    ) {
                        Err(e) => Err(e),
                        Ok(colon) => match expect(
                            tokens,
                            colon,
                            TokenView::Colon,
                            Expected::Colon,
                        ) {
                            Err(e) => Err(e),
                            Ok(ret_at) => match parse_type(tokens, ret_at) {
                                Err(e) => Err(e),
                                Ok((ret_type, body_open)) => match expect(
                                    tokens,
                                    body_open,
                                    TokenView::LBrace,
                                    Expected::LBrace,
                                ) {
                                    Err(e) => Err(e),
                                    Ok(body_at) => match parse_block(tokens, body_at) {
                                        Err(e) => Err(e),
                                        Ok((body, body_close)) => match expect(
                                            tokens,
                                            body_close,
                                            TokenView::RBrace,
                                            Expected::RBrace,
                                        ) {
                                            Err(e) => Err(e),
                                            Ok(end) => Ok(
                                                (
                                                    FunctionView { name, params, ret_type, body },
                                                    end,
                                                ),
                                            ),
                                        },
                                    },
                                },
                            },
                        },
                    },
                },
            },
        },
    }
}

/// A function takes at least one token and ends within the sequence.
pub proof fn lemma_function_advances(tokens: Seq<TokenView>, pos: int)
    ensures
        parse_function(tokens, pos) matches Ok((_, end)) ==> advanced(tokens, pos, end),
{
    if let Ok((f, end)) = parse_function(tokens, pos) {
        lemma_params_stay_inside(tokens, pos + 3);
        let close = parse_params(tokens, pos + 3)->Ok_0.1;
        lemma_block_stays_inside(tokens, close + 4);
    }
}

/// The functions of a program, up to the end-of-stream marker.
pub open spec fn parse_functions(tokens: Seq<TokenView>, pos: int) -> Parsed<Seq<FunctionView>>
    decreases tokens.len() - pos,
{
    if token_at(tokens, pos) == TokenView::EOF {
        Ok((Seq::empty(), pos))
    } else {
        match parse_function(tokens, pos) {
            Err(e) => Err(e),
            Ok((first, next)) => {
                proof {
                    lemma_function_advances(tokens, pos);
                }
                match parse_functions(tokens, next) {
                    Err(e) => Err(e),
                    Ok((rest, end)) => Ok((seq![first] + rest, end)),
                }
            },
        }
    }
}

/// A program: functions one after another, in the order of the text, up to
/// the end-of-stream marker.
pub open spec fn parse_program(tokens: Seq<TokenView>, pos: int) -> Parsed<ProgramView> {
    match parse_functions(tokens, pos) {
        Err(e) => Err(e),
        Ok((funcs, end)) => Ok((ProgramView { funcs }, end)),
    }
}

/// Items read so far, followed by what reading the rest of a list gives.
pub open spec fn after_items<T>(done: Seq<T>, rest: Parsed<Seq<T>>) -> Parsed<Seq<T>> {
    match rest {
        Ok((items, end)) => Ok((done + items, end)),
        Err(e) => Err(e),
    }
}

} // verus!
