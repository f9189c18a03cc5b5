//! The parser: from tokens to a syntax tree, by recursive descent with one
//! token of lookahead.
use vstd::prelude::*;
use crate::lexer::{Token, TokenView, tokens_view};
use crate::ast::{ExprView, StmtView, FunctionView};
use crate::ast::{
    exprs_view,
    stmts_view,
    params_view,
    functions_view,
    lemma_exprs_view_push,
    lemma_stmts_view_push,
};
use crate::grammar;
use crate::grammar::{token_at, after_items};

verus! {

/// The two types of the language.
#[derive(Debug, Clone, Copy, PartialEq, Eq, Structural)]
pub enum TypeName {
    Int,
    String,
}

/// An expression.
#[derive(Debug, PartialEq)]
pub enum Expr {
    Number(i64),
    StringLiteral(String),
    Var(String),
    Binary(Box<Expr>, String, Box<Expr>),
    Call(String, Vec<Expr>),
}

/// A statement.
#[derive(Debug, PartialEq)]
pub enum Stmt {
    Let(String, TypeName, Expr),
    ExprStmt(Expr),
    Return(Expr),
    If(Expr, Vec<Stmt>, Vec<Stmt>),
}

/// A function: its name, its parameters in order, its return type and its
/// statements in order.
#[derive(Debug, Clone, PartialEq)]
pub struct Function {
    pub name: String,
    pub params: Vec<(String, TypeName)>,
    pub ret_type: TypeName,
    pub body: Vec<Stmt>,
}

/// A program: its functions in the order of their declaration.
#[derive(Debug, Clone, PartialEq)]
pub struct Program {
    pub funcs: Vec<Function>,
}

impl Clone for Expr {
    /// A copy of the expression: the same tree.
    fn clone(&self) -> (copy: Self)
        ensures
            copy@ == self@,
        decreases self,
    {
        match self {
            Expr::Number(n) => Expr::Number(*n),
            Expr::StringLiteral(s) => Expr::StringLiteral(s.clone()),
            Expr::Var(name) => Expr::Var(name.clone()),
            Expr::Binary(left, op, right) => Expr::Binary(
                Box::new((**left).clone()),
                op.clone(),
                Box::new((**right).clone()),
            ),
            Expr::Call(name, args) => {
                let mut copies: Vec<Expr> = Vec::new();
                let mut i: usize = 0;
                while i < args.len()
                    invariant
                        i <= args.len(),
                        copies.len() == i,
                        self is Call,
                        self->Call_1 == *args,
                        forall|k: int| 0 <= k < i ==> (#[trigger] copies@[k])@ == args@[k]@,
                    decreases args.len() - i,
                {
                    copies.push(args[i].clone());
                    i += 1;
                }
                assert(exprs_view(copies) =~= exprs_view(*args));
                Expr::Call(name.clone(), copies)
            },
        }
    }
}

impl Clone for Stmt {
    /// A copy of the statement: the same tree.
    fn clone(&self) -> (copy: Self)
        ensures
            copy@ == self@,
        decreases self,
    {
        match self {
            Stmt::Let(name, t, init) => Stmt::Let(name.clone(), *t, init.clone()),
            Stmt::ExprStmt(e) => Stmt::ExprStmt(e.clone()),
            Stmt::Return(value) => Stmt::Return(value.clone()),
            Stmt::If(cond, then_body, else_body) => {
                let mut then_copy: Vec<Stmt> = Vec::new();
                let mut i: usize = 0;
                while i < then_body.len()
                    invariant
                        i <= then_body.len(),
                        then_copy.len() == i,
                        self is If,
                        self->If_1 == *then_body,
                        forall|k: int| 0 <= k < i ==> (#[trigger] then_copy@[k])@ == then_body@[k]@,
                    decreases then_body.len() - i,
                {
                    then_copy.push(then_body[i].clone());
                    i += 1;
                }
                let mut else_copy: Vec<Stmt> = Vec::new();
                let mut j: usize = 0;
                while j < else_body.len()
                    invariant
                        j <= else_body.len(),
                        else_copy.len() == j,
                        self is If,
                        self->If_2 == *else_body,
                        forall|k: int| 0 <= k < j ==> (#[trigger] else_copy@[k])@ == else_body@[k]@,
                    decreases else_body.len() - j,
                {
                    else_copy.push(else_body[j].clone());
                    j += 1;
                }
                assert(stmts_view(then_copy) =~= stmts_view(*then_body));
                assert(stmts_view(else_copy) =~= stmts_view(*else_body));
                Stmt::If(cond.clone(), then_copy, else_copy)
            },
        }
    }
}

/// What the parser was looking for where it gave up.
#[derive(Debug, Clone, Copy, PartialEq, Eq, Structural)]
pub enum Expected {
    Func,
    Identifier,
    Type,
    LParen,
    RParen,
    LBrace,
    RBrace,
    Colon,
    Semicolon,
    Assign,
    Else,
    Expression,
}

/// A syntax error: what was expected, and the index of the token found in
/// its place.
#[derive(Debug, Clone, Copy, PartialEq, Eq, Structural)]
pub struct ParseError {
    pub expected: Expected,
    pub at: usize,
}

/// A cursor over a token sequence, from which a program is read.
pub struct Parser {
    tokens: Vec<Token>,
    pos: usize,
    end: Token,
}

impl Parser {
    /// The cursor never lies beyond the end of the tokens.
    #[verifier::type_invariant]
    spec fn cursor_inside(self) -> bool {
        self.pos <= self.tokens.len() && self.end@ == TokenView::EOF
    }

    /// The tokens that the parser reads.
    pub closed spec fn stream(&self) -> Seq<TokenView> {
        tokens_view(self.tokens@)
    }

    /// The index of the token that the parser reads next.
    pub closed spec fn position(&self) -> int {
        self.pos as int
    }

    /// A parser at the start of `tokens`.
    pub fn new(tokens: Vec<Token>) -> (parser: Self)
        ensures
            parser.stream() == tokens_view(tokens@),
            parser.position() == 0,
    {
        Self { tokens, pos: 0, end: Token::EOF }
    }

    /// The token under the cursor; past the last token, the end-of-stream
    /// marker.
    fn peek(&self) -> (token: &Token)
        ensures
            token@ == token_at(self.stream(), self.position()),
            self.position() <= self.stream().len(),
    {
        proof {
            use_type_invariant(self);
        }
        if self.pos < self.tokens.len() {
            &self.tokens[self.pos]
        } else {
            &self.end
        }
    }

    /// Moves the cursor past the token under it, if there is one.
    fn next(&mut self)
        ensures
            final(self).stream() == old(self).stream(),
            final(self).position() == if old(self).position() < old(self).stream().len() {
                old(self).position() + 1
            } else {
                old(self).position()
            },
    {
        proof {
            use_type_invariant(&*self);
        }
        if self.pos < self.tokens.len() {
            self.pos += 1;
        }
    }

    /// The error of not finding `expected` under the cursor.
    fn fail(&self, expected: Expected) -> (e: ParseError)
        ensures
            e == grammar::missing(expected, self.position()),
    {
        ParseError { expected, at: self.pos }
    }

    /// Passes over `token` if it is under the cursor, and fails there
    /// otherwise.
    fn expect(&mut self, token: &Token, expected: Expected) -> (r: Result<(), ParseError>)
        requires
            token@ != TokenView::EOF,
        ensures
            final(self).stream() == old(self).stream(),
            match grammar::expect(old(self).stream(), old(self).position(), token@, expected) {
                Ok(end) => r is Ok && final(self).position() == end,
                Err(e) => r == Err::<(), ParseError>(e) && final(self).position() == e.at,
            },
    {
        if self.peek().same(token) {
            self.next();
            Ok(())
        } else {
            Err(self.fail(expected))
        }
    }

    /// Reads an identifier and gives its name.
    fn expect_ident(&mut self) -> (r: Result<String, ParseError>)
        ensures
            final(self).stream() == old(self).stream(),
            match grammar::parse_ident(old(self).stream(), old(self).position()) {
                Ok((name, end)) => r is Ok && r->Ok_0@ == name && final(self).position() == end,
                Err(e) => r == Err::<String, ParseError>(e) && final(self).position() == e.at,
            },
    {
        match self.peek() {
            Token::Ident(name) => {
                let name = name.clone();
                self.next();
                Ok(name)
            },
            _ => Err(self.fail(Expected::Identifier)),
        }
    }

    /// Reads a type name.
    fn parse_type(&mut self) -> (r: Result<TypeName, ParseError>)
        ensures
            final(self).stream() == old(self).stream(),
            match grammar::parse_type(old(self).stream(), old(self).position()) {
                Ok((t, end)) => r == Ok::<TypeName, ParseError>(t) && final(self).position() == end,
                Err(e) => r == Err::<TypeName, ParseError>(e) && final(self).position() == e.at,
            },
    {
        match self.peek() {
            Token::IntType => {
                self.next();
                Ok(TypeName::Int)
            },
            Token::StringType => {
                self.next();
                Ok(TypeName::String)
            },
            _ => Err(self.fail(Expected::Type)),
        }
    }

    /// Reads an expression.
    fn parse_expr(&mut self) -> (r: Result<Expr, ParseError>)
        ensures
            final(self).stream() == old(self).stream(),
            match grammar::parse_expr(old(self).stream(), old(self).position()) {
                Ok((e, end)) => r is Ok && r->Ok_0@ == e && final(self).position() == end,
                Err(e) => r == Err::<Expr, ParseError>(e) && final(self).position() == e.at,
            },
        decreases old(self).stream().len() - old(self).position(), 2nat,
    {
        self.parse_binary()
    }

    /// The symbol of the binary operator under the cursor, if one is there.
    fn peek_operator(&self) -> (op: Option<&'static str>)
        ensures
            match grammar::operator(token_at(self.stream(), self.position())) {
                Some(symbol) => op is Some && op->Some_0@ == symbol,
                None => op is None,
            },
    {
        match self.peek() {
            Token::Plus => Some("+"),
            Token::Minus => Some("-"),
            Token::Star => Some("*"),
            Token::Slash => Some("/"),
            Token::Greater => Some(">"),
            Token::Less => Some("<"),
            Token::EqualEqual => Some("=="),
            Token::NotEqual => Some("!="),
            _ => None,
        }
    }

    /// Reads a chain of primaries joined by binary operators, all of one
    /// precedence, grouping to the left.
    fn parse_binary(&mut self) -> (r: Result<Expr, ParseError>)
        ensures
            final(self).stream() == old(self).stream(),
            match grammar::parse_binary(old(self).stream(), old(self).position()) {
                Ok((e, end)) => r is Ok && r->Ok_0@ == e && final(self).position() == end,
                Err(e) => r == Err::<Expr, ParseError>(e) && final(self).position() == e.at,
            },
        decreases old(self).stream().len() - old(self).position(), 1nat,
    {
        let ghost tokens = self.stream();
        let ghost start = self.position();
        proof {
            grammar::lemma_primary_advances(tokens, start);
        }
        let mut left = match self.parse_primary() {
            Ok(e) => e,
            Err(e) => {
                return Err(e);
            },
        };
        loop
            invariant
                tokens == old(self).stream(),
                start == old(self).position(),
                self.stream() == tokens,
                start < self.position() <= tokens.len(),
                grammar::parse_binary(tokens, start) == grammar::parse_operations(
                    tokens,
                    self.position(),
                    left@,
                ),
            ensures
                self.stream() == tokens,
                grammar::parse_binary(tokens, start) == Ok::<(ExprView, int), ParseError>(
                    (left@, self.position()),
                ),
            decreases tokens.len() - self.position(),
        {
            let op = match self.peek_operator() {
                Some(symbol) => String::from_str(symbol),
                None => {
                    break ;
                },
            };
            let ghost here = self.position();
            proof {
                grammar::lemma_primary_advances(tokens, here + 1);
            }
            self.next();
            let right = match self.parse_primary() {
                Ok(e) => e,
                Err(e) => {
                    return Err(e);
                },
            };
            left = Expr::Binary(Box::new(left), op, Box::new(right));
        }
        Ok(left)
    }

    /// Reads a primary expression: a literal, a variable, a call, or an
    /// expression in parentheses.
    fn parse_primary(&mut self) -> (r: Result<Expr, ParseError>)
        ensures
            final(self).stream() == old(self).stream(),
            match grammar::parse_primary(old(self).stream(), old(self).position()) {
                Ok((e, end)) => r is Ok && r->Ok_0@ == e && final(self).position() == end,
                Err(e) => r == Err::<Expr, ParseError>(e) && final(self).position() == e.at,
            },
        decreases old(self).stream().len() - old(self).position(), 0nat,
    {
        let ghost tokens = self.stream();
        let ghost start = self.position();
        match self.peek() {
            Token::Number(n) => {
                let n = *n;
                self.next();
                Ok(Expr::Number(n))
            },
            Token::StringLiteral(s) => {
                let s = s.clone();
                self.next();
                Ok(Expr::StringLiteral(s))
            },
            Token::Ident(name) => {
                let name = name.clone();
                self.next();
                if !self.peek().same(&Token::LParen) {
                    return Ok(Expr::Var(name));
                }
                self.next();
                let mut args: Vec<Expr> = Vec::new();
                assert(exprs_view(args) =~= Seq::<ExprView>::empty());
                assert(grammar::parse_args(tokens, start + 2) == after_items(
                    exprs_view(args),
                    grammar::parse_args(tokens, start + 2),
                )) by {
                    if let Ok((items, end)) = grammar::parse_args(tokens, start + 2) {
                        assert(exprs_view(args) + items =~= items);
                    }
                }
                while !self.peek().same(&Token::RParen)
                    invariant
                        tokens == old(self).stream(),
                        start == old(self).position(),
                        token_at(tokens, start) is Ident,
                        token_at(tokens, start + 1) == TokenView::LParen,
                        self.stream() == tokens,
                        start + 2 <= self.position() <= tokens.len(),
                        grammar::parse_args(tokens, start + 2) == after_items(
                            exprs_view(args),
                            grammar::parse_args(tokens, self.position()),
                        ),
                    decreases tokens.len() - self.position(),
                {
                    let ghost here = self.position();
                    let ghost before = args;
                    proof {
                        grammar::lemma_expr_advances(tokens, here);
                    }
                    let arg = match self.parse_expr() {
                        Ok(e) => e,
                        Err(e) => {
                            return Err(e);
                        },
                    };
                    if self.peek().same(&Token::Comma) {
                        self.next();
                    }
                    args.push(arg);
                    proof {
                        lemma_exprs_view_push(before, args, arg);
                        if let Ok((rest, end)) = grammar::parse_args(tokens, self.position()) {
                            assert(exprs_view(before) + (seq![arg@] + rest) =~= exprs_view(args)
                                + rest);
                        }
                    }
                }
                proof {
                    assert(exprs_view(args) + Seq::<ExprView>::empty() =~= exprs_view(args));
                }
                match self.expect(&Token::RParen, Expected::RParen) {
                    Ok(()) => Ok(Expr::Call(name, args)),
                    Err(e) => Err(e),
                }
            },
            Token::LParen => {
                self.next();
                let inner = match self.parse_expr() {
                    Ok(e) => e,
                    Err(e) => {
                        return Err(e);
                    },
                };
                match self.expect(&Token::RParen, Expected::RParen) {
                    Ok(()) => Ok(inner),
                    Err(e) => Err(e),
                }
            },
            _ => Err(self.fail(Expected::Expression)),
        }
    }

    /// Reads `let` name `:` type `=` expression `;`.
    fn parse_let(&mut self) -> (r: Result<Stmt, ParseError>)
        requires
            token_at(old(self).stream(), old(self).position()) == TokenView::Let,
        ensures
            final(self).stream() == old(self).stream(),
            match grammar::parse_let(old(self).stream(), old(self).position()) {
                Ok((s, end)) => r is Ok && r->Ok_0@ == s && final(self).position() == end,
                Err(e) => r == Err::<Stmt, ParseError>(e) && final(self).position() == e.at,
            },
    {
        self.next();
        let name = match self.expect_ident() {
            Ok(name) => name,
            Err(e) => {
                return Err(e);
            },
        };
        match self.expect(&Token::Colon, Expected::Colon) {
            Ok(()) => {},
            Err(e) => {
                return Err(e);
            },
        }
        let t = match self.parse_type() {
            Ok(t) => t,
            Err(e) => {
                return Err(e);
            },
        };
        match self.expect(&Token::Assign, Expected::Assign) {
            Ok(()) => {},
            Err(e) => {
                return Err(e);
            },
        }
        let init = match self.parse_expr() {
            Ok(e) => e,
            Err(e) => {
                return Err(e);
            },
        };
        match self.expect(&Token::Semicolon, Expected::Semicolon) {
            Ok(()) => Ok(Stmt::Let(name, t, init)),
            Err(e) => Err(e),
        }
    }

    /// Reads `return` expression `;`.
    fn parse_return(&mut self) -> (r: Result<Stmt, ParseError>)
        requires
            token_at(old(self).stream(), old(self).position()) == TokenView::Return,
        ensures
            final(self).stream() == old(self).stream(),
            match grammar::parse_return(old(self).stream(), old(self).position()) {
                Ok((s, end)) => r is Ok && r->Ok_0@ == s && final(self).position() == end,
                Err(e) => r == Err::<Stmt, ParseError>(e) && final(self).position() == e.at,
            },
    {
        self.next();
        let value = match self.parse_expr() {
            Ok(e) => e,
            Err(e) => {
                return Err(e);
            },
        };
        match self.expect(&Token::Semicolon, Expected::Semicolon) {
            Ok(()) => Ok(Stmt::Return(value)),
            Err(e) => Err(e),
        }
    }

    /// Reads expression `;`.
    fn parse_expr_stmt(&mut self) -> (r: Result<Stmt, ParseError>)
        ensures
            final(self).stream() == old(self).stream(),
            match grammar::parse_expr_stmt(old(self).stream(), old(self).position()) {
                Ok((s, end)) => r is Ok && r->Ok_0@ == s && final(self).position() == end,
                Err(e) => r == Err::<Stmt, ParseError>(e) && final(self).position() == e.at,
            },
    {
        let e = match self.parse_expr() {
            Ok(e) => e,
            Err(e) => {
                return Err(e);
            },
        };
        match self.expect(&Token::Semicolon, Expected::Semicolon) {
            Ok(()) => Ok(Stmt::ExprStmt(e)),
            Err(e) => Err(e),
        }
    }

    /// Reads `if` condition `{` statements `}` `else` `{` statements `}`.
    fn parse_if(&mut self) -> (r: Result<Stmt, ParseError>)
        requires
            token_at(old(self).stream(), old(self).position()) == TokenView::If,
        ensures
            final(self).stream() == old(self).stream(),
            match grammar::parse_if(old(self).stream(), old(self).position()) {
                Ok((s, end)) => r is Ok && r->Ok_0@ == s && final(self).position() == end,
                Err(e) => r == Err::<Stmt, ParseError>(e) && final(self).position() == e.at,
            },
        decreases old(self).stream().len() - old(self).position(), 0nat,
    {
        let ghost tokens = self.stream();
        let ghost start = self.position();
        proof {
            grammar::lemma_expr_advances(tokens, start + 1);
        }
        self.next();
        let cond = match self.parse_expr() {
            Ok(e) => e,
            Err(e) => {
                return Err(e);
            },
        };
        match self.expect(&Token::LBrace, Expected::LBrace) {
            Ok(()) => {},
            Err(e) => {
                return Err(e);
            },
        }
        proof {
            grammar::lemma_block_stays_inside(tokens, self.position());
        }
        let then_body = match self.parse_block() {
            Ok(body) => body,
            Err(e) => {
                return Err(e);
            },
        };
        match self.expect(&Token::RBrace, Expected::RBrace) {
            Ok(()) => {},
            Err(e) => {
                return Err(e);
            },
        }
        match self.expect(&Token::Else, Expected::Else) {
            Ok(()) => {},
            Err(e) => {
                return Err(e);
            },
        }
        match self.expect(&Token::LBrace, Expected::LBrace) {
            Ok(()) => {},
            Err(e) => {
                return Err(e);
            },
        }
        let else_body = match self.parse_block() {
            Ok(body) => body,
            Err(e) => {
                return Err(e);
            },
        };
        match self.expect(&Token::RBrace, Expected::RBrace) {
            Ok(()) => Ok(Stmt::If(cond, then_body, else_body)),
            Err(e) => Err(e),
        }
    }

    /// Reads a statement, told by the token under the cursor.
    fn parse_stmt(&mut self) -> (r: Result<Stmt, ParseError>)
        ensures
            final(self).stream() == old(self).stream(),
            match grammar::parse_stmt(old(self).stream(), old(self).position()) {
                Ok((s, end)) => r is Ok && r->Ok_0@ == s && final(self).position() == end,
                Err(e) => r == Err::<Stmt, ParseError>(e) && final(self).position() == e.at,
            },
        decreases old(self).stream().len() - old(self).position(), 1nat,
    {
        let kind: u8 = match self.peek() {
            Token::Let => 0,
            Token::Return => 1,
            Token::If => 2,
            _ => 3,
        };
        if kind == 0 {
            self.parse_let()
        } else if kind == 1 {
            self.parse_return()
        } else if kind == 2 {
            self.parse_if()
        } else {
            self.parse_expr_stmt()
        }
    }

    /// Reads the statements of a block, up to the closing `}`, which stays
    /// under the cursor.
    fn parse_block(&mut self) -> (r: Result<Vec<Stmt>, ParseError>)
        ensures
            final(self).stream() == old(self).stream(),
            match grammar::parse_block(old(self).stream(), old(self).position()) {
                Ok((body, end)) => r is Ok && stmts_view(r->Ok_0) == body && final(self).position()
                    == end,
                Err(e) => r == Err::<Vec<Stmt>, ParseError>(e) && final(self).position() == e.at,
            },
        decreases old(self).stream().len() - old(self).position(), 2nat,
    {
        let ghost tokens = self.stream();
        let ghost start = self.position();
        let mut body: Vec<Stmt> = Vec::new();
        proof {
            assert(stmts_view(body) =~= Seq::<StmtView>::empty());
            if let Ok((items, end)) = grammar::parse_block(tokens, start) {
                assert(stmts_view(body) + items =~= items);
            }
        }
        while !self.peek().same(&Token::RBrace)
            invariant
                tokens == old(self).stream(),
                start == old(self).position(),
                self.stream() == tokens,
                start <= self.position(),
                grammar::parse_block(tokens, start) == after_items(
                    stmts_view(body),
                    grammar::parse_block(tokens, self.position()),
                ),
            decreases tokens.len() - self.position(),
        {
            let ghost here = self.position();
            let ghost before = body;
            proof {
                grammar::lemma_stmt_advances(tokens, here);
            }
            let stmt = match self.parse_stmt() {
                Ok(s) => s,
                Err(e) => {
                    return Err(e);
                },
            };
            body.push(stmt);
            proof {
                lemma_stmts_view_push(before, body, stmt);
                if let Ok((rest, end)) = grammar::parse_block(tokens, self.position()) {
                    assert(stmts_view(before) + (seq![stmt@] + rest) =~= stmts_view(body) + rest);
                }
            }
        }
        proof {
            assert(stmts_view(body) + Seq::<StmtView>::empty() =~= stmts_view(body));
        }
        Ok(body)
    }

    /// Reads the parameters of a function, up to the closing `)`, which stays
    /// under the cursor.
    fn parse_params(&mut self) -> (r: Result<Vec<(String, TypeName)>, ParseError>)
        ensures
            final(self).stream() == old(self).stream(),
            match grammar::parse_params(old(self).stream(), old(self).position()) {
                Ok((params, end)) => r is Ok && params_view(r->Ok_0) == params && final(self).position() == end,
                Err(e) => r == Err::<Vec<(String, TypeName)>, ParseError>(e) && final(self).position() == e.at,
            },
    {
        let ghost tokens = self.stream();
        let ghost start = self.position();
        let mut params: Vec<(String, TypeName)> = Vec::new();
        proof {
            assert(params_view(params) =~= Seq::<(Seq<char>, TypeName)>::empty());
            if let Ok((items, end)) = grammar::parse_params(tokens, start) {
                assert(params_view(params) + items =~= items);
            }
        }
        while !self.peek().same(&Token::RParen)
            invariant
                tokens == old(self).stream(),
                start == old(self).position(),
                self.stream() == tokens,
                grammar::parse_params(tokens, start) == after_items(
                    params_view(params),
                    grammar::parse_params(tokens, self.position()),
                ),
            decreases tokens.len() - self.position(),
        {
            let ghost before = params;
            let name = match self.expect_ident() {
                Ok(name) => name,
                Err(e) => {
                    return Err(e);
                },
            };
            match self.expect(&Token::Colon, Expected::Colon) {
                Ok(()) => {},
                Err(e) => {
                    return Err(e);
                },
            }
            let t = match self.parse_type() {
                Ok(t) => t,
                Err(e) => {
                    return Err(e);
                },
            };
            if self.peek().same(&Token::Comma) {
                self.next();
            }
            let ghost item = (name@, t);
            params.push((name, t));
            proof {
                assert(params_view(params) =~= params_view(before).push(item));
                if let Ok((rest, end)) = grammar::parse_params(tokens, self.position()) {
                    assert(params_view(before) + (seq![item] + rest) =~= params_view(params)
                        + rest);
                }
            }
        }
        proof {
            assert(params_view(params) + Seq::<(Seq<char>, TypeName)>::empty() =~= params_view(
                params,
            ));
        }
        Ok(params)
    }

    /// Reads `func` name `(` parameters `)` `:` type `{` statements `}`.
    fn parse_function(&mut self) -> (r: Result<Function, ParseError>)
        ensures
            final(self).stream() == old(self).stream(),
            match grammar::parse_function(old(self).stream(), old(self).position()) {
                Ok((f, end)) => r is Ok && r->Ok_0@ == f && final(self).position() == end,
                Err(e) => r == Err::<Function, ParseError>(e) && final(self).position() == e.at,
            },
    {
        match self.expect(&Token::Func, Expected::Func) {
            Ok(()) => {},
            Err(e) => {
                return Err(e);
            },
        }
        let name = match self.expect_ident() {
            Ok(name) => name,
            Err(e) => {
                return Err(e);
            },
        };
        match self.expect(&Token::LParen, Expected::LParen) {
            Ok(()) => {},
            Err(e) => {
                return Err(e);
            },
        }
        let params = match self.parse_params() {
            Ok(params) => params,
            Err(e) => {
                return Err(e);
            },
        };
        match self.expect(&Token::RParen, Expected::RParen) {
            Ok(()) => {},
            Err(e) => {
                return Err(e);
            },
        }
        match self.expect(&Token::Colon, Expected::Colon) {
            Ok(()) => {},
            Err(e) => {
                return Err(e);
            },
        }
        let ret_type = match self.parse_type() {
            Ok(t) => t,
            Err(e) => {
                return Err(e);
            },
        };
        match self.expect(&Token::LBrace, Expected::LBrace) {
            Ok(()) => {},
            Err(e) => {
                return Err(e);
            },
        }
        let body = match self.parse_block() {
            Ok(body) => body,
            Err(e) => {
                return Err(e);
            },
        };
        match self.expect(&Token::RBrace, Expected::RBrace) {
            Ok(()) => Ok(Function { name, params, ret_type, body }),
            Err(e) => Err(e),
        }
    }

    /// Reads a program: functions one after another, up to the end-of-stream
    /// marker.
    ///
    /// The tokens are read from the cursor on. On success the cursor rests on
    /// the end-of-stream marker; on failure it rests on the token that the
    /// error names.
    pub fn parse_program(&mut self) -> (r: Result<Program, ParseError>)
        ensures
            final(self).stream() == old(self).stream(),
            match grammar::parse_program(old(self).stream(), old(self).position()) {
                Ok((program, end)) => r is Ok && r->Ok_0@ == program && final(self).position()
                    == end,
                Err(e) => r == Err::<Program, ParseError>(e) && final(self).position() == e.at,
            },
    {
        let ghost tokens = self.stream();
        let ghost start = self.position();
        let mut funcs: Vec<Function> = Vec::new();
        proof {
            assert(functions_view(funcs) =~= Seq::<FunctionView>::empty());
            if let Ok((items, end)) = grammar::parse_functions(tokens, start) {
                assert(functions_view(funcs) + items =~= items);
            }
        }
        while !self.peek().same(&Token::EOF)
            invariant
                tokens == old(self).stream(),
                start == old(self).position(),
                self.stream() == tokens,
                grammar::parse_functions(tokens, start) == after_items(
                    functions_view(funcs),
                    grammar::parse_functions(tokens, self.position()),
                ),
            decreases tokens.len() - self.position(),
        {
            let ghost before = funcs;
            proof {
                grammar::lemma_function_advances(tokens, self.position());
            }
            let f = match self.parse_function() {
                Ok(f) => f,
                Err(e) => {
                    return Err(e);
                },
            };
            funcs.push(f);
            proof {
                assert(functions_view(funcs) =~= functions_view(before).push(f@));
                if let Ok((rest, end)) = grammar::parse_functions(tokens, self.position()) {
                    assert(functions_view(before) + (seq![f@] + rest) =~= functions_view(funcs)
                        + rest);
                }
            }
        }
        proof {
            assert(functions_view(funcs) + Seq::<FunctionView>::empty() =~= functions_view(funcs));
        }
        Ok(Program { funcs })
    }
}

} // verus!
