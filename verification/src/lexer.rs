//! The lexer: from source text to a sequence of tokens.
use vstd::prelude::*;
use crate::text::{
    is_digit,
    is_word_start,
    is_word_part,
    is_not_quote,
    run_end,
    lemma_run_end,
    digits_value,
    char_is_digit,
    char_is_word_start,
    char_is_word_part,
    chars_of,
    text_between,
    spells,
};

verus! {

/// One lexical unit of the source language.
#[derive(Debug, Clone, PartialEq)]
pub enum Token {
    Func,
    Let,
    Return,
    If,
    Else,
    IntType,
    StringType,
    Ident(String),
    Number(i64),
    StringLiteral(String),
    LParen,
    RParen,
    LBrace,
    RBrace,
    Comma,
    Colon,
    Semicolon,
    Assign,
    Plus,
    Minus,
    Star,
    Slash,
    Greater,
    Less,
    EqualEqual,
    NotEqual,
    EOF,
}

/// What a [`Token`] is, with texts as sequences of characters.
pub enum TokenView {
    Func,
    Let,
    Return,
    If,
    Else,
    IntType,
    StringType,
    Ident(Seq<char>),
    Number(i64),
    StringLiteral(Seq<char>),
    LParen,
    RParen,
    LBrace,
    RBrace,
    Comma,
    Colon,
    Semicolon,
    Assign,
    Plus,
    Minus,
    Star,
    Slash,
    Greater,
    Less,
    EqualEqual,
    NotEqual,
    EOF,
}

impl View for Token {
    type V = TokenView;

    open spec fn view(&self) -> TokenView {
        match self {
            Token::Func => TokenView::Func,
            Token::Let => TokenView::Let,
            Token::Return => TokenView::Return,
            Token::If => TokenView::If,
            Token::Else => TokenView::Else,
            Token::IntType => TokenView::IntType,
            Token::StringType => TokenView::StringType,
            Token::Ident(name) => TokenView::Ident(name@),
            Token::Number(n) => TokenView::Number(*n),
            Token::StringLiteral(s) => TokenView::StringLiteral(s@),
            Token::LParen => TokenView::LParen,
            Token::RParen => TokenView::RParen,
            Token::LBrace => TokenView::LBrace,
            Token::RBrace => TokenView::RBrace,
            Token::Comma => TokenView::Comma,
            Token::Colon => TokenView::Colon,
            Token::Semicolon => TokenView::Semicolon,
            Token::Assign => TokenView::Assign,
            Token::Plus => TokenView::Plus,
            Token::Minus => TokenView::Minus,
            Token::Star => TokenView::Star,
            Token::Slash => TokenView::Slash,
            Token::Greater => TokenView::Greater,
            Token::Less => TokenView::Less,
            Token::EqualEqual => TokenView::EqualEqual,
            Token::NotEqual => TokenView::NotEqual,
            Token::EOF => TokenView::EOF,
        }
    }
}

impl Token {
    /// Whether two tokens are the same: of one kind, and holding the same
    /// text or number where the kind holds one.
    pub fn same(&self, other: &Token) -> (b: bool)
        ensures
            b == (self@ == other@),
    {
        match self {
            Token::Func => matches!(other, Token::Func),
            Token::Let => matches!(other, Token::Let),
            Token::Return => matches!(other, Token::Return),
            Token::If => matches!(other, Token::If),
            Token::Else => matches!(other, Token::Else),
            Token::IntType => matches!(other, Token::IntType),
            Token::StringType => matches!(other, Token::StringType),
            Token::Ident(a) => match other {
                Token::Ident(b) => *a == *b,
                _ => false,
            },
            Token::Number(a) => match other {
                Token::Number(b) => *a == *b,
                _ => false,
            },
            Token::StringLiteral(a) => match other {
                Token::StringLiteral(b) => *a == *b,
                _ => false,
            },
            Token::LParen => matches!(other, Token::LParen),
            Token::RParen => matches!(other, Token::RParen),
            Token::LBrace => matches!(other, Token::LBrace),
            Token::RBrace => matches!(other, Token::RBrace),
            Token::Comma => matches!(other, Token::Comma),
            Token::Colon => matches!(other, Token::Colon),
            Token::Semicolon => matches!(other, Token::Semicolon),
            Token::Assign => matches!(other, Token::Assign),
            Token::Plus => matches!(other, Token::Plus),
            Token::Minus => matches!(other, Token::Minus),
            Token::Star => matches!(other, Token::Star),
            Token::Slash => matches!(other, Token::Slash),
            Token::Greater => matches!(other, Token::Greater),
            Token::Less => matches!(other, Token::Less),
            Token::EqualEqual => matches!(other, Token::EqualEqual),
            Token::NotEqual => matches!(other, Token::NotEqual),
            Token::EOF => matches!(other, Token::EOF),
        }
    }
}

/// What a sequence of tokens is: the view of each, in order.
pub open spec fn tokens_view(tokens: Seq<Token>) -> Seq<TokenView> {
    tokens.map_values(|t: Token| t@)
}

/// Why a source text has no tokens.
#[derive(Debug, Clone, Copy, PartialEq, Eq, Structural)]
pub enum LexError {
    /// The integer literal that starts at character `at` does not fit in a
    /// signed 64-bit integer.
    NumberTooLarge { at: usize },
}

/// The result of reading the text at one position: the token found there, if
/// the characters read make one, and the position where reading goes on.
pub struct Scan {
    pub token: Option<TokenView>,
    pub next: int,
}

/// The token that a single punctuation or operator character stands for.
pub open spec fn punctuation(c: char) -> Option<TokenView> {
    if c == '(' {
        Some(TokenView::LParen)
    } else if c == ')' {
        Some(TokenView::RParen)
    } else if c == '{' {
        Some(TokenView::LBrace)
    } else if c == '}' {
        Some(TokenView::RBrace)
    } else if c == ',' {
        Some(TokenView::Comma)
    } else if c == ':' {
        Some(TokenView::Colon)
    } else if c == ';' {
        Some(TokenView::Semicolon)
    } else if c == '+' {
        Some(TokenView::Plus)
    } else if c == '-' {
        Some(TokenView::Minus)
    } else if c == '*' {
        Some(TokenView::Star)
    } else if c == '/' {
        Some(TokenView::Slash)
    } else if c == '>' {
        Some(TokenView::Greater)
    } else if c == '<' {
        Some(TokenView::Less)
    } else {
        None
    }
}

/// The token that a word stands for: a keyword or a type name if the word is
/// one, letter for letter, and an identifier otherwise.
pub open spec fn word_token(word: Seq<char>) -> TokenView {
    if word == "func"@ {
        TokenView::Func
    } else if word == "let"@ {
        TokenView::Let
    } else if word == "return"@ {
        TokenView::Return
    } else if word == "if"@ {
        TokenView::If
    } else if word == "else"@ {
        TokenView::Else
    } else if word == "int"@ {
        TokenView::IntType
    } else if word == "string"@ {
        TokenView::StringType
    } else {
        TokenView::Ident(word)
    }
}

/// Reads the text `s` at position `i`, which holds a character.
///
/// Blanks and characters that begin no token are passed over, and so is a `!`
/// that no `=` follows. A string literal runs to the next double quote or to
/// the end of the text and holds the characters between as they are. A number
/// is the longest run of digits, a word the longest run of letters, digits
/// and underscores.
pub open spec fn scan(s: Seq<char>, i: int) -> Result<Scan, LexError>
    recommends
        0 <= i < s.len(),
{
    let c = s[i];
    let followed_by_equals = i + 1 < s.len() && s[i + 1] == '=';
    if punctuation(c) is Some {
        Ok(Scan { token: punctuation(c), next: i + 1 })
    } else if c == '=' {
        if followed_by_equals {
            Ok(Scan { token: Some(TokenView::EqualEqual), next: i + 2 })
        } else {
            Ok(Scan { token: Some(TokenView::Assign), next: i + 1 })
        }
    } else if c == '!' {
        if followed_by_equals {
            Ok(Scan { token: Some(TokenView::NotEqual), next: i + 2 })
        } else {
            Ok(Scan { token: None, next: i + 1 })
        }
    } else if c == '"' {
        let close = run_end(s, i + 1, |c: char| is_not_quote(c));
        Ok(
            Scan {
                token: Some(TokenView::StringLiteral(s.subrange(i + 1, close))),
                next: if close < s.len() {
                    close + 1
                } else {
                    close
                },
            },
        )
    } else if is_digit(c) {
        let end = run_end(s, i, |c: char| is_digit(c));
        let value = digits_value(s.subrange(i, end));
        if value <= i64::MAX {
            Ok(Scan { token: Some(TokenView::Number(value as i64)), next: end })
        } else {
            Err(LexError::NumberTooLarge { at: i as usize })
        }
    } else if is_word_start(c) {
        let end = run_end(s, i, |c: char| is_word_part(c));
        Ok(Scan { token: Some(word_token(s.subrange(i, end))), next: end })
    } else {
        Ok(Scan { token: None, next: i + 1 })
    }
}

/// Reading at a position that holds a character goes on strictly after it and
/// no further than the end of the text.
pub proof fn lemma_scan_advances(s: Seq<char>, i: int)
    requires
        0 <= i < s.len(),
    ensures
        scan(s, i) matches Ok(found) ==> i < found.next <= s.len(),
{
    lemma_run_end(s, i + 1, |c: char| is_not_quote(c));
    lemma_run_end(s, i, |c: char| is_digit(c));
    lemma_run_end(s, i, |c: char| is_word_part(c));
    lemma_run_end(s, i + 1, |c: char| is_digit(c));
    lemma_run_end(s, i + 1, |c: char| is_word_part(c));
}

/// The tokens of the text `s` from position `i` on, closed by the
/// end-of-stream marker, or the first error met on the way.
pub open spec fn lex_from(s: Seq<char>, i: int) -> Result<Seq<TokenView>, LexError>
    decreases s.len() - i,
{
    if 0 <= i < s.len() {
        match scan(s, i) {
            Err(e) => Err(e),
            Ok(found) => {
                proof {
                    lemma_scan_advances(s, i);
                }
                match lex_from(s, found.next) {
                    Err(e) => Err(e),
                    Ok(rest) => match found.token {
                        Some(token) => Ok(seq![token] + rest),
                        None => Ok(rest),
                    },
                }
            },
        }
    } else {
        Ok(seq![TokenView::EOF])
    }
}

/// The tokens of a whole source text.
pub open spec fn lex_spec(s: Seq<char>) -> Result<Seq<TokenView>, LexError> {
    lex_from(s, 0)
}

/// The tokens read so far, followed by what reading the rest gives.
pub open spec fn continued(done: Seq<TokenView>, rest: Result<Seq<TokenView>, LexError>) -> Result<
    Seq<TokenView>,
    LexError,
> {
    match rest {
        Ok(tokens) => Ok(done + tokens),
        Err(e) => Err(e),
    }
}

/// Every successful lexing ends with the end-of-stream marker, and holds it
/// nowhere else.
pub proof fn lemma_lex_ends_with_eof(s: Seq<char>, i: int)
    requires
        lex_from(s, i) is Ok,
    ensures
        lex_from(s, i)->Ok_0.len() >= 1,
        lex_from(s, i)->Ok_0.last() == TokenView::EOF,
        forall|k: int|
            0 <= k < lex_from(s, i)->Ok_0.len() - 1 ==> #[trigger] lex_from(s, i)->Ok_0[k]
                != TokenView::EOF,
    decreases s.len() - i,
{
    if 0 <= i < s.len() {
        lemma_scan_advances(s, i);
        let found = scan(s, i)->Ok_0;
        lemma_lex_ends_with_eof(s, found.next);
    }
}

/// Lexing fails for one reason only: where it fails, a run of digits starts
/// at the place that the error names, and the number that the run stands
/// for is beyond the largest signed 64-bit integer.
pub proof fn lemma_lex_fails_on_large_numbers_only(s: Seq<char>, i: int)
    requires
        0 <= i,
        s.len() <= usize::MAX,
        lex_from(s, i) is Err,
    ensures
        ({
            let at = lex_from(s, i)->Err_0->at as int;
            &&& i <= at < s.len()
            &&& is_digit(s[at])
            &&& digits_value(s.subrange(at, run_end(s, at, |c: char| is_digit(c)))) > i64::MAX
        }),
    decreases s.len() - i,
{
    if i < s.len() {
        lemma_scan_advances(s, i);
        if let Ok(found) = scan(s, i) {
            lemma_lex_fails_on_large_numbers_only(s, found.next);
        }
    }
}

/// The end of the run of digits that starts at `from`.
fn digits_end(chars: &Vec<char>, from: usize) -> (end: usize)
    requires
        from <= chars.len(),
    ensures
        end == run_end(chars@, from as int, |c: char| is_digit(c)),
        from <= end <= chars.len(),
{
    let ghost class = |c: char| is_digit(c);
    let mut j = from;
    while j < chars.len() && char_is_digit(chars[j])
        invariant
            from <= j <= chars.len(),
            run_end(chars@, from as int, class) == run_end(chars@, j as int, class),
            class == (|c: char| is_digit(c)),
        decreases chars.len() - j,
    {
        j += 1;
    }
    j
}

/// The end of the run of letters, digits and underscores that starts at `from`.
fn word_end(chars: &Vec<char>, from: usize) -> (end: usize)
    requires
        from <= chars.len(),
    ensures
        end == run_end(chars@, from as int, |c: char| is_word_part(c)),
        from <= end <= chars.len(),
{
    let ghost class = |c: char| is_word_part(c);
    let mut j = from;
    while j < chars.len() && char_is_word_part(chars[j])
        invariant
            from <= j <= chars.len(),
            run_end(chars@, from as int, class) == run_end(chars@, j as int, class),
            class == (|c: char| is_word_part(c)),
        decreases chars.len() - j,
    {
        j += 1;
    }
    j
}

/// The position of the first double quote from `from` on, or the length of the
/// text if there is none.
fn quote_position(chars: &Vec<char>, from: usize) -> (end: usize)
    requires
        from <= chars.len(),
    ensures
        end == run_end(chars@, from as int, |c: char| is_not_quote(c)),
        from <= end <= chars.len(),
{
    let ghost class = |c: char| is_not_quote(c);
    let mut j = from;
    while j < chars.len() && chars[j] != '"'
        invariant
            from <= j <= chars.len(),
            run_end(chars@, from as int, class) == run_end(chars@, j as int, class),
            class == (|c: char| is_not_quote(c)),
        decreases chars.len() - j,
    {
        j += 1;
    }
    j
}

/// A string of digits stands for at least as much as any string of digits
/// that it begins with.
proof fn lemma_digits_value_grows(d: Seq<char>, k: int)
    requires
        0 <= k <= d.len(),
    ensures
        digits_value(d.subrange(0, k)) <= digits_value(d),
    decreases d.len() - k,
{
    if k < d.len() {
        lemma_digits_value_grows(d, k + 1);
        assert(d.subrange(0, k + 1).drop_last() =~= d.subrange(0, k));
    } else {
        assert(d.subrange(0, k) =~= d);
    }
}

/// The number that the digits of `chars` from `from` up to `to` stand for, or
/// nothing if it is beyond the largest signed 64-bit integer.
fn number_between(chars: &Vec<char>, from: usize, to: usize) -> (value: Option<i64>)
    requires
        from <= to <= chars.len(),
        forall|k: int| from <= k < to ==> is_digit(#[trigger] chars@[k]),
    ensures
        match value {
            Some(n) => n == digits_value(chars@.subrange(from as int, to as int)),
            None => digits_value(chars@.subrange(from as int, to as int)) > i64::MAX,
        },
{
    let ghost digits = chars@.subrange(from as int, to as int);
    let mut acc: i64 = 0;
    let mut j = from;
    assert(digits.subrange(0, 0) =~= Seq::<char>::empty());
    while j < to
        invariant
            from <= j <= to <= chars.len(),
            digits == chars@.subrange(from as int, to as int),
            forall|k: int| from <= k < to ==> is_digit(#[trigger] chars@[k]),
            0 <= acc,
            acc == digits_value(digits.subrange(0, j - from)),
        decreases to - j,
    {
        let c = chars[j];
        assert(is_digit(chars@[j as int]));
        let d: i64 = (c as u32 - '0' as u32) as i64;
        proof {
            let longer = digits.subrange(0, j + 1 - from);
            assert(longer.drop_last() =~= digits.subrange(0, j - from));
            assert(longer.last() == c);
            assert(digits_value(longer) == acc * 10 + d);
            lemma_digits_value_grows(digits, j + 1 - from);
        }
        if acc > (i64::MAX - d) / 10 {
            return None;
        }
        acc = acc * 10 + d;
        j += 1;
    }
    assert(digits.subrange(0, to - from) =~= digits);
    Some(acc)
}

/// The token of the word that the characters of `chars` from `from` up to
/// `to` spell.
fn word_between(chars: &Vec<char>, from: usize, to: usize) -> (token: Token)
    requires
        from <= to <= chars.len(),
    ensures
        token@ == word_token(chars@.subrange(from as int, to as int)),
{
    if spells(chars, from, to, "func") {
        Token::Func
    } else if spells(chars, from, to, "let") {
        Token::Let
    } else if spells(chars, from, to, "return") {
        Token::Return
    } else if spells(chars, from, to, "if") {
        Token::If
    } else if spells(chars, from, to, "else") {
        Token::Else
    } else if spells(chars, from, to, "int") {
        Token::IntType
    } else if spells(chars, from, to, "string") {
        Token::StringType
    } else {
        Token::Ident(text_between(chars, from, to))
    }
}

/// The token of a single punctuation or operator character.
fn punctuation_token(c: char) -> (token: Option<Token>)
    ensures
        match token {
            Some(t) => punctuation(c) == Some(t@),
            None => punctuation(c) is None,
        },
{
    if c == '(' {
        Some(Token::LParen)
    } else if c == ')' {
        Some(Token::RParen)
    } else if c == '{' {
        Some(Token::LBrace)
    } else if c == '}' {
        Some(Token::RBrace)
    } else if c == ',' {
        Some(Token::Comma)
    } else if c == ':' {
        Some(Token::Colon)
    } else if c == ';' {
        Some(Token::Semicolon)
    } else if c == '+' {
        Some(Token::Plus)
    } else if c == '-' {
        Some(Token::Minus)
    } else if c == '*' {
        Some(Token::Star)
    } else if c == '/' {
        Some(Token::Slash)
    } else if c == '>' {
        Some(Token::Greater)
    } else if c == '<' {
        Some(Token::Less)
    } else {
        None
    }
}

/// Turns source text into its tokens, closed by the end-of-stream marker.
///
/// Characters that begin no token are passed over. The one way to fail is an
/// integer literal too large for a signed 64-bit integer.
pub fn lex(input: &str) -> (result: Result<Vec<Token>, LexError>)
    ensures
        match lex_spec(input@) {
            Ok(tokens) => result is Ok && tokens_view(result->Ok_0@) == tokens,
            Err(e) => result == Err::<Vec<Token>, LexError>(e),
        },
        result matches Ok(tokens) ==> tokens.len() >= 1 && tokens@.last()@ == TokenView::EOF,
{
    let chars = chars_of(input);
    let mut tokens: Vec<Token> = Vec::new();
    let mut i: usize = 0;
    assert(continued(tokens_view(tokens@), lex_from(chars@, 0)) =~= lex_spec(input@)) by {
        if lex_from(chars@, 0) is Ok {
            assert(tokens_view(tokens@) + lex_from(chars@, 0)->Ok_0 =~= lex_from(chars@, 0)->Ok_0);
        }
    }
    while i < chars.len()
        invariant
            i <= chars.len(),
            chars@ == input@,
            lex_spec(input@) == continued(tokens_view(tokens@), lex_from(chars@, i as int)),
        decreases chars.len() - i,
    {
        let c = chars[i];
        let ghost before = tokens_view(tokens@);
        let ghost here = i as int;
        let ghost found = scan(chars@, here);
        proof {
            lemma_scan_advances(chars@, here);
        }
        let followed_by_equals = i + 1 < chars.len() && chars[i + 1] == '=';
        let mut emitted: Option<Token> = None;
        match punctuation_token(c) {
            Some(token) => {
                emitted = Some(token);
                i += 1;
            },
            None => {
                if c == '=' {
                    if followed_by_equals {
                        emitted = Some(Token::EqualEqual);
                        i += 2;
                    } else {
                        emitted = Some(Token::Assign);
                        i += 1;
                    }
                } else if c == '!' {
                    if followed_by_equals {
                        emitted = Some(Token::NotEqual);
                        i += 2;
                    } else {
                        i += 1;
                    }
                } else if c == '"' {
                    let close = quote_position(&chars, i + 1);
                    emitted = Some(Token::StringLiteral(text_between(&chars, i + 1, close)));
                    i = if close < chars.len() {
                        close + 1
                    } else {
                        close
                    };
                } else if char_is_digit(c) {
                    let end = digits_end(&chars, i);
                    proof {
                        lemma_run_end(chars@, here, |c: char| is_digit(c));
                    }
                    match number_between(&chars, i, end) {
                        Some(n) => {
                            emitted = Some(Token::Number(n));
                            i = end;
                        },
                        None => {
                            return Err(LexError::NumberTooLarge { at: i });
                        },
                    }
                } else if char_is_word_start(c) {
                    let end = word_end(&chars, i);
                    emitted = Some(word_between(&chars, i, end));
                    i = end;
                } else {
                    i += 1;
                }
            },
        }
        proof {
            assert(found is Ok);
            assert(found->Ok_0.next == i);
            assert(match emitted {
                Some(t) => found->Ok_0.token == Some(t@),
                None => found->Ok_0.token is None,
            });
        }
        match emitted {
            Some(token) => {
                tokens.push(token);
                proof {
                    assert(tokens_view(tokens@) =~= before.push(token@));
                    if lex_from(chars@, i as int) is Ok {
                        let rest = lex_from(chars@, i as int)->Ok_0;
                        assert(before + (seq![token@] + rest) =~= before.push(token@) + rest);
                    }
                }
            },
            None => {},
        }
    }
    let ghost before = tokens_view(tokens@);
    tokens.push(Token::EOF);
    proof {
        assert(tokens_view(tokens@) =~= before + seq![TokenView::EOF]);
    }
    Ok(tokens)
}

} // verus!
