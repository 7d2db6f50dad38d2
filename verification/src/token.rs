//! The token data model: token kinds, tokens, character classification, and
//! the keyword table.

use vstd::prelude::*;

verus! {

/// The closed set of token kinds the scanner can produce.
#[derive(Debug, Clone, PartialEq, Eq, Structural)]
pub enum TokenType {
    ILLEGAL,
    EOF,
    // Delimiters
    LPAREN,
    RPAREN,
    LBRACE,
    RBRACE,
    COMMA,
    SEMICOLON,
    // Operators
    ASSIGN,
    PLUS,
    MINUS,
    BANG,
    ASTERISK,
    SLASH,
    LT,
    GT,
    // Two-character operators
    EQ,
    NOTEQ,
    // Literal classes
    INT,
    IDENT,
    // Keywords
    FUNCTION,
    LET,
    RETURN,
    TRUE,
    FALSE,
    IF,
    ELSE,
    WHILE,
}

/// A classified lexeme: a kind together with the exact source text that
/// produced it.
#[derive(Debug, Clone)]
pub struct Token {
    pub token_type: TokenType,
    pub literal: String,
}

/// A letter for the purpose of identifier lexemes: ASCII alphabetic or
/// underscore.
pub open spec fn spec_is_letter(c: char) -> bool {
    ('a' as u32 <= c as u32 && c as u32 <= 'z' as u32) || ('A' as u32 <= c as u32 && c as u32
        <= 'Z' as u32) || c == '_'
}

/// An ASCII decimal digit.
pub open spec fn spec_is_digit(c: char) -> bool {
    '0' as u32 <= c as u32 && c as u32 <= '9' as u32
}

/// Whitespace skipped between tokens: exactly space and newline.
pub open spec fn spec_is_whitespace(c: char) -> bool {
    c == ' ' || c == '\n'
}

/// Decides whether a character may appear in an identifier lexeme.
pub fn is_letter(c: char) -> (r: bool)
    ensures
        r == spec_is_letter(c),
{
    let u = c as u32;
    ('a' as u32 <= u && u <= 'z' as u32) || ('A' as u32 <= u && u <= 'Z' as u32) || c == '_'
}

/// Decides whether a character may appear in an integer lexeme.
pub fn is_digit(c: char) -> (r: bool)
    ensures
        r == spec_is_digit(c),
{
    let u = c as u32;
    '0' as u32 <= u && u <= '9' as u32
}

/// The keyword table: the kind an identifier spelling stands for, which is
/// `IDENT` unless the spelling is reserved.
pub open spec fn spec_lookup_ident(ident: Seq<char>) -> TokenType {
    if ident == "fn"@ {
        TokenType::FUNCTION
    } else if ident == "let"@ {
        TokenType::LET
    } else if ident == "return"@ {
        TokenType::RETURN
    } else if ident == "true"@ {
        TokenType::TRUE
    } else if ident == "false"@ {
        TokenType::FALSE
    } else if ident == "if"@ {
        TokenType::IF
    } else if ident == "else"@ {
        TokenType::ELSE
    } else if ident == "while"@ {
        TokenType::WHILE
    } else {
        TokenType::IDENT
    }
}

/// Differentiates between identifiers and keywords: exact, case-sensitive
/// match against the keyword table.
pub fn lookup_ident(ident: &str) -> (t: TokenType)
    ensures
        t == spec_lookup_ident(ident@),
{
    let s = ident.to_owned();
    if s == "fn".to_owned() {
        TokenType::FUNCTION
    } else if s == "let".to_owned() {
        TokenType::LET
    } else if s == "return".to_owned() {
        TokenType::RETURN
    } else if s == "true".to_owned() {
        TokenType::TRUE
    } else if s == "false".to_owned() {
        TokenType::FALSE
    } else if s == "if".to_owned() {
        TokenType::IF
    } else if s == "else".to_owned() {
        TokenType::ELSE
    } else if s == "while".to_owned() {
        TokenType::WHILE
    } else {
        TokenType::IDENT
    }
}

} // verus!
