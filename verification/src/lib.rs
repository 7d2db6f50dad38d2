//! Lexical analyzer for a small C-like scripting language.
//!
//! The [`lexer::Lexer`] owns the source text and a cursor over it, and hands
//! out one classified token per call of [`lexer::Lexer::next_token`] until the
//! input is exhausted. Unrecognized characters are reported as `ILLEGAL`
//! tokens rather than errors, and the end of the input is itself a token, so
//! scanning is total. The [`token`] module holds the token data model: the
//! closed set of token kinds, the character classification predicates that
//! decide lexeme boundaries, and the keyword table. The [`laws`] module states
//! and proves the properties the scanner guarantees: maximal munch, the
//! idempotent end-of-input tail, and the invisibility of whitespace inserted
//! between tokens.

pub mod laws;
pub mod lexer;
pub mod token;
