//! The scanner: a cursor over the source text and the one-token-at-a-time
//! recognizer.

use crate::token::Token;
use crate::token::TokenType;
use crate::token::is_digit;
use crate::token::is_letter;
use crate::token::lookup_ident;
use crate::token::spec_is_digit;
use crate::token::spec_is_letter;
use crate::token::spec_is_whitespace;
use crate::token::spec_lookup_ident;
use vstd::prelude::*;
use vstd::string::StrSliceExecFns;

verus! {

/// The first index at or after `i` whose character does not satisfy `p`, or
/// the end of the sequence: the end of the maximal run of `p`-characters
/// starting at `i`.
pub open spec fn run_end(s: Seq<char>, i: int, p: spec_fn(char) -> bool) -> int
    decreases s.len() - i,
{
    if 0 <= i < s.len() && p(s[i]) {
        run_end(s, i + 1, p)
    } else {
        i
    }
}

/// Where scanning starts once leading whitespace is skipped.
pub open spec fn skip_whitespace_end(s: Seq<char>, i: int) -> int {
    run_end(s, i, |c: char| spec_is_whitespace(c))
}

/// The end of the maximal run of letters starting at `i`.
pub open spec fn letter_run_end(s: Seq<char>, i: int) -> int {
    run_end(s, i, |c: char| spec_is_letter(c))
}

/// The end of the maximal run of digits starting at `i`.
pub open spec fn digit_run_end(s: Seq<char>, i: int) -> int {
    run_end(s, i, |c: char| spec_is_digit(c))
}

/// The token scanned from source `s` at cursor `i`: its kind, its text, and
/// the cursor position after it. Leading whitespace is skipped first; the
/// dispatch on the first remaining character mirrors the scanner's own.
pub open spec fn spec_next_token(s: Seq<char>, i: int) -> (TokenType, Seq<char>, int) {
    let j = skip_whitespace_end(s, i);
    if j >= s.len() {
        (TokenType::EOF, Seq::<char>::empty(), j)
    } else {
        let c = s[j];
        if c == ',' {
            (TokenType::COMMA, seq![c], j + 1)
        } else if c == ';' {
            (TokenType::SEMICOLON, seq![c], j + 1)
        } else if c == '(' {
            (TokenType::LPAREN, seq![c], j + 1)
        } else if c == ')' {
            (TokenType::RPAREN, seq![c], j + 1)
        } else if c == '{' {
            (TokenType::LBRACE, seq![c], j + 1)
        } else if c == '}' {
            (TokenType::RBRACE, seq![c], j + 1)
        } else if c == '+' {
            (TokenType::PLUS, seq![c], j + 1)
        } else if c == '!' {
            if j + 1 < s.len() && s[j + 1] == '=' {
                (TokenType::NOTEQ, seq!['!', '='], j + 2)
            } else {
                (TokenType::BANG, seq!['!'], j + 1)
            }
        } else if c == '=' {
            if j + 1 < s.len() && s[j + 1] == '=' {
                (TokenType::EQ, seq!['=', '='], j + 2)
            } else {
                (TokenType::ASSIGN, seq!['='], j + 1)
            }
        } else if spec_is_letter(c) {
            let e = letter_run_end(s, j);
            (spec_lookup_ident(s.subrange(j, e)), s.subrange(j, e), e)
        } else if spec_is_digit(c) {
            let e = digit_run_end(s, j);
            (TokenType::INT, s.subrange(j, e), e)
        } else {
            (TokenType::ILLEGAL, seq![c], j + 1)
        }
    }
}

/// The kind of the token scanned at cursor `i`.
pub open spec fn token_kind_at(s: Seq<char>, i: int) -> TokenType {
    spec_next_token(s, i).0
}

/// The text of the token scanned at cursor `i`.
pub open spec fn token_text_at(s: Seq<char>, i: int) -> Seq<char> {
    spec_next_token(s, i).1
}

/// The cursor position after the token scanned at cursor `i`.
pub open spec fn token_end_at(s: Seq<char>, i: int) -> int {
    spec_next_token(s, i).2
}

/// The scanner: owns the source text and a cursor over it.
pub struct Lexer {
    input: String,
    input_len: usize,
    pos: usize,
    next_pos: usize,
    curr_char: Option<char>,
}

impl Lexer {
    /// The source text under the scanner, as a character sequence.
    pub closed spec fn src(self) -> Seq<char> {
        self.input@
    }

    /// The index of the character currently under examination.
    pub closed spec fn cursor(self) -> int {
        self.pos as int
    }

    /// The cursor invariant: the recorded length is the character count, the
    /// cursor never passes the end, the next index is one past the cursor
    /// while characters remain, and the held character is present exactly
    /// while the cursor is within the source.
    pub closed spec fn wf(self) -> bool {
        &&& self.input_len as int == self.input@.len() as int
        &&& self.pos <= self.input_len
        &&& self.next_pos as int == if (self.pos as int) < self.input@.len() as int {
            self.pos as int + 1
        } else {
            self.pos as int
        }
        &&& self.curr_char == if (self.pos as int) < self.input@.len() as int {
            Some(self.input@[self.pos as int])
        } else {
            None::<char>
        }
    }

    /// Constructs a scanner over the whole source text, primed so that the
    /// first character (if any) is already held.
    pub fn new(input_code: String) -> (lexer: Self)
        ensures
            lexer.wf(),
            lexer.src() == input_code@,
            lexer.cursor() == 0,
    {
        let len = input_code.as_str().unicode_len();
        let mut lexer = Lexer {
            input: input_code,
            input_len: len,
            pos: 0,
            next_pos: 0,
            curr_char: None,
        };
        lexer.read_char();
        lexer
    }

    /// Advances the held character to the one at the next index, or to absent
    /// past the end of the source. The cursor only ever moves forward, and
    /// stops for good once it stands at the end.
    fn read_char(&mut self)
        requires
            old(self).input_len as int == old(self).input@.len() as int,
            old(self).next_pos <= old(self).input_len,
        ensures
            final(self).wf(),
            final(self).input == old(self).input,
            final(self).pos == old(self).next_pos,
    {
        if self.next_pos >= self.input_len {
            self.curr_char = None;
            self.pos = self.next_pos;
        } else {
            self.curr_char = Some(self.input.as_str().get_char(self.next_pos));
            self.pos = self.next_pos;
            self.next_pos = self.next_pos + 1;
        }
    }

    /// A side-effect-free peek at the character one position past the cursor,
    /// absent past the end of the source.
    fn peek_next_char(&self) -> (r: Option<char>)
        requires
            self.wf(),
        ensures
            r == if self.cursor() + 1 < self.src().len() {
                Some(self.src()[self.cursor() + 1])
            } else {
                None::<char>
            },
    {
        if self.next_pos >= self.input_len {
            None
        } else {
            Some(self.input.as_str().get_char(self.next_pos))
        }
    }

    /// Consumes the run of spaces and newlines under the cursor; the run is
    /// discarded and produces no token.
    fn skip_whitespace(&mut self)
        requires
            old(self).wf(),
        ensures
            final(self).wf(),
            final(self).src() == old(self).src(),
            final(self).cursor() == skip_whitespace_end(old(self).src(), old(self).cursor()),
    {
        let ghost src = self.input@;
        let ghost start = self.pos as int;
        loop
            invariant
                self.wf(),
                self.input@ == src,
                skip_whitespace_end(src, start) == skip_whitespace_end(src, self.pos as int),
            ensures
                self.wf(),
                self.input@ == src,
                self.pos as int == skip_whitespace_end(src, start),
            decreases src.len() - self.pos,
        {
            match self.curr_char {
                Some(c) => {
                    if c == ' ' || c == '\n' {
                        self.read_char();
                    } else {
                        break ;
                    }
                },
                None => {
                    break ;
                },
            }
        }
    }

    /// Consumes the maximal run of letters starting at the cursor and returns
    /// its text, leaving the cursor on the first non-letter character.
    fn read_ident(&mut self) -> (r: String)
        requires
            old(self).wf(),
            old(self).cursor() < old(self).src().len(),
            spec_is_letter(old(self).src()[old(self).cursor()]),
        ensures
            final(self).wf(),
            final(self).src() == old(self).src(),
            final(self).cursor() == letter_run_end(old(self).src(), old(self).cursor()),
            r@ == old(self).src().subrange(old(self).cursor(), final(self).cursor()),
    {
        let starting_pos = self.pos;
        let ghost src = self.input@;
        loop
            invariant
                self.wf(),
                self.input@ == src,
                starting_pos <= self.pos,
                letter_run_end(src, starting_pos as int) == letter_run_end(src, self.pos as int),
            ensures
                self.wf(),
                self.input@ == src,
                starting_pos <= self.pos,
                self.pos as int == letter_run_end(src, starting_pos as int),
            decreases src.len() - self.pos,
        {
            match self.curr_char {
                Some(c) => {
                    if is_letter(c) {
                        self.read_char();
                    } else {
                        break ;
                    }
                },
                None => {
                    break ;
                },
            }
        }
        let ident = self.input.as_str().substring_char(starting_pos, self.pos);
        ident.to_owned()
    }

    /// Consumes the maximal run of digits starting at the cursor and returns
    /// its text, leaving the cursor on the first non-digit character.
    fn read_number(&mut self) -> (r: String)
        requires
            old(self).wf(),
            old(self).cursor() < old(self).src().len(),
            spec_is_digit(old(self).src()[old(self).cursor()]),
        ensures
            final(self).wf(),
            final(self).src() == old(self).src(),
            final(self).cursor() == digit_run_end(old(self).src(), old(self).cursor()),
            r@ == old(self).src().subrange(old(self).cursor(), final(self).cursor()),
    {
        let starting_pos = self.pos;
        let ghost src = self.input@;
        loop
            invariant
                self.wf(),
                self.input@ == src,
                starting_pos <= self.pos,
                digit_run_end(src, starting_pos as int) == digit_run_end(src, self.pos as int),
            ensures
                self.wf(),
                self.input@ == src,
                starting_pos <= self.pos,
                self.pos as int == digit_run_end(src, starting_pos as int),
            decreases src.len() - self.pos,
        {
            match self.curr_char {
                Some(c) => {
                    if is_digit(c) {
                        self.read_char();
                    } else {
                        break ;
                    }
                },
                None => {
                    break ;
                },
            }
        }
        let number = self.input.as_str().substring_char(starting_pos, self.pos);
        number.to_owned()
    }

    /// Skips leading whitespace, then returns exactly the token that
    /// [`spec_next_token`] names at the cursor, advancing the cursor past the
    /// characters that produced it. Never fails: an unrecognized character
    /// yields an `ILLEGAL` token and an exhausted input yields `EOF`, forever.
    pub fn next_token(&mut self) -> (tok: Token)
        requires
            old(self).wf(),
        ensures
            final(self).wf(),
            final(self).src() == old(self).src(),
            tok.token_type == token_kind_at(old(self).src(), old(self).cursor()),
            tok.literal@ == token_text_at(old(self).src(), old(self).cursor()),
            final(self).cursor() == token_end_at(old(self).src(), old(self).cursor()),
    {
        self.skip_whitespace();
        let ghost src = self.input@;
        let ghost j = self.pos as int;
        let tok: Token;
        match self.curr_char {
            Some(',') => {
                proof {
                    reveal_strlit(",");
                    assert(","@ =~= seq![',']);
                }
                tok = new_token(TokenType::COMMA, ",".to_owned());
            },
            Some(';') => {
                proof {
                    reveal_strlit(";");
                    assert(";"@ =~= seq![';']);
                }
                tok = new_token(TokenType::SEMICOLON, ";".to_owned());
            },
            Some('(') => {
                proof {
                    reveal_strlit("(");
                    assert("("@ =~= seq!['(']);
                }
                tok = new_token(TokenType::LPAREN, "(".to_owned());
            },
            Some(')') => {
                proof {
                    reveal_strlit(")");
                    assert(")"@ =~= seq![')']);
                }
                tok = new_token(TokenType::RPAREN, ")".to_owned());
            },
            Some('{') => {
                proof {
                    reveal_strlit("{");
                    assert("{"@ =~= seq!['{']);
                }
                tok = new_token(TokenType::LBRACE, "{".to_owned());
            },
            Some('}') => {
                proof {
                    reveal_strlit("}");
                    assert("}"@ =~= seq!['}']);
                }
                tok = new_token(TokenType::RBRACE, "}".to_owned());
            },
            Some('+') => {
                proof {
                    reveal_strlit("+");
                    assert("+"@ =~= seq!['+']);
                }
                tok = new_token(TokenType::PLUS, "+".to_owned());
            },
            Some('!') => {
                let next_is_eq = match self.peek_next_char() {
                    Some('=') => true,
                    _ => false,
                };
                if next_is_eq {
                    self.read_char();
                    proof {
                        reveal_strlit("!=");
                        assert("!="@ =~= seq!['!', '=']);
                    }
                    tok = new_token(TokenType::NOTEQ, "!=".to_owned());
                } else {
                    proof {
                        reveal_strlit("!");
                        assert("!"@ =~= seq!['!']);
                    }
                    tok = new_token(TokenType::BANG, "!".to_owned());
                }
            },
            Some('=') => {
                let next_is_eq = match self.peek_next_char() {
                    Some('=') => true,
                    _ => false,
                };
                if next_is_eq {
                    self.read_char();
                    proof {
                        reveal_strlit("==");
                        assert("=="@ =~= seq!['=', '=']);
                    }
                    tok = new_token(TokenType::EQ, "==".to_owned());
                } else {
                    proof {
                        reveal_strlit("=");
                        assert("="@ =~= seq!['=']);
                    }
                    tok = new_token(TokenType::ASSIGN, "=".to_owned());
                }
            },
            Some(c) => {
                if is_letter(c) {
                    let ident = self.read_ident();
                    let kind = lookup_ident(ident.as_str());
                    return Token { token_type: kind, literal: ident };
                }
                if is_digit(c) {
                    let number = self.read_number();
                    return Token { token_type: TokenType::INT, literal: number };
                }
                let text = self.input.as_str().substring_char(self.pos, self.pos + 1);
                proof {
                    assert(src.subrange(j, j + 1) =~= seq![src[j]]);
                }
                tok = new_token(TokenType::ILLEGAL, text.to_owned());
            },
            None => {
                tok = new_token(TokenType::EOF, String::new());
            },
        }
        self.read_char();
        tok
    }
}

/// Builds a token from a kind and the text that produced it.
fn new_token(tt: TokenType, literal: String) -> (tok: Token)
    ensures
        tok.token_type == tt,
        tok.literal == literal,
{
    Token { token_type: tt, literal }
}

} // verus!
