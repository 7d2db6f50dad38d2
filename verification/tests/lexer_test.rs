use lexer::lexer::Lexer;
use lexer::token::TokenType;
use lexer::token::lookup_ident;

/// Drives a scanner over `src` until `EOF` (inclusive) and returns every
/// token's kind and text.
fn scan_all(src: &str) -> Vec<(TokenType, String)> {
    let mut lx = Lexer::new(src.to_string());
    let mut out: Vec<(TokenType, String)> = Vec::new();
    loop {
        let tok = lx.next_token();
        let done = tok.token_type == TokenType::EOF;
        out.push((tok.token_type, tok.literal));
        if done {
            break;
        }
    }
    out
}

#[test]
fn lexer_test() {
    let input = "               
      let five = 5;
      let add = fn(x, y) {
        x + y;
      };

      != == while!
    "
    .to_string();

    let mut lexer = Lexer::new(input);

    let tests: Vec<(TokenType, String)> = vec![
        (TokenType::LET, "let".to_string()),
        (TokenType::IDENT, "five".to_string()),
        (TokenType::ASSIGN, "=".to_string()),
        (TokenType::INT, "5".to_string()),
        (TokenType::SEMICOLON, ";".to_string()),
        (TokenType::LET, "let".to_string()),
        (TokenType::IDENT, "add".to_string()),
        (TokenType::ASSIGN, "=".to_string()),
        (TokenType::FUNCTION, "fn".to_string()),
        (TokenType::LPAREN, "(".to_string()),
        (TokenType::IDENT, "x".to_string()),
        (TokenType::COMMA, ",".to_string()),
        (TokenType::IDENT, "y".to_string()),
        (TokenType::RPAREN, ")".to_string()),
        (TokenType::LBRACE, "{".to_string()),
        (TokenType::IDENT, "x".to_string()),
        (TokenType::PLUS, "+".to_string()),
        (TokenType::IDENT, "y".to_string()),
        (TokenType::SEMICOLON, ";".to_string()),
        (TokenType::RBRACE, "}".to_string()),
        (TokenType::SEMICOLON, ";".to_string()),
        (TokenType::NOTEQ, "!=".to_string()),
        (TokenType::EQ, "==".to_string()),
        (TokenType::WHILE, "while".to_string()),
        (TokenType::BANG, "!".to_string()),
        (TokenType::EOF, "".to_string()),
    ];

    for (idx, test) in tests.iter().enumerate() {
        let tok = lexer.next_token();

        println!("Current test: {}", idx);

        assert_eq!(tok.token_type, test.0);
        assert_eq!(tok.literal, test.1);
    }
}

#[test]
fn empty_source_yields_end_of_input() {
    let mut lx = Lexer::new("".to_string());
    let tok = lx.next_token();
    assert_eq!(tok.token_type, TokenType::EOF);
    assert_eq!(tok.literal, "");
}

#[test]
fn end_of_input_is_idempotent() {
    let mut lx = Lexer::new("x".to_string());
    assert_eq!(lx.next_token().token_type, TokenType::IDENT);
    for _ in 0..5 {
        let tok = lx.next_token();
        assert_eq!(tok.token_type, TokenType::EOF);
        assert_eq!(tok.literal, "");
    }
}

#[test]
fn illegal_character_reported_and_scanning_continues() {
    let toks = scan_all("@");
    assert_eq!(toks.len(), 2);
    assert_eq!(toks[0], (TokenType::ILLEGAL, "@".to_string()));
    assert_eq!(toks[1], (TokenType::EOF, "".to_string()));
}

#[test]
fn not_equal_is_one_token() {
    let toks = scan_all("!=");
    assert_eq!(toks[0], (TokenType::NOTEQ, "!=".to_string()));
    assert_eq!(toks[1], (TokenType::EOF, "".to_string()));
    assert_eq!(toks.len(), 2);
}

#[test]
fn bang_then_identifier() {
    let toks = scan_all("!a");
    assert_eq!(toks[0], (TokenType::BANG, "!".to_string()));
    assert_eq!(toks[1], (TokenType::IDENT, "a".to_string()));
    assert_eq!(toks[2], (TokenType::EOF, "".to_string()));
}

#[test]
fn assign_and_equal_disambiguation() {
    let toks = scan_all("= == =a");
    assert_eq!(toks[0], (TokenType::ASSIGN, "=".to_string()));
    assert_eq!(toks[1], (TokenType::EQ, "==".to_string()));
    assert_eq!(toks[2], (TokenType::ASSIGN, "=".to_string()));
    assert_eq!(toks[3], (TokenType::IDENT, "a".to_string()));
}

#[test]
fn keyword_precedence() {
    let toks = scan_all("let");
    assert_eq!(toks[0], (TokenType::LET, "let".to_string()));
    let toks = scan_all("lett");
    assert_eq!(toks[0], (TokenType::IDENT, "lett".to_string()));
}

#[test]
fn all_keywords_recognized() {
    let toks = scan_all("fn let return true false if else while");
    let expected = vec![
        TokenType::FUNCTION,
        TokenType::LET,
        TokenType::RETURN,
        TokenType::TRUE,
        TokenType::FALSE,
        TokenType::IF,
        TokenType::ELSE,
        TokenType::WHILE,
        TokenType::EOF,
    ];
    let kinds: Vec<TokenType> = toks.iter().map(|t| t.0.clone()).collect();
    assert_eq!(kinds, expected);
}

#[test]
fn lookup_ident_examples() {
    assert_eq!(lookup_ident("foo"), TokenType::IDENT);
    assert_eq!(lookup_ident("return"), TokenType::RETURN);
    assert_eq!(lookup_ident("Let"), TokenType::IDENT);
    assert_eq!(lookup_ident("whil"), TokenType::IDENT);
    assert_eq!(lookup_ident("whilee"), TokenType::IDENT);
}

#[test]
fn maximal_munch_runs() {
    let toks = scan_all("abc123");
    assert_eq!(toks[0], (TokenType::IDENT, "abc".to_string()));
    assert_eq!(toks[1], (TokenType::INT, "123".to_string()));
    assert_eq!(toks[2], (TokenType::EOF, "".to_string()));
}

#[test]
fn underscore_is_a_letter() {
    let toks = scan_all("_foo_bar");
    assert_eq!(toks[0], (TokenType::IDENT, "_foo_bar".to_string()));
}

#[test]
fn single_character_tokens() {
    let toks = scan_all(",;(){}+");
    let expected = vec![
        (TokenType::COMMA, ",".to_string()),
        (TokenType::SEMICOLON, ";".to_string()),
        (TokenType::LPAREN, "(".to_string()),
        (TokenType::RPAREN, ")".to_string()),
        (TokenType::LBRACE, "{".to_string()),
        (TokenType::RBRACE, "}".to_string()),
        (TokenType::PLUS, "+".to_string()),
        (TokenType::EOF, "".to_string()),
    ];
    assert_eq!(toks, expected);
}

#[test]
fn unclassified_operators_are_illegal() {
    let toks = scan_all("-*/<>");
    let expected = vec![
        (TokenType::ILLEGAL, "-".to_string()),
        (TokenType::ILLEGAL, "*".to_string()),
        (TokenType::ILLEGAL, "/".to_string()),
        (TokenType::ILLEGAL, "<".to_string()),
        (TokenType::ILLEGAL, ">".to_string()),
        (TokenType::EOF, "".to_string()),
    ];
    assert_eq!(toks, expected);
}

#[test]
fn whitespace_insertion_does_not_change_the_stream() {
    let plain = scan_all("let x=5;");
    let padded = scan_all("  let \n  x  =  5   ;\n\n");
    assert_eq!(plain, padded);
    let expected = vec![
        (TokenType::LET, "let".to_string()),
        (TokenType::IDENT, "x".to_string()),
        (TokenType::ASSIGN, "=".to_string()),
        (TokenType::INT, "5".to_string()),
        (TokenType::SEMICOLON, ";".to_string()),
        (TokenType::EOF, "".to_string()),
    ];
    assert_eq!(plain, expected);
}

#[test]
fn tab_and_carriage_return_are_not_whitespace() {
    let toks = scan_all("\t");
    assert_eq!(toks[0], (TokenType::ILLEGAL, "\t".to_string()));
    let toks = scan_all("\r");
    assert_eq!(toks[0], (TokenType::ILLEGAL, "\r".to_string()));
}

#[test]
fn multibyte_characters_are_not_split() {
    let toks = scan_all("a\u{3bb}b");
    assert_eq!(toks[0], (TokenType::IDENT, "a".to_string()));
    assert_eq!(toks[1], (TokenType::ILLEGAL, "\u{3bb}".to_string()));
    assert_eq!(toks[2], (TokenType::IDENT, "b".to_string()));
    assert_eq!(toks[3], (TokenType::EOF, "".to_string()));
}
