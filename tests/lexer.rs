use lexer::{lookup_ident, LexError, Lexer, Token, TokenType};

fn scan_all(input: &str) -> Vec<(TokenType, String)> {
    let mut l = Lexer::new(input);
    let mut out = Vec::new();
    loop {
        let tok = l.next_token().unwrap();
        let done = tok.typ == TokenType::EOF;
        out.push((tok.typ, tok.literal));
        if done {
            return out;
        }
    }
}

fn expect(input: &str, expected: &[(TokenType, &str)]) {
    let got = scan_all(input);
    assert_eq!(got.len(), expected.len(), "token count for {input:?}");
    for (i, ((typ, lit), (etyp, elit))) in got.iter().zip(expected.iter()).enumerate() {
        assert_eq!(typ, etyp, "kind at {i} for {input:?}");
        assert_eq!(lit.as_str(), *elit, "literal at {i} for {input:?}");
    }
}

#[test]
fn test_next_token() {
    let input = r#"let five = 5;
        let ten = 10;
        let add = fn(x, y) {
            x + y;
        };
        
        let result = add(five, ten);"#;

    let tests: [(TokenType, &str); 37] = [
        (TokenType::LET, "let"),
        (TokenType::IDENT, "five"),
        (TokenType::ASSIGN, "="),
        (TokenType::INT, "5"),
        (TokenType::SEMICOLON, ";"),
        (TokenType::LET, "let"),
        (TokenType::IDENT, "ten"),
        (TokenType::ASSIGN, "="),
        (TokenType::INT, "10"),
        (TokenType::SEMICOLON, ";"),
        (TokenType::LET, "let"),
        (TokenType::IDENT, "add"),
        (TokenType::ASSIGN, "="),
        (TokenType::FUNCTION, "fn"),
        (TokenType::LPAREN, "("),
        (TokenType::IDENT, "x"),
        (TokenType::COMMA, ","),
        (TokenType::IDENT, "y"),
        (TokenType::RPAREN, ")"),
        (TokenType::LBRACE, "{"),
        (TokenType::IDENT, "x"),
        (TokenType::PLUS, "+"),
        (TokenType::IDENT, "y"),
        (TokenType::SEMICOLON, ";"),
        (TokenType::RBRACE, "}"),
        (TokenType::SEMICOLON, ";"),
        (TokenType::LET, "let"),
        (TokenType::IDENT, "result"),
        (TokenType::ASSIGN, "="),
        (TokenType::IDENT, "add"),
        (TokenType::LPAREN, "("),
        (TokenType::IDENT, "five"),
        (TokenType::COMMA, ","),
        (TokenType::IDENT, "ten"),
        (TokenType::RPAREN, ")"),
        (TokenType::SEMICOLON, ";"),
        (TokenType::EOF, ""),
    ];

    let mut l = Lexer::new(input);

    for i in 0..tests.len() {
        let tok = l.next_token().unwrap();

        assert_eq!(tok.typ, tests[i].0, "the index: {i}");
        assert_eq!(tok.literal.as_str(), tests[i].1, "the literal index: {i}");
    }
}

#[test]
fn end_of_input_repeats() {
    let mut l = Lexer::new("x");
    let first = l.next_token().unwrap();
    assert_eq!(first.typ, TokenType::IDENT);
    for _ in 0..4 {
        let tok = l.next_token().unwrap();
        assert_eq!(tok.typ, TokenType::EOF);
        assert_eq!(tok.literal.as_str(), "");
    }
}

#[test]
fn empty_and_blank_inputs_end_at_once() {
    expect("", &[(TokenType::EOF, "")]);
    expect(" \t\r\n  ", &[(TokenType::EOF, "")]);
}

#[test]
fn maximal_munch_letters_then_digits() {
    expect(
        "abc123",
        &[(TokenType::IDENT, "abc"), (TokenType::INT, "123"), (TokenType::EOF, "")],
    );
}

#[test]
fn number_followed_by_letters_splits() {
    expect("5x", &[(TokenType::INT, "5"), (TokenType::IDENT, "x"), (TokenType::EOF, "")]);
}

#[test]
fn identifier_at_end_of_input() {
    expect("hello", &[(TokenType::IDENT, "hello"), (TokenType::EOF, "")]);
    expect("007", &[(TokenType::INT, "007"), (TokenType::EOF, "")]);
}

#[test]
fn keywords_are_exact() {
    expect("let", &[(TokenType::LET, "let"), (TokenType::EOF, "")]);
    expect("fn", &[(TokenType::FUNCTION, "fn"), (TokenType::EOF, "")]);
    expect("Let", &[(TokenType::IDENT, "Let"), (TokenType::EOF, "")]);
    expect("lets", &[(TokenType::IDENT, "lets"), (TokenType::EOF, "")]);
    expect("fnx", &[(TokenType::IDENT, "fnx"), (TokenType::EOF, "")]);
}

#[test]
fn lookup_ident_table() {
    assert_eq!(lookup_ident("fn"), Some(TokenType::FUNCTION));
    assert_eq!(lookup_ident("let"), Some(TokenType::LET));
    assert_eq!(lookup_ident("FN"), None);
    assert_eq!(lookup_ident("Let"), None);
    assert_eq!(lookup_ident("le"), None);
    assert_eq!(lookup_ident(""), None);
    assert_eq!(lookup_ident("x"), None);
}

#[test]
fn whitespace_does_not_change_tokens() {
    let tight = scan_all("let a = b + 1;");
    let loose = scan_all("  let\t\ta \r\n=\n\n b   +\t1 ;\r\n ");
    assert_eq!(tight, loose);
}

#[test]
fn single_punctuation_marks() {
    let cases = [
        ("=", TokenType::ASSIGN),
        (";", TokenType::SEMICOLON),
        ("(", TokenType::LPAREN),
        (")", TokenType::RPAREN),
        (",", TokenType::COMMA),
        ("+", TokenType::PLUS),
        ("{", TokenType::LBRACE),
        ("}", TokenType::RBRACE),
    ];
    for (text, typ) in cases {
        expect(text, &[(typ, text), (TokenType::EOF, "")]);
    }
}

#[test]
fn let_statement_scenario() {
    expect(
        "let five = 5;",
        &[
            (TokenType::LET, "let"),
            (TokenType::IDENT, "five"),
            (TokenType::ASSIGN, "="),
            (TokenType::INT, "5"),
            (TokenType::SEMICOLON, ";"),
            (TokenType::EOF, ""),
        ],
    );
}

#[test]
fn function_literal_scenario() {
    expect(
        "let add = fn(x, y) { x + y; };",
        &[
            (TokenType::LET, "let"),
            (TokenType::IDENT, "add"),
            (TokenType::ASSIGN, "="),
            (TokenType::FUNCTION, "fn"),
            (TokenType::LPAREN, "("),
            (TokenType::IDENT, "x"),
            (TokenType::COMMA, ","),
            (TokenType::IDENT, "y"),
            (TokenType::RPAREN, ")"),
            (TokenType::LBRACE, "{"),
            (TokenType::IDENT, "x"),
            (TokenType::PLUS, "+"),
            (TokenType::IDENT, "y"),
            (TokenType::SEMICOLON, ";"),
            (TokenType::RBRACE, "}"),
            (TokenType::SEMICOLON, ";"),
            (TokenType::EOF, ""),
        ],
    );
}

#[test]
fn unclassifiable_character_fails() {
    let mut l = Lexer::new("@");
    assert_eq!(l.next_token().unwrap_err(), LexError::UnclassifiableCharacter('@'));

    let mut l = Lexer::new("let x = #;");
    assert_eq!(l.next_token().unwrap().typ, TokenType::LET);
    assert_eq!(l.next_token().unwrap().typ, TokenType::IDENT);
    assert_eq!(l.next_token().unwrap().typ, TokenType::ASSIGN);
    assert_eq!(l.next_token().unwrap_err(), LexError::UnclassifiableCharacter('#'));
    // the cursor stays on the offending character
    assert_eq!(l.next_token().unwrap_err(), LexError::UnclassifiableCharacter('#'));
}

#[test]
fn non_ascii_letter_is_unclassifiable() {
    let mut l = Lexer::new("  é");
    assert_eq!(l.next_token().unwrap_err(), LexError::UnclassifiableCharacter('é'));
}

#[test]
fn token_new_keeps_fields() {
    let t = Token::new(TokenType::INT, String::from("42"));
    assert_eq!(t.typ, TokenType::INT);
    assert_eq!(t.literal, "42");
}
