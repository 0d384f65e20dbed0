use minilex::token::{is_keyword, Lexer, LexerError, Token};

fn tokens_of(input: &str) -> Vec<Token> {
    let mut l = Lexer::new(input).unwrap();
    let mut out = Vec::new();
    loop {
        let t = l.next_token();
        let done = t == Token::Eof;
        out.push(t);
        if done {
            return out;
        }
    }
}

#[test]
fn whitespace_only_input_yields_eof() {
    assert_eq!(Token::Eof, Lexer::new(" ").unwrap().next_token());
    assert_eq!(Token::Eof, Lexer::new("   \t\r\n  ").unwrap().next_token());
    assert_eq!(Token::Eof, Lexer::new("\u{a0}\u{2003}\u{3000}").unwrap().next_token());
}

#[test]
fn empty_input_yields_eof_only() {
    assert_eq!(vec![Token::Eof], tokens_of(""));
}

#[test]
fn eof_is_idempotent() {
    let mut l = Lexer::new("x").unwrap();
    assert_eq!(Token::Ident(String::from("x")), l.next_token());
    assert_eq!(Token::Eof, l.next_token());
    assert_eq!(Token::Eof, l.next_token());
    assert_eq!(Token::Eof, l.next_token());

    let mut e = Lexer::new("").unwrap();
    assert_eq!(Token::Eof, e.next_token());
    assert_eq!(Token::Eof, e.next_token());
}

#[test]
fn two_character_operator_disambiguation() {
    assert_eq!(vec![Token::Assign, Token::Eof], tokens_of("="));
    assert_eq!(vec![Token::Eq, Token::Eof], tokens_of("=="));
    assert_eq!(vec![Token::Bang, Token::Eof], tokens_of("!"));
    assert_eq!(vec![Token::NotEq, Token::Eof], tokens_of("!="));
    assert_eq!(vec![Token::Assign, Token::Assign, Token::Eof], tokens_of("= ="));
}

#[test]
fn keywords_yield_keyword_tokens() {
    assert_eq!(vec![Token::Function, Token::Eof], tokens_of("fn"));
    assert_eq!(vec![Token::Let, Token::Eof], tokens_of("let"));
    assert_eq!(vec![Token::Return, Token::Eof], tokens_of("return"));
    assert_eq!(vec![Token::If, Token::Eof], tokens_of("if"));
    assert_eq!(vec![Token::Else, Token::Eof], tokens_of("else"));
    assert_eq!(vec![Token::True, Token::Eof], tokens_of("true"));
    assert_eq!(vec![Token::False, Token::Eof], tokens_of("false"));
}

#[test]
fn other_words_yield_identifiers() {
    assert_eq!(vec![Token::Ident(String::from("fna")), Token::Eof], tokens_of("fna"));
    assert_eq!(vec![Token::Ident(String::from("lets")), Token::Eof], tokens_of("lets"));
    assert_eq!(vec![Token::Ident(String::from("Fn")), Token::Eof], tokens_of("Fn"));
    assert_eq!(vec![Token::Ident(String::from("truth")), Token::Eof], tokens_of("truth"));
}

#[test]
fn keyword_classification() {
    assert!(is_keyword("fn"));
    assert!(is_keyword("let"));
    assert!(is_keyword("return"));
    assert!(is_keyword("if"));
    assert!(is_keyword("else"));
    assert!(is_keyword("true"));
    assert!(is_keyword("false"));
    assert!(!is_keyword("foo"));
    assert!(!is_keyword("fnx"));
    assert!(!is_keyword(""));
}

#[test]
fn integer_scanning_is_maximal() {
    assert_eq!(vec![Token::Int(7), Token::Semicolon, Token::Eof], tokens_of("7;"));
    assert_eq!(vec![Token::Int(123), Token::Eof], tokens_of("0123"));
    assert_eq!(
        vec![Token::Int(42), Token::Ident(String::from("x")), Token::Eof],
        tokens_of("42x")
    );
}

#[test]
fn integer_bounds() {
    assert_eq!(vec![Token::Int(i64::MAX), Token::Eof], tokens_of("9223372036854775807"));
    // one past i64::MAX overflows and is reported as data, not an error
    assert_eq!(
        vec![Token::Illegal, Token::Semicolon, Token::Eof],
        tokens_of("9223372036854775808;")
    );
}

#[test]
fn whitespace_never_appears_in_tokens() {
    assert_eq!(
        vec![
            Token::Ident(String::from("a")),
            Token::Ident(String::from("b")),
            Token::Eof
        ],
        tokens_of("  a \t b \n ")
    );
    assert_eq!(vec![Token::Int(1), Token::Int(2), Token::Eof], tokens_of(" 1 2 "));
}

#[test]
fn scenario_let_binding() {
    assert_eq!(
        vec![
            Token::Let,
            Token::Ident(String::from("five")),
            Token::Assign,
            Token::Int(5),
            Token::Semicolon,
            Token::Eof
        ],
        tokens_of("let five = 5;")
    );
}

#[test]
fn scenario_comparisons() {
    assert_eq!(
        vec![
            Token::Int(10),
            Token::Eq,
            Token::Int(10),
            Token::Semicolon,
            Token::Int(10),
            Token::NotEq,
            Token::Int(9),
            Token::Semicolon,
            Token::Eof
        ],
        tokens_of("10 == 10; 10 != 9;")
    );
}

#[test]
fn scenario_prefix_operators() {
    assert_eq!(
        vec![
            Token::Bang,
            Token::Minus,
            Token::Slash,
            Token::Asterisk,
            Token::Int(5),
            Token::Semicolon,
            Token::Eof
        ],
        tokens_of("!-/*5;")
    );
}

#[test]
fn unrecognized_characters_are_illegal_tokens() {
    assert_eq!(vec![Token::Illegal, Token::Eof], tokens_of("@"));
    assert_eq!(
        vec![Token::Illegal, Token::Int(3), Token::Eof],
        tokens_of("# 3")
    );
}

#[test]
fn identifiers_continue_with_unicode_letters() {
    // identifier scanning uses the general alphabetic class past the first
    // character, while a non-ASCII letter cannot start a token
    assert_eq!(
        vec![Token::Ident(String::from("caf\u{e9}")), Token::Eof],
        tokens_of("caf\u{e9}")
    );
    assert_eq!(vec![Token::Illegal, Token::Eof], tokens_of("\u{e9}"));
}

#[test]
fn read_char_advances_the_cursor() {
    let mut l = Lexer::new("ab").unwrap();
    l.read_char();
    assert_eq!("b".to_owned(), l.read_identifier());
}

#[test]
fn error_messages() {
    assert_eq!("invalid input", LexerError::Invalid.message());
    assert_eq!("empty input", LexerError::Empty.message());
    assert_eq!(LexerError::Invalid, LexerError::Invalid);
}
