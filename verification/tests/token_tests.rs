use monkey_lexer::token::bytes_eq;
use monkey_lexer::token::KeywordMatch;
use monkey_lexer::token::Token;
use monkey_lexer::token::TokenType;

#[test]
fn lookup_resolves_every_reserved_word() {
    let table = KeywordMatch::new();
    let cases: [(&[u8], TokenType); 7] = [
        (b"fn", TokenType::Function),
        (b"let", TokenType::Let),
        (b"return", TokenType::Return),
        (b"if", TokenType::If),
        (b"else", TokenType::Else),
        (b"true", TokenType::True),
        (b"false", TokenType::False),
    ];
    for (word, expected) in cases {
        assert_eq!(table.lookup_ident(&word.to_vec()), expected);
    }
}

#[test]
fn lookup_is_exact_and_case_sensitive() {
    let table = KeywordMatch::new();
    assert_eq!(table.lookup_ident(&b"Let".to_vec()), TokenType::Ident);
    assert_eq!(table.lookup_ident(&b"LET".to_vec()), TokenType::Ident);
    assert_eq!(table.lookup_ident(&b"le".to_vec()), TokenType::Ident);
    assert_eq!(table.lookup_ident(&b"lets".to_vec()), TokenType::Ident);
    assert_eq!(table.lookup_ident(&b"".to_vec()), TokenType::Ident);
    assert_eq!(table.lookup_ident(&b"foobar".to_vec()), TokenType::Ident);
}

#[test]
fn tokens_are_equal_iff_category_and_literal_match() {
    let a = Token::new(TokenType::Ident, b"x".to_vec());
    let b = Token::from_str(TokenType::Ident, b"x");
    let c = Token::from_str(TokenType::Ident, b"y");
    let d = Token::from_str(TokenType::Int, b"x");
    assert_eq!(a, b);
    assert_ne!(a, c);
    assert_ne!(a, d);
}

#[test]
fn from_str_copies_the_literal() {
    let tok = Token::from_str(TokenType::Int, b"10");
    assert_eq!(tok.token_type, TokenType::Int);
    assert_eq!(tok.literal, b"10".to_vec());
}

#[test]
fn bytes_eq_compares_contents() {
    assert!(bytes_eq(&b"abc".to_vec(), &b"abc".to_vec()));
    assert!(!bytes_eq(&b"abc".to_vec(), &b"abd".to_vec()));
    assert!(!bytes_eq(&b"abc".to_vec(), &b"ab".to_vec()));
    assert!(bytes_eq(&Vec::new(), &Vec::new()));
}

#[test]
fn display_names_for_diagnostics() {
    assert_eq!(TokenType::Illegal.name(), "ILLEGAL");
    assert_eq!(TokenType::Eof.name(), "EOF");
    assert_eq!(TokenType::Ident.name(), "IDENT");
    assert_eq!(TokenType::Int.name(), "INT");
    assert_eq!(TokenType::Assign.name(), "=");
    assert_eq!(TokenType::Eq.name(), "==");
    assert_eq!(TokenType::NotEq.name(), "!=");
    assert_eq!(TokenType::Function.name(), "FUNCTION");
    assert_eq!(TokenType::Let.name(), "LET");
    assert_eq!(TokenType::Return.name(), "RETURN");
}
