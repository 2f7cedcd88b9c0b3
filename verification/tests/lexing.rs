//! The tokenizer in isolation.

use stringed::{lex, LexError, Token};

#[test]
fn every_symbol_makes_one_token() {
    assert_eq!(
        lex("_$+:()[]"),
        Ok(vec![
            Token::Input,
            Token::Dollar,
            Token::Plus,
            Token::Colon,
            Token::OpenParen,
            Token::CloseParen,
            Token::OpenBracket,
            Token::CloseBracket,
        ])
    );
}

#[test]
fn unrecognized_characters_are_skipped() {
    // Letters, digits, whitespace, even a bare backslash: outside a string
    // literal only the eight symbols and the double quote mean anything.
    assert_eq!(lex("a b _ 9 ! \\"), Ok(vec![Token::Input]));
}

#[test]
fn literal_keeps_raw_escapes() {
    // Source `"a\"b"`: the token's text is the raw slice between the outer
    // quotes, the escape untouched.
    assert_eq!(lex("\"a\\\"b\""), Ok(vec![Token::Str("a\\\"b".to_string())]));
}

#[test]
fn empty_literal() {
    assert_eq!(lex("\"\""), Ok(vec![Token::Str(String::new())]));
}

#[test]
fn symbols_inside_literals_are_text() {
    assert_eq!(
        lex("\"_+$\"_"),
        Ok(vec![Token::Str("_+$".to_string()), Token::Input])
    );
}

#[test]
fn unterminated_literal_is_an_error() {
    assert_eq!(lex("\"abc"), Err(LexError::UnterminatedString));
}

#[test]
fn escaped_closing_quote_leaves_literal_open() {
    // Source `"ab\"`: the backslash makes the quote literal text, so the
    // literal never closes.
    assert_eq!(lex("\"ab\\\""), Err(LexError::UnterminatedString));
}

#[test]
fn backslash_at_end_of_source_leaves_literal_open() {
    assert_eq!(lex("\"ab\\"), Err(LexError::UnterminatedString));
}

#[test]
fn tokens_describe_themselves() {
    assert_eq!(Token::Input.describe(), "_");
    assert_eq!(Token::Str(String::new()).describe(), "string");
    assert_eq!(Token::Dollar.describe(), "$");
    assert_eq!(Token::Plus.describe(), "+");
    assert_eq!(Token::Colon.describe(), ":");
    assert_eq!(Token::OpenParen.describe(), "`(`");
    assert_eq!(Token::CloseParen.describe(), "`)`");
    assert_eq!(Token::OpenBracket.describe(), "`[`");
    assert_eq!(Token::CloseBracket.describe(), "`]`");
}
