use scanner::token::{Token, TokenKind};
use scanner::{tokenize, ScannerError, ScannerErrorKind};

fn string(chars: &str, line_number: usize) -> Result<Token<'static>, ScannerError> {
    Ok(Token { kind: TokenKind::StringConstant(chars.chars().collect()), line_number })
}

fn error(kind: ScannerErrorKind, line_number: usize) -> Result<Token<'static>, ScannerError> {
    Err(ScannerError { kind, line_number })
}

fn object(name: &'static str, line_number: usize) -> Result<Token<'static>, ScannerError> {
    Ok(Token { kind: TokenKind::ObjectId(name), line_number })
}

#[test]
fn empty_string() {
    assert_eq!(tokenize("\"\""), vec![string("", 1)]);
}

#[test]
fn escape_sequences_are_decoded() {
    assert_eq!(
        tokenize("\"a\\nb\\tc\\bd\\fe\\\"f\\\\g\\zh\\0i\""),
        vec![string("a\nb\tc\u{8}d\u{c}e\"f\\gzh0i", 1)]
    );
}

#[test]
fn escaped_line_feed_continues_the_string() {
    assert_eq!(tokenize("\"a\\\nb\\\nc\" x"), vec![string("a\nb\nc", 3), object("x", 3)]);
}

#[test]
fn control_characters_stand_for_themselves() {
    assert_eq!(tokenize("\"a\tb\rc\u{1}d\""), vec![string("a\tb\rc\u{1}d", 1)]);
}

#[test]
fn bare_line_feed_ends_the_string() {
    assert_eq!(
        tokenize("\"abc\ndef\" x"),
        vec![
            error(ScannerErrorKind::UnterminatedStringConstant, 1),
            object("def", 2),
            error(ScannerErrorKind::EofInStringConstant, 2),
        ]
    );
}

#[test]
fn unterminated_string_counts_its_escaped_line_feeds() {
    assert_eq!(
        tokenize("\"a\\\nb\nc"),
        vec![error(ScannerErrorKind::UnterminatedStringConstant, 2), object("c", 3)]
    );
}

#[test]
fn end_of_input_in_string() {
    assert_eq!(tokenize("\""), vec![error(ScannerErrorKind::EofInStringConstant, 1)]);
    assert_eq!(tokenize("x \"abc\\"), vec![
        object("x", 1),
        error(ScannerErrorKind::EofInStringConstant, 1)
    ]);
    assert_eq!(tokenize("\"abc\\\""), vec![error(ScannerErrorKind::EofInStringConstant, 1)]);
    assert_eq!(tokenize("\"abc\\\n"), vec![error(ScannerErrorKind::EofInStringConstant, 2)]);
}

#[test]
fn null_in_string_resumes_behind_the_closing_quote() {
    assert_eq!(
        tokenize("\"a\0b\" x \"ok\""),
        vec![
            error(ScannerErrorKind::StringContainsNullCharacter, 1),
            object("x", 1),
            string("ok", 1),
        ]
    );
}

#[test]
fn null_in_string_resumes_behind_a_bare_line_feed() {
    assert_eq!(
        tokenize("\"a\0b\nc\" d"),
        vec![
            error(ScannerErrorKind::StringContainsNullCharacter, 1),
            object("c", 2),
            error(ScannerErrorKind::EofInStringConstant, 2),
        ]
    );
}

#[test]
fn null_in_string_at_end_of_input() {
    assert_eq!(
        tokenize("\"a\0b"),
        vec![error(ScannerErrorKind::StringContainsNullCharacter, 1)]
    );
}

#[test]
fn escaped_null_in_string() {
    assert_eq!(
        tokenize("\"a\\\0b\\\"c\" x"),
        vec![error(ScannerErrorKind::StringContainsEscapedNullCharacter, 1), object("x", 1)]
    );
}

#[test]
fn first_null_decides_the_error() {
    assert_eq!(
        tokenize("\"\0 \\\0\""),
        vec![error(ScannerErrorKind::StringContainsNullCharacter, 1)]
    );
    assert_eq!(
        tokenize("\"\\\0 \0\""),
        vec![error(ScannerErrorKind::StringContainsEscapedNullCharacter, 1)]
    );
}

#[test]
fn null_error_is_reported_on_the_last_line_of_the_string() {
    assert_eq!(
        tokenize("\"a\0\\\nb\\\nc\" x"),
        vec![error(ScannerErrorKind::StringContainsNullCharacter, 3), object("x", 3)]
    );
}

#[test]
fn null_wins_over_length() {
    let text = format!("\"{}\0\"", "a".repeat(2000));
    assert_eq!(tokenize(&text), vec![error(ScannerErrorKind::StringContainsNullCharacter, 1)]);
}

#[test]
fn long_unterminated_string_is_unterminated() {
    let text = format!("\"{}\n", "a".repeat(2000));
    assert_eq!(tokenize(&text), vec![error(ScannerErrorKind::UnterminatedStringConstant, 1)]);
}
