use scanner::token::{escaped_str_of_char, Keyword, Operator, Token, TokenKind};
use scanner::{ScannerError, ScannerErrorKind};

#[test]
fn keyword_tags() {
    let tags = [
        (Keyword::Class, "CLASS"),
        (Keyword::Else, "ELSE"),
        (Keyword::Fi, "FI"),
        (Keyword::If, "IF"),
        (Keyword::In, "IN"),
        (Keyword::Inherits, "INHERITS"),
        (Keyword::Let, "LET"),
        (Keyword::Loop, "LOOP"),
        (Keyword::Pool, "POOL"),
        (Keyword::Then, "THEN"),
        (Keyword::While, "WHILE"),
        (Keyword::Case, "CASE"),
        (Keyword::Esac, "ESAC"),
        (Keyword::Of, "OF"),
        (Keyword::New, "NEW"),
        (Keyword::IsVoid, "ISVOID"),
        (Keyword::Not, "NOT"),
    ];
    for (keyword, tag) in tags {
        assert_eq!(keyword.to_string(), tag);
        assert_eq!(TokenKind::Keyword(keyword).to_string(), tag);
        assert_eq!(Keyword::parse(&tag.to_lowercase()), Some(keyword));
        assert_eq!(Keyword::parse(tag), Some(keyword));
    }
}

#[test]
fn words_that_are_no_keywords() {
    assert_eq!(Keyword::parse(""), None);
    assert_eq!(Keyword::parse("true"), None);
    assert_eq!(Keyword::parse("classes"), None);
    assert_eq!(Keyword::parse("clas"), None);
    assert_eq!(Keyword::parse("i f"), None);
}

#[test]
fn operator_tags() {
    let tags = [
        (Operator::Add, "+", "'+'"),
        (Operator::Subtract, "-", "'-'"),
        (Operator::Multiply, "*", "'*'"),
        (Operator::Divide, "/", "'/'"),
        (Operator::Equal, "=", "'='"),
        (Operator::LessThan, "<", "'<'"),
        (Operator::LessThanOrEqual, "<=", "LE"),
        (Operator::Assign, "<-", "ASSIGN"),
        (Operator::Darrow, "=>", "DARROW"),
        (Operator::Dot, ".", "'.'"),
        (Operator::Ampersand, "@", "'@'"),
        (Operator::Tilda, "~", "'~'"),
    ];
    for (operator, text, tag) in tags {
        assert_eq!(operator.to_string(), tag);
        assert_eq!(TokenKind::Operator(operator).to_string(), tag);
        assert_eq!(Operator::parse(text), Some(operator));
    }
    assert_eq!(Operator::parse(""), None);
    assert_eq!(Operator::parse(">"), None);
    assert_eq!(Operator::parse("=="), None);
    assert_eq!(Operator::parse("<=>"), None);
}

#[test]
fn token_kinds_with_a_payload() {
    assert_eq!(TokenKind::BoolConstant(true).to_string(), "BOOL_CONST true");
    assert_eq!(TokenKind::BoolConstant(false).to_string(), "BOOL_CONST false");
    assert_eq!(TokenKind::UnparsedIntConstant("0042").to_string(), "INT_CONST 0042");
    assert_eq!(TokenKind::TypeId("Main").to_string(), "TYPEID Main");
    assert_eq!(TokenKind::ObjectId("main").to_string(), "OBJECTID main");
    assert_eq!(TokenKind::StringConstant(vec![]).to_string(), "STR_CONST \"\"");
    assert_eq!(
        TokenKind::StringConstant("a b".chars().collect()).to_string(),
        "STR_CONST \"a b\""
    );
}

#[test]
fn symbols_are_quoted() {
    for c in ['{', '}', ':', ';', '(', ')', ','] {
        assert_eq!(TokenKind::Symbol(c).to_string(), format!("'{}'", c));
    }
}

#[test]
fn escape_table() {
    let table = [
        ('"', "\\\""),
        ('\\', "\\\\"),
        ('\n', "\\n"),
        ('\t', "\\t"),
        ('\u{8}', "\\b"),
        ('\u{c}', "\\f"),
        ('\u{0}', "\\000"),
        ('\u{1}', "\\001"),
        ('\u{2}', "\\002"),
        ('\u{3}', "\\003"),
        ('\u{4}', "\\004"),
        ('\u{b}', "\\013"),
        ('\u{d}', "\\015"),
        ('\u{12}', "\\022"),
        ('\u{1b}', "\\033"),
    ];
    for (c, escape) in table {
        assert_eq!(escaped_str_of_char(&c), Some(escape));
    }
    for c in ['a', 'Z', '0', ' ', '\'', '/', '\u{5}', '\u{7f}', 'é'] {
        assert_eq!(escaped_str_of_char(&c), None);
    }
}

#[test]
fn string_constants_are_escaped_again() {
    let chars: Vec<char> = "a\"b\\c\nd\te\u{8}f\u{c}g\u{1b}h\u{d}i\u{5}j".chars().collect();
    assert_eq!(
        TokenKind::StringConstant(chars).to_string(),
        "STR_CONST \"a\\\"b\\\\c\\nd\\te\\bf\\fg\\033h\\015i\u{5}j\""
    );
}

#[test]
fn token_lines() {
    let token = Token { kind: TokenKind::Keyword(Keyword::Class), line_number: 1 };
    assert_eq!(token.to_string(), "#1 CLASS");
    let token = Token { kind: TokenKind::ObjectId("x"), line_number: 120 };
    assert_eq!(token.to_string(), "#120 OBJECTID x");
    let token = Token { kind: TokenKind::Symbol(';'), line_number: 9 };
    assert_eq!(token.to_string(), "#9 ';'");
}

#[test]
fn line_numbers_in_decimal() {
    for line_number in [0, 1, 9, 10, 11, 99, 100, 101, 4096, 1234567890, usize::MAX] {
        let token = Token { kind: TokenKind::Operator(Operator::Dot), line_number };
        assert_eq!(token.to_string(), format!("#{} '.'", line_number));
        let error = ScannerError { kind: ScannerErrorKind::UnclosedComment, line_number };
        assert_eq!(error.to_string(), format!("#{} ERROR \"Unmatched *)\"", line_number));
    }
}

#[test]
fn error_messages() {
    let messages = [
        (ScannerErrorKind::EofInComment, "ERROR \"EOF in comment\""),
        (ScannerErrorKind::UnclosedComment, "ERROR \"Unmatched *)\""),
        (ScannerErrorKind::EofInStringConstant, "ERROR \"EOF in string constant\""),
        (ScannerErrorKind::UnterminatedStringConstant, "ERROR \"Unterminated string constant\""),
        (ScannerErrorKind::StringContainsNullCharacter, "ERROR \"String contains null character.\""),
        (
            ScannerErrorKind::StringContainsEscapedNullCharacter,
            "ERROR \"String contains escaped null character.\"",
        ),
        (ScannerErrorKind::StringConstantTooLong, "ERROR \"String constant too long\""),
        (ScannerErrorKind::Unknown, "ERROR \"Unknown\""),
    ];
    for (kind, text) in messages {
        assert_eq!(kind.to_string(), text);
        assert_eq!(ScannerError { kind, line_number: 7 }.to_string(), format!("#7 {}", text));
    }
}

#[test]
fn invalid_characters_are_escaped() {
    assert_eq!(ScannerErrorKind::InvalidCharacter('!').to_string(), "ERROR \"!\"");
    assert_eq!(ScannerErrorKind::InvalidCharacter('\\').to_string(), "ERROR \"\\\\\"");
    assert_eq!(ScannerErrorKind::InvalidCharacter('\0').to_string(), "ERROR \"\\000\"");
    assert_eq!(ScannerErrorKind::InvalidCharacter('\u{1}').to_string(), "ERROR \"\\001\"");
    assert_eq!(ScannerErrorKind::InvalidCharacter('\u{1b}').to_string(), "ERROR \"\\033\"");
    assert_eq!(ScannerErrorKind::InvalidCharacter('>').to_string(), "ERROR \">\"");
}

#[test]
fn unknown_error() {
    let error = ScannerError::new_unknown_error(12);
    assert_eq!(error, ScannerError { kind: ScannerErrorKind::Unknown, line_number: 12 });
    assert_eq!(error.to_string(), "#12 ERROR \"Unknown\"");
}
