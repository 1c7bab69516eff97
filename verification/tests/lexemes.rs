use scanner::grammar::Rule;
use scanner::parser::{classify_word, Lexeme};
use scanner::token::{Keyword, Operator, Token, TokenKind};
use scanner::tokenizer::{
    char_of_str_element, tokenize_bool_const, tokenize_identifier, tokenize_int_const,
    tokenize_keyword, tokenize_lexeme, tokenize_operator, tokenize_str_const, tokenize_symbol,
};
use scanner::{CoolParser, LineRange, ScannerError, ScannerErrorKind};

fn lexeme(rule: Rule, text: &str, start_line: usize, end_line: usize) -> Lexeme<'_> {
    Lexeme { rule, text, start_line, end_line }
}

fn token(kind: TokenKind<'static>, line_number: usize) -> Result<Token<'static>, ScannerError> {
    Ok(Token { kind, line_number })
}

fn unknown(line_number: usize) -> Result<Token<'static>, ScannerError> {
    Err(ScannerError { kind: ScannerErrorKind::Unknown, line_number })
}

#[test]
fn parse_cuts_the_text_into_lexemes() {
    let text = "class A -- c\n  \"s\\\nt\" (* x\n *) <= 12 ? *) \"u\n(*\n";
    assert_eq!(
        CoolParser::parse(text),
        vec![
            lexeme(Rule::Keyword, "class", 1, 1),
            lexeme(Rule::Identifier, "A", 1, 1),
            lexeme(Rule::StrConst, "\"s\\\nt\"", 2, 3),
            lexeme(Rule::Operator, "<=", 4, 4),
            lexeme(Rule::IntConst, "12", 4, 4),
            lexeme(Rule::ErrorInvalidChar, "?", 4, 4),
            lexeme(Rule::ErrorUnclosedComment, "*)", 4, 4),
            lexeme(Rule::ErrorUnterminatedStr, "\"u", 4, 4),
            lexeme(Rule::ErrorEofInComment, "(*\n", 5, 6),
        ]
    );
}

#[test]
fn parse_tells_the_string_errors_apart() {
    assert_eq!(CoolParser::parse("\"a"), vec![lexeme(Rule::ErrorEofInStr, "\"a", 1, 1)]);
    assert_eq!(
        CoolParser::parse("\"a\0\" ;"),
        vec![lexeme(Rule::ErrorNullInStr, "\"a\0\"", 1, 1), lexeme(Rule::Symbol, ";", 1, 1)]
    );
    assert_eq!(
        CoolParser::parse("\"a\\\0\nb"),
        vec![
            lexeme(Rule::ErrorEscapedNullInStr, "\"a\\\0", 1, 1),
            lexeme(Rule::Identifier, "b", 2, 2)
        ]
    );
    assert_eq!(CoolParser::parse("true"), vec![lexeme(Rule::BoolConst, "true", 1, 1)]);
}

#[test]
fn line_range_of_a_lexeme() {
    let found = lexeme(Rule::StrConst, "\"a\\\nb\"", 4, 5);
    assert_eq!(found.start_line(), 4);
    assert_eq!(found.end_line(), 5);
}

#[test]
fn words_are_classified() {
    assert_eq!(classify_word("true"), Rule::BoolConst);
    assert_eq!(classify_word("fALSE"), Rule::BoolConst);
    assert_eq!(classify_word("False"), Rule::Identifier);
    assert_eq!(classify_word("Inherits"), Rule::Keyword);
    assert_eq!(classify_word("inherit"), Rule::Identifier);
    assert_eq!(classify_word(""), Rule::Identifier);
}

#[test]
fn bool_const_of_lexeme() {
    assert_eq!(
        tokenize_bool_const(lexeme(Rule::BoolConst, "tRue", 3, 4)),
        token(TokenKind::BoolConstant(true), 4)
    );
    assert_eq!(
        tokenize_bool_const(lexeme(Rule::BoolConst, "false", 3, 3)),
        token(TokenKind::BoolConstant(false), 3)
    );
    assert_eq!(tokenize_bool_const(lexeme(Rule::BoolConst, "True", 3, 4)), unknown(3));
    assert_eq!(tokenize_bool_const(lexeme(Rule::BoolConst, "", 3, 4)), unknown(3));
    assert_eq!(tokenize_bool_const(lexeme(Rule::BoolConst, "tru", 3, 4)), unknown(3));
}

#[test]
fn identifier_of_lexeme() {
    assert_eq!(
        tokenize_identifier(lexeme(Rule::Identifier, "Abc", 2, 2)),
        token(TokenKind::TypeId("Abc"), 2)
    );
    assert_eq!(
        tokenize_identifier(lexeme(Rule::Identifier, "abc", 2, 2)),
        token(TokenKind::ObjectId("abc"), 2)
    );
    assert_eq!(
        tokenize_identifier(lexeme(Rule::Identifier, "_a", 2, 2)),
        token(TokenKind::ObjectId("_a"), 2)
    );
    assert_eq!(tokenize_identifier(lexeme(Rule::Identifier, "1a", 2, 5)), unknown(2));
    assert_eq!(tokenize_identifier(lexeme(Rule::Identifier, "", 2, 5)), unknown(2));
}

#[test]
fn int_const_of_lexeme() {
    assert_eq!(
        tokenize_int_const(lexeme(Rule::IntConst, "0012", 8, 8)),
        token(TokenKind::UnparsedIntConstant("0012"), 8)
    );
}

#[test]
fn keyword_of_lexeme() {
    assert_eq!(
        tokenize_keyword(lexeme(Rule::Keyword, "ESAC", 1, 1)),
        token(TokenKind::Keyword(Keyword::Esac), 1)
    );
    assert_eq!(tokenize_keyword(lexeme(Rule::Keyword, "esacs", 6, 7)), unknown(6));
}

#[test]
fn operator_of_lexeme() {
    assert_eq!(
        tokenize_operator(lexeme(Rule::Operator, "<-", 1, 1)),
        token(TokenKind::Operator(Operator::Assign), 1)
    );
    assert_eq!(
        tokenize_operator(lexeme(Rule::Operator, "~", 1, 1)),
        token(TokenKind::Operator(Operator::Tilda), 1)
    );
    assert_eq!(tokenize_operator(lexeme(Rule::Operator, ">=", 6, 7)), unknown(6));
    assert_eq!(tokenize_operator(lexeme(Rule::Operator, "", 6, 7)), unknown(6));
}

#[test]
fn symbol_of_lexeme() {
    assert_eq!(
        tokenize_symbol(lexeme(Rule::Symbol, "{", 1, 1)),
        token(TokenKind::Symbol('{'), 1)
    );
    assert_eq!(tokenize_symbol(lexeme(Rule::Symbol, "", 6, 7)), unknown(6));
}

#[test]
fn elements_of_a_string() {
    assert_eq!(char_of_str_element(&['a']), Some('a'));
    assert_eq!(char_of_str_element(&['\t']), Some('\t'));
    assert_eq!(char_of_str_element(&['\\', 'n']), Some('\n'));
    assert_eq!(char_of_str_element(&['\\', 't']), Some('\t'));
    assert_eq!(char_of_str_element(&['\\', 'b']), Some('\u{8}'));
    assert_eq!(char_of_str_element(&['\\', 'f']), Some('\u{c}'));
    assert_eq!(char_of_str_element(&['\\', '\n']), Some('\n'));
    assert_eq!(char_of_str_element(&['\\', '"']), Some('"'));
    assert_eq!(char_of_str_element(&['\\', '\\']), Some('\\'));
    assert_eq!(char_of_str_element(&['\\', 'x']), Some('x'));
    assert_eq!(char_of_str_element(&['\\', '0']), Some('0'));
    assert_eq!(char_of_str_element(&[]), None);
    assert_eq!(char_of_str_element(&['"']), None);
    assert_eq!(char_of_str_element(&['\\']), None);
    assert_eq!(char_of_str_element(&['\0']), None);
    assert_eq!(char_of_str_element(&['\n']), None);
    assert_eq!(char_of_str_element(&['\\', '\0']), None);
    assert_eq!(char_of_str_element(&['a', 'b']), None);
    assert_eq!(char_of_str_element(&['\\', 'a', 'b']), None);
}

#[test]
fn str_const_of_lexeme() {
    assert_eq!(
        tokenize_str_const(lexeme(Rule::StrConst, "\"a\\tb\"", 2, 3)),
        token(TokenKind::StringConstant(vec!['a', '\t', 'b']), 3)
    );
    assert_eq!(
        tokenize_str_const(lexeme(Rule::StrConst, "\"\"", 2, 2)),
        token(TokenKind::StringConstant(vec![]), 2)
    );
}

#[test]
fn str_const_of_a_lexeme_that_is_no_string() {
    for text in ["", "\"", "abc", "\"abc", "abc\"", "\"a\"b\"", "\"a\nb\"", "\"a\0b\"", "\"a\\\0b\"", "\"a\\\""] {
        assert_eq!(tokenize_str_const(lexeme(Rule::StrConst, text, 2, 3)), unknown(3));
    }
}

#[test]
fn item_of_lexeme_by_rule() {
    assert_eq!(
        tokenize_lexeme(lexeme(Rule::Keyword, "if", 1, 1)),
        token(TokenKind::Keyword(Keyword::If), 1)
    );
    assert_eq!(
        tokenize_lexeme(lexeme(Rule::Identifier, "if", 1, 1)),
        token(TokenKind::ObjectId("if"), 1)
    );
    let errors = [
        (Rule::ErrorEofInComment, ScannerErrorKind::EofInComment),
        (Rule::ErrorUnclosedComment, ScannerErrorKind::UnclosedComment),
        (Rule::ErrorEofInStr, ScannerErrorKind::EofInStringConstant),
        (Rule::ErrorUnterminatedStr, ScannerErrorKind::UnterminatedStringConstant),
        (Rule::ErrorEscapedNullInStr, ScannerErrorKind::StringContainsEscapedNullCharacter),
        (Rule::ErrorNullInStr, ScannerErrorKind::StringContainsNullCharacter),
    ];
    for (rule, kind) in errors {
        assert_eq!(
            tokenize_lexeme(lexeme(rule, "anything", 4, 6)),
            Err(ScannerError { kind, line_number: 6 })
        );
    }
    assert_eq!(
        tokenize_lexeme(lexeme(Rule::ErrorInvalidChar, "#", 4, 4)),
        Err(ScannerError { kind: ScannerErrorKind::InvalidCharacter('#'), line_number: 4 })
    );
    assert_eq!(
        tokenize_lexeme(lexeme(Rule::ErrorInvalidChar, "", 4, 4)),
        Err(ScannerError { kind: ScannerErrorKind::InvalidCharacter('\0'), line_number: 4 })
    );
}
