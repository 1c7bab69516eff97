use scanner::token::{Keyword, Token, TokenKind};
use scanner::{tokenize, ScannerError, ScannerErrorKind};

const SAMPLE: &str = "class Main inherits IO {\n  (* a comment\n     over lines *)\n  main() : Object {\n    out_string(\"one\\\ntwo\") -- trailing\n  };\n  x : Int <- 007 <= ~y;\n  \"unterminated\n  \"nul \0 here\" ok ? *)\n  \"too\\\n  long\\\n  lines\"\n};\n(* open\n\n";

fn line_of(item: &Result<Token<'_>, ScannerError>) -> usize {
    match item {
        Ok(token) => token.line_number,
        Err(error) => error.line_number,
    }
}

fn text_of(item: &Result<Token<'_>, ScannerError>) -> String {
    match item {
        Ok(token) => token.to_string(),
        Err(error) => error.to_string(),
    }
}

/// `#`, digits, a space, a tag without a space, then nothing or a space
/// and whatever follows.
fn has_line_form(line: &str) -> bool {
    let chars: Vec<char> = line.chars().collect();
    if chars.first() != Some(&'#') {
        return false;
    }
    let mut i = 1;
    while i < chars.len() && chars[i].is_ascii_digit() {
        i += 1;
    }
    if i == 1 || i >= chars.len() || chars[i] != ' ' {
        return false;
    }
    let tag_start = i + 1;
    let mut j = tag_start;
    while j < chars.len() && chars[j] != ' ' {
        j += 1;
    }
    j > tag_start
}

#[test]
fn line_numbers_never_decrease() {
    let items = tokenize(SAMPLE);
    assert!(items.len() > 30);
    for pair in items.windows(2) {
        assert!(line_of(&pair[0]) <= line_of(&pair[1]));
    }
    assert_eq!(line_of(&items[0]), 1);
    assert_eq!(line_of(&items[items.len() - 1]), 17);
}

#[test]
fn no_item_is_on_line_zero() {
    for text in [SAMPLE, "x", "\"", "(*", "*)", "\0", "\n\n\nx"] {
        for item in tokenize(text) {
            assert!(line_of(&item) >= 1);
        }
    }
}

#[test]
fn no_item_is_unknown() {
    for item in tokenize(SAMPLE) {
        assert!(!matches!(item, Err(ScannerError { kind: ScannerErrorKind::Unknown, .. })));
    }
}

#[test]
fn every_line_of_a_listing_has_the_form_of_an_item() {
    let items = tokenize(SAMPLE);
    for item in &items {
        let line = text_of(item);
        assert!(has_line_form(&line), "{}", line);
        assert!(!line.contains('\n'));
    }
    assert!(!has_line_form("#name \"file\""));
    assert!(!has_line_form("#12"));
    assert!(!has_line_form("# 12 IF"));
    assert!(has_line_form("#12 IF"));
}

#[test]
fn errors_of_the_sample() {
    let errors: Vec<String> =
        tokenize(SAMPLE).iter().filter(|item| item.is_err()).map(text_of).collect();
    assert_eq!(
        errors,
        vec![
            "#9 ERROR \"Unterminated string constant\"",
            "#10 ERROR \"String contains null character.\"",
            "#10 ERROR \"?\"",
            "#10 ERROR \"Unmatched *)\"",
            "#17 ERROR \"EOF in comment\"",
        ]
    );
}

#[test]
fn a_single_keyword_is_one_token_on_its_line() {
    let keywords = [
        ("class", Keyword::Class, "CLASS"),
        ("Else", Keyword::Else, "ELSE"),
        ("FI", Keyword::Fi, "FI"),
        ("iF", Keyword::If, "IF"),
        ("in", Keyword::In, "IN"),
        ("INHERITS", Keyword::Inherits, "INHERITS"),
        ("let", Keyword::Let, "LET"),
        ("lOOp", Keyword::Loop, "LOOP"),
        ("pool", Keyword::Pool, "POOL"),
        ("Then", Keyword::Then, "THEN"),
        ("while", Keyword::While, "WHILE"),
        ("CASE", Keyword::Case, "CASE"),
        ("esac", Keyword::Esac, "ESAC"),
        ("oF", Keyword::Of, "OF"),
        ("new", Keyword::New, "NEW"),
        ("IsVoid", Keyword::IsVoid, "ISVOID"),
        ("not", Keyword::Not, "NOT"),
    ];
    let paddings = [("", "", 1), (" \t", "\n", 1), ("\n\r\n", " ", 3), ("\n\u{b}\n\u{c}\n\n", "\n\n", 5)];
    for (word, keyword, tag) in keywords {
        for (before, after, line) in paddings {
            let text = format!("{}{}{}", before, word, after);
            let items = tokenize(&text);
            assert_eq!(
                items,
                vec![Ok(Token { kind: TokenKind::Keyword(keyword), line_number: line })]
            );
            assert_eq!(text_of(&items[0]), format!("#{} {}", line, tag));
        }
    }
}

#[test]
fn a_string_constant_comes_back_from_its_listing() {
    let strings = [
        "",
        "plain text",
        "quote \" backslash \\ done",
        "line\nfeed\ttab\u{8}back\u{c}feed",
        "\\n is not a line feed",
        "n t b f 0",
        "ends with a backslash \\",
        "\"",
        "control \u{5}\u{7f} and é",
    ];
    for content in strings {
        let chars: Vec<char> = content.chars().collect();
        let token = Token { kind: TokenKind::StringConstant(chars.clone()), line_number: 1 };
        let shown = token.kind.to_string();
        let literal = shown.strip_prefix("STR_CONST ").unwrap();
        assert_eq!(
            tokenize(literal),
            vec![Ok(Token { kind: TokenKind::StringConstant(chars), line_number: 1 })]
        );
    }
}

#[test]
fn a_string_of_1024_escaped_characters_comes_back() {
    let chars: Vec<char> = "\"\\\n\t".chars().cycle().take(1024).collect();
    let shown = TokenKind::StringConstant(chars.clone()).to_string();
    let literal = shown.strip_prefix("STR_CONST ").unwrap();
    assert_eq!(literal.chars().count(), 2 + 2 * 1024);
    assert_eq!(
        tokenize(literal),
        vec![Ok(Token { kind: TokenKind::StringConstant(chars), line_number: 1 })]
    );
}

#[test]
fn a_character_written_in_octal_does_not_come_back() {
    let chars = vec!['\u{1}'];
    let shown = TokenKind::StringConstant(chars).to_string();
    assert_eq!(shown, "STR_CONST \"\\001\"");
    let literal = shown.strip_prefix("STR_CONST ").unwrap();
    assert_eq!(
        tokenize(literal),
        vec![Ok(Token { kind: TokenKind::StringConstant(vec!['0', '0', '1']), line_number: 1 })]
    );
}
