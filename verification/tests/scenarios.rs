use scanner::tokenize;

fn listing(text: &str) -> Vec<String> {
    tokenize(text)
        .iter()
        .map(|item| match item {
            Ok(token) => token.to_string(),
            Err(error) => error.to_string(),
        })
        .collect()
}

#[test]
fn class_header() {
    assert_eq!(
        listing("class Foo inherits IO { };"),
        vec!["#1 CLASS", "#1 TYPEID Foo", "#1 INHERITS", "#1 TYPEID IO", "#1 '{'", "#1 '}'", "#1 ';'"]
    );
}

#[test]
fn conditional() {
    assert_eq!(
        listing("if true then 1 else 0 fi"),
        vec!["#1 IF", "#1 BOOL_CONST true", "#1 THEN", "#1 INT_CONST 1", "#1 ELSE", "#1 INT_CONST 0", "#1 FI"]
    );
}

#[test]
fn string_with_escape() {
    assert_eq!(listing("\"hello\\nworld\""), vec!["#1 STR_CONST \"hello\\nworld\""]);
}

#[test]
fn string_cut_by_end_of_input() {
    assert_eq!(listing("\"abc"), vec!["#1 ERROR \"EOF in string constant\""]);
}

#[test]
fn comment_cut_by_end_of_input() {
    assert_eq!(listing("(* a (* b *) c"), vec!["#1 ERROR \"EOF in comment\""]);
}

#[test]
fn stray_comment_close() {
    assert_eq!(listing("\n\n*)"), vec!["#3 ERROR \"Unmatched *)\""]);
}

#[test]
fn two_character_operators() {
    assert_eq!(
        listing("x <- 3 <= 4 => 5"),
        vec!["#1 OBJECTID x", "#1 ASSIGN", "#1 INT_CONST 3", "#1 LE", "#1 INT_CONST 4", "#1 DARROW", "#1 INT_CONST 5"]
    );
}
