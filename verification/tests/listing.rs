use scanner::listing::{item_to_string, scan_listing, write_listing};
use scanner::token::{Keyword, Token, TokenKind};
use scanner::{tokenize, ScannerError, ScannerErrorKind};

#[test]
fn listing_without_items_is_the_header_line() {
    assert_eq!(scan_listing("empty.cl", ""), "#name \"empty.cl\"\n");
    assert_eq!(scan_listing("blank.cl", " \n\t-- nothing\n(* at all *)\n"), "#name \"blank.cl\"\n");
    assert_eq!(write_listing("x", &vec![]), "#name \"x\"\n");
}

#[test]
fn listing_has_one_line_for_each_item() {
    let text = "class Main {\n  x : Int <- 1;\n  s : String <- \"a\\tb\";\n};\n# \"open";
    assert_eq!(
        scan_listing("main.cool", text),
        "#name \"main.cool\"\n\
         #1 CLASS\n\
         #1 TYPEID Main\n\
         #1 '{'\n\
         #2 OBJECTID x\n\
         #2 ':'\n\
         #2 TYPEID Int\n\
         #2 ASSIGN\n\
         #2 INT_CONST 1\n\
         #2 ';'\n\
         #3 OBJECTID s\n\
         #3 ':'\n\
         #3 TYPEID String\n\
         #3 ASSIGN\n\
         #3 STR_CONST \"a\\tb\"\n\
         #3 ';'\n\
         #4 '}'\n\
         #4 ';'\n\
         #5 ERROR \"#\"\n\
         #5 ERROR \"EOF in string constant\"\n"
    );
}

#[test]
fn listing_of_given_items() {
    let items = vec![
        Ok(Token { kind: TokenKind::Keyword(Keyword::If), line_number: 3 }),
        Err(ScannerError { kind: ScannerErrorKind::EofInComment, line_number: 14 }),
    ];
    assert_eq!(item_to_string(&items[0]), "#3 IF");
    assert_eq!(item_to_string(&items[1]), "#14 ERROR \"EOF in comment\"");
    assert_eq!(
        write_listing("a b.cl", &items),
        "#name \"a b.cl\"\n#3 IF\n#14 ERROR \"EOF in comment\"\n"
    );
}

#[test]
fn listing_agrees_with_the_items() {
    let text = "let x <- new Foo in x.bar(1, \"two\") -- done\n*)";
    let items = tokenize(text);
    assert_eq!(scan_listing("f", text), write_listing("f", &items));
}
