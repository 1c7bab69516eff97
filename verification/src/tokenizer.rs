//! From lexemes to tokens: what each lexeme stands for in the output.

use vstd::prelude::*;
use vstd::slice::slice_subrange;
use vstd::string::*;
use crate::chars::{is_lower, is_upper};
use crate::error::{ScannerError, ScannerErrorKind, ScannerErrorView};
use crate::grammar::{lexemes, LexemeView, Rule};
use crate::laws::{law_lines_begin_at_one, law_lines_never_decrease, law_no_unknown_item};
use crate::parser::{lexeme_views, CoolParser, Lexeme, LineRange};
use crate::text::chars_of;
use crate::token::{
    parse_bool, spec_parse_bool, Keyword, Operator, Token, TokenKind, TokenKindView, TokenView,
};

verus! {

/// An item of the output as a mathematical value: a token or an error.
pub type ItemView = Result<TokenView, ScannerErrorView>;

/// The most characters that a string constant may stand for.
pub const MAX_STRING_LENGTH: usize = 1024;

/// An item of the output as a mathematical value.
pub open spec fn item_view<'a>(item: Result<Token<'a>, ScannerError>) -> ItemView {
    match item {
        Ok(token) => Ok(token@),
        Err(error) => Err(error@),
    }
}

/// The items of a vector as mathematical values.
pub open spec fn item_views<'a>(items: Seq<Result<Token<'a>, ScannerError>>) -> Seq<ItemView> {
    items.map_values(|item: Result<Token<'a>, ScannerError>| item_view(item))
}

/// The line number that an item carries.
pub open spec fn line_of(item: ItemView) -> nat {
    match item {
        Ok(token) => token.line_number,
        Err(error) => error.line_number,
    }
}

/// Whether an item is the error for a lexeme of unknown form.
pub open spec fn is_unknown(item: ItemView) -> bool {
    item matches Err(error) && error.kind == ScannerErrorKind::Unknown
}

/// The token of kind `kind` for a lexeme; it stands on the lexeme's last
/// line.
pub open spec fn token(kind: TokenKindView, lexeme: LexemeView) -> ItemView {
    Ok(TokenView { kind, line_number: lexeme.end_line })
}

/// The error of kind `kind` for a lexeme; it stands on the lexeme's last
/// line.
pub open spec fn error(kind: ScannerErrorKind, lexeme: LexemeView) -> ItemView {
    Err(ScannerErrorView { kind, line_number: lexeme.end_line })
}

/// The item for a boolean constant. A lexeme that spells none is unknown.
pub open spec fn bool_item(lexeme: LexemeView) -> ItemView {
    match spec_parse_bool(lexeme.text) {
        Some(value) => token(TokenKindView::BoolConstant(value), lexeme),
        None => Err(ScannerErrorView::unknown(lexeme.start_line)),
    }
}

/// The item for an identifier: a type identifier where it begins with an
/// upper-case letter, an object identifier where it begins with a lower-case
/// letter or an underscore. Any other lexeme is unknown.
pub open spec fn identifier_item(lexeme: LexemeView) -> ItemView {
    if lexeme.text.len() > 0 && is_upper(lexeme.text[0]) {
        token(TokenKindView::TypeId(lexeme.text), lexeme)
    } else if lexeme.text.len() > 0 && (is_lower(lexeme.text[0]) || lexeme.text[0] == '_') {
        token(TokenKindView::ObjectId(lexeme.text), lexeme)
    } else {
        Err(ScannerErrorView::unknown(lexeme.start_line))
    }
}

/// The item for an integer constant: its digits as they are written.
pub open spec fn int_item(lexeme: LexemeView) -> ItemView {
    token(TokenKindView::UnparsedIntConstant(lexeme.text), lexeme)
}

/// The item for a keyword. A lexeme that spells none is unknown.
pub open spec fn keyword_item(lexeme: LexemeView) -> ItemView {
    match Keyword::spec_parse(lexeme.text) {
        Some(keyword) => token(TokenKindView::Keyword(keyword), lexeme),
        None => Err(ScannerErrorView::unknown(lexeme.start_line)),
    }
}

/// The item for an operator. A lexeme that spells none is unknown.
pub open spec fn operator_item(lexeme: LexemeView) -> ItemView {
    match Operator::spec_parse(lexeme.text) {
        Some(operator) => token(TokenKindView::Operator(operator), lexeme),
        None => Err(ScannerErrorView::unknown(lexeme.start_line)),
    }
}

/// The item for a punctuation symbol: the first character of the lexeme. An
/// empty lexeme is unknown.
pub open spec fn symbol_item(lexeme: LexemeView) -> ItemView {
    if lexeme.text.len() > 0 {
        token(TokenKindView::Symbol(lexeme.text[0]), lexeme)
    } else {
        Err(ScannerErrorView::unknown(lexeme.start_line))
    }
}

/// The character that stands behind a backslash in a string literal for the
/// escape sequences `\n`, `\t`, `\b` and `\f`; any other character behind a
/// backslash stands for itself.
pub open spec fn unescape(c: char) -> char {
    if c == 'n' {
        '\n'
    } else if c == 't' {
        '\t'
    } else if c == 'b' {
        '\u{8}'
    } else if c == 'f' {
        '\u{c}'
    } else {
        c
    }
}

/// A character that stands for itself in the body of a string literal: any
/// but the double quote, the backslash, the null character and the line feed.
pub open spec fn is_plain(c: char) -> bool {
    c != '"' && c != '\\' && c != '\0' && c != '\n'
}

/// The character that one element of a string literal's body stands for. An
/// element is a plain character, or a backslash and the character behind it,
/// which is not the null character. `None` for anything else.
pub open spec fn element_char(element: Seq<char>) -> Option<char> {
    if element.len() == 1 && is_plain(element[0]) {
        Some(element[0])
    } else if element.len() == 2 && element[0] == '\\' && element[1] != '\0' {
        Some(unescape(element[1]))
    } else {
        None
    }
}

/// The length of the element of a string literal's body that begins at
/// `pos`, where the body ends at `end`.
pub open spec fn element_len(text: Seq<char>, pos: int, end: int) -> int {
    if text[pos] == '\\' && pos + 1 < end {
        2
    } else {
        1
    }
}

/// The characters that the body of a string literal between `pos` and `end`
/// stands for, element by element. `None` if one of them is no element.
pub open spec fn decode(text: Seq<char>, pos: int, end: int) -> Option<Seq<char>>
    decreases end - pos,
{
    if pos >= end {
        Some(Seq::empty())
    } else {
        let next = pos + element_len(text, pos, end);
        match (element_char(text.subrange(pos, next)), decode(text, next, end)) {
            (Some(c), Some(rest)) => Some(seq![c] + rest),
            _ => None,
        }
    }
}

/// Whether a text begins and ends with a double quote, each its own.
pub open spec fn is_quoted(text: Seq<char>) -> bool {
    text.len() >= 2 && text[0] == '"' && text[text.len() - 1] == '"'
}

/// The item for a string literal: the characters that its body stands for,
/// or an error where these are more than 1024. A lexeme that is no complete
/// string literal is unknown.
pub open spec fn string_item(lexeme: LexemeView) -> ItemView {
    if is_quoted(lexeme.text) {
        match decode(lexeme.text, 1, lexeme.text.len() - 1) {
            Some(chars) => if chars.len() > MAX_STRING_LENGTH {
                error(ScannerErrorKind::StringConstantTooLong, lexeme)
            } else {
                token(TokenKindView::StringConstant(chars), lexeme)
            },
            None => Err(ScannerErrorView::unknown(lexeme.end_line)),
        }
    } else {
        Err(ScannerErrorView::unknown(lexeme.end_line))
    }
}

/// The error for a character that begins no lexeme: it names the first
/// character of the lexeme, or the null character for an empty one.
pub open spec fn invalid_char_item(lexeme: LexemeView) -> ItemView {
    error(
        ScannerErrorKind::InvalidCharacter(
            if lexeme.text.len() > 0 {
                lexeme.text[0]
            } else {
                '\0'
            },
        ),
        lexeme,
    )
}

/// The item that a lexeme yields, by its rule.
pub open spec fn item_of(lexeme: LexemeView) -> ItemView {
    match lexeme.rule {
        Rule::BoolConst => bool_item(lexeme),
        Rule::IntConst => int_item(lexeme),
        Rule::Identifier => identifier_item(lexeme),
        Rule::Keyword => keyword_item(lexeme),
        Rule::Operator => operator_item(lexeme),
        Rule::StrConst => string_item(lexeme),
        Rule::Symbol => symbol_item(lexeme),
        Rule::ErrorEofInComment => error(ScannerErrorKind::EofInComment, lexeme),
        Rule::ErrorUnclosedComment => error(ScannerErrorKind::UnclosedComment, lexeme),
        Rule::ErrorEofInStr => error(ScannerErrorKind::EofInStringConstant, lexeme),
        Rule::ErrorUnterminatedStr => error(ScannerErrorKind::UnterminatedStringConstant, lexeme),
        Rule::ErrorEscapedNullInStr => error(
            ScannerErrorKind::StringContainsEscapedNullCharacter,
            lexeme,
        ),
        Rule::ErrorNullInStr => error(ScannerErrorKind::StringContainsNullCharacter, lexeme),
        Rule::ErrorInvalidChar => invalid_char_item(lexeme),
    }
}

/// The items that a sequence of lexemes yields, one for one.
pub open spec fn items_of(lexemes: Seq<LexemeView>) -> Seq<ItemView> {
    lexemes.map_values(|lexeme: LexemeView| item_of(lexeme))
}

/// The tokens and errors of a source text, in the order of the text.
pub open spec fn scan(s: Seq<char>) -> Seq<ItemView> {
    items_of(lexemes(s))
}

fn ok<'a>(kind: TokenKind<'a>, lexeme: Lexeme<'a>) -> (item: Result<Token<'a>, ScannerError>)
    ensures
        item_view(item) == token(kind@, lexeme@),
{
    Ok(Token { kind, line_number: lexeme.end_line() })
}

fn fail<'a>(kind: ScannerErrorKind, lexeme: Lexeme<'a>) -> (item: Result<Token<'a>, ScannerError>)
    ensures
        item_view(item) == error(kind, lexeme@),
{
    Err(ScannerError { kind, line_number: lexeme.end_line() })
}

fn unknown<'a>(line_number: usize) -> (item: Result<Token<'a>, ScannerError>)
    ensures
        item_view(item) == Err::<TokenView, ScannerErrorView>(
            ScannerErrorView::unknown(line_number as nat),
        ),
{
    Err(ScannerError::new_unknown_error(line_number))
}

/// The token for a boolean constant, `true` or `false` behind a first
/// letter in lower case; the error for an unknown lexeme where the lexeme
/// spells neither.
pub fn tokenize_bool_const<'a>(bool_const: Lexeme<'a>) -> (item: Result<Token<'a>, ScannerError>)
    ensures
        item_view(item) == bool_item(bool_const@),
{
    match parse_bool(bool_const.text) {
        Some(value) => ok(TokenKind::BoolConstant(value), bool_const),
        None => unknown(bool_const.start_line()),
    }
}

/// The token for an identifier: a type identifier where the lexeme begins
/// in upper case, an object identifier where it begins in lower case or
/// with an underscore; the error for an unknown lexeme where it begins
/// otherwise or is empty.
pub fn tokenize_identifier<'a>(identifier: Lexeme<'a>) -> (item: Result<Token<'a>, ScannerError>)
    ensures
        item_view(item) == identifier_item(identifier@),
{
    let value = identifier.text;
    if value.unicode_len() == 0 {
        return unknown(identifier.start_line());
    }
    let first = value.get_char(0);
    if is_upper(first) {
        ok(TokenKind::TypeId(value), identifier)
    } else if is_lower(first) || first == '_' {
        ok(TokenKind::ObjectId(value), identifier)
    } else {
        unknown(identifier.start_line())
    }
}

/// The token for an integer constant. It carries the digits as they are
/// written; their value is not computed.
pub fn tokenize_int_const<'a>(int_const: Lexeme<'a>) -> (item: Result<Token<'a>, ScannerError>)
    ensures
        item_view(item) == int_item(int_const@),
{
    ok(TokenKind::UnparsedIntConstant(int_const.text), int_const)
}

/// The token for a keyword in any mix of upper and lower case; the error
/// for an unknown lexeme where the lexeme spells no keyword.
pub fn tokenize_keyword<'a>(keyword: Lexeme<'a>) -> (item: Result<Token<'a>, ScannerError>)
    ensures
        item_view(item) == keyword_item(keyword@),
{
    match Keyword::parse(keyword.text) {
        Some(word) => ok(TokenKind::Keyword(word), keyword),
        None => unknown(keyword.start_line()),
    }
}

/// The token for an operator; the error for an unknown lexeme where the
/// lexeme spells no operator.
pub fn tokenize_operator<'a>(operator: Lexeme<'a>) -> (item: Result<Token<'a>, ScannerError>)
    ensures
        item_view(item) == operator_item(operator@),
{
    match Operator::parse(operator.text) {
        Some(op) => ok(TokenKind::Operator(op), operator),
        None => unknown(operator.start_line()),
    }
}

/// The token for a punctuation symbol: the first character of the lexeme;
/// the error for an unknown lexeme where the lexeme is empty.
pub fn tokenize_symbol<'a>(symbol: Lexeme<'a>) -> (item: Result<Token<'a>, ScannerError>)
    ensures
        item_view(item) == symbol_item(symbol@),
{
    if symbol.text.unicode_len() > 0 {
        ok(TokenKind::Symbol(symbol.text.get_char(0)), symbol)
    } else {
        unknown(symbol.start_line())
    }
}

/// The character that one element of a string literal's body stands for.
pub fn char_of_str_element(str_element: &[char]) -> (c: Option<char>)
    ensures
        c == element_char(str_element@),
{
    if str_element.len() == 1 {
        let plain = str_element[0];
        if plain != '"' && plain != '\\' && plain != '\0' && plain != '\n' {
            Some(plain)
        } else {
            None
        }
    } else if str_element.len() == 2 && str_element[0] == '\\' {
        let escaped = str_element[1];
        if escaped == '\0' {
            None
        } else if escaped == 'n' {
            Some('\n')
        } else if escaped == 't' {
            Some('\t')
        } else if escaped == 'b' {
            Some('\u{8}')
        } else if escaped == 'f' {
            Some('\u{c}')
        } else {
            Some(escaped)
        }
    } else {
        None
    }
}

/// The token for a string literal, which carries the characters that the
/// literal stands for; the error for a string that is too long where these
/// are more than 1024; the error for an unknown lexeme where the lexeme is
/// no complete string literal.
pub fn tokenize_str_const<'a>(str_const: Lexeme<'a>) -> (item: Result<Token<'a>, ScannerError>)
    ensures
        item_view(item) == string_item(str_const@),
{
    let text = chars_of(str_const.text);
    let n = text.len();
    if n < 2 || text[0] != '"' || text[n - 1] != '"' {
        return unknown(str_const.end_line());
    }
    let end = n - 1;
    let mut characters: Vec<char> = Vec::new();
    let mut i: usize = 1;
    while i < end
        invariant
            n == text.len(),
            end == n - 1,
            1 <= i <= end,
            text@ == str_const.text@,
            decode(text@, 1, end as int) == match decode(text@, i as int, end as int) {
                Some(rest) => Some(characters@ + rest),
                None => None,
            },
        decreases end - i,
    {
        let next = if text[i] == '\\' && i + 1 < end {
            i + 2
        } else {
            i + 1
        };
        match char_of_str_element(slice_subrange(text.as_slice(), i, next)) {
            Some(c) => {
                proof {
                    let rest = decode(text@, next as int, end as int);
                    if rest is Some {
                        assert(characters@ + (seq![c] + rest->0) =~= characters@.push(c) + rest->0);
                    }
                }
                characters.push(c);
            },
            None => {
                return unknown(str_const.end_line());
            },
        }
        i = next;
    }
    assert(characters@ + Seq::<char>::empty() =~= characters@);
    if characters.len() > MAX_STRING_LENGTH {
        return fail(ScannerErrorKind::StringConstantTooLong, str_const);
    }
    ok(TokenKind::StringConstant(characters), str_const)
}

/// The item that a lexeme yields.
pub fn tokenize_lexeme<'a>(lexeme: Lexeme<'a>) -> (item: Result<Token<'a>, ScannerError>)
    ensures
        item_view(item) == item_of(lexeme@),
{
    match lexeme.rule {
        Rule::BoolConst => tokenize_bool_const(lexeme),
        Rule::IntConst => tokenize_int_const(lexeme),
        Rule::Identifier => tokenize_identifier(lexeme),
        Rule::Keyword => tokenize_keyword(lexeme),
        Rule::Operator => tokenize_operator(lexeme),
        Rule::StrConst => tokenize_str_const(lexeme),
        Rule::Symbol => tokenize_symbol(lexeme),
        Rule::ErrorEofInComment => fail(ScannerErrorKind::EofInComment, lexeme),
        Rule::ErrorUnclosedComment => fail(ScannerErrorKind::UnclosedComment, lexeme),
        Rule::ErrorEofInStr => fail(ScannerErrorKind::EofInStringConstant, lexeme),
        Rule::ErrorUnterminatedStr => fail(ScannerErrorKind::UnterminatedStringConstant, lexeme),
        Rule::ErrorEscapedNullInStr => fail(
            ScannerErrorKind::StringContainsEscapedNullCharacter,
            lexeme,
        ),
        Rule::ErrorNullInStr => fail(ScannerErrorKind::StringContainsNullCharacter, lexeme),
        Rule::ErrorInvalidChar => {
            let invalid_char = if lexeme.text.unicode_len() > 0 {
                lexeme.text.get_char(0)
            } else {
                '\0'
            };
            fail(ScannerErrorKind::InvalidCharacter(invalid_char), lexeme)
        },
    }
}

/// Scans a source text: its tokens and lexical errors, in the order of the
/// text, each with the line on which it ends. Lines are counted from 1, and
/// the line numbers never decrease from one item to the next. No item is the
/// error for an unknown lexeme.
pub fn tokenize<'a>(text: &'a str) -> (tokens: Vec<Result<Token<'a>, ScannerError>>)
    ensures
        item_views(tokens@) == scan(text@),
        forall|i: int| 0 <= i < tokens.len() ==> line_of(item_view(#[trigger] tokens[i])) >= 1,
        forall|i: int, j: int|
            0 <= i <= j < tokens.len() ==> line_of(item_view(#[trigger] tokens[i])) <= line_of(
                item_view(#[trigger] tokens[j]),
            ),
        forall|i: int| 0 <= i < tokens.len() ==> !is_unknown(item_view(#[trigger] tokens[i])),
{
    let found = CoolParser::parse(text);
    let mut tokens: Vec<Result<Token<'a>, ScannerError>> = Vec::new();
    let mut i: usize = 0;
    while i < found.len()
        invariant
            i <= found.len(),
            tokens.len() == i,
            forall|j: int| 0 <= j < i ==> item_view(#[trigger] tokens[j]) == item_of(found[j]@),
        decreases found.len() - i,
    {
        let token = tokenize_lexeme(found[i]);
        tokens.push(token);
        i += 1;
    }
    proof {
        assert(item_views(tokens@) =~= items_of(lexeme_views(found@)));
        assert forall|i: int| 0 <= i < tokens.len() implies item_view(#[trigger] tokens[i])
            == scan(text@)[i] by {
            assert(item_views(tokens@)[i] == item_view(tokens[i]));
        }
        assert forall|i: int| 0 <= i < tokens.len() implies line_of(
            item_view(#[trigger] tokens[i]),
        ) >= 1 && !is_unknown(item_view(tokens[i])) by {
            law_lines_begin_at_one(text@, i);
            law_no_unknown_item(text@, i);
        }
        assert forall|i: int, j: int| 0 <= i <= j < tokens.len() implies line_of(
            item_view(#[trigger] tokens[i]),
        ) <= line_of(item_view(#[trigger] tokens[j])) by {
            law_lines_never_decrease(text@, i, j);
        }
    }
    tokens
}

} // verus!
