//! What holds of every scan: the form of the lexemes, the order of the line
//! numbers, the form of the listing, and two round trips.

use vstd::prelude::*;
use crate::chars::{
    is_blank, is_digit, is_lower, is_name_char, is_name_start, is_upper, to_lower,
};
use crate::error::{ScannerErrorKind, ScannerErrorView};
use crate::grammar::{
    comment_close, lemma_comment_close, lemma_digits_end, lemma_lexeme_extent,
    lemma_line_comment_end, lemma_name_end, lemma_newlines_none, lemma_newlines_split,
    lemma_str_body_end, lemma_str_fault, lexeme, lexeme_extent, lexemes, lexemes_from,
    line_comment_end, name_end, newlines, starts, str_body_end, str_end, str_fault, str_rule,
    LexemeView, Rule,
};
use crate::listing::{has_line_form, is_item_line, item_text};
use crate::text::{decimal, lowercase, uppercase};
use crate::token::{
    escaped, escaped_char, is_symbol, is_written_in_octal, listing_line, spec_parse_bool, Keyword,
    Operator, TokenKindView, TokenView,
};
use crate::tokenizer::{
    decode, element_len, is_plain, is_quoted, is_unknown, item_of, line_of, scan, unescape,
    ItemView, MAX_STRING_LENGTH,
};

verus! {

// The form of the lexemes and the order of the lines.

/// Whether a lexeme has the form that its rule demands.
pub open spec fn conforms(lexeme: LexemeView) -> bool {
    match lexeme.rule {
        Rule::BoolConst => spec_parse_bool(lexeme.text) is Some,
        Rule::IntConst => lexeme.text.len() > 0 && forall|i: int|
            0 <= i < lexeme.text.len() ==> is_digit(#[trigger] lexeme.text[i]),
        Rule::Identifier => lexeme.text.len() > 0 && is_name_start(lexeme.text[0]) && forall|i: int|
            0 <= i < lexeme.text.len() ==> is_name_char(#[trigger] lexeme.text[i]),
        Rule::Keyword => Keyword::spec_parse(lexeme.text) is Some,
        Rule::Operator => Operator::spec_parse(lexeme.text) is Some,
        Rule::StrConst => is_quoted(lexeme.text) && decode(
            lexeme.text,
            1,
            lexeme.text.len() - 1,
        ) is Some,
        Rule::Symbol => lexeme.text.len() == 1 && is_symbol(lexeme.text[0]),
        Rule::ErrorInvalidChar => lexeme.text.len() == 1,
        _ => true,
    }
}

/// Decoding the body of a string literal looks at the body alone: it gives
/// the same within a lexeme as within the whole text.
pub proof fn lemma_decode_within(s: Seq<char>, from: int, to: int, pos: int, end: int)
    requires
        0 <= from <= to <= s.len(),
        0 <= pos <= end <= to - from,
    ensures
        decode(s.subrange(from, to), pos, end) == decode(s, from + pos, from + end),
    decreases end - pos,
{
    if pos < end {
        let text = s.subrange(from, to);
        let next = pos + element_len(text, pos, end);
        assert(element_len(text, pos, end) == element_len(s, from + pos, from + end));
        assert(text.subrange(pos, next) =~= s.subrange(from + pos, from + next));
        lemma_decode_within(s, from, to, next, end);
    }
}

/// The body of a string literal without a fault, up to the double quote or
/// line feed that stops it, is made of elements.
pub proof fn lemma_body_decodes(s: Seq<char>, pos: int)
    requires
        0 <= pos <= s.len(),
        str_body_end(s, pos) < s.len(),
        str_fault(s, pos, str_body_end(s, pos)) is None,
    ensures
        decode(s, pos, str_body_end(s, pos)) is Some,
    decreases s.len() - pos,
{
    let end = str_body_end(s, pos);
    lemma_str_body_end(s, pos);
    if pos < end {
        if s[pos] == '\\' {
            lemma_str_body_end(s, pos + 2);
            assert(s.subrange(pos, pos + 2)[0] == s[pos]);
            assert(s.subrange(pos, pos + 2)[1] == s[pos + 1]);
            lemma_body_decodes(s, pos + 2);
        } else {
            assert(s.subrange(pos, pos + 1)[0] == s[pos]);
            lemma_body_decodes(s, pos + 1);
        }
    }
}

/// The lexeme that the grammar finds at a position has the form that its
/// rule demands.
pub proof fn lemma_lexeme_conforms(s: Seq<char>, pos: int, line: nat)
    requires
        0 <= pos < s.len(),
        !is_blank(s[pos]),
    ensures
        conforms(lexeme(s, pos, lexeme_extent(s, pos).1, lexeme_extent(s, pos).0, line)),
{
    let (rule, end) = lexeme_extent(s, pos);
    let found = lexeme(s, pos, end, rule, line);
    lemma_lexeme_extent(s, pos);
    assert(found.text.len() == end - pos);
    assert(found.text[0] == s[pos]);
    if starts(s, pos, '*', ')') {
    } else if s[pos] == '"' {
        let stop = str_body_end(s, pos + 1);
        lemma_str_fault(s, pos + 1, stop);
        if rule == Rule::StrConst {
            lemma_str_body_end(s, pos + 1);
            assert(found.text[found.text.len() - 1] == s[stop]);
            lemma_body_decodes(s, pos + 1);
            lemma_decode_within(s, pos, end, 1, stop - pos);
        }
    } else if is_digit(s[pos]) {
        lemma_digits_end(s, pos);
    } else if is_name_start(s[pos]) {
        lemma_name_end(s, pos);
        assert forall|i: int| 0 <= i < found.text.len() implies is_name_char(
            #[trigger] found.text[i],
        ) by {
            assert(found.text[i] == s[pos + i]);
        }
    } else if pos + 1 < s.len() && Operator::of_pair(s[pos], s[pos + 1]) is Some {
        assert(found.text[1] == s[pos + 1]);
    } else {
    }
}

/// Every lexeme of a text from a position on has the form that its rule
/// demands and begins on or behind the line of that position; and each
/// lexeme ends on or before the line on which the next begins.
pub proof fn lemma_lexemes_from(s: Seq<char>, pos: int, line: nat)
    requires
        0 <= pos <= s.len(),
    ensures
        forall|i: int|
            0 <= i < lexemes_from(s, pos, line).len() ==> {
                let found = #[trigger] lexemes_from(s, pos, line)[i];
                &&& conforms(found)
                &&& line <= found.start_line <= found.end_line
            },
        forall|i: int, j: int|
            0 <= i < j < lexemes_from(s, pos, line).len() ==> (#[trigger] lexemes_from(
                s,
                pos,
                line,
            )[i]).end_line <= (#[trigger] lexemes_from(s, pos, line)[j]).start_line,
    decreases s.len() - pos,
{
    if pos >= s.len() {
    } else if is_blank(s[pos]) {
        lemma_lexemes_from(s, pos + 1, line + newlines(s, pos, pos + 1));
    } else if starts(s, pos, '-', '-') {
        lemma_line_comment_end(s, pos + 2);
        lemma_lexemes_from(s, line_comment_end(s, pos + 2), line);
    } else if starts(s, pos, '(', '*') {
        lemma_comment_close(s, pos + 2, 1);
        match comment_close(s, pos + 2, 1) {
            Some(end) => {
                lemma_lexemes_from(s, end, line + newlines(s, pos, end));
            },
            None => {},
        }
    } else {
        let (rule, end) = lexeme_extent(s, pos);
        let first = lexeme(s, pos, end, rule, line);
        let rest = lexemes_from(s, end, first.end_line);
        lemma_lexeme_extent(s, pos);
        lemma_lexeme_conforms(s, pos, line);
        lemma_lexemes_from(s, end, first.end_line);
        let all = lexemes_from(s, pos, line);
        assert(all == seq![first] + rest);
        assert forall|i: int| 0 <= i < all.len() implies {
            let found = #[trigger] all[i];
            &&& conforms(found)
            &&& line <= found.start_line <= found.end_line
        } by {
            if i > 0 {
                assert(all[i] == rest[i - 1]);
            }
        }
        assert forall|i: int, j: int| 0 <= i < j < all.len() implies (#[trigger] all[i]).end_line
            <= (#[trigger] all[j]).start_line by {
            assert(all[j] == rest[j - 1]);
            if i > 0 {
                assert(all[i] == rest[i - 1]);
            }
        }
    }
}

/// A lexeme of the form that its rule demands yields a token or one of the
/// errors of the language, never the error for an unknown lexeme; and the
/// item carries the line on which the lexeme ends.
pub proof fn lemma_item_of_conforming(found: LexemeView)
    requires
        conforms(found),
    ensures
        !is_unknown(item_of(found)),
        line_of(item_of(found)) == found.end_line,
{
}

/// Every item of a scan stands for a lexeme of the text: none is the error
/// for a lexeme of unknown form.
pub proof fn law_no_unknown_item(s: Seq<char>, i: int)
    requires
        0 <= i < scan(s).len(),
    ensures
        !is_unknown(scan(s)[i]),
{
    lemma_lexemes_from(s, 0, 1);
    lemma_item_of_conforming(lexemes(s)[i]);
}

/// The line numbers of a scan never decrease from one item to the next.
pub proof fn law_lines_never_decrease(s: Seq<char>, i: int, j: int)
    requires
        0 <= i <= j < scan(s).len(),
    ensures
        line_of(scan(s)[i]) <= line_of(scan(s)[j]),
{
    lemma_lexemes_from(s, 0, 1);
    lemma_item_of_conforming(lexemes(s)[i]);
    lemma_item_of_conforming(lexemes(s)[j]);
}

/// Lines are counted from 1: no item of a scan carries the line number 0.
pub proof fn law_lines_begin_at_one(s: Seq<char>, i: int)
    requires
        0 <= i < scan(s).len(),
    ensures
        line_of(scan(s)[i]) >= 1,
{
    lemma_lexemes_from(s, 0, 1);
    lemma_item_of_conforming(lexemes(s)[i]);
}

// The form of the lines of a listing.

/// A decimal numeral has at least one character, and digits only.
pub proof fn lemma_decimal(n: nat)
    ensures
        decimal(n).len() >= 1,
        forall|i: int| 0 <= i < decimal(n).len() ==> is_digit(#[trigger] decimal(n)[i]),
    decreases n,
{
    if n >= 10 {
        lemma_decimal(n / 10);
    }
}

/// Whether a text holds no line feed.
pub open spec fn is_one_line(text: Seq<char>) -> bool {
    forall|i: int| 0 <= i < text.len() ==> #[trigger] text[i] != '\n'
}

/// Whether a text is fit to be a tag: not empty, and without a space or a
/// line feed.
pub open spec fn is_tag(tag: Seq<char>) -> bool {
    tag.len() >= 1 && forall|i: int|
        0 <= i < tag.len() ==> #[trigger] tag[i] != ' ' && tag[i] != '\n'
}

/// The tag of a keyword is fit to be a tag.
pub proof fn lemma_keyword_tag(keyword: Keyword)
    ensures
        is_tag(keyword.tag()),
{
    reveal_strlit("CLASS");
    reveal_strlit("ELSE");
    reveal_strlit("FI");
    reveal_strlit("IF");
    reveal_strlit("IN");
    reveal_strlit("INHERITS");
    reveal_strlit("LET");
    reveal_strlit("LOOP");
    reveal_strlit("POOL");
    reveal_strlit("THEN");
    reveal_strlit("WHILE");
    reveal_strlit("CASE");
    reveal_strlit("ESAC");
    reveal_strlit("OF");
    reveal_strlit("NEW");
    reveal_strlit("ISVOID");
    reveal_strlit("NOT");
}

/// The tag of an operator is fit to be a tag.
pub proof fn lemma_operator_tag(operator: Operator)
    ensures
        is_tag(operator.tag()),
{
    reveal_strlit("'+'");
    reveal_strlit("'-'");
    reveal_strlit("'*'");
    reveal_strlit("'/'");
    reveal_strlit("'='");
    reveal_strlit("'<'");
    reveal_strlit("LE");
    reveal_strlit("ASSIGN");
    reveal_strlit("DARROW");
    reveal_strlit("'.'");
    reveal_strlit("'@'");
    reveal_strlit("'~'");
}

/// The tag of a token kind is fit to be one, unless the kind is a symbol
/// that is a space or a line feed.
pub proof fn lemma_kind_tag(kind: TokenKindView)
    requires
        kind matches TokenKindView::Symbol(c) ==> c != ' ' && c != '\n',
    ensures
        is_tag(kind.tag()),
{
    reveal_strlit("BOOL_CONST");
    reveal_strlit("STR_CONST");
    reveal_strlit("INT_CONST");
    reveal_strlit("TYPEID");
    reveal_strlit("OBJECTID");
    match kind {
        TokenKindView::Keyword(keyword) => lemma_keyword_tag(keyword),
        TokenKindView::Operator(operator) => lemma_operator_tag(operator),
        _ => {},
    }
}

/// A line made of `#`, a line number, a space, a tag, and then nothing or
/// a space and more, has the form of an item's line.
pub proof fn lemma_line_form(line_number: nat, tag: Seq<char>, rest: Seq<char>)
    requires
        is_tag(tag),
        rest.len() == 0 || rest[0] == ' ',
    ensures
        is_item_line(listing_line(line_number, tag + rest)),
{
    let number = decimal(line_number);
    let line = listing_line(line_number, tag + rest);
    let digits = number.len() as int;
    let width = tag.len() as int;
    lemma_decimal(line_number);
    assert forall|i: int| 1 <= i < 1 + digits implies is_digit(#[trigger] line[i]) by {
        assert(line[i] == number[i - 1]);
    }
    assert forall|i: int| 2 + digits <= i < 2 + digits + width implies #[trigger] line[i]
        != ' ' by {
        assert(line[i] == tag[i - 2 - digits]);
    }
    if rest.len() > 0 {
        assert(line[2 + digits + width] == rest[0]);
    }
    assert(has_line_form(line, digits, width));
}

/// The line for an item in a listing has the form of an item's line, unless
/// the item is a symbol that is a space or a line feed.
pub proof fn lemma_item_line(item: ItemView)
    requires
        item matches Ok(token) ==> (token.kind matches TokenKindView::Symbol(c) ==> c != ' ' && c
            != '\n'),
    ensures
        is_item_line(item_text(item)),
{
    match item {
        Ok(token) => {
            lemma_kind_tag(token.kind);
            match token.kind.payload() {
                Some(payload) => {
                    assert(token.kind.text() =~= token.kind.tag() + (seq![' '] + payload));
                    lemma_line_form(token.line_number, token.kind.tag(), seq![' '] + payload);
                },
                None => {
                    assert(token.kind.text() =~= token.kind.tag() + Seq::<char>::empty());
                    lemma_line_form(token.line_number, token.kind.tag(), Seq::<char>::empty());
                },
            }
        },
        Err(error) => {
            reveal_strlit("ERROR");
            let rest = seq![' ', '"'] + error.kind.message() + seq!['"'];
            assert(error.kind.text() =~= "ERROR"@ + rest);
            lemma_line_form(error.line_number, "ERROR"@, rest);
        },
    }
}

/// Every line that a listing holds for an item of a scan has the form `#`,
/// line number, space, tag, and then nothing or a space and a payload.
pub proof fn law_item_lines_have_form(s: Seq<char>, i: int)
    requires
        0 <= i < scan(s).len(),
    ensures
        is_item_line(item_text(scan(s)[i])),
{
    lemma_lexemes_from(s, 0, 1);
    let found = lexemes(s)[i];
    assert(conforms(found));
    lemma_item_line(scan(s)[i]);
}

// Keywords.

/// Whether a text holds blank characters only.
pub open spec fn is_blank_text(text: Seq<char>) -> bool {
    forall|i: int| 0 <= i < text.len() ==> is_blank(#[trigger] text[i])
}

/// A keyword is spelled with lower-case letters, and at least one.
pub proof fn lemma_spelling_letters(keyword: Keyword)
    ensures
        keyword.spelling().len() >= 1,
        forall|i: int|
            0 <= i < keyword.spelling().len() ==> is_lower(#[trigger] keyword.spelling()[i]),
{
    reveal_strlit("class");
    reveal_strlit("else");
    reveal_strlit("fi");
    reveal_strlit("if");
    reveal_strlit("in");
    reveal_strlit("inherits");
    reveal_strlit("let");
    reveal_strlit("loop");
    reveal_strlit("pool");
    reveal_strlit("then");
    reveal_strlit("while");
    reveal_strlit("case");
    reveal_strlit("esac");
    reveal_strlit("of");
    reveal_strlit("new");
    reveal_strlit("isvoid");
    reveal_strlit("not");
}

/// No two keywords are spelled alike, and none is spelled like a boolean
/// constant: a word that spells a keyword in some mix of case is recognized
/// as that keyword, and as no boolean constant.
pub proof fn lemma_parse_spelling(word: Seq<char>, keyword: Keyword)
    requires
        lowercase(word) == keyword.spelling(),
    ensures
        Keyword::spec_parse(word) == Some(keyword),
        spec_parse_bool(word) is None,
{
    reveal_strlit("class");
    reveal_strlit("else");
    reveal_strlit("fi");
    reveal_strlit("if");
    reveal_strlit("in");
    reveal_strlit("inherits");
    reveal_strlit("let");
    reveal_strlit("loop");
    reveal_strlit("pool");
    reveal_strlit("then");
    reveal_strlit("while");
    reveal_strlit("case");
    reveal_strlit("esac");
    reveal_strlit("of");
    reveal_strlit("new");
    reveal_strlit("isvoid");
    reveal_strlit("not");
    reveal_strlit("true");
    reveal_strlit("false");
    // Every keyword has two characters or more, and two keywords of one
    // length differ in one of their first two.
    let w = lowercase(word);
    assert(w.len() >= 2);
    assert(w[0] == keyword.spelling()[0] && w[1] == keyword.spelling()[1]);
}

/// A word is recognized as a keyword exactly if it spells that keyword in
/// some mix of upper and lower case.
pub proof fn law_keyword_parse(word: Seq<char>, keyword: Keyword)
    ensures
        Keyword::spec_parse(word) == Some(keyword) <==> lowercase(word) == keyword.spelling(),
{
    if lowercase(word) == keyword.spelling() {
        lemma_parse_spelling(word, keyword);
    }
}

/// Blank characters yield nothing: the lexemes from the first of a run of
/// them on are the lexemes from the end of the run on.
pub proof fn lemma_skip_blanks(s: Seq<char>, pos: int, end: int, line: nat)
    requires
        0 <= pos <= end <= s.len(),
        forall|i: int| pos <= i < end ==> is_blank(#[trigger] s[i]),
    ensures
        lexemes_from(s, pos, line) == lexemes_from(s, end, line + newlines(s, pos, end)),
    decreases end - pos,
{
    if pos < end {
        lemma_skip_blanks(s, pos + 1, end, line + newlines(s, pos, pos + 1));
        lemma_newlines_split(s, pos, pos + 1, end);
    }
}

/// A run of name characters that cannot be extended is the run that the
/// grammar finds.
pub proof fn lemma_name_run(s: Seq<char>, pos: int, end: int)
    requires
        0 <= pos <= end <= s.len(),
        forall|i: int| pos <= i < end ==> is_name_char(#[trigger] s[i]),
        end < s.len() ==> !is_name_char(s[end]),
    ensures
        name_end(s, pos) == end,
    decreases end - pos,
{
    if pos < end {
        lemma_name_run(s, pos + 1, end);
    }
}

/// Two texts that agree on a range hold the same number of line feeds in
/// it.
pub proof fn lemma_newlines_agree(s: Seq<char>, t: Seq<char>, from: int, to: int)
    requires
        forall|i: int| from <= i < to ==> s[i] == t[i],
    ensures
        newlines(s, from, to) == newlines(t, from, to),
    decreases to - from,
{
    if from < to {
        lemma_newlines_agree(s, t, from, to - 1);
    }
}

/// A source text that holds one keyword, in any mix of upper and lower
/// case, and blank characters around it, scans to that keyword alone, on the
/// line on which it stands; its line in a listing is `#`, that line number,
/// a space, and the keyword's tag.
pub proof fn law_single_keyword(
    before: Seq<char>,
    word: Seq<char>,
    after: Seq<char>,
    keyword: Keyword,
)
    requires
        is_blank_text(before),
        is_blank_text(after),
        lowercase(word) == keyword.spelling(),
    ensures
        scan(before + word + after) == seq![
            Ok::<TokenView, ScannerErrorView>(
                TokenView {
                    kind: TokenKindView::Keyword(keyword),
                    line_number: 1 + newlines(before, 0, before.len() as int),
                },
            ),
        ],
        item_text(scan(before + word + after)[0]) == seq!['#'] + decimal(
            1 + newlines(before, 0, before.len() as int),
        ) + seq![' '] + keyword.tag(),
{
    let s = before + word + after;
    let pos = before.len() as int;
    let end = pos + word.len();
    let line = 1 + newlines(before, 0, pos);
    lemma_spelling_letters(keyword);
    lemma_parse_spelling(word, keyword);
    assert(word.len() == keyword.spelling().len());
    assert forall|i: int| pos <= i < end implies (is_upper(#[trigger] s[i]) || is_lower(s[i])) by {
        let k = i - pos;
        assert(s[i] == word[k]);
        assert(lowercase(word)[k] == to_lower(word[k]));
        assert(is_lower(keyword.spelling()[k]));
        assert(is_lower(to_lower(word[k])));
        assert(is_upper(word[k]) || is_lower(word[k]));
    }
    assert forall|i: int| 0 <= i < pos implies is_blank(#[trigger] s[i]) by {
        assert(s[i] == before[i]);
    }
    assert forall|i: int| end <= i < s.len() implies is_blank(#[trigger] s[i]) by {
        assert(s[i] == after[i - end]);
    }
    // The blank characters before the keyword.
    lemma_skip_blanks(s, 0, pos, 1);
    lemma_newlines_agree(s, before, 0, pos);
    // The keyword.
    assert(is_upper(s[pos]) || is_lower(s[pos]));
    lemma_name_run(s, pos, end);
    lemma_newlines_none(s, pos, end);
    assert(s.subrange(pos, end) =~= word);
    let found = lexeme(s, pos, end, Rule::Keyword, line);
    assert(lexeme_extent(s, pos) == (Rule::Keyword, end));
    // The blank characters behind the keyword.
    lemma_skip_blanks(s, end, s.len() as int, line);
    assert(lexemes_from(s, s.len() as int, line + newlines(s, end, s.len() as int))
        =~= Seq::<LexemeView>::empty());
    assert(lexemes_from(s, pos, line) =~= seq![found]);
    assert(lexemes(s) == seq![found]);
    assert(scan(s) =~= seq![item_of(found)]);
}

// String constants and their listing.

/// A text is shown in a listing piece by piece.
pub proof fn lemma_escaped_concat(a: Seq<char>, b: Seq<char>)
    ensures
        escaped(a + b) == escaped(a) + escaped(b),
    decreases b.len(),
{
    if b.len() == 0 {
        assert(a + b =~= a);
        assert(escaped(a) + escaped(b) =~= escaped(a));
    } else {
        assert((a + b).drop_last() =~= a + b.drop_last());
        assert((a + b).last() == b.last());
        lemma_escaped_concat(a, b.drop_last());
        assert(escaped(a) + escaped(b.drop_last()) + escaped_char(b.last()) =~= escaped(a) + (
        escaped(b.drop_last()) + escaped_char(b.last())));
    }
}

/// A character that a listing does not write in octal is shown as itself,
/// where it stands for itself in a string literal, or else as a backslash
/// and a character that stands for it behind a backslash.
pub proof fn lemma_escaped_char(c: char)
    requires
        !is_written_in_octal(c),
    ensures
        escaped_char(c) == seq![c] && is_plain(c) || {
            &&& escaped_char(c).len() == 2
            &&& escaped_char(c)[0] == '\\'
            &&& escaped_char(c)[1] != '\0'
            &&& escaped_char(c)[1] != '\n'
            &&& unescape(escaped_char(c)[1]) == c
        },
{
    reveal_strlit("\\\"");
    reveal_strlit("\\n");
    reveal_strlit("\\t");
    reveal_strlit("\\\\");
    reveal_strlit("\\b");
    reveal_strlit("\\f");
    if c == '"' {
        assert(escaped_char(c) =~= seq!['\\', '"']);
    } else if c == '\n' {
        assert(escaped_char(c) =~= seq!['\\', 'n']);
    } else if c == '\t' {
        assert(escaped_char(c) =~= seq!['\\', 't']);
    } else if c == '\\' {
        assert(escaped_char(c) =~= seq!['\\', '\\']);
    } else if c == '\u{8}' {
        assert(escaped_char(c) =~= seq!['\\', 'b']);
    } else if c == '\u{c}' {
        assert(escaped_char(c) =~= seq!['\\', 'f']);
    } else {
    }
}

/// Where a text holds, from `pos` on, what a listing shows for `chars` and
/// then a double quote, the body of a string literal that begins at `pos`
/// stops at that quote, has no fault and no line feed, and stands for
/// `chars`.
pub proof fn lemma_round_trip(s: Seq<char>, pos: int, chars: Seq<char>)
    requires
        0 <= pos,
        pos + escaped(chars).len() < s.len(),
        s.subrange(pos, pos + escaped(chars).len()) == escaped(chars),
        s[pos + escaped(chars).len()] == '"',
        forall|i: int| 0 <= i < chars.len() ==> !is_written_in_octal(#[trigger] chars[i]),
    ensures
        str_body_end(s, pos) == pos + escaped(chars).len(),
        str_fault(s, pos, pos + escaped(chars).len()) is None,
        decode(s, pos, pos + escaped(chars).len()) == Some(chars),
        forall|i: int| pos <= i < pos + escaped(chars).len() ==> #[trigger] s[i] != '\n',
    decreases chars.len(),
{
    let shown = escaped(chars);
    let end = pos + shown.len();
    if chars.len() == 0 {
        assert(decode(s, pos, end) == Some(Seq::<char>::empty()));
        assert(chars =~= Seq::<char>::empty());
    } else {
        let c = chars[0];
        let tail = chars.skip(1);
        let piece = escaped_char(c);
        assert(chars =~= seq![c] + tail);
        lemma_escaped_concat(seq![c], tail);
        assert(seq![c].drop_last() =~= Seq::<char>::empty());
        assert(escaped(seq![c].drop_last()) =~= Seq::<char>::empty());
        assert(escaped(seq![c]) =~= piece);
        assert(shown == piece + escaped(tail));
        lemma_escaped_char(c);
        let next = pos + piece.len();
        assert forall|j: int| 0 <= j < piece.len() implies s[pos + j] == piece[j] by {
            assert(s.subrange(pos, end)[j] == shown[j]);
        }
        assert(s.subrange(next, next + escaped(tail).len()) =~= escaped(tail)) by {
            assert forall|j: int| 0 <= j < escaped(tail).len() implies s[next + j] == escaped(
                tail,
            )[j] by {
                assert(s.subrange(pos, end)[piece.len() + j] == shown[piece.len() + j]);
            }
        }
        lemma_round_trip(s, next, tail);
        if piece == seq![c] && is_plain(c) {
            assert(s[pos] == piece[0]);
            assert(s.subrange(pos, pos + 1) =~= seq![c]);
            assert(decode(s, pos, end) == Some(seq![c] + tail));
        } else {
            let x = piece[1];
            assert(s[pos] == piece[0]);
            assert(s[pos + 1] == piece[1]);
            assert(s.subrange(pos, pos + 2) =~= seq!['\\', x]);
            assert(decode(s, pos, end) == Some(seq![c] + tail));
        }
        assert forall|i: int| pos <= i < end implies #[trigger] s[i] != '\n' by {
            if i < next {
                assert(s[i] == piece[i - pos]);
            }
        }
    }
}

/// A string constant comes back from its own listing: the characters of a
/// string constant, as a listing shows them between double quotes, scan to
/// that string constant again. This holds of the strings of at most 1024
/// characters, none of which a listing writes in octal.
pub proof fn law_string_round_trip(chars: Seq<char>)
    requires
        chars.len() <= MAX_STRING_LENGTH,
        forall|i: int| 0 <= i < chars.len() ==> !is_written_in_octal(#[trigger] chars[i]),
    ensures
        TokenKindView::StringConstant(chars).payload() == Some(
            seq!['"'] + escaped(chars) + seq!['"'],
        ),
        scan(seq!['"'] + escaped(chars) + seq!['"']) == seq![
            Ok::<TokenView, ScannerErrorView>(
                TokenView { kind: TokenKindView::StringConstant(chars), line_number: 1 },
            ),
        ],
{
    let shown = escaped(chars);
    let s = seq!['"'] + shown + seq!['"'];
    let stop = 1 + shown.len() as int;
    let end = s.len() as int;
    assert(s.subrange(1, stop) =~= shown);
    lemma_round_trip(s, 1, chars);
    assert(str_end(s, 0) == end);
    assert(str_rule(s, 0) == Rule::StrConst);
    assert(lexeme_extent(s, 0) == (Rule::StrConst, end));
    let found = lexeme(s, 0, end, Rule::StrConst, 1);
    assert(found.text =~= s);
    assert(newlines(s, 0, end) == 0) by {
        lemma_newlines_none(s, 0, end);
    }
    assert(lexemes_from(s, end, 1) =~= Seq::<LexemeView>::empty());
    assert(lexemes(s) =~= seq![found]);
    assert(scan(s) =~= seq![item_of(found)]);
}


/// Two texts without a line feed make one without a line feed.
pub proof fn lemma_one_line_concat(a: Seq<char>, b: Seq<char>)
    requires
        is_one_line(a),
        is_one_line(b),
    ensures
        is_one_line(a + b),
{
    assert forall|i: int| 0 <= i < (a + b).len() implies #[trigger] (a + b)[i] != '\n' by {
        if i < a.len() {
            assert((a + b)[i] == a[i]);
        } else {
            assert((a + b)[i] == b[i - a.len()]);
        }
    }
}

/// A listing shows no character as a line feed.
pub proof fn lemma_escaped_char_one_line(c: char)
    ensures
        is_one_line(escaped_char(c)),
{
    reveal_strlit("\\\"");
    reveal_strlit("\\n");
    reveal_strlit("\\t");
    reveal_strlit("\\\\");
    reveal_strlit("\\000");
    reveal_strlit("\\001");
    reveal_strlit("\\002");
    reveal_strlit("\\003");
    reveal_strlit("\\004");
    reveal_strlit("\\b");
    reveal_strlit("\\013");
    reveal_strlit("\\f");
    reveal_strlit("\\015");
    reveal_strlit("\\022");
    reveal_strlit("\\033");
}

/// What a listing shows for the characters of a string holds no line feed.
pub proof fn lemma_escaped_one_line(chars: Seq<char>)
    ensures
        is_one_line(escaped(chars)),
    decreases chars.len(),
{
    if chars.len() > 0 {
        lemma_escaped_one_line(chars.drop_last());
        lemma_escaped_char_one_line(chars.last());
        lemma_one_line_concat(escaped(chars.drop_last()), escaped_char(chars.last()));
    }
}

/// The line for a token in a listing holds no line feed, where the text
/// that the token carries from the source holds none.
pub proof fn lemma_token_one_line(token: TokenView)
    requires
        match token.kind {
            TokenKindView::Symbol(c) => c != ' ' && c != '\n',
            TokenKindView::UnparsedIntConstant(text) => is_one_line(text),
            TokenKindView::TypeId(text) => is_one_line(text),
            TokenKindView::ObjectId(text) => is_one_line(text),
            _ => true,
        },
    ensures
        is_one_line(token.text()),
{
    reveal_strlit("true");
    reveal_strlit("false");
    let kind = token.kind;
    lemma_kind_tag(kind);
    lemma_decimal(token.line_number);
    match kind {
        TokenKindView::StringConstant(chars) => {
            lemma_escaped_one_line(chars);
            lemma_one_line_concat(seq!['"'], escaped(chars));
            lemma_one_line_concat(seq!['"'] + escaped(chars), seq!['"']);
        },
        _ => {},
    }
    match kind.payload() {
        Some(payload) => {
            assert(is_one_line(payload));
            lemma_one_line_concat(kind.tag(), seq![' ']);
            lemma_one_line_concat(kind.tag() + seq![' '], payload);
        },
        None => {},
    }
    assert(is_one_line(kind.text()));
    lemma_one_line_concat(seq!['#'], decimal(token.line_number));
    lemma_one_line_concat(seq!['#'] + decimal(token.line_number), seq![' ']);
    lemma_one_line_concat(seq!['#'] + decimal(token.line_number) + seq![' '], kind.text());
}

/// The line for an error in a listing holds no line feed.
pub proof fn lemma_error_one_line(error: ScannerErrorView)
    ensures
        is_one_line(error.text()),
{
    reveal_strlit("ERROR");
    reveal_strlit("EOF in comment");
    reveal_strlit("EOF in string constant");
    reveal_strlit("String contains escaped null character.");
    reveal_strlit("String contains null character.");
    reveal_strlit("String constant too long");
    reveal_strlit("Unmatched *)");
    reveal_strlit("Unterminated string constant");
    reveal_strlit("Unknown");
    let kind = error.kind;
    match kind {
        ScannerErrorKind::InvalidCharacter(c) => lemma_escaped_char_one_line(c),
        _ => {},
    }
    assert(is_one_line(kind.message()));
    lemma_decimal(error.line_number);
    lemma_one_line_concat("ERROR"@, seq![' ', '"']);
    lemma_one_line_concat("ERROR"@ + seq![' ', '"'], kind.message());
    lemma_one_line_concat("ERROR"@ + seq![' ', '"'] + kind.message(), seq!['"']);
    lemma_one_line_concat(seq!['#'], decimal(error.line_number));
    lemma_one_line_concat(seq!['#'] + decimal(error.line_number), seq![' ']);
    lemma_one_line_concat(seq!['#'] + decimal(error.line_number) + seq![' '], kind.text());
}

/// Every line that a listing holds for an item of a scan is one line: it
/// holds no line feed.
pub proof fn law_item_lines_are_lines(s: Seq<char>, i: int)
    requires
        0 <= i < scan(s).len(),
    ensures
        is_one_line(item_text(scan(s)[i])),
{
    lemma_lexemes_from(s, 0, 1);
    let found = lexemes(s)[i];
    assert(conforms(found));
    match scan(s)[i] {
        Ok(token) => {
            match found.rule {
                Rule::IntConst => {
                    assert forall|j: int| 0 <= j < found.text.len() implies #[trigger] found.text[j]
                        != '\n' by {
                        assert(is_digit(found.text[j]));
                    }
                },
                Rule::Identifier => {
                    assert forall|j: int| 0 <= j < found.text.len() implies #[trigger] found.text[j]
                        != '\n' by {
                        assert(is_name_char(found.text[j]));
                    }
                },
                _ => {},
            }
            lemma_token_one_line(token);
        },
        Err(error) => {
            lemma_error_one_line(error);
        },
    }
}

/// The tag of a keyword in a listing is its spelling in upper case.
pub proof fn law_keyword_tag_is_upper_case(keyword: Keyword)
    ensures
        keyword.tag() == uppercase(keyword.spelling()),
{
    reveal_strlit("class");
    reveal_strlit("else");
    reveal_strlit("fi");
    reveal_strlit("if");
    reveal_strlit("in");
    reveal_strlit("inherits");
    reveal_strlit("let");
    reveal_strlit("loop");
    reveal_strlit("pool");
    reveal_strlit("then");
    reveal_strlit("while");
    reveal_strlit("case");
    reveal_strlit("esac");
    reveal_strlit("of");
    reveal_strlit("new");
    reveal_strlit("isvoid");
    reveal_strlit("not");
    reveal_strlit("CLASS");
    reveal_strlit("ELSE");
    reveal_strlit("FI");
    reveal_strlit("IF");
    reveal_strlit("IN");
    reveal_strlit("INHERITS");
    reveal_strlit("LET");
    reveal_strlit("LOOP");
    reveal_strlit("POOL");
    reveal_strlit("THEN");
    reveal_strlit("WHILE");
    reveal_strlit("CASE");
    reveal_strlit("ESAC");
    reveal_strlit("OF");
    reveal_strlit("NEW");
    reveal_strlit("ISVOID");
    reveal_strlit("NOT");
    assert(keyword.tag() =~= uppercase(keyword.spelling()));
}

} // verus!
