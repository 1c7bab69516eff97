//! The lexical grammar of Cool: where each lexeme of a source text begins
//! and ends, which rule it follows, and on which lines it stands.
//!
//! A source text is a sequence of characters. Lines are counted from 1 and
//! a line ends with a line feed.

use vstd::prelude::*;
use crate::chars::{is_blank, is_digit, is_name_char, is_name_start};
use crate::token::{is_symbol, spec_parse_bool, Keyword, Operator};

verus! {

/// The rules of the grammar that yield an item of the output. Blank
/// characters and complete comments follow rules of their own and yield
/// nothing.
#[derive(Debug, Clone, Copy, PartialEq, Eq)]
pub enum Rule {
    BoolConst,
    IntConst,
    Identifier,
    Keyword,
    Operator,
    StrConst,
    Symbol,
    ErrorEofInComment,
    ErrorUnclosedComment,
    ErrorEofInStr,
    ErrorUnterminatedStr,
    ErrorEscapedNullInStr,
    ErrorNullInStr,
    ErrorInvalidChar,
}

/// A lexeme as a mathematical value: the rule it follows, its characters,
/// and the lines of its first and of its last character.
pub struct LexemeView {
    pub rule: Rule,
    pub text: Seq<char>,
    pub start_line: nat,
    pub end_line: nat,
}

/// Whether the characters `a` and `b` stand at `pos` and `pos + 1`.
pub open spec fn starts(s: Seq<char>, pos: int, a: char, b: char) -> bool {
    0 <= pos && pos + 1 < s.len() && s[pos] == a && s[pos + 1] == b
}

/// The number of line feeds among the characters from `from` up to `to`.
pub open spec fn newlines(s: Seq<char>, from: int, to: int) -> nat
    decreases to - from,
{
    if from >= to {
        0
    } else if s[to - 1] == '\n' {
        newlines(s, from, to - 1) + 1
    } else {
        newlines(s, from, to - 1)
    }
}

/// Where a line comment ends that holds the character at `pos`: at the next
/// line feed, or at the end of the text.
pub open spec fn line_comment_end(s: Seq<char>, pos: int) -> int
    decreases s.len() - pos,
{
    if pos >= s.len() {
        s.len() as int
    } else if s[pos] == '\n' {
        pos
    } else {
        line_comment_end(s, pos + 1)
    }
}

/// Where a block comment ends, seen from `pos` inside it, with `depth`
/// comments open: just behind the `*)` that closes the outermost of them.
/// `None` if the text ends before that.
pub open spec fn comment_close(s: Seq<char>, pos: int, depth: nat) -> Option<int>
    decreases s.len() - pos,
{
    if pos >= s.len() {
        None
    } else if starts(s, pos, '(', '*') {
        comment_close(s, pos + 2, depth + 1)
    } else if starts(s, pos, '*', ')') {
        if depth <= 1 {
            Some(pos + 2)
        } else {
            comment_close(s, pos + 2, (depth - 1) as nat)
        }
    } else {
        comment_close(s, pos + 1, depth)
    }
}

/// Where the body of a string literal stops, seen from `pos` inside it: at
/// the closing double quote, at a line feed that no backslash precedes, or
/// at the end of the text. A backslash takes the character behind it along.
pub open spec fn str_body_end(s: Seq<char>, pos: int) -> int
    decreases s.len() - pos,
{
    if pos >= s.len() {
        s.len() as int
    } else if s[pos] == '"' || s[pos] == '\n' {
        pos
    } else if s[pos] == '\\' {
        if pos + 1 >= s.len() {
            s.len() as int
        } else {
            str_body_end(s, pos + 2)
        }
    } else {
        str_body_end(s, pos + 1)
    }
}

/// The first fault in the body of a string literal between `pos` and `end`:
/// a null character, or a backslash followed by one.
pub open spec fn str_fault(s: Seq<char>, pos: int, end: int) -> Option<Rule>
    decreases end - pos,
{
    if pos >= end {
        None
    } else if s[pos] == '\0' {
        Some(Rule::ErrorNullInStr)
    } else if s[pos] == '\\' {
        if pos + 1 >= end {
            None
        } else if s[pos + 1] == '\0' {
            Some(Rule::ErrorEscapedNullInStr)
        } else {
            str_fault(s, pos + 2, end)
        }
    } else {
        str_fault(s, pos + 1, end)
    }
}

/// The rule of the string literal whose opening quote stands at `pos`. A
/// null character decides first; then what stops the body.
pub open spec fn str_rule(s: Seq<char>, pos: int) -> Rule {
    let end = str_body_end(s, pos + 1);
    match str_fault(s, pos + 1, end) {
        Some(rule) => rule,
        None => if end >= s.len() {
            Rule::ErrorEofInStr
        } else if s[end] == '"' {
            Rule::StrConst
        } else {
            Rule::ErrorUnterminatedStr
        },
    }
}

/// Where the string literal ends whose opening quote stands at `pos`:
/// behind the closing quote, or before the line feed or the end of the text
/// that cuts it short.
pub open spec fn str_end(s: Seq<char>, pos: int) -> int {
    let end = str_body_end(s, pos + 1);
    if end < s.len() && s[end] == '"' {
        end + 1
    } else {
        end
    }
}

/// Where the run of name characters ends that begins at `pos`.
pub open spec fn name_end(s: Seq<char>, pos: int) -> int
    decreases s.len() - pos,
{
    if 0 <= pos < s.len() && is_name_char(s[pos]) {
        name_end(s, pos + 1)
    } else {
        pos
    }
}

/// Where the run of digits ends that begins at `pos`.
pub open spec fn digits_end(s: Seq<char>, pos: int) -> int
    decreases s.len() - pos,
{
    if 0 <= pos < s.len() && is_digit(s[pos]) {
        digits_end(s, pos + 1)
    } else {
        pos
    }
}

/// The rule of a word: a boolean constant, else a keyword, else an
/// identifier.
pub open spec fn word_rule(word: Seq<char>) -> Rule {
    if spec_parse_bool(word) is Some {
        Rule::BoolConst
    } else if Keyword::spec_parse(word) is Some {
        Rule::Keyword
    } else {
        Rule::Identifier
    }
}

/// The rule and the end of the lexeme that begins at `pos`, where `pos`
/// holds neither a blank character nor the beginning of a comment. The
/// alternatives are tried in this order, and the longest match of each is
/// taken.
pub open spec fn lexeme_extent(s: Seq<char>, pos: int) -> (Rule, int) {
    let c = s[pos];
    if starts(s, pos, '*', ')') {
        (Rule::ErrorUnclosedComment, pos + 2)
    } else if c == '"' {
        (str_rule(s, pos), str_end(s, pos))
    } else if is_digit(c) {
        (Rule::IntConst, digits_end(s, pos))
    } else if is_name_start(c) {
        (word_rule(s.subrange(pos, name_end(s, pos))), name_end(s, pos))
    } else if pos + 1 < s.len() && Operator::of_pair(c, s[pos + 1]) is Some {
        (Rule::Operator, pos + 2)
    } else if Operator::of_char(c) is Some {
        (Rule::Operator, pos + 1)
    } else if is_symbol(c) {
        (Rule::Symbol, pos + 1)
    } else {
        (Rule::ErrorInvalidChar, pos + 1)
    }
}

/// The lexeme of rule `rule` that holds the characters from `from` up to
/// `to` and begins on line `line`.
pub open spec fn lexeme(s: Seq<char>, from: int, to: int, rule: Rule, line: nat) -> LexemeView {
    LexemeView {
        rule,
        text: s.subrange(from, to),
        start_line: line,
        end_line: line + newlines(s, from, to),
    }
}

/// The lexemes of the text from `pos` on, where `pos` is on line `line`.
/// Blank characters, line comments (from `--` to the end of the line) and
/// complete block comments are passed over. A block comment that the text
/// leaves open is the last lexeme.
pub open spec fn lexemes_from(s: Seq<char>, pos: int, line: nat) -> Seq<LexemeView>
    decreases s.len() - pos,
    via lexemes_from_decreases
{
    if pos < 0 || pos >= s.len() {
        Seq::empty()
    } else if is_blank(s[pos]) {
        lexemes_from(s, pos + 1, line + newlines(s, pos, pos + 1))
    } else if starts(s, pos, '-', '-') {
        lexemes_from(s, line_comment_end(s, pos + 2), line)
    } else if starts(s, pos, '(', '*') {
        match comment_close(s, pos + 2, 1) {
            Some(end) => lexemes_from(s, end, line + newlines(s, pos, end)),
            None => seq![lexeme(s, pos, s.len() as int, Rule::ErrorEofInComment, line)],
        }
    } else {
        let (rule, end) = lexeme_extent(s, pos);
        seq![lexeme(s, pos, end, rule, line)] + lexemes_from(s, end, line + newlines(s, pos, end))
    }
}

#[via_fn]
proof fn lexemes_from_decreases(s: Seq<char>, pos: int, line: nat) {
    if 0 <= pos < s.len() {
        if starts(s, pos, '-', '-') {
            lemma_line_comment_end(s, pos + 2);
        }
        if starts(s, pos, '(', '*') {
            lemma_comment_close(s, pos + 2, 1);
        }
        lemma_lexeme_extent(s, pos);
    }
}

/// The lexemes of a source text.
pub open spec fn lexemes(s: Seq<char>) -> Seq<LexemeView> {
    lexemes_from(s, 0, 1)
}

/// A line comment ends at the first line feed from `pos` on, or at the end
/// of the text if there is none.
pub proof fn lemma_line_comment_end(s: Seq<char>, pos: int)
    requires
        0 <= pos <= s.len(),
    ensures
        pos <= line_comment_end(s, pos) <= s.len(),
        line_comment_end(s, pos) < s.len() ==> s[line_comment_end(s, pos)] == '\n',
        forall|i: int| pos <= i < line_comment_end(s, pos) ==> s[i] != '\n',
    decreases s.len() - pos,
{
    if pos < s.len() && s[pos] != '\n' {
        lemma_line_comment_end(s, pos + 1);
    }
}

/// A block comment that is closed ends inside the text, behind `pos`.
pub proof fn lemma_comment_close(s: Seq<char>, pos: int, depth: nat)
    requires
        0 <= pos <= s.len(),
    ensures
        comment_close(s, pos, depth) matches Some(end) ==> pos + 2 <= end <= s.len(),
    decreases s.len() - pos,
{
    if pos < s.len() {
        if starts(s, pos, '(', '*') {
            lemma_comment_close(s, pos + 2, depth + 1);
        } else if starts(s, pos, '*', ')') {
            if depth > 1 {
                lemma_comment_close(s, pos + 2, (depth - 1) as nat);
            }
        } else {
            lemma_comment_close(s, pos + 1, depth);
        }
    }
}

/// The body of a string literal stops inside the text or at its end, and
/// where it stops inside, a double quote or a line feed stands.
pub proof fn lemma_str_body_end(s: Seq<char>, pos: int)
    requires
        0 <= pos <= s.len(),
    ensures
        pos <= str_body_end(s, pos) <= s.len(),
        str_body_end(s, pos) < s.len() ==> s[str_body_end(s, pos)] == '"' || s[str_body_end(
            s,
            pos,
        )] == '\n',
    decreases s.len() - pos,
{
    if pos < s.len() && s[pos] != '"' && s[pos] != '\n' {
        if s[pos] == '\\' {
            if pos + 1 < s.len() {
                lemma_str_body_end(s, pos + 2);
            }
        } else {
            lemma_str_body_end(s, pos + 1);
        }
    }
}

/// A fault in a string literal is one of the two errors about the null
/// character.
pub proof fn lemma_str_fault(s: Seq<char>, pos: int, end: int)
    ensures
        str_fault(s, pos, end) matches Some(rule) ==> rule == Rule::ErrorNullInStr || rule
            == Rule::ErrorEscapedNullInStr,
    decreases end - pos,
{
    if pos < end && s[pos] != '\0' {
        if s[pos] == '\\' {
            if pos + 1 < end && s[pos + 1] != '\0' {
                lemma_str_fault(s, pos + 2, end);
            }
        } else {
            lemma_str_fault(s, pos + 1, end);
        }
    }
}

/// A run of name characters ends inside the text or at its end, holds name
/// characters only, and cannot be extended.
pub proof fn lemma_name_end(s: Seq<char>, pos: int)
    requires
        0 <= pos <= s.len(),
    ensures
        pos <= name_end(s, pos) <= s.len(),
        forall|i: int| pos <= i < name_end(s, pos) ==> is_name_char(s[i]),
        name_end(s, pos) < s.len() ==> !is_name_char(s[name_end(s, pos)]),
    decreases s.len() - pos,
{
    if pos < s.len() && is_name_char(s[pos]) {
        lemma_name_end(s, pos + 1);
    }
}

/// A run of digits ends inside the text or at its end, holds digits only,
/// and cannot be extended.
pub proof fn lemma_digits_end(s: Seq<char>, pos: int)
    requires
        0 <= pos <= s.len(),
    ensures
        pos <= digits_end(s, pos) <= s.len(),
        forall|i: int| pos <= i < digits_end(s, pos) ==> is_digit(s[i]),
        digits_end(s, pos) < s.len() ==> !is_digit(s[digits_end(s, pos)]),
    decreases s.len() - pos,
{
    if pos < s.len() && is_digit(s[pos]) {
        lemma_digits_end(s, pos + 1);
    }
}

/// A lexeme holds at least one character and ends inside the text or at
/// its end.
pub proof fn lemma_lexeme_extent(s: Seq<char>, pos: int)
    requires
        0 <= pos < s.len(),
    ensures
        pos < lexeme_extent(s, pos).1 <= s.len(),
{
    lemma_str_body_end(s, pos + 1);
    lemma_name_end(s, pos);
    lemma_digits_end(s, pos);
}

/// Line feeds are counted piece by piece.
pub proof fn lemma_newlines_split(s: Seq<char>, from: int, mid: int, to: int)
    requires
        from <= mid <= to,
    ensures
        newlines(s, from, to) == newlines(s, from, mid) + newlines(s, mid, to),
    decreases to - mid,
{
    if mid < to {
        lemma_newlines_split(s, from, mid, to - 1);
    }
}

/// A piece of text holds no more line feeds than characters.
pub proof fn lemma_newlines_bound(s: Seq<char>, from: int, to: int)
    requires
        from <= to,
    ensures
        newlines(s, from, to) <= to - from,
    decreases to - from,
{
    if from < to {
        lemma_newlines_bound(s, from, to - 1);
    }
}

/// A piece of text without a line feed counts none.
pub proof fn lemma_newlines_none(s: Seq<char>, from: int, to: int)
    requires
        forall|i: int| from <= i < to ==> s[i] != '\n',
    ensures
        newlines(s, from, to) == 0,
    decreases to - from,
{
    if from < to {
        lemma_newlines_none(s, from, to - 1);
    }
}

} // verus!
