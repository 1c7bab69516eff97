//! The recognizer: it walks a source text once and cuts it into the lexemes
//! that the grammar describes.

use vstd::prelude::*;
use vstd::string::*;
use crate::chars::{is_blank, is_digit, is_name_char, is_name_start};
use crate::grammar::{
    comment_close, digits_end, lemma_digits_end, lemma_name_end,
    lemma_newlines_bound, lemma_newlines_none, lemma_newlines_split, lemma_str_body_end, lexeme,
    lexeme_extent, lexemes, lexemes_from, line_comment_end, name_end, newlines, starts,
    str_body_end, str_end, str_fault, str_rule, word_rule, LexemeView, Rule,
};
use crate::text::chars_of;
use crate::token::{is_symbol, parse_bool, Keyword, Operator};

verus! {

/// A piece of the source text that follows one rule of the grammar.
#[derive(Debug, Clone, Copy, PartialEq, Eq)]
pub struct Lexeme<'a> {
    pub rule: Rule,
    pub text: &'a str,
    /// The line of the first character.
    pub start_line: usize,
    /// The line of the last character.
    pub end_line: usize,
}

impl<'a> View for Lexeme<'a> {
    type V = LexemeView;

    open spec fn view(&self) -> LexemeView {
        LexemeView {
            rule: self.rule,
            text: self.text@,
            start_line: self.start_line as nat,
            end_line: self.end_line as nat,
        }
    }
}

/// The lexemes of a vector as mathematical values.
pub open spec fn lexeme_views<'a>(lexemes: Seq<Lexeme<'a>>) -> Seq<LexemeView> {
    lexemes.map_values(|l: Lexeme<'a>| l@)
}

/// The lines over which a piece of source text extends.
pub trait LineRange {
    /// The line of the first character.
    spec fn first_line(&self) -> nat;

    /// The line of the last character.
    spec fn last_line(&self) -> nat;

    /// The line on which the piece begins.
    fn start_line(&self) -> (line: usize)
        ensures
            line == self.first_line(),
    ;

    /// The line on which the piece ends.
    fn end_line(self) -> (line: usize)
        ensures
            line == self.last_line(),
    ;
}

impl<'a> LineRange for Lexeme<'a> {
    open spec fn first_line(&self) -> nat {
        self.start_line as nat
    }

    open spec fn last_line(&self) -> nat {
        self.end_line as nat
    }

    fn start_line(&self) -> (line: usize) {
        self.start_line
    }

    fn end_line(self) -> (line: usize) {
        self.end_line
    }
}

/// The characters of `text` from `from` up to `to`. Where the text is known
/// to hold ASCII only, a character's position is its byte's position.
fn piece<'a>(text: &'a str, ascii: bool, from: usize, to: usize) -> (part: &'a str)
    requires
        ascii ==> text.is_ascii(),
        from <= to <= text@.len(),
    ensures
        part@ == text@.subrange(from as int, to as int),
{
    if ascii {
        text.substring_ascii(from, to)
    } else {
        text.substring_char(from, to)
    }
}

/// Whether `a` and `b` stand at `pos` and `pos + 1`.
fn starts_with(chars: &Vec<char>, pos: usize, a: char, b: char) -> (found: bool)
    ensures
        found == starts(chars@, pos as int, a, b),
{
    pos < chars.len() && chars[pos] == a && pos + 1 < chars.len() && chars[pos + 1] == b
}

/// Finds the end of a line comment.
fn skip_line_comment(chars: &Vec<char>, pos: usize) -> (end: usize)
    requires
        pos <= chars.len(),
    ensures
        end == line_comment_end(chars@, pos as int),
        pos <= end <= chars.len(),
{
    let mut i = pos;
    while i < chars.len() && chars[i] != '\n'
        invariant
            pos <= i <= chars.len(),
            line_comment_end(chars@, i as int) == line_comment_end(chars@, pos as int),
        decreases chars.len() - i,
    {
        i += 1;
    }
    i
}

/// Finds the end of the block comment whose body begins at `pos`, and counts
/// the line feeds up to there, or up to the end of the text where the
/// comment stays open.
fn skip_block_comment(chars: &Vec<char>, pos: usize) -> (found: (Option<usize>, usize))
    requires
        pos <= chars.len(),
    ensures
        match found.0 {
            Some(end) => comment_close(chars@, pos as int, 1) == Some(end as int) && pos + 2 <= end
                <= chars.len() && found.1 == newlines(chars@, pos as int, end as int),
            None => comment_close(chars@, pos as int, 1) is None && found.1 == newlines(
                chars@,
                pos as int,
                chars.len() as int,
            ),
        },
        found.1 <= chars.len() - pos,
{
    let n = chars.len();
    let mut i = pos;
    let mut depth: usize = 1;
    let mut breaks: usize = 0;
    while i < n
        invariant
            n == chars.len(),
            pos <= i <= n,
            1 <= depth <= i - pos + 1,
            breaks == newlines(chars@, pos as int, i as int),
            breaks <= i - pos,
            comment_close(chars@, i as int, depth as nat) == comment_close(chars@, pos as int, 1),
        decreases n - i,
    {
        let c = chars[i];
        if starts_with(chars, i, '(', '*') {
            assert(newlines(chars@, pos as int, i + 2) == newlines(chars@, pos as int, i + 1));
            depth += 1;
            i += 2;
        } else if starts_with(chars, i, '*', ')') {
            assert(newlines(chars@, pos as int, i + 2) == newlines(chars@, pos as int, i + 1));
            if depth == 1 {
                return (Some(i + 2), breaks);
            }
            depth -= 1;
            i += 2;
        } else {
            if c == '\n' {
                breaks += 1;
            }
            i += 1;
        }
    }
    (None, breaks)
}

/// Finds the rule and the end of the string literal that opens at `pos`, and
/// counts the line feeds in it.
fn scan_string(chars: &Vec<char>, pos: usize) -> (found: (Rule, usize, usize))
    requires
        pos < chars.len(),
        chars[pos as int] == '"',
    ensures
        found.0 == str_rule(chars@, pos as int),
        found.1 == str_end(chars@, pos as int),
        found.2 == newlines(chars@, pos as int, found.1 as int),
        pos < found.1 <= chars.len(),
        found.2 < found.1 - pos,
{
    let n = chars.len();
    let ghost s = chars@;
    let ghost end = str_body_end(s, pos + 1);
    let mut i = pos + 1;
    let mut fault: Option<Rule> = None;
    let mut breaks: usize = 0;
    proof {
        lemma_str_body_end(s, pos + 1);
    }
    while i < n && chars[i] != '"' && chars[i] != '\n'
        invariant
            n == chars.len(),
            s == chars@,
            pos < i <= n,
            end == str_body_end(s, pos + 1),
            end == str_body_end(s, i as int),
            i <= end <= n,
            str_fault(s, pos + 1, end) == match fault {
                Some(rule) => Some(rule),
                None => str_fault(s, i as int, end),
            },
            breaks == newlines(s, pos + 1, i as int),
            breaks <= i - (pos + 1),
        decreases n - i,
    {
        let c = chars[i];
        if c == '\\' {
            if i + 1 >= n {
                i = n;
            } else {
                let escaped = chars[i + 1];
                proof {
                    lemma_str_body_end(s, i + 2);
                    assert(newlines(s, pos + 1, i + 2) == newlines(s, pos + 1, i + 1) + if escaped
                        == '\n' {
                        1nat
                    } else {
                        0nat
                    });
                }
                if fault.is_none() && escaped == '\0' {
                    fault = Some(Rule::ErrorEscapedNullInStr);
                }
                if escaped == '\n' {
                    breaks += 1;
                }
                i += 2;
            }
        } else {
            proof {
                lemma_str_body_end(s, i + 1);
            }
            if fault.is_none() && c == '\0' {
                fault = Some(Rule::ErrorNullInStr);
            }
            i += 1;
        }
    }
    proof {
        assert(i == end);
        assert(newlines(s, pos as int, i as int) == breaks) by {
            lemma_newlines_none(s, pos as int, pos + 1);
            lemma_newlines_split(s, pos as int, pos + 1, i as int);
        }
    }
    let closed = i < n && chars[i] == '"';
    let rule = match fault {
        Some(rule) => rule,
        None => if i >= n {
            Rule::ErrorEofInStr
        } else if closed {
            Rule::StrConst
        } else {
            Rule::ErrorUnterminatedStr
        },
    };
    if closed {
        (rule, i + 1, breaks)
    } else {
        (rule, i, breaks)
    }
}

/// Finds the end of the run of name characters that begins at `pos`.
fn scan_name(chars: &Vec<char>, pos: usize) -> (end: usize)
    requires
        pos <= chars.len(),
    ensures
        end == name_end(chars@, pos as int),
        pos <= end <= chars.len(),
{
    let mut i = pos;
    while i < chars.len() && is_name_char(chars[i])
        invariant
            pos <= i <= chars.len(),
            name_end(chars@, i as int) == name_end(chars@, pos as int),
        decreases chars.len() - i,
    {
        i += 1;
    }
    i
}

/// Finds the end of the run of digits that begins at `pos`.
fn scan_digits(chars: &Vec<char>, pos: usize) -> (end: usize)
    requires
        pos <= chars.len(),
    ensures
        end == digits_end(chars@, pos as int),
        pos <= end <= chars.len(),
{
    let mut i = pos;
    while i < chars.len() && is_digit(chars[i])
        invariant
            pos <= i <= chars.len(),
            digits_end(chars@, i as int) == digits_end(chars@, pos as int),
        decreases chars.len() - i,
    {
        i += 1;
    }
    i
}

/// Tells a boolean constant and a keyword from an identifier.
pub fn classify_word(word: &str) -> (rule: Rule)
    ensures
        rule == word_rule(word@),
{
    if parse_bool(word).is_some() {
        Rule::BoolConst
    } else if Keyword::parse(word).is_some() {
        Rule::Keyword
    } else {
        Rule::Identifier
    }
}

/// The recognizer for Cool source text.
pub struct CoolParser;

impl CoolParser {
    /// Finds the rule and the end of the lexeme that begins at `pos`, and
    /// counts the line feeds in it.
    fn lexeme_at(chars: &Vec<char>, text: &str, ascii: bool, pos: usize) -> (found: (
        Rule,
        usize,
        usize,
    ))
        requires
            chars@ == text@,
            ascii ==> text.is_ascii(),
            pos < chars.len(),
            !is_blank(chars[pos as int]),
        ensures
            (found.0, found.1 as int) == lexeme_extent(chars@, pos as int),
            found.2 == newlines(chars@, pos as int, found.1 as int),
            pos < found.1 <= chars.len(),
            found.2 < found.1 - pos,
    {
        let ghost s = chars@;
        let c = chars[pos];
        if starts_with(chars, pos, '*', ')') {
            proof {
                lemma_newlines_none(s, pos as int, pos + 2);
            }
            (Rule::ErrorUnclosedComment, pos + 2, 0)
        } else if c == '"' {
            scan_string(chars, pos)
        } else if is_digit(c) {
            let end = scan_digits(chars, pos);
            proof {
                lemma_digits_end(s, pos as int);
                lemma_newlines_none(s, pos as int, end as int);
            }
            (Rule::IntConst, end, 0)
        } else if is_name_start(c) {
            let end = scan_name(chars, pos);
            proof {
                lemma_name_end(s, pos as int);
                lemma_newlines_none(s, pos as int, end as int);
            }
            let word = piece(text, ascii, pos, end);
            (classify_word(word), end, 0)
        } else if pos + 1 < chars.len() && Operator::of_pair(c, chars[pos + 1]).is_some() {
            proof {
                lemma_newlines_none(s, pos as int, pos + 2);
            }
            (Rule::Operator, pos + 2, 0)
        } else {
            proof {
                lemma_newlines_none(s, pos as int, pos + 1);
            }
            if Operator::of_char(c).is_some() {
                (Rule::Operator, pos + 1, 0)
            } else if is_symbol(c) {
                (Rule::Symbol, pos + 1, 0)
            } else {
                (Rule::ErrorInvalidChar, pos + 1, 0)
            }
        }
    }

    /// Cuts a source text into its lexemes.
    pub fn parse<'a>(text: &'a str) -> (found: Vec<Lexeme<'a>>)
        ensures
            lexeme_views(found@) == lexemes(text@),
    {
        let chars = chars_of(text);
        let ascii = text.is_ascii();
        let n = chars.len();
        let ghost s = chars@;
        let mut found: Vec<Lexeme<'a>> = Vec::new();
        let mut pos: usize = 0;
        // The number of line feeds passed: one less than the current line.
        let mut row: usize = 0;
        assert(lexeme_views(found@) =~= Seq::<LexemeView>::empty());
        while pos < n
            invariant
                n == chars.len(),
                s == chars@,
                s == text@,
                ascii ==> text.is_ascii(),
                pos <= n,
                row <= pos,
                lexemes(s) == lexeme_views(found@) + lexemes_from(s, pos as int, (row + 1) as nat),
            decreases n - pos,
        {
            let c = chars[pos];
            if is_blank(c) {
                assert(newlines(s, pos as int, pos as int) == 0);
                assert(newlines(s, pos as int, pos + 1) == if c == '\n' {
                    1nat
                } else {
                    0nat
                });
                if c == '\n' {
                    row += 1;
                }
                pos += 1;
            } else if starts_with(&chars, pos, '-', '-') {
                pos = skip_line_comment(&chars, pos + 2);
            } else if starts_with(&chars, pos, '(', '*') {
                let (close, breaks) = skip_block_comment(&chars, pos + 2);
                proof {
                    lemma_newlines_none(s, pos as int, pos + 2);
                }
                match close {
                    Some(end) => {
                        proof {
                            lemma_newlines_split(s, pos as int, pos + 2, end as int);
                            lemma_newlines_bound(s, pos + 2, end as int);
                        }
                        row += breaks;
                        pos = end;
                    },
                    None => {
                        proof {
                            lemma_newlines_split(s, pos as int, pos + 2, n as int);
                            lemma_newlines_bound(s, pos + 2, n as int);
                        }
                        let ghost before = lexeme_views(found@);
                        let item = Lexeme {
                            rule: Rule::ErrorEofInComment,
                            text: piece(text, ascii, pos, n),
                            start_line: row + 1,
                            end_line: row + 1 + breaks,
                        };
                        found.push(item);
                        proof {
                            assert(lexeme_views(found@) =~= before.push(item@));
                            assert(item@ == lexeme(
                                s,
                                pos as int,
                                n as int,
                                Rule::ErrorEofInComment,
                                (row + 1) as nat,
                            ));
                        }
                        pos = n;
                    },
                }
            } else {
                let (rule, end, breaks) = CoolParser::lexeme_at(&chars, text, ascii, pos);
                let ghost before = lexeme_views(found@);
                let item = Lexeme {
                    rule,
                    text: piece(text, ascii, pos, end),
                    start_line: row + 1,
                    end_line: row + 1 + breaks,
                };
                found.push(item);
                proof {
                    assert(lexeme_views(found@) =~= before.push(item@));
                    assert(item@ == lexeme(s, pos as int, end as int, rule, (row + 1) as nat));
                    assert(before.push(item@) + lexemes_from(
                        s,
                        end as int,
                        (row + 1 + breaks) as nat,
                    ) =~= before + (seq![item@] + lexemes_from(
                        s,
                        end as int,
                        (row + 1 + breaks) as nat,
                    )));
                }
                row += breaks;
                pos = end;
            }
        }
        assert(lexemes_from(s, pos as int, (row + 1) as nat) =~= Seq::<LexemeView>::empty());
        found
    }
}

} // verus!
