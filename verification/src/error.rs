//! Lexical errors, which stand in the output among the tokens.

use vstd::prelude::*;
use vstd::string::*;
use crate::text::push_decimal;
use crate::token::{escaped_char, listing_line, push_escaped_char};

verus! {

/// What is wrong with a piece of source text.
#[derive(Debug, Clone, Copy, PartialEq, Eq)]
pub enum ScannerErrorKind {
    /// The input ends inside a block comment.
    EofInComment,
    /// The input ends inside a string literal.
    EofInStringConstant,
    /// A character that begins no lexeme.
    InvalidCharacter(char),
    /// A string literal holds a backslash followed by the null character.
    StringContainsEscapedNullCharacter,
    /// A string literal holds the null character.
    StringContainsNullCharacter,
    /// A string literal stands for more than 1024 characters.
    StringConstantTooLong,
    /// `*)` outside a comment.
    UnclosedComment,
    /// A line ends inside a string literal.
    UnterminatedStringConstant,
    /// A lexeme that does not have the form its rule demands.
    Unknown,
}

impl ScannerErrorKind {
    /// The message that a listing shows between double quotes.
    pub open spec fn message(self) -> Seq<char> {
        match self {
            ScannerErrorKind::EofInComment => "EOF in comment"@,
            ScannerErrorKind::EofInStringConstant => "EOF in string constant"@,
            ScannerErrorKind::InvalidCharacter(c) => escaped_char(c),
            ScannerErrorKind::StringContainsEscapedNullCharacter => "String contains escaped null character."@,
            ScannerErrorKind::StringContainsNullCharacter => "String contains null character."@,
            ScannerErrorKind::StringConstantTooLong => "String constant too long"@,
            ScannerErrorKind::UnclosedComment => "Unmatched *)"@,
            ScannerErrorKind::UnterminatedStringConstant => "Unterminated string constant"@,
            ScannerErrorKind::Unknown => "Unknown"@,
        }
    }

    /// The error in a listing: the tag `ERROR`, a space, and the message
    /// between double quotes.
    pub open spec fn text(self) -> Seq<char> {
        "ERROR"@ + seq![' ', '"'] + self.message() + seq!['"']
    }

    /// The error as a listing shows it.
    pub fn to_string(&self) -> (s: String)
        ensures
            s@ == self.text(),
    {
        let mut s = String::from_str("ERROR");
        s.push(' ');
        s.push('"');
        assert(s@ == "ERROR"@ + seq![' ', '"']);
        match self {
            ScannerErrorKind::EofInComment => s.append("EOF in comment"),
            ScannerErrorKind::EofInStringConstant => s.append("EOF in string constant"),
            ScannerErrorKind::InvalidCharacter(c) => push_escaped_char(&mut s, *c),
            ScannerErrorKind::StringContainsEscapedNullCharacter => s.append(
                "String contains escaped null character.",
            ),
            ScannerErrorKind::StringContainsNullCharacter => s.append(
                "String contains null character.",
            ),
            ScannerErrorKind::StringConstantTooLong => s.append("String constant too long"),
            ScannerErrorKind::UnclosedComment => s.append("Unmatched *)"),
            ScannerErrorKind::UnterminatedStringConstant => s.append(
                "Unterminated string constant",
            ),
            ScannerErrorKind::Unknown => s.append("Unknown"),
        }
        s.push('"');
        s
    }
}

/// A lexical error and the line on which the faulty text ends.
#[derive(Debug, Clone, Copy, PartialEq, Eq)]
pub struct ScannerError {
    pub kind: ScannerErrorKind,
    pub line_number: usize,
}

/// A lexical error as a mathematical value.
pub struct ScannerErrorView {
    pub kind: ScannerErrorKind,
    pub line_number: nat,
}

impl View for ScannerError {
    type V = ScannerErrorView;

    open spec fn view(&self) -> ScannerErrorView {
        ScannerErrorView { kind: self.kind, line_number: self.line_number as nat }
    }
}

impl ScannerErrorView {
    /// The error's line in a listing.
    pub open spec fn text(self) -> Seq<char> {
        listing_line(self.line_number, self.kind.text())
    }

    /// The error for a lexeme that does not have the form its rule demands.
    pub open spec fn unknown(line_number: nat) -> ScannerErrorView {
        ScannerErrorView { kind: ScannerErrorKind::Unknown, line_number }
    }
}

impl ScannerError {
    /// The error for a lexeme that does not have the form its rule demands.
    pub fn new_unknown_error(line_number: usize) -> (error: ScannerError)
        ensures
            error@ == ScannerErrorView::unknown(line_number as nat),
    {
        ScannerError { kind: ScannerErrorKind::Unknown, line_number }
    }

    /// The error's line in a listing, without a line break.
    pub fn to_string(&self) -> (s: String)
        ensures
            s@ == self@.text(),
    {
        let mut s = String::new();
        s.push('#');
        push_decimal(&mut s, self.line_number);
        s.push(' ');
        let kind = self.kind.to_string();
        s.append(kind.as_str());
        assert(s@ == self@.text());
        s
    }
}

} // verus!
