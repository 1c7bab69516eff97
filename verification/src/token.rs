//! The token model of the Cool scanner and the text of each token in a
//! listing.

use vstd::prelude::*;
use vstd::string::*;
use crate::text::{decimal, lowercase, lowercase_of, push_decimal, spells};

verus! {

/// The reserved words of Cool. `true` and `false` are constants, not keywords.
#[derive(Debug, Clone, Copy, PartialEq, Eq)]
pub enum Keyword {
    Class,
    Else,
    Fi,
    If,
    In,
    Inherits,
    Let,
    Loop,
    Pool,
    Then,
    While,
    Case,
    Esac,
    Of,
    New,
    IsVoid,
    Not,
}

impl Keyword {
    /// The keyword as it is written in lower case.
    pub open spec fn spelling(self) -> Seq<char> {
        match self {
            Keyword::Class => "class"@,
            Keyword::Else => "else"@,
            Keyword::Fi => "fi"@,
            Keyword::If => "if"@,
            Keyword::In => "in"@,
            Keyword::Inherits => "inherits"@,
            Keyword::Let => "let"@,
            Keyword::Loop => "loop"@,
            Keyword::Pool => "pool"@,
            Keyword::Then => "then"@,
            Keyword::While => "while"@,
            Keyword::Case => "case"@,
            Keyword::Esac => "esac"@,
            Keyword::Of => "of"@,
            Keyword::New => "new"@,
            Keyword::IsVoid => "isvoid"@,
            Keyword::Not => "not"@,
        }
    }

    /// The tag of the keyword in a listing: its spelling in upper case.
    pub open spec fn tag(self) -> Seq<char> {
        match self {
            Keyword::Class => "CLASS"@,
            Keyword::Else => "ELSE"@,
            Keyword::Fi => "FI"@,
            Keyword::If => "IF"@,
            Keyword::In => "IN"@,
            Keyword::Inherits => "INHERITS"@,
            Keyword::Let => "LET"@,
            Keyword::Loop => "LOOP"@,
            Keyword::Pool => "POOL"@,
            Keyword::Then => "THEN"@,
            Keyword::While => "WHILE"@,
            Keyword::Case => "CASE"@,
            Keyword::Esac => "ESAC"@,
            Keyword::Of => "OF"@,
            Keyword::New => "NEW"@,
            Keyword::IsVoid => "ISVOID"@,
            Keyword::Not => "NOT"@,
        }
    }

    /// The keyword that a word spells when case is ignored, if any.
    pub open spec fn spec_parse(word: Seq<char>) -> Option<Keyword> {
        let w = lowercase(word);
        if w == Keyword::Class.spelling() {
            Some(Keyword::Class)
        } else if w == Keyword::Else.spelling() {
            Some(Keyword::Else)
        } else if w == Keyword::Fi.spelling() {
            Some(Keyword::Fi)
        } else if w == Keyword::If.spelling() {
            Some(Keyword::If)
        } else if w == Keyword::In.spelling() {
            Some(Keyword::In)
        } else if w == Keyword::Inherits.spelling() {
            Some(Keyword::Inherits)
        } else if w == Keyword::Let.spelling() {
            Some(Keyword::Let)
        } else if w == Keyword::Loop.spelling() {
            Some(Keyword::Loop)
        } else if w == Keyword::Pool.spelling() {
            Some(Keyword::Pool)
        } else if w == Keyword::Then.spelling() {
            Some(Keyword::Then)
        } else if w == Keyword::While.spelling() {
            Some(Keyword::While)
        } else if w == Keyword::Case.spelling() {
            Some(Keyword::Case)
        } else if w == Keyword::Esac.spelling() {
            Some(Keyword::Esac)
        } else if w == Keyword::Of.spelling() {
            Some(Keyword::Of)
        } else if w == Keyword::New.spelling() {
            Some(Keyword::New)
        } else if w == Keyword::IsVoid.spelling() {
            Some(Keyword::IsVoid)
        } else if w == Keyword::Not.spelling() {
            Some(Keyword::Not)
        } else {
            None
        }
    }

    /// Recognizes a keyword in any mix of upper and lower case.
    pub fn parse(word: &str) -> (keyword: Option<Keyword>)
        ensures
            keyword == Keyword::spec_parse(word@),
    {
        let w = lowercase_of(word);
        if spells(&w, "class") {
            Some(Keyword::Class)
        } else if spells(&w, "else") {
            Some(Keyword::Else)
        } else if spells(&w, "fi") {
            Some(Keyword::Fi)
        } else if spells(&w, "if") {
            Some(Keyword::If)
        } else if spells(&w, "in") {
            Some(Keyword::In)
        } else if spells(&w, "inherits") {
            Some(Keyword::Inherits)
        } else if spells(&w, "let") {
            Some(Keyword::Let)
        } else if spells(&w, "loop") {
            Some(Keyword::Loop)
        } else if spells(&w, "pool") {
            Some(Keyword::Pool)
        } else if spells(&w, "then") {
            Some(Keyword::Then)
        } else if spells(&w, "while") {
            Some(Keyword::While)
        } else if spells(&w, "case") {
            Some(Keyword::Case)
        } else if spells(&w, "esac") {
            Some(Keyword::Esac)
        } else if spells(&w, "of") {
            Some(Keyword::Of)
        } else if spells(&w, "new") {
            Some(Keyword::New)
        } else if spells(&w, "isvoid") {
            Some(Keyword::IsVoid)
        } else if spells(&w, "not") {
            Some(Keyword::Not)
        } else {
            None
        }
    }

    /// The keyword's tag in a listing.
    pub fn to_string(&self) -> (s: String)
        ensures
            s@ == self.tag(),
    {
        let tag = match self {
            Keyword::Class => "CLASS",
            Keyword::Else => "ELSE",
            Keyword::Fi => "FI",
            Keyword::If => "IF",
            Keyword::In => "IN",
            Keyword::Inherits => "INHERITS",
            Keyword::Let => "LET",
            Keyword::Loop => "LOOP",
            Keyword::Pool => "POOL",
            Keyword::Then => "THEN",
            Keyword::While => "WHILE",
            Keyword::Case => "CASE",
            Keyword::Esac => "ESAC",
            Keyword::Of => "OF",
            Keyword::New => "NEW",
            Keyword::IsVoid => "ISVOID",
            Keyword::Not => "NOT",
        };
        String::from_str(tag)
    }
}

/// The boolean constant that a word spells: `true` or `false` in any mix of
/// case after a first letter in lower case.
pub open spec fn spec_parse_bool(word: Seq<char>) -> Option<bool> {
    if word.len() > 0 && word[0] == 't' && lowercase(word) == "true"@ {
        Some(true)
    } else if word.len() > 0 && word[0] == 'f' && lowercase(word) == "false"@ {
        Some(false)
    } else {
        None
    }
}

/// Recognizes a boolean constant.
pub fn parse_bool(word: &str) -> (value: Option<bool>)
    ensures
        value == spec_parse_bool(word@),
{
    let w = lowercase_of(word);
    if w.len() == 0 {
        return None;
    }
    let first = word.get_char(0);
    if first == 't' && spells(&w, "true") {
        Some(true)
    } else if first == 'f' && spells(&w, "false") {
        Some(false)
    } else {
        None
    }
}

/// The operators of Cool, each one or two characters long.
#[derive(Debug, Clone, Copy, PartialEq, Eq)]
pub enum Operator {
    Add,
    Subtract,
    Multiply,
    Divide,
    Equal,
    LessThan,
    LessThanOrEqual,
    Assign,
    Darrow,
    Dot,
    Ampersand,
    Tilda,
}

impl Operator {
    /// The tag of the operator in a listing: a name for the operators of two
    /// characters, the quoted character for the others.
    pub open spec fn tag(self) -> Seq<char> {
        match self {
            Operator::Add => "'+'"@,
            Operator::Subtract => "'-'"@,
            Operator::Multiply => "'*'"@,
            Operator::Divide => "'/'"@,
            Operator::Equal => "'='"@,
            Operator::LessThan => "'<'"@,
            Operator::LessThanOrEqual => "LE"@,
            Operator::Assign => "ASSIGN"@,
            Operator::Darrow => "DARROW"@,
            Operator::Dot => "'.'"@,
            Operator::Ampersand => "'@'"@,
            Operator::Tilda => "'~'"@,
        }
    }

    /// The operator that consists of the single character `c`, if any.
    pub open spec fn spec_of_char(c: char) -> Option<Operator> {
        if c == '+' {
            Some(Operator::Add)
        } else if c == '-' {
            Some(Operator::Subtract)
        } else if c == '*' {
            Some(Operator::Multiply)
        } else if c == '/' {
            Some(Operator::Divide)
        } else if c == '=' {
            Some(Operator::Equal)
        } else if c == '<' {
            Some(Operator::LessThan)
        } else if c == '.' {
            Some(Operator::Dot)
        } else if c == '@' {
            Some(Operator::Ampersand)
        } else if c == '~' {
            Some(Operator::Tilda)
        } else {
            None
        }
    }

    /// The operator that consists of the characters `a` and `b`, if any.
    pub open spec fn spec_of_pair(a: char, b: char) -> Option<Operator> {
        if a == '<' && b == '=' {
            Some(Operator::LessThanOrEqual)
        } else if a == '<' && b == '-' {
            Some(Operator::Assign)
        } else if a == '=' && b == '>' {
            Some(Operator::Darrow)
        } else {
            None
        }
    }

    /// The operator that a text of one or two characters spells, if any.
    pub open spec fn spec_parse(text: Seq<char>) -> Option<Operator> {
        if text.len() == 1 {
            Operator::spec_of_char(text[0])
        } else if text.len() == 2 {
            Operator::spec_of_pair(text[0], text[1])
        } else {
            None
        }
    }

    /// Recognizes an operator of one character.
    #[verifier::when_used_as_spec(spec_of_char)]
    pub fn of_char(c: char) -> (operator: Option<Operator>)
        ensures
            operator == Operator::spec_of_char(c),
    {
        if c == '+' {
            Some(Operator::Add)
        } else if c == '-' {
            Some(Operator::Subtract)
        } else if c == '*' {
            Some(Operator::Multiply)
        } else if c == '/' {
            Some(Operator::Divide)
        } else if c == '=' {
            Some(Operator::Equal)
        } else if c == '<' {
            Some(Operator::LessThan)
        } else if c == '.' {
            Some(Operator::Dot)
        } else if c == '@' {
            Some(Operator::Ampersand)
        } else if c == '~' {
            Some(Operator::Tilda)
        } else {
            None
        }
    }

    /// Recognizes an operator of two characters.
    #[verifier::when_used_as_spec(spec_of_pair)]
    pub fn of_pair(a: char, b: char) -> (operator: Option<Operator>)
        ensures
            operator == Operator::spec_of_pair(a, b),
    {
        if a == '<' && b == '=' {
            Some(Operator::LessThanOrEqual)
        } else if a == '<' && b == '-' {
            Some(Operator::Assign)
        } else if a == '=' && b == '>' {
            Some(Operator::Darrow)
        } else {
            None
        }
    }

    /// Recognizes an operator.
    pub fn parse(text: &str) -> (operator: Option<Operator>)
        ensures
            operator == Operator::spec_parse(text@),
    {
        let n = text.unicode_len();
        if n == 1 {
            Operator::of_char(text.get_char(0))
        } else if n == 2 {
            Operator::of_pair(text.get_char(0), text.get_char(1))
        } else {
            None
        }
    }

    /// The operator's tag in a listing.
    pub fn to_string(&self) -> (s: String)
        ensures
            s@ == self.tag(),
    {
        let tag = match self {
            Operator::Add => "'+'",
            Operator::Subtract => "'-'",
            Operator::Multiply => "'*'",
            Operator::Divide => "'/'",
            Operator::Equal => "'='",
            Operator::LessThan => "'<'",
            Operator::LessThanOrEqual => "LE",
            Operator::Assign => "ASSIGN",
            Operator::Darrow => "DARROW",
            Operator::Dot => "'.'",
            Operator::Ampersand => "'@'",
            Operator::Tilda => "'~'",
        };
        String::from_str(tag)
    }
}

/// Whether a character is a punctuation character of Cool.
pub open spec fn spec_is_symbol(c: char) -> bool {
    c == '{' || c == '}' || c == ':' || c == ';' || c == '(' || c == ')' || c == ','
}

/// A punctuation character: one of `{ } : ; ( ) ,`.
#[verifier::when_used_as_spec(spec_is_symbol)]
pub fn is_symbol(c: char) -> (b: bool)
    ensures
        b == spec_is_symbol(c),
{
    c == '{' || c == '}' || c == ':' || c == ';' || c == '(' || c == ')' || c == ','
}

/// What a token is, with the part of the source text that it carries.
#[derive(Debug, PartialEq, Eq)]
pub enum TokenKind<'a> {
    Keyword(Keyword),
    Operator(Operator),
    Symbol(char),
    BoolConstant(bool),
    /// The characters of a string literal, escape sequences resolved.
    StringConstant(Vec<char>),
    /// The digits of an integer literal as written.
    UnparsedIntConstant(&'a str),
    TypeId(&'a str),
    ObjectId(&'a str),
}

/// A token kind as a mathematical value: texts are sequences of characters.
pub enum TokenKindView {
    Keyword(Keyword),
    Operator(Operator),
    Symbol(char),
    BoolConstant(bool),
    StringConstant(Seq<char>),
    UnparsedIntConstant(Seq<char>),
    TypeId(Seq<char>),
    ObjectId(Seq<char>),
}

impl<'a> View for TokenKind<'a> {
    type V = TokenKindView;

    open spec fn view(&self) -> TokenKindView {
        match *self {
            TokenKind::Keyword(k) => TokenKindView::Keyword(k),
            TokenKind::Operator(op) => TokenKindView::Operator(op),
            TokenKind::Symbol(c) => TokenKindView::Symbol(c),
            TokenKind::BoolConstant(b) => TokenKindView::BoolConstant(b),
            TokenKind::StringConstant(chars) => TokenKindView::StringConstant(chars@),
            TokenKind::UnparsedIntConstant(digits) => TokenKindView::UnparsedIntConstant(digits@),
            TokenKind::TypeId(name) => TokenKindView::TypeId(name@),
            TokenKind::ObjectId(name) => TokenKindView::ObjectId(name@),
        }
    }
}

/// How a character of a string is written in a listing when it is not
/// written as itself.
pub open spec fn escape_of(c: char) -> Option<Seq<char>> {
    if c == '"' {
        Some("\\\""@)
    } else if c == '\n' {
        Some("\\n"@)
    } else if c == '\t' {
        Some("\\t"@)
    } else if c == '\\' {
        Some("\\\\"@)
    } else if c == '\u{0}' {
        Some("\\000"@)
    } else if c == '\u{1}' {
        Some("\\001"@)
    } else if c == '\u{2}' {
        Some("\\002"@)
    } else if c == '\u{3}' {
        Some("\\003"@)
    } else if c == '\u{4}' {
        Some("\\004"@)
    } else if c == '\u{8}' {
        Some("\\b"@)
    } else if c == '\u{b}' {
        Some("\\013"@)
    } else if c == '\u{c}' {
        Some("\\f"@)
    } else if c == '\u{d}' {
        Some("\\015"@)
    } else if c == '\u{12}' {
        Some("\\022"@)
    } else if c == '\u{1b}' {
        Some("\\033"@)
    } else {
        None
    }
}

/// The characters that a listing writes as a backslash and three octal
/// digits.
pub open spec fn is_written_in_octal(c: char) -> bool {
    c == '\u{0}' || c == '\u{1}' || c == '\u{2}' || c == '\u{3}' || c == '\u{4}' || c == '\u{b}'
        || c == '\u{d}' || c == '\u{12}' || c == '\u{1b}'
}

/// One character of a string as a listing shows it.
pub open spec fn escaped_char(c: char) -> Seq<char> {
    match escape_of(c) {
        Some(escape) => escape,
        None => seq![c],
    }
}

/// The characters of a string as a listing shows them.
pub open spec fn escaped(chars: Seq<char>) -> Seq<char>
    decreases chars.len(),
{
    if chars.len() == 0 {
        Seq::empty()
    } else {
        escaped(chars.drop_last()) + escaped_char(chars.last())
    }
}

/// The escape sequence that stands for `c` in a listing, or `None` where
/// `c` stands for itself.
pub fn escaped_str_of_char(c: &char) -> (escape: Option<&str>)
    ensures
        match escape {
            Some(s) => escape_of(*c) == Some(s@),
            None => escape_of(*c) is None,
        },
{
    let c = *c;
    if c == '"' {
        Some("\\\"")
    } else if c == '\n' {
        Some("\\n")
    } else if c == '\t' {
        Some("\\t")
    } else if c == '\\' {
        Some("\\\\")
    } else if c == '\u{0}' {
        Some("\\000")
    } else if c == '\u{1}' {
        Some("\\001")
    } else if c == '\u{2}' {
        Some("\\002")
    } else if c == '\u{3}' {
        Some("\\003")
    } else if c == '\u{4}' {
        Some("\\004")
    } else if c == '\u{8}' {
        Some("\\b")
    } else if c == '\u{b}' {
        Some("\\013")
    } else if c == '\u{c}' {
        Some("\\f")
    } else if c == '\u{d}' {
        Some("\\015")
    } else if c == '\u{12}' {
        Some("\\022")
    } else if c == '\u{1b}' {
        Some("\\033")
    } else {
        None
    }
}

/// Appends one character as a listing shows it.
pub fn push_escaped_char(out: &mut String, c: char)
    ensures
        final(out)@ == old(out)@ + escaped_char(c),
{
    match escaped_str_of_char(&c) {
        Some(escape) => out.append(escape),
        None => out.push(c),
    }
}

impl TokenKindView {
    /// The tag that names the kind in a listing.
    pub open spec fn tag(self) -> Seq<char> {
        match self {
            TokenKindView::Keyword(k) => k.tag(),
            TokenKindView::Operator(op) => op.tag(),
            TokenKindView::Symbol(c) => seq!['\'', c, '\''],
            TokenKindView::BoolConstant(_) => "BOOL_CONST"@,
            TokenKindView::StringConstant(_) => "STR_CONST"@,
            TokenKindView::UnparsedIntConstant(_) => "INT_CONST"@,
            TokenKindView::TypeId(_) => "TYPEID"@,
            TokenKindView::ObjectId(_) => "OBJECTID"@,
        }
    }

    /// What follows the tag in a listing, for the kinds that carry a value.
    pub open spec fn payload(self) -> Option<Seq<char>> {
        match self {
            TokenKindView::Keyword(_) => None,
            TokenKindView::Operator(_) => None,
            TokenKindView::Symbol(_) => None,
            TokenKindView::BoolConstant(b) => Some(
                if b {
                    "true"@
                } else {
                    "false"@
                },
            ),
            TokenKindView::StringConstant(chars) => Some(seq!['"'] + escaped(chars) + seq!['"']),
            TokenKindView::UnparsedIntConstant(digits) => Some(digits),
            TokenKindView::TypeId(name) => Some(name),
            TokenKindView::ObjectId(name) => Some(name),
        }
    }

    /// The kind in a listing: the tag, then a space and the payload if
    /// there is one.
    pub open spec fn text(self) -> Seq<char> {
        match self.payload() {
            Some(payload) => self.tag() + seq![' '] + payload,
            None => self.tag(),
        }
    }
}

impl<'a> TokenKind<'a> {
    /// The kind as a listing shows it.
    pub fn to_string(&self) -> (s: String)
        ensures
            s@ == self@.text(),
    {
        match self {
            TokenKind::Keyword(k) => k.to_string(),
            TokenKind::Operator(op) => op.to_string(),
            TokenKind::Symbol(c) => {
                let mut s = String::new();
                s.push('\'');
                s.push(*c);
                s.push('\'');
                assert(s@ == seq!['\'', *c, '\'']);
                s
            },
            TokenKind::BoolConstant(b) => {
                let mut s = String::from_str("BOOL_CONST");
                s.push(' ');
                if *b {
                    s.append("true");
                } else {
                    s.append("false");
                }
                s
            },
            TokenKind::StringConstant(chars) => {
                let mut s = String::from_str("STR_CONST");
                s.push(' ');
                s.push('"');
                let ghost head = s@;
                let mut i: usize = 0;
                while i < chars.len()
                    invariant
                        i <= chars.len(),
                        s@ == head + escaped(chars@.take(i as int)),
                    decreases chars.len() - i,
                {
                    push_escaped_char(&mut s, chars[i]);
                    assert(chars@.take(i + 1).drop_last() == chars@.take(i as int));
                    i += 1;
                }
                assert(chars@.take(i as int) == chars@);
                s.push('"');
                assert(s@ == self@.text());
                s
            },
            TokenKind::UnparsedIntConstant(digits) => {
                let mut s = String::from_str("INT_CONST");
                s.push(' ');
                s.append(digits);
                s
            },
            TokenKind::TypeId(name) => {
                let mut s = String::from_str("TYPEID");
                s.push(' ');
                s.append(name);
                s
            },
            TokenKind::ObjectId(name) => {
                let mut s = String::from_str("OBJECTID");
                s.push(' ');
                s.append(name);
                s
            },
        }
    }
}

/// A token: what it is, and the line on which its last character stands.
#[derive(Debug, PartialEq, Eq)]
pub struct Token<'a> {
    pub kind: TokenKind<'a>,
    pub line_number: usize,
}

/// A token as a mathematical value.
pub struct TokenView {
    pub kind: TokenKindView,
    pub line_number: nat,
}

impl<'a> View for Token<'a> {
    type V = TokenView;

    open spec fn view(&self) -> TokenView {
        TokenView { kind: self.kind@, line_number: self.line_number as nat }
    }
}

/// The line of a listing for an item on line `line_number`: `#`, the line
/// number, a space, and what the item is.
pub open spec fn listing_line(line_number: nat, what: Seq<char>) -> Seq<char> {
    seq!['#'] + decimal(line_number) + seq![' '] + what
}

impl TokenView {
    /// The token's line in a listing.
    pub open spec fn text(self) -> Seq<char> {
        listing_line(self.line_number, self.kind.text())
    }
}

impl<'a> Token<'a> {
    /// The token's line in a listing, without a line break.
    pub fn to_string(&self) -> (s: String)
        ensures
            s@ == self@.text(),
    {
        let mut s = String::new();
        s.push('#');
        push_decimal(&mut s, self.line_number);
        s.push(' ');
        let kind = self.kind.to_string();
        s.append(kind.as_str());
        assert(s@ == self@.text());
        s
    }
}

} // verus!
