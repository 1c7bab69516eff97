//! A lexical scanner for the Cool programming language.
//!
//! [`tokenize`] turns a source text into its tokens and lexical errors, in
//! the order of the text, each with the line on which it ends.
//! [`listing::scan_listing`] writes them down in the format of the Cool
//! lexer: a header with the file's name, then one line for each item.
//!
//! The work is done in two steps. [`CoolParser::parse`] cuts the text into
//! lexemes as [`grammar`] describes them, and the functions of [`tokenizer`]
//! turn each lexeme into a token or an error. Every function is verified
//! against a description of its result over sequences of characters, and
//! [`laws`] holds what follows from these descriptions for every scan.

pub mod chars;
pub mod error;
pub mod grammar;
pub mod laws;
pub mod listing;
pub mod parser;
pub mod text;
pub mod token;
pub mod tokenizer;

pub use crate::error::{ScannerError, ScannerErrorKind};
pub use crate::parser::{CoolParser, LineRange};
pub use crate::tokenizer::tokenize;
