//! Texts as sequences of characters: case folding, comparison with
//! literals, decimal numerals, and appending to a `String`.

use vstd::prelude::*;
use vstd::string::*;
use crate::chars::{to_lower, to_upper};

verus! {

/// A text with every ASCII letter in lower case.
pub open spec fn lowercase(text: Seq<char>) -> Seq<char> {
    Seq::new(text.len(), |i: int| to_lower(text[i]))
}

/// A text with every ASCII letter in upper case.
pub open spec fn uppercase(text: Seq<char>) -> Seq<char> {
    Seq::new(text.len(), |i: int| to_upper(text[i]))
}

/// The characters of a text, in order.
pub fn chars_of(text: &str) -> (chars: Vec<char>)
    ensures
        chars@ == text@,
{
    let mut chars: Vec<char> = Vec::new();
    for c in it: text.chars()
        invariant
            it.seq() == text@,
            chars@ == text@.take(it.index()),
    {
        chars.push(c);
    }
    chars
}

/// The characters of a text with every ASCII letter in lower case.
pub fn lowercase_of(text: &str) -> (chars: Vec<char>)
    ensures
        chars@ == lowercase(text@),
{
    let mut chars: Vec<char> = Vec::new();
    for c in it: text.chars()
        invariant
            it.seq() == text@,
            chars@ == lowercase(text@.take(it.index())),
    {
        chars.push(to_lower(c));
    }
    chars
}

/// Whether `word` holds exactly the characters of `text`.
pub fn spells(word: &Vec<char>, text: &str) -> (same: bool)
    ensures
        same == (word@ == text@),
{
    let n = text.unicode_len();
    if word.len() != n {
        return false;
    }
    let mut i: usize = 0;
    while i < n
        invariant
            n == text@.len(),
            n == word@.len(),
            i <= n,
            word@.take(i as int) == text@.take(i as int),
        decreases n - i,
    {
        if word[i] != text.get_char(i) {
            return false;
        }
        assert(word@.take(i + 1) == word@.take(i as int).push(word@[i as int]));
        assert(text@.take(i + 1) == text@.take(i as int).push(text@[i as int]));
        i += 1;
    }
    assert(word@ == word@.take(n as int));
    assert(text@ == text@.take(n as int));
    true
}

/// The character of one decimal digit.
pub open spec fn digit_char(d: nat) -> char
    recommends
        d < 10,
{
    ((d as int) + 48) as char
}

/// The decimal numeral of a natural number, without leading zeros.
pub open spec fn decimal(n: nat) -> Seq<char>
    decreases n,
{
    if n < 10 {
        seq![digit_char(n)]
    } else {
        decimal(n / 10).push(digit_char(n % 10))
    }
}


/// `String::push` appends one character to the end of the string and leaves
/// the characters before it as they were.
pub assume_specification[ String::push ](s: &mut String, ch: char)
    ensures
        final(s)@ == old(s)@.push(ch),
;

/// Appends the decimal numeral of `n`.
pub fn push_decimal(out: &mut String, n: usize)
    ensures
        final(out)@ == old(out)@ + decimal(n as nat),
    decreases n,
{
    if n >= 10 {
        push_decimal(out, n / 10);
    }
    let d: u8 = (n % 10) as u8;
    out.push((d + 48) as char);
}

} // verus!
