//! The listing of a scanned file: a header with the file's name, then one
//! line for each token and each lexical error.

use vstd::prelude::*;
use vstd::string::*;
use crate::chars::is_digit;
use crate::error::ScannerError;
use crate::token::Token;
use crate::tokenizer::{item_view, item_views, scan, tokenize, ItemView};

verus! {

/// The first line of a listing: `#name` and the file's name between double
/// quotes.
pub open spec fn header(name: Seq<char>) -> Seq<char> {
    "#name "@ + seq!['"'] + name + seq!['"']
}

/// The line of a listing for one item.
pub open spec fn item_text(item: ItemView) -> Seq<char> {
    match item {
        Ok(token) => token.text(),
        Err(error) => error.text(),
    }
}

/// The lines of a listing for a sequence of items, each closed by a line
/// feed.
pub open spec fn item_lines(items: Seq<ItemView>) -> Seq<char>
    decreases items.len(),
{
    if items.len() == 0 {
        Seq::empty()
    } else {
        item_lines(items.drop_last()) + item_text(items.last()) + seq!['\n']
    }
}

/// The listing of a file: the header line, then the lines of its items.
/// Every line is closed by a line feed, so a file without items gives the
/// header line alone.
pub open spec fn listing(name: Seq<char>, items: Seq<ItemView>) -> Seq<char> {
    header(name) + seq!['\n'] + item_lines(items)
}

/// Whether a line has `digits` digits behind a `#`, then a space, then a tag
/// of `tag` characters without a space in it, and behind the tag either
/// nothing or a space and the rest of the line.
pub open spec fn has_line_form(line: Seq<char>, digits: int, tag: int) -> bool {
    &&& 1 <= digits
    &&& 1 <= tag
    &&& 2 + digits + tag <= line.len()
    &&& line[0] == '#'
    &&& forall|i: int| 1 <= i < 1 + digits ==> is_digit(#[trigger] line[i])
    &&& line[1 + digits] == ' '
    &&& forall|i: int| 2 + digits <= i < 2 + digits + tag ==> #[trigger] line[i] != ' '
    &&& (line.len() == 2 + digits + tag || line[2 + digits + tag] == ' ')
}

/// Whether a line has the form of an item's line in a listing: `#`, a line
/// number, a space, a tag, and then nothing or a space and a payload.
pub open spec fn is_item_line(line: Seq<char>) -> bool {
    exists|digits: int, tag: int| has_line_form(line, digits, tag)
}

/// The line of a listing for a token or an error, without a line break.
pub fn item_to_string<'a>(item: &Result<Token<'a>, ScannerError>) -> (line: String)
    ensures
        line@ == item_text(item_view(*item)),
{
    match item {
        Ok(token) => token.to_string(),
        Err(error) => error.to_string(),
    }
}

/// Writes the listing for the items of the file called `name`.
pub fn write_listing<'a>(name: &str, items: &Vec<Result<Token<'a>, ScannerError>>) -> (out: String)
    ensures
        out@ == listing(name@, item_views(items@)),
{
    let mut out = String::from_str("#name ");
    out.push('"');
    out.append(name);
    out.push('"');
    out.push('\n');
    let ghost head = out@;
    assert(head == header(name@) + seq!['\n']);
    let mut i: usize = 0;
    while i < items.len()
        invariant
            i <= items.len(),
            out@ == head + item_lines(item_views(items@).take(i as int)),
        decreases items.len() - i,
    {
        let line = item_to_string(&items[i]);
        out.append(line.as_str());
        out.push('\n');
        proof {
            let done = item_views(items@).take(i + 1);
            assert(done.drop_last() == item_views(items@).take(i as int));
            assert(done.last() == item_view(items[i as int]));
        }
        i += 1;
    }
    assert(item_views(items@).take(i as int) == item_views(items@));
    out
}

/// Scans the source text of the file called `name` and writes its listing.
pub fn scan_listing(name: &str, text: &str) -> (out: String)
    ensures
        out@ == listing(name@, scan(text@)),
{
    let items = tokenize(text);
    write_listing(name, &items)
}

} // verus!
