//! The notebook's text format: the markers that delimit a section, and what
//! a single line is.
//!
//! ```text
//! ## <identity>
//! <body lines>
//!
//! <!-- timestamp=<instant> -->
//!
//! ---
//! ```

use crate::text::{
    find, has_prefix, same_chars, search, slice_of, starts_with, to_chars, trim, trimmed,
};
use vstd::prelude::*;

verus! {

/// The marker that opens a section; the rest of its line names the section.
pub open spec fn heading_marker() -> Seq<char> {
    "## "@
}

/// The line that closes a section.
pub open spec fn separator() -> Seq<char> {
    "---"@
}

/// The start of a line that carries a section's timestamp.
pub open spec fn marker_prefix() -> Seq<char> {
    "<!-- timestamp="@
}

/// What stands directly before the timestamp in its line.
pub open spec fn marker_key() -> Seq<char> {
    "timestamp="@
}

/// What stands directly after the timestamp in its line.
pub open spec fn marker_close() -> Seq<char> {
    " -->"@
}

/// Whether the line opens a section.
pub open spec fn is_heading(line: Seq<char>) -> bool {
    starts_with(line, heading_marker())
}

/// Whether the line closes a section.
pub open spec fn is_separator(line: Seq<char>) -> bool {
    trim(line) == separator()
}

/// Whether the line is a timestamp marker.
pub open spec fn is_marker(line: Seq<char>) -> bool {
    starts_with(line, marker_prefix())
}

/// The text between the first `timestamp=` of the line and the first ` -->`
/// after it, where the line holds both.
pub open spec fn marker_text(line: Seq<char>) -> Option<Seq<char>> {
    match find(line, marker_key()) {
        None => None,
        Some(k) => {
            let from = k + marker_key().len();
            match find(line.skip(from), marker_close()) {
                None => None,
                Some(n) => Some(line.subrange(from, from + n)),
            }
        },
    }
}

/// The name that a heading line gives its section.
pub open spec fn heading_text(line: Seq<char>) -> Seq<char> {
    line.skip(heading_marker().len() as int)
}

/// The lengths of the markers.
pub proof fn lemma_marker_lengths()
    ensures
        heading_marker().len() == 3,
        separator().len() == 3,
        marker_prefix().len() == 15,
        marker_key().len() == 10,
        marker_close().len() == 4,
        heading_marker() == seq!['#', '#', ' '],
        separator() == seq!['-', '-', '-'],
{
    reveal_strlit("## ");
    reveal_strlit("---");
    reveal_strlit("<!-- timestamp=");
    reveal_strlit("timestamp=");
    reveal_strlit(" -->");
    assert(heading_marker() =~= seq!['#', '#', ' ']);
    assert(separator() =~= seq!['-', '-', '-']);
}

/// Tests whether the line opens a section.
pub fn line_is_heading(line: &Vec<char>) -> (r: bool)
    ensures
        r == is_heading(line@),
{
    let marker = to_chars("## ");
    has_prefix(line, &marker)
}

/// Tests whether the line closes a section.
pub fn line_is_separator(line: &Vec<char>) -> (r: bool)
    ensures
        r == is_separator(line@),
{
    let core = trimmed(line);
    let marker = to_chars("---");
    same_chars(&core, &marker)
}

/// Tests whether the line is a timestamp marker.
pub fn line_is_marker(line: &Vec<char>) -> (r: bool)
    ensures
        r == is_marker(line@),
{
    let marker = to_chars("<!-- timestamp=");
    has_prefix(line, &marker)
}

/// Reads the timestamp out of a line.
pub fn read_marker(line: &Vec<char>) -> (r: Option<Vec<char>>)
    ensures
        match r {
            Some(t) => marker_text(line@) == Some(t@),
            None => marker_text(line@) is None,
        },
{
    let key = to_chars("timestamp=");
    let close = to_chars(" -->");
    match search(line, &key) {
        None => None,
        Some(k) => {
            let len: usize = line.len();
            let from: usize = k + key.len();
            let rest = slice_of(line, from, len);
            assert(rest@ == line@.skip(from as int));
            match search(&rest, &close) {
                None => None,
                Some(n) => {
                    Some(slice_of(line, from, from + n))
                },
            }
        },
    }
}

} // verus!
