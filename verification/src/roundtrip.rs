//! Reading a notebook and writing it out again gives the text that was
//! read, but for its line ends: the notebook keeps every line, and it is
//! written with one line feed between two lines.

use crate::format::{
    heading_text, is_heading, is_marker, is_separator, lemma_marker_lengths, marker_close,
    marker_key, marker_prefix, marker_text, separator,
};
use crate::lines::{join, lemma_line_end, line_end, lines, newline, strip_cr};
use crate::notebook::{
    gap_len, last_marker, lemma_body_len, lemma_gap_len_bounds, lemma_parse_keeps_lines,
    parse_sections, parse_text, section_of,
};
use crate::store::{entry_text, is_formatted, prepended};
use crate::text::{
    contains, find, is_blank, is_whitespace, leading_space, lemma_find_from, lemma_find_is,
    lemma_leading_space_bound, lemma_trailing_space_bound, occurs_at, trailing_space, trim,
    trim_end, trim_start,
};
use vstd::prelude::*;

verus! {

/// Whether no line feed of the text follows a carriage return.
pub open spec fn crlf_free(s: Seq<char>) -> bool {
    forall|i: int| 0 < i < s.len() && s[i] == '\n' ==> #[trigger] s[i - 1] != '\r'
}

/// Whether the text is written as a notebook is: every line ends with a line
/// feed alone, and no line feed follows the last line.
pub open spec fn plain(s: Seq<char>) -> bool {
    crlf_free(s) && (s.len() > 0 ==> s.last() != '\n')
}

/// A notebook that was read and is written out holds the lines of the text
/// that was read, with one line feed between two lines.
pub proof fn lemma_written_as_read(text: Seq<char>)
    ensures
        parse_text(text).text() == join(lines(text), newline()),
{
    lemma_parse_keeps_lines(lines(text));
}

/// The first line ends inside the text, at a line feed if before the end.
pub proof fn lemma_line_end_bounds(s: Seq<char>)
    ensures
        0 <= line_end(s) <= s.len(),
        line_end(s) < s.len() ==> s[line_end(s)] == '\n',
        forall|j: int| 0 <= j < line_end(s) ==> s[j] != '\n',
    decreases s.len(),
{
    if s.len() > 0 && s[0] != '\n' {
        lemma_line_end_bounds(s.skip(1));
        assert forall|j: int| 0 <= j < line_end(s) implies s[j] != '\n' by {
            if j > 0 {
                assert(s.skip(1)[j - 1] == s[j]);
            }
        }
    }
}

/// A text that is not empty has a line.
pub proof fn lemma_lines_not_empty(s: Seq<char>)
    requires
        s.len() > 0,
    ensures
        lines(s).len() > 0,
{
    lemma_line_end_bounds(s);
}

/// Joining goes from the front as it goes from the back.
pub proof fn lemma_join_front(first: Seq<char>, rest: Seq<Seq<char>>, sep: Seq<char>)
    requires
        rest.len() > 0,
    ensures
        join(seq![first] + rest, sep) == first + sep + join(rest, sep),
    decreases rest.len(),
{
    let all = seq![first] + rest;
    assert(all.drop_last() =~= seq![first] + rest.drop_last());
    assert(all.last() == rest.last());
    if rest.len() == 1 {
        assert(seq![first] + rest.drop_last() =~= seq![first]);
        assert(join(seq![first], sep) == first);
        assert(join(rest, sep) == rest[0]);
    } else {
        lemma_join_front(first, rest.drop_last(), sep);
        assert(join(all, sep) =~= first + sep + join(rest, sep));
    }
}

/// The lines of a plain text, joined by line feeds, are the text.
pub proof fn lemma_plain_text_is_its_lines(s: Seq<char>)
    requires
        plain(s),
    ensures
        join(lines(s), newline()) == s,
    decreases s.len(),
{
    if s.len() == 0 {
        assert(join(lines(s), newline()) =~= s);
    } else {
        lemma_line_end_bounds(s);
        let n = line_end(s);
        if n >= s.len() {
            assert(lines(s) == seq![s]);
        } else {
            let head = s.take(n);
            let rest = s.skip(n + 1);
            assert(rest.len() > 0) by {
                if n + 1 == s.len() {
                    assert(s.last() == s[n]);
                }
            }
            assert(strip_cr(head) == head) by {
                if head.len() > 0 {
                    assert(head.last() == s[n - 1]);
                }
            }
            assert(plain(rest)) by {
                assert forall|i: int| 0 < i < rest.len() && rest[i] == '\n' implies #[trigger] rest[i
                    - 1] != '\r' by {
                    assert(rest[i] == s[i + n + 1]);
                    assert(rest[i - 1] == s[i + n + 1 - 1]);
                }
                assert(rest.last() == s.last());
            }
            lemma_plain_text_is_its_lines(rest);
            lemma_lines_not_empty(rest);
            lemma_join_front(head, lines(rest), newline());
            assert(head + newline() + rest =~= s);
        }
    }
}

/// A text that was trimmed at its end does not end with white space.
pub proof fn lemma_trim_end_last(s: Seq<char>)
    ensures
        trim_end(s).len() > 0 ==> !is_whitespace(trim_end(s).last()),
    decreases s.len(),
{
    lemma_trailing_space_bound(s);
    if s.len() > 0 && is_whitespace(s.last()) {
        lemma_trim_end_last(s.drop_last());
        lemma_trailing_space_bound(s.drop_last());
        assert(trim_end(s) =~= trim_end(s.drop_last()));
    } else {
        assert(trim_end(s) =~= s);
    }
}

/// Two texts without a carriage return before a line feed make one, unless a
/// carriage return at the end of the first meets a line feed at the start of
/// the second.
pub proof fn lemma_crlf_free_concat(a: Seq<char>, b: Seq<char>)
    requires
        crlf_free(a),
        crlf_free(b),
        a.len() == 0 || b.len() == 0 || a.last() != '\r' || b[0] != '\n',
    ensures
        crlf_free(a + b),
{
    let s = a + b;
    assert forall|i: int| 0 < i < s.len() && s[i] == '\n' implies #[trigger] s[i - 1] != '\r' by {
        if i < a.len() {
            assert(s[i] == a[i] && s[i - 1] == a[i - 1]);
        } else if i == a.len() {
            assert(s[i] == b[0] && s[i - 1] == a.last());
        } else {
            assert(s[i] == b[i - a.len()] && s[i - 1] == b[i - a.len() - 1]);
        }
    }
}

/// What the two literals of an entry hold.
proof fn lemma_entry_literals()
    ensures
        crlf_free("\n\n<!-- timestamp="@),
        crlf_free(" -->\n\n---"@),
        "\n\n<!-- timestamp="@.len() == 17,
        "\n\n<!-- timestamp="@[0] == '\n',
        "\n\n<!-- timestamp="@.last() == '=',
        " -->\n\n---"@.len() == 9,
        " -->\n\n---"@[0] == ' ',
        " -->\n\n---"@.last() == '-',
{
    reveal_strlit("\n\n<!-- timestamp=");
    reveal_strlit(" -->\n\n---");
    let a = "\n\n<!-- timestamp="@;
    let b = " -->\n\n---"@;
    assert forall|i: int| 0 < i < a.len() && a[i] == '\n' implies #[trigger] a[i - 1] != '\r' by {
        assert(i == 1);
    }
    assert forall|i: int| 0 < i < b.len() && b[i] == '\n' implies #[trigger] b[i - 1] != '\r' by {
        assert(i == 4 || i == 5);
    }
}

/// White space at the start of a text ends before a character that is
/// none.
pub proof fn lemma_leading_space_stops(s: Seq<char>, k: int)
    requires
        0 <= k < s.len(),
        !is_whitespace(s[k]),
    ensures
        leading_space(s) <= k,
    decreases k,
{
    if k > 0 && is_whitespace(s[0]) {
        lemma_leading_space_stops(s.skip(1), k - 1);
    }
}

/// White space at the end of a text begins behind a character that is
/// none.
pub proof fn lemma_trailing_space_stops(s: Seq<char>, k: int)
    requires
        0 <= k < s.len(),
        !is_whitespace(s[k]),
    ensures
        trailing_space(s) <= s.len() - 1 - k,
    decreases s.len() - k,
{
    if k < s.len() - 1 && is_whitespace(s.last()) {
        lemma_trailing_space_stops(s.drop_last(), k);
    }
}

/// A text that holds a character that is no white space is not blank.
pub proof fn lemma_solid_is_not_blank(s: Seq<char>, k: int)
    requires
        0 <= k < s.len(),
        !is_whitespace(s[k]),
    ensures
        !is_blank(s),
{
    lemma_leading_space_stops(s, k);
    let rest = trim_start(s);
    let at = k - leading_space(s);
    assert(rest[at] == s[k]);
    lemma_trailing_space_stops(rest, at);
}

/// An entry that is formatted is not blank.
proof fn lemma_formatted_is_not_blank(body: Seq<char>)
    requires
        is_formatted(body),
    ensures
        trim(body).len() > 0,
{
    reveal_strlit("---");
    lemma_find_from(body, separator(), 0);
    let k = find(body, separator())->0;
    assert(body.subrange(k, k + 3)[0] == '-');
    assert(body[k] == '-');
    lemma_leading_space_stops(body, k);
    let rest = trim_start(body);
    let at = k - leading_space(body);
    assert(rest[at] == body[k]);
    lemma_trailing_space_stops(rest, at);
}

/// An entry whose own text and timestamp are free of carriage returns
/// before line feeds is stored as a plain text.
pub proof fn lemma_entry_is_plain(body: Seq<char>, stamp: Seq<char>)
    requires
        crlf_free(trim(body)),
        !is_formatted(body) ==> crlf_free(stamp),
    ensures
        plain(entry_text(body, stamp)),
        entry_text(body, stamp).len() > 0,
        !is_whitespace(entry_text(body, stamp).last()),
{
    let core = trim(body);
    lemma_trim_end_last(trim_start(body));
    if is_formatted(body) {
        lemma_formatted_is_not_blank(body);
        assert(core.last() != '\n');
    } else {
        lemma_entry_literals();
        let a = "\n\n<!-- timestamp="@;
        let b = " -->\n\n---"@;
        lemma_crlf_free_concat(core, a);
        lemma_crlf_free_concat(core + a, stamp);
        assert((core + a).last() == '=');
        lemma_crlf_free_concat(core + a + stamp, b);
        let out = core + a + stamp + b;
        assert(out.last() == '-');
    }
}

/// What was put on top of a notebook is read and written out as it was
/// put: the content that a prepend gives is the text of the notebook that is
/// parsed from it. It holds of an entry and a timestamp that are free of
/// carriage returns before line feeds, on top of a content that is blank or
/// plain.
pub proof fn lemma_prepend_round_trip(existing: Seq<char>, body: Seq<char>, stamp: Seq<char>)
    requires
        crlf_free(trim(body)),
        !is_formatted(body) ==> crlf_free(stamp),
        is_blank(existing) || plain(existing),
    ensures
        parse_text(prepended(existing, body, stamp)).text() == prepended(existing, body, stamp),
        plain(prepended(existing, body, stamp)),
{
    let out = prepended(existing, body, stamp);
    let entry = entry_text(body, stamp);
    lemma_entry_is_plain(body, stamp);
    if !is_blank(existing) {
        lemma_crlf_free_concat(entry, newline());
        assert((entry + newline()).last() == '\n');
        lemma_crlf_free_concat(entry + newline(), existing);
        assert(existing.len() > 0) by {
            lemma_leading_space_bound(existing);
            lemma_trailing_space_bound(trim_start(existing));
        }
        assert(out.last() == existing.last());
    }
    lemma_written_as_read(out);
    lemma_plain_text_is_its_lines(out);
}

/// Whether the text holds no line feed.
pub open spec fn one_line(s: Seq<char>) -> bool {
    forall|i: int| 0 <= i < s.len() ==> #[trigger] s[i] != '\n'
}

/// Whether the text ends neither with a line feed nor with a carriage
/// return.
pub open spec fn ends_solid(s: Seq<char>) -> bool {
    s.len() > 0 ==> s.last() != '\n' && s.last() != '\r'
}

/// The lines of a text as they stand before a line feed: those of the text,
/// and one empty line for the empty text.
pub open spec fn lines_before_feed(s: Seq<char>) -> Seq<Seq<char>> {
    if s.len() == 0 {
        seq![Seq::<char>::empty()]
    } else {
        lines(s)
    }
}

/// Where the first line of two texts in a row ends.
pub proof fn lemma_line_end_concat(a: Seq<char>, b: Seq<char>)
    ensures
        line_end(a + b) == if line_end(a) < a.len() {
            line_end(a)
        } else {
            a.len() + line_end(b)
        },
    decreases a.len(),
{
    lemma_line_end_bounds(a);
    if a.len() == 0 {
        assert(a + b =~= b);
    } else if a[0] == '\n' {
    } else {
        lemma_line_end_concat(a.skip(1), b);
        assert((a + b).skip(1) =~= a.skip(1) + b);
    }
}

/// The lines of two texts with a line feed between them are the lines of
/// the first and then the lines of the second, where the first ends neither
/// with a line feed nor with a carriage return.
pub proof fn lemma_lines_concat(a: Seq<char>, b: Seq<char>)
    requires
        ends_solid(a),
    ensures
        lines(a + newline() + b) == lines_before_feed(a) + lines(b),
    decreases a.len(),
{
    let whole = a + newline() + b;
    let tail = newline() + b;
    assert(whole =~= a + tail);
    lemma_line_end_bounds(a);
    lemma_line_end_concat(a, tail);
    assert(line_end(tail) == 0);
    let n = line_end(a);
    if n >= a.len() {
        assert(line_end(whole) == a.len());
        assert(whole.take(a.len() as int) =~= a);
        assert(whole.skip(a.len() as int + 1) =~= b);
        assert(strip_cr(a) == a);
        assert(whole.len() > 0);
        assert(lines(whole) == seq![strip_cr(whole.take(a.len() as int))] + lines(
            whole.skip(a.len() as int + 1),
        ));
        if a.len() > 0 {
            assert(lines(a) == seq![a]);
        } else {
            assert(a =~= Seq::<char>::empty());
        }
        assert(lines_before_feed(a) =~= seq![a]);
        assert(lines(whole) =~= lines_before_feed(a) + lines(b));
    } else {
        let rest = a.skip(n + 1);
        assert(rest.len() > 0) by {
            if n + 1 == a.len() {
                assert(a.last() == a[n]);
            }
        }
        assert(rest.last() == a.last());
        lemma_lines_concat(rest, b);
        assert(whole.take(n) =~= a.take(n));
        assert(whole.skip(n + 1) =~= rest + newline() + b);
        assert(lines(whole) =~= seq![strip_cr(a.take(n))] + (lines(rest) + lines(b)));
        assert(lines(a) == seq![strip_cr(a.take(n))] + lines(rest));
        assert(lines(whole) =~= lines(a) + lines(b));
    }
}

/// The marker line that bears a timestamp.
pub open spec fn marker_line(stamp: Seq<char>) -> Seq<char> {
    marker_prefix() + stamp + marker_close()
}

/// What is stored of an entry ends with its marker and its separator: the
/// lines of an entry that was not formatted before are its own lines, an
/// empty line, the marker line with the timestamp, an empty line, and the
/// separator. It holds of a timestamp without a line feed.
pub proof fn lemma_entry_lines(body: Seq<char>, stamp: Seq<char>)
    requires
        !is_formatted(body),
        one_line(stamp),
    ensures
        lines(entry_text(body, stamp)) == lines_before_feed(trim(body)) + seq![
            Seq::<char>::empty(),
            marker_line(stamp),
            Seq::<char>::empty(),
            separator(),
        ],
        is_marker(marker_line(stamp)),
        is_separator(separator()),
{
    reveal_strlit("\n\n<!-- timestamp=");
    reveal_strlit(" -->\n\n---");
    reveal_strlit("<!-- timestamp=");
    reveal_strlit(" -->");
    reveal_strlit("---");
    let core = trim(body);
    let m = marker_line(stamp);
    let sep = separator();
    let nothing = Seq::<char>::empty();
    lemma_trim_end_last(trim_start(body));
    assert(ends_solid(core));
    assert(entry_text(body, stamp) =~= core + newline() + (nothing + newline() + (m + newline() + (
    nothing + newline() + sep))));
    assert(m.last() == '>');
    assert(one_line(m)) by {
        assert forall|i: int| 0 <= i < m.len() implies #[trigger] m[i] != '\n' by {
            if i >= 15 && i < 15 + stamp.len() {
                assert(m[i] == stamp[i - 15]);
            }
        }
    }
    assert(one_line(sep));
    assert(lines(sep) == seq![sep]) by {
        lemma_line_end(sep, 3);
    }
    assert(lines(m) == seq![m]) by {
        lemma_line_end(m, m.len() as int);
    }
    lemma_lines_concat(nothing, sep);
    lemma_lines_concat(m, nothing + newline() + sep);
    lemma_lines_concat(nothing, m + newline() + (nothing + newline() + sep));
    lemma_lines_concat(core, nothing + newline() + (m + newline() + (nothing + newline() + sep)));
    assert(is_marker(m)) by {
        assert(m.take(15) =~= marker_prefix());
    }
    assert(is_separator(sep)) by {
        assert(leading_space(sep) == 0);
        assert(trim_start(sep) =~= sep);
        assert(trailing_space(sep) == 0);
        assert(trim_end(sep) =~= sep);
    }
}

/// A text that neither begins nor ends with white space is what is left
/// of it when it is trimmed.
pub proof fn lemma_trim_of_solid(s: Seq<char>)
    requires
        s.len() > 0,
        !is_whitespace(s[0]),
        !is_whitespace(s.last()),
    ensures
        trim(s) == s,
{
    assert(leading_space(s) == 0);
    assert(trim_start(s) =~= s);
    assert(trailing_space(s) == 0);
    assert(trim_end(s) =~= s);
}

/// The key of a marker does not stand in a marker line before its place.
proof fn lemma_no_key_before(stamp: Seq<char>, j: int)
    requires
        0 <= j < 5,
    ensures
        !occurs_at(marker_line(stamp), marker_key(), j),
{
    reveal_strlit("<!-- timestamp=");
    reveal_strlit("timestamp=");
    let m = marker_line(stamp);
    let key = marker_key();
    if occurs_at(m, key, j) {
        assert(m.subrange(j, j + 10)[0] == key[0]);
        assert(m[j] == 't');
    }
}

/// Where the key of a marker stands first in a marker line.
proof fn lemma_key_in_marker_line(stamp: Seq<char>)
    ensures
        find(marker_line(stamp), marker_key()) == Some(5int),
        marker_line(stamp).skip(15) == stamp + marker_close(),
        marker_line(stamp).len() == stamp.len() + 19,
{
    let m = marker_line(stamp);
    let key = marker_key();
    assert(occurs_at(m, key, 5)) by {
        reveal_strlit("<!-- timestamp=");
        reveal_strlit("timestamp=");
        reveal_strlit(" -->");
        assert(m.subrange(5, 15) =~= key);
    }
    assert forall|j: int| 0 <= j < 5 implies !occurs_at(m, key, j) by {
        lemma_no_key_before(stamp, j);
    }
    lemma_find_is(m, key, 5);
    assert(m.skip(15) =~= stamp + marker_close()) by {
        reveal_strlit("<!-- timestamp=");
    }
    assert(m.len() == stamp.len() + 19) by {
        reveal_strlit("<!-- timestamp=");
        reveal_strlit(" -->");
    }
}

/// The end of a marker does not stand inside a timestamp that holds none,
/// nor across its end.
proof fn lemma_no_close_before(stamp: Seq<char>, j: int)
    requires
        !contains(stamp, marker_close()),
        0 <= j < stamp.len(),
    ensures
        !occurs_at(stamp + marker_close(), marker_close(), j),
{
    reveal_strlit(" -->");
    let close = marker_close();
    let rest = stamp + close;
    let n = stamp.len() as int;
    if occurs_at(rest, close, j) {
        if j + 4 <= n {
            lemma_find_from(stamp, close, 0);
            assert(stamp.subrange(j, j + 4) =~= rest.subrange(j, j + 4));
            assert(occurs_at(stamp, close, j));
        } else {
            assert(rest.subrange(j, j + 4)[3] == close[3]);
            assert(rest[j + 3] == close[j + 3 - n]);
        }
    }
}

/// Where the end of a marker stands first behind a timestamp that holds
/// none.
proof fn lemma_close_behind_stamp(stamp: Seq<char>)
    requires
        !contains(stamp, marker_close()),
    ensures
        find(stamp + marker_close(), marker_close())
            == Some(stamp.len() as int),
{
    let close = marker_close();
    let rest = stamp + close;
    let n = stamp.len() as int;
    assert(occurs_at(rest, close, n)) by {
        assert(rest.subrange(n, n + close.len()) =~= close);
    }
    assert forall|j: int| 0 <= j < n implies !occurs_at(rest, close, j) by {
        lemma_no_close_before(stamp, j);
    }
    lemma_find_is(rest, close, n);
}

/// The marker line that bears a timestamp is read back as that timestamp,
/// unless the timestamp itself holds the end of a marker.
pub proof fn lemma_marker_line_reads_back(stamp: Seq<char>)
    requires
        !contains(stamp, marker_close()),
    ensures
        marker_text(marker_line(stamp)) == Some(stamp),
{
    lemma_key_in_marker_line(stamp);
    lemma_close_behind_stamp(stamp);
    lemma_marker_lengths();
    let m = marker_line(stamp);
    assert(m.subrange(15, 15 + stamp.len() as int) =~= stamp);
}

/// What is put on top of a notebook stands there as its first section,
/// and every section that the notebook had follows it unchanged. The new
/// section ends with the separator and bears the timestamp, where that can
/// be read as an instant; what stood before the first section of the notebook
/// stands behind the new one.
///
/// It holds of an entry that opens with a heading and holds no separator,
/// and that was not formatted before; of a timestamp on one line that does
/// not hold the end of a marker; and of a notebook that is not blank.
pub proof fn lemma_prepended_stands_first(existing: Seq<char>, body: Seq<char>, stamp: Seq<char>)
    requires
        !is_formatted(body),
        lines(trim(body)).len() > 0,
        is_heading(lines(trim(body))[0]),
        forall|i: int|
            0 <= i < lines(trim(body)).len() ==> !is_separator(
                #[trigger] lines(trim(body))[i],
            ),
        one_line(stamp),
        !contains(stamp, marker_close()),
        !is_blank(existing),
    ensures
        ({
            let own = lines(trim(body));
            let nb = parse_text(prepended(existing, body, stamp));
            let old = parse_text(existing);
            &&& nb.preamble.len() == 0
            &&& nb.sections.len() == old.sections.len() + 1
            &&& nb.sections.skip(1) == old.sections
            &&& nb.sections[0].heading == heading_text(own[0])
            &&& nb.sections[0].body == own.skip(1) + seq![
                Seq::<char>::empty(),
                marker_line(stamp),
                Seq::<char>::empty(),
                separator(),
            ]
            &&& nb.sections[0].closed()
            &&& nb.sections[0].timestamp == if crate::instant::instant_of(stamp) is Some {
                Some(stamp)
            } else {
                None
            }
            &&& nb.sections[0].trailer == old.preamble
        }),
{
    reveal_strlit("<!-- timestamp=");
    reveal_strlit(" -->");
    reveal_strlit("---");
    reveal_strlit("\n\n<!-- timestamp=");
    reveal_strlit(" -->\n\n---");
    let own = lines(trim(body));
    let nothing = Seq::<char>::empty();
    let m = marker_line(stamp);
    let sep = separator();
    let entry = entry_text(body, stamp);
    let tail = seq![nothing, m, nothing, sep];
    lemma_entry_lines(body, stamp);
    assert(trim(body).len() > 0);
    let e = own + tail;
    assert(lines(entry) == e);
    assert(ends_solid(entry)) by {
        assert(entry.last() == '-');
    }
    lemma_lines_concat(entry, existing);
    let x = lines(existing);
    let all = e + x;
    assert(lines(prepended(existing, body, stamp)) == all);
    // the lines before the first section
    assert(all[0] == own[0]);
    assert(gap_len(all) == 0);
    assert(all.take(0) =~= Seq::<Seq<char>>::empty());
    assert(all.skip(0) =~= all);
    // the body of the first section
    let rest = all.skip(1);
    let k = e.len() - 2;
    lemma_trim_of_solid(m);
    assert(!is_separator(m));
    assert(!is_separator(nothing)) by {
        lemma_leading_space_bound(nothing);
        lemma_trailing_space_bound(trim_start(nothing));
    }
    lemma_marker_lengths_here();
    assert forall|j: int| 0 <= j < k implies !is_separator(rest[j]) by {
        if j < own.len() - 1 {
            assert(rest[j] == own[j + 1]);
        } else if j == own.len() - 1 {
            assert(rest[j] == nothing);
        } else if j == own.len() {
            assert(rest[j] == m);
        } else {
            assert(rest[j] == nothing);
        }
    }
    assert(rest[k] == sep);
    lemma_body_len(rest, k);
    let b = k + 1;
    assert(rest.take(b) =~= own.skip(1) + tail);
    assert(rest.skip(b) =~= x);
    lemma_gap_len_bounds(x);
    let g = gap_len(x);
    let first = section_of(all[0], rest.take(b), x.take(g));
    assert(parse_sections(all) == seq![first] + parse_sections(
        x.skip(g),
    ));
    let nb = parse_text(prepended(existing, body, stamp));
    assert(nb.sections =~= seq![first] + parse_sections(x.skip(g)));
    assert(nb.sections.skip(1) =~= parse_text(existing).sections);
    // the timestamp of the first section
    let body_lines = own.skip(1) + tail;
    lemma_marker_line_reads_back(stamp);
    assert(is_marker(m));
    assert(!is_marker(sep));
    assert(!is_marker(nothing));
    assert(body_lines.last() == sep);
    assert(body_lines.drop_last().last() == nothing);
    assert(body_lines.drop_last().drop_last().last() == m);
    let shorter = body_lines.drop_last();
    let shortest = shorter.drop_last();
    assert(last_marker(body_lines) == last_marker(shorter));
    assert(last_marker(shorter) == last_marker(shortest));
    assert(last_marker(shortest) == marker_text(m));
    assert(last_marker(body_lines) == Some(stamp));
}

/// The separator is three characters long.
proof fn lemma_marker_lengths_here()
    ensures
        separator().len() == 3,
{
    lemma_marker_lengths();
}

/// A text that is written with the characters of a timestamp alone stands
/// on one line and holds no end of a marker.
pub proof fn lemma_stamp_text_is_tame(stamp: Seq<char>)
    requires
        crate::instant::stamp_text(stamp),
    ensures
        one_line(stamp),
        crlf_free(stamp),
        !contains(stamp, marker_close()),
{
    reveal_strlit(" -->");
    lemma_find_from(stamp, marker_close(), 0);
    if contains(stamp, marker_close()) {
        let k = find(stamp, marker_close())->0;
        assert(stamp.subrange(k, k + 4)[0] == marker_close()[0]);
        assert(crate::instant::stamp_char(stamp[k]));
    }
}

} // verus!
