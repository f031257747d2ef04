//! Lines of a text: splitting at line feeds and joining again.

use crate::text::{push_all, slice_of, views};
use vstd::prelude::*;

verus! {

/// The number of characters before the first line feed of `s`, or the length
/// of `s` where it holds none.
pub open spec fn line_end(s: Seq<char>) -> int
    decreases s.len(),
{
    if s.len() == 0 || s[0] == '\n' {
        0
    } else {
        1 + line_end(s.skip(1))
    }
}

/// `s` without one carriage return at its end.
pub open spec fn strip_cr(s: Seq<char>) -> Seq<char> {
    if s.len() > 0 && s.last() == '\r' {
        s.drop_last()
    } else {
        s
    }
}

/// The lines of `s`. A line ends at a line feed, or at a carriage return
/// followed by a line feed; the terminator is not part of the line. After the
/// last terminator nothing follows but a line that is not empty.
pub open spec fn lines(s: Seq<char>) -> Seq<Seq<char>>
    decreases s.len(),
{
    if s.len() == 0 {
        Seq::empty()
    } else {
        let n = line_end(s);
        if n < 0 || n >= s.len() {
            seq![s]
        } else {
            seq![strip_cr(s.take(n))] + lines(s.skip(n + 1))
        }
    }
}

/// The parts with `sep` between each two neighbours.
pub open spec fn join(parts: Seq<Seq<char>>, sep: Seq<char>) -> Seq<char>
    decreases parts.len(),
{
    if parts.len() == 0 {
        Seq::empty()
    } else if parts.len() == 1 {
        parts[0]
    } else {
        join(parts.drop_last(), sep) + sep + parts.last()
    }
}

/// The line feed as a separator.
pub open spec fn newline() -> Seq<char> {
    seq!['\n']
}

/// Where the first line feed stands, given a stretch that holds none.
pub proof fn lemma_line_end(s: Seq<char>, k: int)
    requires
        0 <= k <= s.len(),
        forall|j: int| 0 <= j < k ==> s[j] != '\n',
        k == s.len() || s[k] == '\n',
    ensures
        line_end(s) == k,
    decreases k,
{
    if k > 0 {
        lemma_line_end(s.skip(1), k - 1);
    }
}

/// Splits `s` into its lines.
pub fn split_lines(s: &Vec<char>) -> (out: Vec<Vec<char>>)
    ensures
        views(out@) == lines(s@),
{
    let mut out: Vec<Vec<char>> = Vec::new();
    let mut start: usize = 0;
    assert(s@.skip(0) == s@);
    assert(views(out@) + lines(s@) == lines(s@));
    while start < s.len()
        invariant
            start <= s.len(),
            lines(s@) == views(out@) + lines(s@.skip(start as int)),
        decreases s.len() - start,
    {
        let ghost rest = s@.skip(start as int);
        let ghost before = views(out@);
        let mut end: usize = start;
        while end < s.len() && s[end] != '\n'
            invariant
                start <= end <= s.len(),
                forall|j: int| start <= j < end ==> s@[j] != '\n',
            decreases s.len() - end,
        {
            end += 1;
        }
        proof {
            lemma_line_end(rest, end - start);
        }
        if end == s.len() {
            let line = slice_of(s, start, end);
            assert(line@ == rest);
            out.push(line);
            assert(views(out@) == before + seq![rest]);
            start = end;
            assert(lines(s@.skip(start as int)) == Seq::<Seq<char>>::empty());
        } else {
            let mut stop: usize = end;
            if stop > start && s[stop - 1] == '\r' {
                stop -= 1;
            }
            let line = slice_of(s, start, stop);
            proof {
                let raw = rest.take(end - start);
                assert(raw == s@.subrange(start as int, end as int));
                if end > start {
                    assert(raw.last() == s@[end - 1]);
                }
                assert(line@ == strip_cr(raw));
                assert(rest.skip(end - start + 1) == s@.skip(end + 1));
            }
            out.push(line);
            assert(views(out@) == before + seq![line@]);
            start = end + 1;
        }
    }
    assert(lines(s@.skip(start as int)) == Seq::<Seq<char>>::empty());
    out
}

/// Joins the parts with `sep` between each two neighbours.
pub fn join_parts(parts: &Vec<Vec<char>>, sep: &Vec<char>) -> (out: Vec<char>)
    ensures
        out@ == join(views(parts@), sep@),
{
    let mut out: Vec<char> = Vec::new();
    let mut i: usize = 0;
    while i < parts.len()
        invariant
            i <= parts.len(),
            out@ == join(views(parts@).take(i as int), sep@),
        decreases parts.len() - i,
    {
        let ghost done = views(parts@).take(i as int);
        let ghost next = views(parts@).take(i + 1);
        assert(next.drop_last() == done);
        assert(next.last() == parts@[i as int]@);
        if i > 0 {
            push_all(&mut out, sep);
        }
        push_all(&mut out, &parts[i]);
        i += 1;
    }
    assert(views(parts@).take(parts.len() as int) == views(parts@));
    out
}

} // verus!
