//! The notebook as a value: what stands before the first section, and the
//! sections in the order of the file, newest first. Parsing keeps every line,
//! so that a notebook written out again is the text that was read.

use crate::format::{
    heading_marker, heading_text, is_heading, is_marker, is_separator, lemma_marker_lengths,
    line_is_heading, line_is_marker, line_is_separator, marker_text, read_marker,
};
use crate::instant::{instant_of, read_instant};
use crate::lines::{join, join_parts, lines, newline, split_lines};
use crate::text::{
    contains, from_chars, has_inside, push_all, slice_of, string_views, to_chars, trim, trimmed,
    views,
};
use vstd::prelude::*;

verus! {

/// One section of the notebook.
#[derive(Debug)]
pub struct Section {
    /// The name of the section: its heading without the white space around it.
    pub identity: String,
    /// The heading line as written, behind the heading marker.
    pub heading: String,
    /// The lines behind the heading line, up to the separator and with it.
    pub body: Vec<String>,
    /// The text of the last timestamp marker in the body, where it is an
    /// instant in the notation of RFC 3339; a section whose marker is missing
    /// or cannot be read has none.
    pub timestamp: Option<String>,
    /// The lines between the separator and the next section.
    pub trailer: Vec<String>,
}

/// A section as a mathematical value.
pub struct SectionView {
    pub identity: Seq<char>,
    pub heading: Seq<char>,
    pub body: Seq<Seq<char>>,
    pub timestamp: Option<Seq<char>>,
    pub trailer: Seq<Seq<char>>,
}

/// The view of an optional string.
pub open spec fn text_of(o: Option<String>) -> Option<Seq<char>> {
    match o {
        Some(s) => Some(s@),
        None => None,
    }
}

impl View for Section {
    type V = SectionView;

    open spec fn view(&self) -> SectionView {
        SectionView {
            identity: self.identity@,
            heading: self.heading@,
            body: string_views(self.body@),
            timestamp: text_of(self.timestamp),
            trailer: string_views(self.trailer@),
        }
    }
}

/// The views of a vector of sections, element by element.
pub open spec fn section_views(v: Seq<Section>) -> Seq<SectionView> {
    Seq::new(v.len(), |i: int| v[i]@)
}

/// The notebook: the lines before the first section, then the sections.
#[derive(Debug)]
pub struct Notebook {
    pub preamble: Vec<String>,
    pub sections: Vec<Section>,
}

/// A notebook as a mathematical value.
pub struct NotebookView {
    pub preamble: Seq<Seq<char>>,
    pub sections: Seq<SectionView>,
}

impl View for Notebook {
    type V = NotebookView;

    open spec fn view(&self) -> NotebookView {
        NotebookView {
            preamble: string_views(self.preamble@),
            sections: section_views(self.sections@),
        }
    }
}

/// The text of the last timestamp marker among the lines.
pub open spec fn last_marker(body: Seq<Seq<char>>) -> Option<Seq<char>>
    decreases body.len(),
{
    if body.len() == 0 {
        None
    } else if is_marker(body.last()) {
        marker_text(body.last())
    } else {
        last_marker(body.drop_last())
    }
}

/// The timestamp of a section with the given body: the text of its last
/// marker, where that is an instant in the notation of RFC 3339. A marker
/// that cannot be read counts as none.
pub open spec fn readable_marker(body: Seq<Seq<char>>) -> Option<Seq<char>> {
    match last_marker(body) {
        Some(t) => if instant_of(t) is Some {
            Some(t)
        } else {
            None
        },
        None => None,
    }
}

/// The section that a heading line, its body and its trailer make.
pub open spec fn section_of(
    heading_line: Seq<char>,
    body: Seq<Seq<char>>,
    trailer: Seq<Seq<char>>,
) -> SectionView {
    SectionView {
        identity: trim(heading_text(heading_line)),
        heading: heading_text(heading_line),
        body,
        timestamp: readable_marker(body),
        trailer,
    }
}

impl SectionView {
    /// Whether identity and timestamp are those that heading and body give.
    pub open spec fn wf(self) -> bool {
        &&& self.identity == trim(self.heading)
        &&& self.timestamp == readable_marker(self.body)
    }

    /// Whether a separator closes the section.
    pub open spec fn closed(self) -> bool {
        self.body.len() > 0 && is_separator(self.body.last())
    }

    /// The lines of the section in the file.
    pub open spec fn lines(self) -> Seq<Seq<char>> {
        seq![heading_marker() + self.heading] + self.body + self.trailer
    }

    /// The section from its heading line to its separator, as one text.
    pub open spec fn content(self) -> Seq<char> {
        join(seq![heading_marker() + self.heading] + self.body, newline())
    }
}

/// The number of lines up to the first separator, that line included; the
/// number of all lines where none is a separator.
pub open spec fn body_len(ls: Seq<Seq<char>>) -> int
    decreases ls.len(),
{
    if ls.len() == 0 {
        0
    } else if is_separator(ls[0]) {
        1
    } else {
        1 + body_len(ls.skip(1))
    }
}

/// The number of lines before the first heading line.
pub open spec fn gap_len(ls: Seq<Seq<char>>) -> int
    decreases ls.len(),
{
    if ls.len() == 0 || is_heading(ls[0]) {
        0
    } else {
        1 + gap_len(ls.skip(1))
    }
}

/// The sections of lines that begin with a heading line. A section runs
/// from its heading line to the first separator behind it; the lines from
/// there to the next heading line are its trailer.
pub open spec fn parse_sections(ls: Seq<Seq<char>>) -> Seq<SectionView>
    decreases ls.len(),
{
    if ls.len() == 0 || !is_heading(ls[0]) {
        Seq::empty()
    } else {
        let rest = ls.skip(1);
        let b = body_len(rest);
        let g = gap_len(rest.skip(b));
        if !(0 <= b <= rest.len() && 0 <= g <= rest.len() - b) {
            Seq::empty()
        } else {
            seq![section_of(ls[0], rest.take(b), rest.skip(b).take(g))] + parse_sections(
                rest.skip(b).skip(g),
            )
        }
    }
}

/// The notebook that the lines hold.
pub open spec fn parse_lines(ls: Seq<Seq<char>>) -> NotebookView {
    let g = gap_len(ls);
    NotebookView { preamble: ls.take(g), sections: parse_sections(ls.skip(g)) }
}

/// The notebook that the text holds.
pub open spec fn parse_text(text: Seq<char>) -> NotebookView {
    parse_lines(lines(text))
}

/// The lines of the sections, one section after the other.
pub open spec fn sections_lines(sections: Seq<SectionView>) -> Seq<Seq<char>>
    decreases sections.len(),
{
    if sections.len() == 0 {
        Seq::empty()
    } else {
        sections[0].lines() + sections_lines(sections.skip(1))
    }
}

impl NotebookView {
    /// The lines of the notebook.
    pub open spec fn lines(self) -> Seq<Seq<char>> {
        self.preamble + sections_lines(self.sections)
    }

    /// The text of the notebook.
    pub open spec fn text(self) -> Seq<char> {
        join(self.lines(), newline())
    }

    /// Whether every section is well formed.
    pub open spec fn wf(self) -> bool {
        forall|i: int| 0 <= i < self.sections.len() ==> (#[trigger] self.sections[i]).wf()
    }
}

/// Where the body ends, given the lines before its separator.
pub proof fn lemma_body_len(ls: Seq<Seq<char>>, k: int)
    requires
        0 <= k <= ls.len(),
        forall|j: int| 0 <= j < k ==> !is_separator(ls[j]),
        k == ls.len() || is_separator(ls[k]),
    ensures
        body_len(ls) == if k == ls.len() {
            k
        } else {
            k + 1
        },
    decreases k,
{
    if k > 0 {
        lemma_body_len(ls.skip(1), k - 1);
    }
}

/// Where the gap ends, given the lines before the next heading.
pub proof fn lemma_gap_len(ls: Seq<Seq<char>>, k: int)
    requires
        0 <= k <= ls.len(),
        forall|j: int| 0 <= j < k ==> !is_heading(ls[j]),
        k == ls.len() || is_heading(ls[k]),
    ensures
        gap_len(ls) == k,
    decreases k,
{
    if k > 0 {
        lemma_gap_len(ls.skip(1), k - 1);
    }
}

/// A body is never longer than the lines it is cut from.
pub proof fn lemma_body_len_bounds(ls: Seq<Seq<char>>)
    ensures
        0 <= body_len(ls) <= ls.len(),
    decreases ls.len(),
{
    if ls.len() > 0 && !is_separator(ls[0]) {
        lemma_body_len_bounds(ls.skip(1));
    }
}

/// A gap is never longer than the lines it is cut from.
pub proof fn lemma_gap_len_bounds(ls: Seq<Seq<char>>)
    ensures
        0 <= gap_len(ls) <= ls.len(),
        gap_len(ls) < ls.len() ==> is_heading(ls[gap_len(ls)]),
    decreases ls.len(),
{
    if ls.len() > 0 && !is_heading(ls[0]) {
        lemma_gap_len_bounds(ls.skip(1));
    }
}

/// The sections that were parsed from lines hold exactly those lines.
pub proof fn lemma_sections_keep_lines(ls: Seq<Seq<char>>)
    requires
        ls.len() == 0 || is_heading(ls[0]),
    ensures
        sections_lines(parse_sections(ls)) == ls,
    decreases ls.len(),
{
    if ls.len() == 0 {
        assert(sections_lines(parse_sections(ls)) =~= ls);
    } else {
        lemma_marker_lengths();
        let rest = ls.skip(1);
        lemma_body_len_bounds(rest);
        let b = body_len(rest);
        lemma_gap_len_bounds(rest.skip(b));
        let g = gap_len(rest.skip(b));
        let tail = rest.skip(b).skip(g);
        lemma_sections_keep_lines(tail);
        let first = section_of(ls[0], rest.take(b), rest.skip(b).take(g));
        let all = parse_sections(ls);
        assert(all == seq![first] + parse_sections(tail));
        assert(all[0] == first);
        assert(all.skip(1) =~= parse_sections(tail));
        assert(heading_marker() + heading_text(ls[0]) =~= ls[0]);
        assert(first.lines() + tail =~= ls);
    }
}

/// A notebook that was parsed from lines holds exactly those lines.
pub proof fn lemma_parse_keeps_lines(ls: Seq<Seq<char>>)
    ensures
        parse_lines(ls).lines() == ls,
{
    lemma_gap_len_bounds(ls);
    let g = gap_len(ls);
    lemma_sections_keep_lines(ls.skip(g));
    assert(ls.take(g) + ls.skip(g) =~= ls);
}

/// Every section that was parsed is well formed.
pub proof fn lemma_parse_sections_wf(ls: Seq<Seq<char>>)
    ensures
        forall|i: int|
            0 <= i < parse_sections(ls).len() ==> (#[trigger] parse_sections(ls)[i]).wf(),
    decreases ls.len(),
{
    if ls.len() == 0 || !is_heading(ls[0]) {
    } else {
        let rest = ls.skip(1);
        lemma_body_len_bounds(rest);
        let b = body_len(rest);
        lemma_gap_len_bounds(rest.skip(b));
        let g = gap_len(rest.skip(b));
        let tail = rest.skip(b).skip(g);
        lemma_parse_sections_wf(tail);
        let first = section_of(ls[0], rest.take(b), rest.skip(b).take(g));
        let all = parse_sections(ls);
        assert(all == seq![first] + parse_sections(tail));
        assert forall|i: int| 0 <= i < all.len() implies (#[trigger] all[i]).wf() by {
            if i > 0 {
                assert(all[i] == parse_sections(tail)[i - 1]);
            }
        }
    }
}

/// The lines of sections, taken one section at a time from the end.
pub proof fn lemma_sections_lines_push(sections: Seq<SectionView>, last: SectionView)
    ensures
        sections_lines(sections.push(last)) == sections_lines(sections) + last.lines(),
    decreases sections.len(),
{
    let all = sections.push(last);
    if sections.len() == 0 {
        assert(all.skip(1) =~= Seq::<SectionView>::empty());
        assert(sections_lines(all.skip(1)) =~= Seq::<Seq<char>>::empty());
        assert(sections_lines(all) =~= last.lines());
        assert(sections_lines(sections) + last.lines() =~= last.lines());
    } else {
        lemma_sections_lines_push(sections.skip(1), last);
        assert(all.skip(1) =~= sections.skip(1).push(last));
        assert(sections_lines(all) =~= sections_lines(sections) + last.lines());
    }
}

/// Copies the lines `from..to` as strings.
pub fn strings_of(ls: &Vec<Vec<char>>, from: usize, to: usize) -> (out: Vec<String>)
    requires
        from <= to <= ls.len(),
    ensures
        string_views(out@) == views(ls@).subrange(from as int, to as int),
{
    let mut out: Vec<String> = Vec::new();
    let mut i: usize = from;
    while i < to
        invariant
            from <= i <= to,
            to <= ls.len(),
            string_views(out@) == views(ls@).subrange(from as int, i as int),
        decreases to - i,
    {
        let ghost before = string_views(out@);
        let line = from_chars(&ls[i]);
        out.push(line);
        assert(string_views(out@) =~= before.push(ls@[i as int]@));
        assert(views(ls@).subrange(from as int, i + 1) =~= before.push(ls@[i as int]@));
        i += 1;
    }
    assert(string_views(out@) =~= views(ls@).subrange(from as int, to as int));
    out
}

/// Appends the strings to `out` as lines.
pub fn push_lines(out: &mut Vec<Vec<char>>, strings: &Vec<String>)
    ensures
        views(final(out)@) == views(old(out)@) + string_views(strings@),
{
    let mut i: usize = 0;
    assert(views(out@) =~= views(old(out)@) + string_views(strings@).take(0));
    while i < strings.len()
        invariant
            i <= strings.len(),
            views(out@) == views(old(out)@) + string_views(strings@).take(i as int),
        decreases strings.len() - i,
    {
        let ghost before = views(out@);
        let line = to_chars(strings[i].as_str());
        out.push(line);
        assert(views(out@) =~= before.push(strings@[i as int]@));
        assert(string_views(strings@).take(i + 1) =~= string_views(strings@).take(i as int).push(
            strings@[i as int]@,
        ));
        assert(views(out@) =~= views(old(out)@) + string_views(strings@).take(i + 1));
        i += 1;
    }
    assert(string_views(strings@).take(strings.len() as int) =~= string_views(strings@));
}

/// Finds the text of the last timestamp marker among the lines `from..to`.
pub fn find_last_marker(ls: &Vec<Vec<char>>, from: usize, to: usize) -> (r: Option<String>)
    requires
        from <= to <= ls.len(),
    ensures
        text_of(r) == last_marker(views(ls@).subrange(from as int, to as int)),
{
    let mut i: usize = to;
    while i > from
        invariant
            from <= i <= to,
            to <= ls.len(),
            last_marker(views(ls@).subrange(from as int, to as int)) == last_marker(
                views(ls@).subrange(from as int, i as int),
            ),
        decreases i,
    {
        let ghost cur = views(ls@).subrange(from as int, i as int);
        assert(cur.last() == ls@[i - 1]@);
        assert(cur.drop_last() =~= views(ls@).subrange(from as int, i - 1));
        if line_is_marker(&ls[i - 1]) {
            return match read_marker(&ls[i - 1]) {
                Some(t) => Some(from_chars(&t)),
                None => None,
            };
        }
        i -= 1;
    }
    None
}

impl Section {
    /// The section that a heading line, its body and its trailer make.
    pub fn from_lines(ls: &Vec<Vec<char>>, at: usize, body_end: usize, end: usize) -> (s: Section)
        requires
            at < body_end <= end <= ls.len(),
            is_heading(ls@[at as int]@),
        ensures
            s@ == section_of(
                ls@[at as int]@,
                views(ls@).subrange(at + 1, body_end as int),
                views(ls@).subrange(body_end as int, end as int),
            ),
    {
        proof {
            lemma_marker_lengths();
        }
        let line = &ls[at];
        let heading = slice_of(line, 3, line.len());
        assert(heading@ == heading_text(line@));
        let identity = trimmed(&heading);
        let timestamp = match find_last_marker(ls, at + 1, body_end) {
            Some(t) => {
                if read_instant(t.as_str()).is_some() {
                    Some(t)
                } else {
                    None
                }
            },
            None => None,
        };
        Section {
            identity: from_chars(&identity),
            heading: from_chars(&heading),
            body: strings_of(ls, at + 1, body_end),
            timestamp,
            trailer: strings_of(ls, body_end, end),
        }
    }

    /// Appends the lines of the section to `out`.
    pub fn push_to(&self, out: &mut Vec<Vec<char>>)
        ensures
            views(final(out)@) == views(old(out)@) + self@.lines(),
    {
        let ghost before = views(out@);
        let mut line = to_chars("## ");
        let heading = to_chars(self.heading.as_str());
        push_all(&mut line, &heading);
        out.push(line);
        assert(views(out@) =~= before + seq![heading_marker() + self@.heading]);
        push_lines(out, &self.body);
        push_lines(out, &self.trailer);
        assert(views(out@) =~= before + self@.lines());
    }
}

/// Finds where the gap that begins at line `from` ends: at the next
/// heading line, or behind the last line.
pub fn scan_gap(ls: &Vec<Vec<char>>, from: usize) -> (end: usize)
    requires
        from <= ls.len(),
    ensures
        from <= end <= ls.len(),
        end - from == gap_len(views(ls@).skip(from as int)),
        end == ls.len() || is_heading(views(ls@)[end as int]),
{
    let n: usize = ls.len();
    let mut end: usize = from;
    while end < n && !line_is_heading(&ls[end])
        invariant
            from <= end <= n,
            n == ls.len(),
            forall|m: int| from <= m < end ==> !is_heading(views(ls@)[m]),
        decreases n - end,
    {
        end += 1;
    }
    proof {
        lemma_gap_len(views(ls@).skip(from as int), end - from);
    }
    end
}

/// Finds where the body that begins at line `from` ends: behind the first
/// separator, or behind the last line.
pub fn scan_body(ls: &Vec<Vec<char>>, from: usize) -> (end: usize)
    requires
        from <= ls.len(),
    ensures
        from <= end <= ls.len(),
        end - from == body_len(views(ls@).skip(from as int)),
{
    let n: usize = ls.len();
    let mut j: usize = from;
    while j < n && !line_is_separator(&ls[j])
        invariant
            from <= j <= n,
            n == ls.len(),
            forall|m: int| from <= m < j ==> !is_separator(views(ls@)[m]),
        decreases n - j,
    {
        j += 1;
    }
    proof {
        lemma_body_len(views(ls@).skip(from as int), j - from);
    }
    if j < n {
        j + 1
    } else {
        j
    }
}

/// The sections from a heading line on are the section of that line and
/// the sections behind it.
pub proof fn lemma_section_at(all: Seq<Seq<char>>, i: int, body_end: int, next: int)
    requires
        0 <= i < body_end <= next <= all.len(),
        is_heading(all[i]),
        body_end - (i + 1) == body_len(all.skip(i + 1)),
        next - body_end == gap_len(all.skip(body_end)),
    ensures
        parse_sections(all.skip(i)) == seq![
            section_of(all[i], all.subrange(i + 1, body_end), all.subrange(body_end, next)),
        ] + parse_sections(all.skip(next)),
{
    let cur = all.skip(i);
    let rest = cur.skip(1);
    assert(cur[0] == all[i]);
    assert(rest =~= all.skip(i + 1));
    let b = body_end - (i + 1);
    assert(rest.skip(b) =~= all.skip(body_end));
    let g = next - body_end;
    assert(rest.take(b) =~= all.subrange(i + 1, body_end));
    assert(rest.skip(b).take(g) =~= all.subrange(body_end, next));
    assert(rest.skip(b).skip(g) =~= all.skip(next));
}

impl Notebook {
    /// Reads the notebook out of lines.
    pub fn from_lines(ls: &Vec<Vec<char>>) -> (nb: Notebook)
        ensures
            nb@ == parse_lines(views(ls@)),
            nb@.wf(),
    {
        proof {
            lemma_parse_sections_wf(views(ls@).skip(gap_len(views(ls@))));
        }
        let ghost all = views(ls@);
        let n: usize = ls.len();
        assert(all.skip(0) =~= all);
        let first: usize = scan_gap(ls, 0);
        let preamble = strings_of(ls, 0, first);
        assert(all.subrange(0, first as int) =~= all.take(first as int));
        let mut sections: Vec<Section> = Vec::new();
        let mut i: usize = first;
        assert(section_views(sections@) + parse_sections(all.skip(first as int))
            =~= parse_sections(all.skip(first as int)));
        while i < n
            invariant
                first <= i <= n,
                n == ls.len(),
                all == views(ls@),
                i == n || is_heading(all[i as int]),
                parse_sections(all.skip(first as int)) == section_views(sections@)
                    + parse_sections(all.skip(i as int)),
            decreases n - i,
        {
            let body_end: usize = scan_body(ls, i + 1);
            let next: usize = scan_gap(ls, body_end);
            let section = Section::from_lines(ls, i, body_end, next);
            proof {
                lemma_section_at(all, i as int, body_end as int, next as int);
            }
            let ghost before = section_views(sections@);
            sections.push(section);
            assert(section_views(sections@) =~= before.push(section@));
            assert(before + (seq![section@] + parse_sections(all.skip(next as int)))
                =~= section_views(sections@) + parse_sections(all.skip(next as int)));
            i = next;
        }
        assert(parse_sections(all.skip(i as int)) =~= Seq::<SectionView>::empty());
        assert(section_views(sections@) + Seq::<SectionView>::empty() =~= section_views(
            sections@,
        ));
        Notebook { preamble, sections }
    }

    /// Reads the notebook out of a text.
    pub fn parse(text: &str) -> (nb: Notebook)
        ensures
            nb@ == parse_text(text@),
            nb@.wf(),
    {
        let chars = to_chars(text);
        let ls = split_lines(&chars);
        Notebook::from_lines(&ls)
    }

    /// The lines of the notebook.
    pub fn to_lines(&self) -> (out: Vec<Vec<char>>)
        ensures
            views(out@) == self@.lines(),
    {
        let mut out: Vec<Vec<char>> = Vec::new();
        push_lines(&mut out, &self.preamble);
        let mut i: usize = 0;
        assert(section_views(self.sections@).take(0) =~= Seq::<SectionView>::empty());
        assert(views(out@) =~= self@.preamble + sections_lines(
            section_views(self.sections@).take(0),
        ));
        while i < self.sections.len()
            invariant
                i <= self.sections.len(),
                views(out@) == self@.preamble + sections_lines(
                    section_views(self.sections@).take(i as int),
                ),
            decreases self.sections.len() - i,
        {
            let ghost done = section_views(self.sections@).take(i as int);
            proof {
                lemma_sections_lines_push(done, self.sections@[i as int]@);
                assert(done.push(self.sections@[i as int]@) =~= section_views(
                    self.sections@,
                ).take(i + 1));
            }
            self.sections[i].push_to(&mut out);
            assert(views(out@) =~= self@.preamble + sections_lines(
                section_views(self.sections@).take(i + 1),
            ));
            i += 1;
        }
        assert(section_views(self.sections@).take(self.sections.len() as int) =~= section_views(
            self.sections@,
        ));
        out
    }

    /// The text of the notebook.
    pub fn to_text(&self) -> (out: String)
        ensures
            out@ == self@.text(),
    {
        let ls = self.to_lines();
        let sep = to_chars("\n");
        proof {
            reveal_strlit("\n");
            assert(sep@ =~= newline());
        }
        let chars = join_parts(&ls, &sep);
        from_chars(&chars)
    }
}

/// Whether one of the lines is a timestamp marker that holds `stamp`.
pub open spec fn carries(body: Seq<Seq<char>>, stamp: Seq<char>) -> bool {
    exists|j: int| 0 <= j < body.len() && is_marker(#[trigger] body[j]) && contains(body[j], stamp)
}

impl NotebookView {
    /// The notebook without section `k`. The section's heading and body
    /// leave; the lines of its trailer stay where they stood.
    pub open spec fn without(self, k: int) -> NotebookView {
        let gone = self.sections[k];
        if k == 0 {
            NotebookView { preamble: self.preamble + gone.trailer, sections: self.sections.skip(1) }
        } else {
            let prev = self.sections[k - 1];
            let kept = SectionView { trailer: prev.trailer + gone.trailer, ..prev };
            NotebookView {
                preamble: self.preamble,
                sections: self.sections.take(k - 1).push(kept) + self.sections.skip(k + 1),
            }
        }
    }
}

/// Appends the strings of `tail` to `out`.
pub fn append_strings(out: &mut Vec<String>, tail: Vec<String>)
    ensures
        string_views(final(out)@) == string_views(old(out)@) + string_views(tail@),
{
    let ghost before = string_views(out@);
    let ghost added = string_views(tail@);
    let mut tail = tail;
    out.append(&mut tail);
    assert(string_views(out@) =~= before + added);
}

/// Tests whether one of the lines is a timestamp marker that holds `stamp`.
pub fn body_carries(body: &Vec<String>, stamp: &Vec<char>) -> (r: bool)
    ensures
        r == carries(string_views(body@), stamp@),
{
    let mut i: usize = 0;
    while i < body.len()
        invariant
            i <= body.len(),
            forall|j: int|
                0 <= j < i ==> !(is_marker(#[trigger] string_views(body@)[j]) && contains(
                    string_views(body@)[j],
                    stamp@,
                )),
        decreases body.len() - i,
    {
        let line = to_chars(body[i].as_str());
        assert(line@ == string_views(body@)[i as int]);
        if line_is_marker(&line) && has_inside(&line, stamp) {
            return true;
        }
        i += 1;
    }
    false
}

impl Notebook {
    /// Takes section `k` out of the notebook.
    pub fn remove(&mut self, k: usize)
        requires
            k < old(self).sections.len(),
        ensures
            final(self)@ == old(self)@.without(k as int),
            old(self)@.wf() ==> final(self)@.wf(),
    {
        let ghost before = self@;
        let gone = self.sections.remove(k);
        assert(gone@ == before.sections[k as int]);
        if k == 0 {
            append_strings(&mut self.preamble, gone.trailer);
            assert(section_views(self.sections@) =~= before.sections.skip(1));
        } else {
            let mut prev = self.sections.remove(k - 1);
            assert(prev@ == before.sections[k - 1]);
            append_strings(&mut prev.trailer, gone.trailer);
            self.sections.insert(k - 1, prev);
            assert(section_views(self.sections@) =~= before.without(k as int).sections);
        }
    }
}

} // verus!
