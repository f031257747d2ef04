//! Reading section changes out of a unified diff of the notebook.
//!
//! Inside a hunk, an added line that opens a section begins an added
//! section, a removed line that opens a section begins a deleted one, and the
//! added and removed lines that follow belong to it. Lines of context are
//! passed over. A section that one hunk removes and brings back was
//! modified.

use crate::change::{change_views, ChangeType, ChangeView, SectionChange};
use crate::format::{
    heading_marker, heading_text, is_heading, is_marker, lemma_marker_lengths, line_is_heading,
    line_is_marker, marker_text, read_marker,
};
use crate::lines::{join, join_parts, lines, newline, split_lines};
use crate::notebook::{push_lines, text_of};
use crate::pairing::{change_keys, keys_of, pair_changes, paired};
use crate::text::{
    from_chars, has_prefix, push_all, slice_of, starts_with, string_views, to_chars, trim, trimmed,
    views,
};
use vstd::prelude::*;

verus! {

/// The lines joined by line feeds.
pub fn join_strings(parts: &Vec<String>) -> (out: String)
    ensures
        out@ == join(string_views(parts@), newline()),
{
    let mut ls: Vec<Vec<char>> = Vec::new();
    push_lines(&mut ls, parts);
    assert(views(ls@) =~= string_views(parts@));
    let sep = to_chars("\n");
    proof {
        reveal_strlit("\n");
        assert(sep@ =~= newline());
    }
    let chars = join_parts(&ls, &sep);
    from_chars(&chars)
}

/// A section change while its lines are being collected.
#[derive(Debug)]
pub struct SectionBuilder {
    pub word: String,
    pub change_type: ChangeType,
    pub old_content: Vec<String>,
    pub new_content: Vec<String>,
    pub old_timestamp: Option<String>,
    pub new_timestamp: Option<String>,
}

/// A builder as a mathematical value.
pub struct BuilderView {
    pub word: Seq<char>,
    pub change_type: ChangeType,
    pub old_content: Seq<Seq<char>>,
    pub new_content: Seq<Seq<char>>,
    pub old_timestamp: Option<Seq<char>>,
    pub new_timestamp: Option<Seq<char>>,
}

impl View for SectionBuilder {
    type V = BuilderView;

    open spec fn view(&self) -> BuilderView {
        BuilderView {
            word: self.word@,
            change_type: self.change_type,
            old_content: string_views(self.old_content@),
            new_content: string_views(self.new_content@),
            old_timestamp: text_of(self.old_timestamp),
            new_timestamp: text_of(self.new_timestamp),
        }
    }
}

/// The timestamp after a line: that of the line where it is a marker with
/// one, else the one before.
pub open spec fn stamp_after(before: Option<Seq<char>>, line: Seq<char>) -> Option<Seq<char>> {
    if is_marker(line) && marker_text(line) is Some {
        marker_text(line)
    } else {
        before
    }
}

/// The text of the lines, where there are any.
pub open spec fn joined(ls: Seq<Seq<char>>) -> Option<Seq<char>> {
    if ls.len() == 0 {
        None
    } else {
        Some(join(ls, newline()))
    }
}

impl BuilderView {
    /// The builder of an added section with the given heading text.
    pub open spec fn added(heading: Seq<char>) -> BuilderView {
        BuilderView {
            word: trim(heading),
            change_type: ChangeType::Added,
            old_content: Seq::empty(),
            new_content: seq![heading_marker() + heading],
            old_timestamp: None,
            new_timestamp: None,
        }
    }

    /// The builder of a deleted section with the given heading text.
    pub open spec fn deleted(heading: Seq<char>) -> BuilderView {
        BuilderView {
            word: trim(heading),
            change_type: ChangeType::Deleted,
            old_content: seq![heading_marker() + heading],
            new_content: Seq::empty(),
            old_timestamp: None,
            new_timestamp: None,
        }
    }

    /// The builder after one more line of the new text.
    pub open spec fn with_new(self, line: Seq<char>) -> BuilderView {
        BuilderView {
            new_content: self.new_content.push(line),
            new_timestamp: stamp_after(self.new_timestamp, line),
            ..self
        }
    }

    /// The builder after one more line of the old text.
    pub open spec fn with_old(self, line: Seq<char>) -> BuilderView {
        BuilderView {
            old_content: self.old_content.push(line),
            old_timestamp: stamp_after(self.old_timestamp, line),
            ..self
        }
    }

    /// The change that was collected: none where no line was; a modified
    /// section where lines of both texts were.
    pub open spec fn build(self) -> Option<ChangeView> {
        if self.old_content.len() == 0 && self.new_content.len() == 0 {
            None
        } else {
            Some(
                ChangeView {
                    change_type: if self.old_content.len() > 0 && self.new_content.len() > 0 {
                        ChangeType::Modified
                    } else {
                        self.change_type
                    },
                    word: self.word,
                    old_content: joined(self.old_content),
                    new_content: joined(self.new_content),
                    old_timestamp: self.old_timestamp,
                    new_timestamp: self.new_timestamp,
                },
            )
        }
    }
}

/// The heading line of a section with the given heading text.
fn heading_line(heading: &str) -> (out: String)
    ensures
        out@ == heading_marker() + heading@,
{
    let mut line = to_chars("## ");
    let rest = to_chars(heading);
    push_all(&mut line, &rest);
    from_chars(&line)
}

/// The timestamp after a line.
fn next_stamp(before: Option<String>, line: &str) -> (r: Option<String>)
    ensures
        text_of(r) == stamp_after(text_of(before), line@),
{
    let chars = to_chars(line);
    if line_is_marker(&chars) {
        match read_marker(&chars) {
            Some(t) => Some(from_chars(&t)),
            None => before,
        }
    } else {
        before
    }
}

impl SectionBuilder {
    /// Begins an added section with the given heading text.
    pub fn new_added(word: &str) -> (b: SectionBuilder)
        ensures
            b@ == BuilderView::added(word@),
    {
        let chars = to_chars(word);
        let mut new_content: Vec<String> = Vec::new();
        new_content.push(heading_line(word));
        let b = SectionBuilder {
            word: from_chars(&trimmed(&chars)),
            change_type: ChangeType::Added,
            old_content: Vec::new(),
            new_content,
            old_timestamp: None,
            new_timestamp: None,
        };
        assert(b@.new_content =~= BuilderView::added(word@).new_content);
        assert(b@.old_content =~= BuilderView::added(word@).old_content);
        b
    }

    /// Begins a deleted section with the given heading text.
    pub fn new_deleted(word: &str) -> (b: SectionBuilder)
        ensures
            b@ == BuilderView::deleted(word@),
    {
        let chars = to_chars(word);
        let mut old_content: Vec<String> = Vec::new();
        old_content.push(heading_line(word));
        let b = SectionBuilder {
            word: from_chars(&trimmed(&chars)),
            change_type: ChangeType::Deleted,
            old_content,
            new_content: Vec::new(),
            old_timestamp: None,
            new_timestamp: None,
        };
        assert(b@.new_content =~= BuilderView::deleted(word@).new_content);
        assert(b@.old_content =~= BuilderView::deleted(word@).old_content);
        b
    }

    /// Takes one more line of the new text.
    pub fn add_new_content_line(&mut self, line: &str)
        ensures
            final(self)@ == old(self)@.with_new(line@),
    {
        let ghost before = self@;
        let mut stamp: Option<String> = None;
        core::mem::swap(&mut stamp, &mut self.new_timestamp);
        self.new_timestamp = next_stamp(stamp, line);
        self.new_content.push(String::from_str(line));
        assert(self@.new_content =~= before.new_content.push(line@));
    }

    /// Takes one more line of the old text.
    pub fn add_old_content_line(&mut self, line: &str)
        ensures
            final(self)@ == old(self)@.with_old(line@),
    {
        let ghost before = self@;
        let mut stamp: Option<String> = None;
        core::mem::swap(&mut stamp, &mut self.old_timestamp);
        self.old_timestamp = next_stamp(stamp, line);
        self.old_content.push(String::from_str(line));
        assert(self@.old_content =~= before.old_content.push(line@));
    }

    /// The change that was collected.
    pub fn build(self) -> (r: Option<SectionChange>)
        ensures
            match r {
                Some(c) => self@.build() == Some(c@),
                None => self@.build() is None,
            },
    {
        let no_old = self.old_content.len() == 0;
        let no_new = self.new_content.len() == 0;
        if no_old && no_new {
            return None;
        }
        let change_type = if !no_old && !no_new {
            ChangeType::Modified
        } else {
            self.change_type
        };
        let old_content = if no_old {
            None
        } else {
            Some(join_strings(&self.old_content))
        };
        let new_content = if no_new {
            None
        } else {
            Some(join_strings(&self.new_content))
        };
        Some(
            SectionChange {
                change_type,
                word: self.word,
                old_content,
                new_content,
                old_timestamp: self.old_timestamp,
                new_timestamp: self.new_timestamp,
            },
        )
    }
}

/// What a hunk has given so far: the changes that are complete, and the one
/// that is being collected.
pub struct HunkState {
    pub done: Seq<ChangeView>,
    pub current: Option<BuilderView>,
}

/// The state with the given parts.
pub open spec fn state_of(done: Seq<ChangeView>, current: Option<BuilderView>) -> HunkState {
    HunkState { done, current }
}

/// The change that a builder gives when its section ends.
pub open spec fn finished(current: Option<BuilderView>) -> Seq<ChangeView> {
    match current {
        Some(b) => match b.build() {
            Some(c) => seq![c],
            None => Seq::empty(),
        },
        None => Seq::empty(),
    }
}

/// The state after one line of a hunk.
pub open spec fn hunk_step(st: HunkState, line: Seq<char>) -> HunkState {
    if line.len() == 0 {
        st
    } else if line[0] == '+' {
        let content = line.skip(1);
        if is_heading(content) {
            HunkState {
                done: st.done + finished(st.current),
                current: Some(BuilderView::added(heading_text(content))),
            }
        } else {
            match st.current {
                Some(b) => HunkState { done: st.done, current: Some(b.with_new(content)) },
                None => st,
            }
        }
    } else if line[0] == '-' {
        let content = line.skip(1);
        if is_heading(content) {
            HunkState {
                done: st.done + finished(st.current),
                current: Some(BuilderView::deleted(heading_text(content))),
            }
        } else {
            match st.current {
                Some(b) => HunkState { done: st.done, current: Some(b.with_old(content)) },
                None => st,
            }
        }
    } else {
        st
    }
}

/// The state after the lines of a hunk.
pub open spec fn hunk_fold(st: HunkState, ls: Seq<Seq<char>>) -> HunkState
    decreases ls.len(),
{
    if ls.len() == 0 {
        st
    } else {
        hunk_fold(hunk_step(st, ls[0]), ls.skip(1))
    }
}

/// The changes that the lines of one hunk hold, in the order of the hunk.
pub open spec fn hunk_changes(ls: Seq<Seq<char>>) -> Seq<ChangeView> {
    let st = hunk_fold(HunkState { done: Seq::empty(), current: None }, ls);
    st.done + finished(st.current)
}

/// Whether the line opens a hunk.
pub open spec fn is_hunk_header(line: Seq<char>) -> bool {
    starts_with(line, "@@"@)
}

/// The number of lines before the next hunk header.
pub open spec fn hunk_len(ls: Seq<Seq<char>>) -> int
    decreases ls.len(),
{
    if ls.len() == 0 || is_hunk_header(ls[0]) {
        0
    } else {
        1 + hunk_len(ls.skip(1))
    }
}

/// A hunk is never longer than the lines it is cut from.
pub proof fn lemma_hunk_len_bounds(ls: Seq<Seq<char>>)
    ensures
        0 <= hunk_len(ls) <= ls.len(),
    decreases ls.len(),
{
    if ls.len() > 0 && !is_hunk_header(ls[0]) {
        lemma_hunk_len_bounds(ls.skip(1));
    }
}

/// Where the hunk ends, given the lines before the next header.
pub proof fn lemma_hunk_len(ls: Seq<Seq<char>>, k: int)
    requires
        0 <= k <= ls.len(),
        forall|j: int| 0 <= j < k ==> !is_hunk_header(ls[j]),
        k == ls.len() || is_hunk_header(ls[k]),
    ensures
        hunk_len(ls) == k,
    decreases k,
{
    if k > 0 {
        lemma_hunk_len(ls.skip(1), k - 1);
    }
}

/// Tests whether the line opens a hunk.
pub fn line_is_hunk_header(line: &Vec<char>) -> (r: bool)
    ensures
        r == is_hunk_header(line@),
{
    let marker = to_chars("@@");
    has_prefix(line, &marker)
}

/// The view of an optional builder.
pub open spec fn builder_view(current: Option<SectionBuilder>) -> Option<BuilderView> {
    match current {
        Some(b) => Some(b@),
        None => None,
    }
}

/// Closes the section that is being collected.
fn finish(done: &mut Vec<SectionChange>, current: Option<SectionBuilder>)
    ensures
        change_views(final(done)@) == change_views(old(done)@) + finished(builder_view(current)),
{
    let ghost before = change_views(done@);
    match current {
        Some(b) => match b.build() {
            Some(c) => {
                done.push(c);
                assert(change_views(done@) =~= before + seq![c@]);
            },
            None => {
                assert(change_views(done@) =~= before + Seq::<ChangeView>::empty());
            },
        },
        None => {
            assert(change_views(done@) =~= before + Seq::<ChangeView>::empty());
        },
    }
}

/// Takes one line of a hunk.
fn take_line(done: &mut Vec<SectionChange>, current: Option<SectionBuilder>, line: &Vec<char>) -> (next:
    Option<SectionBuilder>)
    ensures
        state_of(change_views(final(done)@), builder_view(next)) == hunk_step(
            state_of(change_views(old(done)@), builder_view(current)),
            line@,
        ),
{
    proof {
        lemma_marker_lengths();
    }
    if line.len() == 0 {
        return current;
    }
    let first = line[0];
    if first != '+' && first != '-' {
        return current;
    }
    let content = slice_of(line, 1, line.len());
    assert(content@ == line@.skip(1));
    if line_is_heading(&content) {
        finish(done, current);
        let heading = from_chars(&slice_of(&content, 3, content.len()));
        assert(heading@ == heading_text(content@));
        if first == '+' {
            Some(SectionBuilder::new_added(heading.as_str()))
        } else {
            Some(SectionBuilder::new_deleted(heading.as_str()))
        }
    } else {
        match current {
            Some(mut b) => {
                let text = from_chars(&content);
                if first == '+' {
                    b.add_new_content_line(text.as_str());
                } else {
                    b.add_old_content_line(text.as_str());
                }
                Some(b)
            },
            None => None,
        }
    }
}

/// Reads the hunk whose header is line `*i`, and moves `*i` to the line
/// behind the hunk. A section that the hunk removes and brings back is one
/// modified section.
pub fn parse_hunk_content(ls: &Vec<Vec<char>>, i: &mut usize) -> (out: Vec<SectionChange>)
    requires
        *old(i) < ls.len(),
    ensures
        *final(i) == *old(i) + 1 + hunk_len(views(ls@).skip(*old(i) + 1)),
        *final(i) <= ls.len(),
        change_views(out@) == hunk_sections(
            views(ls@).subrange(*old(i) + 1, *final(i) as int),
        ),
{
    let raw = scan_hunk(ls, i);
    let keys = keys_of(&raw);
    pair_changes(raw, keys)
}

/// Reads the changes of the hunk whose header is line `*i` as they stand,
/// a removal and a return of one section as two, and moves `*i` to the line
/// behind the hunk.
pub fn scan_hunk(ls: &Vec<Vec<char>>, i: &mut usize) -> (out: Vec<SectionChange>)
    requires
        *old(i) < ls.len(),
    ensures
        *final(i) == *old(i) + 1 + hunk_len(views(ls@).skip(*old(i) + 1)),
        *final(i) <= ls.len(),
        change_views(out@) == hunk_changes(
            views(ls@).subrange(*old(i) + 1, *final(i) as int),
        ),
{
    let ghost all = views(ls@);
    let start: usize = *i + 1;
    let n: usize = ls.len();
    let mut end: usize = start;
    while end < n && !line_is_hunk_header(&ls[end])
        invariant
            start <= end <= n,
            n == ls.len(),
            forall|k: int| start <= k < end ==> !is_hunk_header(views(ls@)[k]),
        decreases n - end,
    {
        end += 1;
    }
    proof {
        lemma_hunk_len(all.skip(start as int), end - start);
    }
    let ghost hunk = all.subrange(start as int, end as int);
    let ghost init = state_of(Seq::empty(), None);
    let mut done: Vec<SectionChange> = Vec::new();
    let mut current: Option<SectionBuilder> = None;
    let mut k: usize = start;
    assert(hunk.skip(0) =~= hunk);
    assert(change_views(done@) =~= Seq::<ChangeView>::empty());
    while k < end
        invariant
            start <= k <= end,
            end <= n,
            n == ls.len(),
            all == views(ls@),
            hunk == all.subrange(start as int, end as int),
            hunk_fold(init, hunk) == hunk_fold(
                state_of(change_views(done@), builder_view(current)),
                hunk.skip(k - start),
            ),
        decreases end - k,
    {
        let ghost rest = hunk.skip(k - start);
        assert(rest[0] == ls@[k as int]@);
        assert(rest.skip(1) =~= hunk.skip(k + 1 - start));
        current = take_line(&mut done, current, &ls[k]);
        k += 1;
    }
    assert(hunk.skip(end - start).len() == 0);
    finish(&mut done, current);
    *i = end;
    done
}

/// The section changes of one hunk: its changes, with the removal and the
/// return of one section made one modification.
pub open spec fn hunk_sections(ls: Seq<Seq<char>>) -> Seq<ChangeView> {
    let raw = hunk_changes(ls);
    paired(raw, change_keys(raw))
}

/// The section changes that the lines of a diff hold, hunk by hunk. Lines
/// before the first hunk header are passed over.
pub open spec fn diff_changes(ls: Seq<Seq<char>>) -> Seq<ChangeView>
    decreases ls.len(),
{
    if ls.len() == 0 {
        Seq::empty()
    } else if is_hunk_header(ls[0]) {
        let rest = ls.skip(1);
        let n = hunk_len(rest);
        if !(0 <= n <= rest.len()) {
            Seq::empty()
        } else {
            hunk_sections(rest.take(n)) + diff_changes(rest.skip(n))
        }
    } else {
        diff_changes(ls.skip(1))
    }
}

/// Appends the changes of `tail` to `out`.
pub fn append_changes(out: &mut Vec<SectionChange>, tail: Vec<SectionChange>)
    ensures
        change_views(final(out)@) == change_views(old(out)@) + change_views(tail@),
{
    let ghost before = change_views(out@);
    let ghost added = change_views(tail@);
    let mut tail = tail;
    out.append(&mut tail);
    assert(change_views(out@) =~= before + added);
}

/// Reads the section changes out of the text of a unified diff.
pub fn parse_diff_for_sections(diff_output: &str) -> (out: Vec<SectionChange>)
    ensures
        change_views(out@) == diff_changes(lines(diff_output@)),
{
    let chars = to_chars(diff_output);
    let ls = split_lines(&chars);
    let ghost all = views(ls@);
    let mut out: Vec<SectionChange> = Vec::new();
    let mut i: usize = 0;
    assert(all.skip(0) =~= all);
    assert(change_views(out@) + diff_changes(all) =~= diff_changes(all));
    while i < ls.len()
        invariant
            i <= ls.len(),
            all == views(ls@),
            diff_changes(all) == change_views(out@) + diff_changes(all.skip(i as int)),
        decreases ls.len() - i,
    {
        let ghost cur = all.skip(i as int);
        let ghost before = change_views(out@);
        assert(cur[0] == ls@[i as int]@);
        if line_is_hunk_header(&ls[i]) {
            let ghost at: int = i as int;
            let hunk = parse_hunk_content(&ls, &mut i);
            proof {
                let rest = cur.skip(1);
                assert(rest =~= all.skip(at + 1));
                lemma_hunk_len_bounds(rest);
                let n = hunk_len(rest);
                assert(rest.take(n) =~= all.subrange(at + 1, i as int));
                assert(rest.skip(n) =~= all.skip(i as int));
            }
            append_changes(&mut out, hunk);
            assert(before + (change_views(hunk@) + diff_changes(all.skip(i as int)))
                =~= change_views(out@) + diff_changes(all.skip(i as int)));
        } else {
            assert(cur.skip(1) =~= all.skip(i + 1));
            i += 1;
        }
    }
    assert(change_views(out@) + Seq::<ChangeView>::empty() =~= change_views(out@));
    out
}

} // verus!
