//! The local side's additions and deletions since the common ancestor, read
//! out of a diff, and how they are put back on top of the remote side's
//! notebook.

use crate::lines::{lines, split_lines};
use crate::notebook::text_of;
use crate::store::{content_deletion, prepended, NotebookStore};
use crate::text::{
    find, from_chars, has_prefix, push_all, search, slice_of, starts_with, to_chars,
    trim, trimmed, views,
};
use vstd::prelude::*;

verus! {

/// A section that the local side added.
#[derive(Debug)]
pub struct AddedWordSection {
    pub word: String,
    /// The section from its heading to its separator.
    pub content: String,
    pub timestamp: Option<String>,
}

/// A section that the local side deleted.
#[derive(Debug)]
pub struct DeletedWordSection {
    pub word: String,
    pub timestamp: Option<String>,
}

/// What the local side did since the common ancestor.
#[derive(Debug)]
pub struct LocalChanges {
    pub added_sections: Vec<AddedWordSection>,
    pub deleted_sections: Vec<DeletedWordSection>,
}

/// An added section as a mathematical value.
pub struct AddedView {
    pub word: Seq<char>,
    pub content: Seq<char>,
    pub timestamp: Option<Seq<char>>,
}

/// A deleted section as a mathematical value.
pub struct DeletedView {
    pub word: Seq<char>,
    pub timestamp: Option<Seq<char>>,
}

/// The local changes as a mathematical value.
pub struct LocalChangesView {
    pub added: Seq<AddedView>,
    pub deleted: Seq<DeletedView>,
}

impl View for AddedWordSection {
    type V = AddedView;

    open spec fn view(&self) -> AddedView {
        AddedView { word: self.word@, content: self.content@, timestamp: text_of(self.timestamp) }
    }
}

impl View for DeletedWordSection {
    type V = DeletedView;

    open spec fn view(&self) -> DeletedView {
        DeletedView { word: self.word@, timestamp: text_of(self.timestamp) }
    }
}

/// The views of a vector of added sections, element by element.
pub open spec fn added_views(v: Seq<AddedWordSection>) -> Seq<AddedView> {
    Seq::new(v.len(), |i: int| v[i]@)
}

/// The views of a vector of deleted sections, element by element.
pub open spec fn deleted_views(v: Seq<DeletedWordSection>) -> Seq<DeletedView> {
    Seq::new(v.len(), |i: int| v[i]@)
}

impl View for LocalChanges {
    type V = LocalChangesView;

    open spec fn view(&self) -> LocalChangesView {
        LocalChangesView {
            added: added_views(self.added_sections@),
            deleted: deleted_views(self.deleted_sections@),
        }
    }
}

/// Where the collection of an added section stops, from line `i` on: behind
/// an added separator, or before the first line that is not added or that
/// opens another section.
pub open spec fn added_end(ls: Seq<Seq<char>>, i: int) -> int
    decreases ls.len() - i,
{
    if i < 0 || i >= ls.len() {
        i
    } else if starts_with(ls[i], "+---"@) {
        i + 1
    } else if starts_with(ls[i], "+## "@) {
        i
    } else if starts_with(ls[i], "+"@) {
        added_end(ls, i + 1)
    } else {
        i
    }
}

/// What one added line gives to the text of its section.
pub open spec fn added_piece(line: Seq<char>) -> Seq<char> {
    if starts_with(line, "+---"@) {
        "---\n"@
    } else {
        line.skip(1) + "\n"@
    }
}

/// The text that the added lines `from..to` give.
pub open spec fn added_text(ls: Seq<Seq<char>>, from: int, to: int) -> Seq<char>
    decreases to - from,
{
    if to <= from {
        Seq::empty()
    } else {
        added_text(ls, from, to - 1) + added_piece(ls[to - 1])
    }
}

/// The timestamp that an added line bears.
pub open spec fn added_line_stamp(line: Seq<char>) -> Option<Seq<char>> {
    if starts_with(line, "+<!-- timestamp="@) {
        match find(line.skip(16), " -->"@) {
            Some(e) => Some(line.subrange(16, 16 + e)),
            None => None,
        }
    } else {
        None
    }
}

/// The timestamp of the last of the added lines `from..to` that bears one.
pub open spec fn added_stamp(ls: Seq<Seq<char>>, from: int, to: int) -> Option<Seq<char>>
    decreases to - from,
{
    if to <= from {
        None
    } else if added_line_stamp(ls[to - 1]) is Some {
        added_line_stamp(ls[to - 1])
    } else {
        added_stamp(ls, from, to - 1)
    }
}

/// The added section whose heading is line `i` and whose lines end before
/// line `end`.
pub open spec fn added_section(ls: Seq<Seq<char>>, i: int, end: int) -> AddedView {
    AddedView {
        word: trim(ls[i].skip(4)),
        content: trim(ls[i].skip(1) + "\n"@ + added_text(ls, i + 1, end)),
        timestamp: added_stamp(ls, i + 1, end),
    }
}

/// The timestamp that a removed marker line bears.
pub open spec fn deleted_line_stamp(line: Seq<char>) -> Option<Seq<char>> {
    match (find(line, "timestamp="@), find(line, " -->"@)) {
        (Some(s), Some(e)) => if s + 10 <= e {
            Some(line.subrange(s + 10, e))
        } else {
            None
        },
        _ => None,
    }
}

/// Where the scan of a deleted section stops, from line `i` on, and the
/// timestamp it found: behind the first removed marker line or separator, or
/// before the first line that is not removed or that opens another section.
pub open spec fn deleted_scan(ls: Seq<Seq<char>>, i: int) -> (int, Option<Seq<char>>)
    decreases ls.len() - i,
{
    if i < 0 || i >= ls.len() {
        (i, None)
    } else if starts_with(ls[i], "-<!-- timestamp="@) {
        (i + 1, deleted_line_stamp(ls[i]))
    } else if starts_with(ls[i], "----"@) {
        (i + 1, None)
    } else if starts_with(ls[i], "-## "@) {
        (i, None)
    } else if starts_with(ls[i], "-"@) {
        deleted_scan(ls, i + 1)
    } else {
        (i, None)
    }
}

/// The collection of an added section never goes back.
pub proof fn lemma_added_end_bounds(ls: Seq<Seq<char>>, i: int)
    requires
        0 <= i <= ls.len(),
    ensures
        i <= added_end(ls, i) <= ls.len(),
    decreases ls.len() - i,
{
    if i < ls.len() && !starts_with(ls[i], "+---"@) && !starts_with(ls[i], "+## "@) && starts_with(
        ls[i],
        "+"@,
    ) {
        lemma_added_end_bounds(ls, i + 1);
    }
}

/// The scan of a deleted section never goes back.
pub proof fn lemma_deleted_scan_bounds(ls: Seq<Seq<char>>, i: int)
    requires
        0 <= i <= ls.len(),
    ensures
        i <= deleted_scan(ls, i).0 <= ls.len(),
    decreases ls.len() - i,
{
    if i < ls.len() && !starts_with(ls[i], "-<!-- timestamp="@) && !starts_with(ls[i], "----"@)
        && !starts_with(ls[i], "-## "@) && starts_with(ls[i], "-"@) {
        lemma_deleted_scan_bounds(ls, i + 1);
    }
}

/// The additions and deletions that the lines of a diff hold from line `i`
/// on, each kind in the order of the diff.
pub open spec fn word_changes(ls: Seq<Seq<char>>, i: int) -> LocalChangesView
    decreases ls.len() - i,
{
    if i < 0 || i >= ls.len() {
        LocalChangesView { added: Seq::empty(), deleted: Seq::empty() }
    } else if starts_with(ls[i], "+## "@) {
        let end = added_end(ls, i + 1);
        if end <= i || end > ls.len() {
            LocalChangesView { added: Seq::empty(), deleted: Seq::empty() }
        } else {
            let rest = word_changes(ls, end);
            LocalChangesView {
                added: seq![added_section(ls, i, end)] + rest.added,
                deleted: rest.deleted,
            }
        }
    } else if starts_with(ls[i], "-## "@) {
        let (end, stamp) = deleted_scan(ls, i + 1);
        if end <= i || end > ls.len() {
            LocalChangesView { added: Seq::empty(), deleted: Seq::empty() }
        } else {
            let rest = word_changes(ls, end);
            LocalChangesView {
                added: rest.added,
                deleted: seq![DeletedView { word: trim(ls[i].skip(4)), timestamp: stamp }]
                    + rest.deleted,
            }
        }
    } else {
        word_changes(ls, i + 1)
    }
}

/// What the literals of the diff scan hold.
proof fn lemma_literals()
    ensures
        "+## "@.len() == 4,
        "-## "@.len() == 4,
        "+---"@ == seq!['+', '-', '-', '-'],
        "+"@.len() == 1,
        "-"@.len() == 1,
        "\n"@ == seq!['\n'],
        "+<!-- timestamp="@.len() == 16,
        "+<!-- timestamp="@[1] == '<',
{
    reveal_strlit("+## ");
    reveal_strlit("-## ");
    reveal_strlit("+---");
    reveal_strlit("+");
    reveal_strlit("-");
    reveal_strlit("\n");
    reveal_strlit("+<!-- timestamp=");
    assert("+---"@ =~= seq!['+', '-', '-', '-']);
    assert("\n"@ =~= seq!['\n']);
}

/// Tests whether the line begins with the literal.
fn begins(line: &Vec<char>, literal: &str) -> (r: bool)
    ensures
        r == starts_with(line@, literal@),
{
    let p = to_chars(literal);
    has_prefix(line, &p)
}

/// Reads the timestamp that an added line bears.
fn read_added_stamp(line: &Vec<char>) -> (r: Option<String>)
    ensures
        text_of(r) == added_line_stamp(line@),
{
    proof {
        reveal_strlit("+<!-- timestamp=");
    }
    if !begins(line, "+<!-- timestamp=") {
        return None;
    }
    let n: usize = line.len();
    let rest = slice_of(line, 16, n);
    assert(rest@ == line@.skip(16));
    let close = to_chars(" -->");
    match search(&rest, &close) {
        Some(e) => Some(from_chars(&slice_of(line, 16, 16 + e))),
        None => None,
    }
}

/// Reads the timestamp that a removed marker line bears.
fn read_deleted_stamp(line: &Vec<char>) -> (r: Option<String>)
    ensures
        text_of(r) == deleted_line_stamp(line@),
{
    proof {
        reveal_strlit("timestamp=");
    }
    let key = to_chars("timestamp=");
    let close = to_chars(" -->");
    match (search(line, &key), search(line, &close)) {
        (Some(s), Some(e)) => {
            let n: usize = line.len();
            if s + 10 <= e {
                Some(from_chars(&slice_of(line, s + 10, e)))
            } else {
                None
            }
        },
        _ => None,
    }
}

/// The name of the section that a heading line of a diff opens.
fn word_of(line: &Vec<char>) -> (r: String)
    requires
        line@.len() >= 4,
    ensures
        r@ == trim(line@.skip(4)),
{
    let n: usize = line.len();
    let rest = slice_of(line, 4, n);
    from_chars(&trimmed(&rest))
}

impl LocalChanges {
    /// Reads the additions and deletions out of the lines of a diff.
    pub fn from_lines(ls: &Vec<Vec<char>>) -> (out: LocalChanges)
        ensures
            out@ == word_changes(views(ls@), 0),
    {
        let ghost all = views(ls@);
        let ghost whole = word_changes(all, 0);
        let n: usize = ls.len();
        let mut added: Vec<AddedWordSection> = Vec::new();
        let mut deleted: Vec<DeletedWordSection> = Vec::new();
        let mut i: usize = 0;
        assert(added_views(added@) + whole.added =~= whole.added);
        assert(deleted_views(deleted@) + whole.deleted =~= whole.deleted);
        while i < n
            invariant
                i <= n,
                n == ls.len(),
                all == views(ls@),
                whole.added == added_views(added@) + word_changes(all, i as int).added,
                whole.deleted == deleted_views(deleted@) + word_changes(all, i as int).deleted,
            decreases n - i,
        {
            proof {
                lemma_literals();
                lemma_added_end_bounds(all, i + 1);
                lemma_deleted_scan_bounds(all, i + 1);
            }
            let ghost before_added = added_views(added@);
            let ghost before_deleted = deleted_views(deleted@);
            let line = &ls[i];
            assert(all[i as int] == line@);
            if begins(line, "+## ") {
                let at: usize = i;
                let mut content = slice_of(line, 1, line.len());
                content.push('\n');
                assert(content@ =~= line@.skip(1) + "\n"@ + added_text(all, at + 1, at + 1));
                let mut stamp: Option<String> = None;
                i += 1;
                loop
                    invariant_except_break
                        added_end(all, at + 1) == added_end(all, i as int),
                    invariant
                        at < i <= n,
                        n == ls.len(),
                        all == views(ls@),
                        content@ == all[at as int].skip(1) + "\n"@ + added_text(
                            all,
                            at + 1,
                            i as int,
                        ),
                        text_of(stamp) == added_stamp(all, at + 1, i as int),
                    ensures
                        at < i <= n,
                        added_end(all, at + 1) == i,
                        content@ == all[at as int].skip(1) + "\n"@ + added_text(
                            all,
                            at + 1,
                            i as int,
                        ),
                        text_of(stamp) == added_stamp(all, at + 1, i as int),
                    decreases n - i,
                {
                    proof {
                        lemma_literals();
                    }
                    if i >= n {
                        break;
                    }
                    let cur = &ls[i];
                    assert(all[i as int] == cur@);
                    let ghost so_far = content@;
                    if begins(cur, "+---") {
                        let piece = to_chars("---\n");
                        push_all(&mut content, &piece);
                        assert(added_line_stamp(cur@) is None) by {
                            if starts_with(cur@, "+<!-- timestamp="@) {
                                assert(cur@.take(16)[1] == '<');
                                assert(cur@.take(4)[1] == '-');
                            }
                        }
                        i += 1;
                        assert(content@ =~= all[at as int].skip(1) + "\n"@ + added_text(
                            all,
                            at + 1,
                            i as int,
                        ));
                        break;
                    } else if begins(cur, "+## ") {
                        break;
                    } else if begins(cur, "+") {
                        let len: usize = cur.len();
                        let piece = slice_of(cur, 1, len);
                        push_all(&mut content, &piece);
                        content.push('\n');
                        match read_added_stamp(cur) {
                            Some(t) => {
                                stamp = Some(t);
                            },
                            None => {},
                        }
                        i += 1;
                        assert(content@ =~= all[at as int].skip(1) + "\n"@ + added_text(
                            all,
                            at + 1,
                            i as int,
                        ));
                    } else {
                        break;
                    }
                }
                let section = AddedWordSection {
                    word: word_of(line),
                    content: from_chars(&trimmed(&content)),
                    timestamp: stamp,
                };
                assert(section@ == added_section(all, at as int, i as int));
                added.push(section);
                assert(added_views(added@) =~= before_added + seq![section@]);
                assert(before_added + (seq![section@] + word_changes(all, i as int).added)
                    =~= added_views(added@) + word_changes(all, i as int).added);
            } else if begins(line, "-## ") {
                let at: usize = i;
                let mut stamp: Option<String> = None;
                i += 1;
                loop
                    invariant_except_break
                        stamp is None,
                        deleted_scan(all, at + 1) == deleted_scan(all, i as int),
                    invariant
                        at < i <= n,
                        n == ls.len(),
                        all == views(ls@),
                    ensures
                        at < i <= n,
                        deleted_scan(all, at + 1) == (i as int, text_of(stamp)),
                    decreases n - i,
                {
                    if i >= n {
                        break;
                    }
                    let cur = &ls[i];
                    assert(all[i as int] == cur@);
                    if begins(cur, "-<!-- timestamp=") {
                        stamp = read_deleted_stamp(cur);
                        i += 1;
                        break;
                    } else if begins(cur, "----") {
                        i += 1;
                        break;
                    } else if begins(cur, "-## ") {
                        break;
                    } else if begins(cur, "-") {
                        i += 1;
                    } else {
                        break;
                    }
                }
                let section = DeletedWordSection { word: word_of(line), timestamp: stamp };
                deleted.push(section);
                assert(deleted_views(deleted@) =~= before_deleted + seq![section@]);
                assert(before_deleted + (seq![section@] + word_changes(all, i as int).deleted)
                    =~= deleted_views(deleted@) + word_changes(all, i as int).deleted);
            } else {
                i += 1;
            }
        }
        assert(added_views(added@) + Seq::<AddedView>::empty() =~= added_views(added@));
        assert(deleted_views(deleted@) + Seq::<DeletedView>::empty() =~= deleted_views(deleted@));
        LocalChanges { added_sections: added, deleted_sections: deleted }
    }

    /// Reads the additions and deletions out of the text of a diff.
    pub fn parse_diff_for_word_changes(diff_output: &str) -> (out: LocalChanges)
        ensures
            out@ == word_changes(lines(diff_output@), 0),
    {
        let chars = to_chars(diff_output);
        let ls = split_lines(&chars);
        LocalChanges::from_lines(&ls)
    }
}

/// The content after the first `k` deletions. A deletion leaves the first
/// section that bears its timestamp; one without a timestamp, or one that
/// finds no section, leaves the content as it is.
pub open spec fn deletions_applied(content: Seq<char>, deleted: Seq<DeletedView>, k: int) -> Seq<
    char,
>
    decreases k,
{
    if k <= 0 {
        content
    } else {
        let before = deletions_applied(content, deleted, k - 1);
        match deleted[k - 1].timestamp {
            Some(t) => match content_deletion(before, None, Some(t)) {
                Ok(left) => left,
                Err(_) => before,
            },
            None => before,
        }
    }
}

/// The content with the added sections from `i` on put on top, the last
/// first, so that they come to stand in their own order.
pub open spec fn additions_applied(content: Seq<char>, added: Seq<AddedView>, now: Seq<char>, i: int) -> Seq<
    char,
>
    decreases added.len() - i,
{
    if i < 0 || i >= added.len() {
        content
    } else {
        prepended(additions_applied(content, added, now, i + 1), added[i].content, now)
    }
}

/// The content after the local changes: first the deletions, then the
/// additions.
pub open spec fn changes_applied(content: Seq<char>, changes: LocalChangesView, now: Seq<char>) -> Seq<
    char,
> {
    additions_applied(
        deletions_applied(content, changes.deleted, changes.deleted.len() as int),
        changes.added,
        now,
        0,
    )
}

impl LocalChanges {
    /// Carries the local changes out on the store, with `now` as the
    /// timestamp for an added section that bears none.
    pub fn apply_at(&self, store: &mut NotebookStore, now: &str)
        ensures
            final(store).content@ == changes_applied(old(store).content@, self@, now@),
    {
        let mut k: usize = 0;
        while k < self.deleted_sections.len()
            invariant
                k <= self.deleted_sections.len(),
                store.content@ == deletions_applied(old(store).content@, self@.deleted, k as int),
            decreases self.deleted_sections.len() - k,
        {
            assert(self@.deleted[k as int] == self.deleted_sections@[k as int]@);
            match &self.deleted_sections[k].timestamp {
                Some(t) => {
                    let _ = store.delete_by_timestamp(t.as_str());
                },
                None => {},
            }
            k += 1;
        }
        let ghost mid = store.content@;
        let mut i: usize = self.added_sections.len();
        while i > 0
            invariant
                i <= self.added_sections.len(),
                store.content@ == additions_applied(mid, self@.added, now@, i as int),
            decreases i,
        {
            i -= 1;
            assert(self@.added[i as int] == self.added_sections@[i as int]@);
            store.prepend_at(self.added_sections[i].content.as_str(), now);
        }
    }

    /// Carries the local changes out on the store, with the local time as
    /// the timestamp for an added section that bears none.
    pub fn apply_local_changes(&self, store: &mut NotebookStore)
        ensures
            exists|now: Seq<char>|
                crate::instant::stamp_text(now) && final(store).content@ == changes_applied(
                    old(store).content@,
                    self@,
                    now,
                ),
    {
        let now = crate::instant::local_timestamp();
        self.apply_at(store, now.as_str());
    }
}

} // verus!
