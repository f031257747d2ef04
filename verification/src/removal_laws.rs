//! What holds of a notebook from which a section was taken: when it is
//! written out and read again, it is the notebook without that section, with
//! every other section as it was.

use crate::change::ChangeView;
use crate::conflict::{change_instant, conflicts, last_with_key, resolution, ConflictView, Winner};
use crate::format::{heading_marker, heading_text, is_heading, is_separator, lemma_marker_lengths};
use crate::lines::{join, lemma_line_end, line_end, lines, newline, strip_cr};
use crate::merge::{content_holds, step_applied, steps_applied, Decision, StepView};
use crate::notebook::{
    body_len, carries, gap_len, lemma_body_len_bounds, lemma_gap_len, lemma_gap_len_bounds,
    lemma_sections_keep_lines, parse_lines, parse_sections, parse_text, section_of,
    sections_lines, NotebookView, SectionView,
};
use crate::roundtrip::{lemma_join_front, lemma_line_end_bounds, one_line};
use crate::store::{
    content_deletion, entry_text, hit_from, identity_keys, is_formatted, lemma_hit_from, prepended,
    selects, StoreError,
};
use crate::text::{is_blank, is_whitespace, lowercase, trim};
use crate::union_laws::{
    joined_of, lemma_body_len_concat, lemma_notebook_on_top, lemma_one_each, one_each,
    whole_sections,
};
use vstd::prelude::*;

verus! {

/// Whether none of the lines opens a section.
pub open spec fn no_heading(g: Seq<Seq<char>>) -> bool {
    forall|i: int| 0 <= i < g.len() ==> !is_heading(#[trigger] g[i])
}

/// The lines of a gap open no section.
pub proof fn lemma_gap_has_no_heading(ls: Seq<Seq<char>>)
    ensures
        no_heading(ls.take(gap_len(ls))),
        0 <= gap_len(ls) <= ls.len(),
    decreases ls.len(),
{
    lemma_gap_len_bounds(ls);
    if ls.len() > 0 && !is_heading(ls[0]) {
        lemma_gap_has_no_heading(ls.skip(1));
        let g = gap_len(ls);
        assert forall|i: int| 0 <= i < g implies !is_heading(#[trigger] ls.take(g)[i]) by {
            if i > 0 {
                assert(ls.take(g)[i] == ls.skip(1).take(g - 1)[i - 1]);
            }
        }
    }
}

/// A body that ends before the last line ends with a separator.
pub proof fn lemma_body_closed(ls: Seq<Seq<char>>)
    requires
        body_len(ls) < ls.len(),
    ensures
        1 <= body_len(ls),
        is_separator(ls[body_len(ls) - 1]),
        body_len(ls.take(body_len(ls))) == body_len(ls),
        exists|k: int| 0 <= k < body_len(ls) && is_separator(#[trigger] ls.take(body_len(ls))[k]),
    decreases ls.len(),
{
    lemma_body_len_bounds(ls);
    let n = body_len(ls);
    if is_separator(ls[0]) {
        assert(ls.take(1)[0] == ls[0]);
    } else {
        lemma_body_len_bounds(ls.skip(1));
        lemma_body_closed(ls.skip(1));
        let m = body_len(ls.skip(1));
        assert(ls.skip(1)[m - 1] == ls[n - 1]);
        assert(ls.take(n)[0] == ls[0]);
        assert(ls.take(n).skip(1) =~= ls.skip(1).take(m));
        let k = choose|k: int| 0 <= k < m && is_separator(#[trigger] ls.skip(1).take(m)[k]);
        assert(ls.take(n)[k + 1] == ls.skip(1).take(m)[k]);
    }
}

/// Lines that open no section, before lines that begin with a heading, are
/// read as what stands before the first section.
pub proof fn lemma_parse_behind_gap(g: Seq<Seq<char>>, z: Seq<Seq<char>>)
    requires
        no_heading(g),
        z.len() == 0 || is_heading(z[0]),
    ensures
        parse_lines(g + z) == (NotebookView { preamble: g, sections: parse_sections(z) }),
{
    let all = g + z;
    assert forall|j: int| 0 <= j < g.len() implies !is_heading(all[j]) by {
        assert(all[j] == g[j]);
    }
    if z.len() > 0 {
        assert(all[g.len() as int] == z[0]);
    }
    lemma_gap_len(all, g.len() as int);
    assert(all.take(g.len() as int) =~= g);
    assert(all.skip(g.len() as int) =~= z);
}

/// The notebook with the given parts.
pub open spec fn notebook_of(preamble: Seq<Seq<char>>, sections: Seq<SectionView>) -> NotebookView {
    NotebookView { preamble, sections }
}

/// A notebook from which a section was taken is read back from its lines
/// as it is: nothing of the other sections is lost, and the lines behind the
/// section that left stay with the section before it.
pub proof fn lemma_removal_parses(x: Seq<Seq<char>>, g: Seq<Seq<char>>, k: int)
    requires
        x.len() == 0 || is_heading(x[0]),
        no_heading(g),
        0 <= k < parse_sections(x).len(),
    ensures
        parse_lines(notebook_of(g, parse_sections(x)).without(k).lines()) == notebook_of(
            g,
            parse_sections(x),
        ).without(k),
    decreases k,
{
    lemma_marker_lengths();
    let ss = parse_sections(x);
    let nb = notebook_of(g, ss);
    let w = nb.without(k);
    let rest = x.skip(1);
    lemma_body_len_bounds(rest);
    let b = body_len(rest);
    let after = rest.skip(b);
    lemma_gap_has_no_heading(after);
    lemma_gap_len_bounds(after);
    let gz = gap_len(after);
    let tail = after.skip(gz);
    let first = section_of(x[0], rest.take(b), after.take(gz));
    assert(ss == seq![first] + parse_sections(tail));
    let ss2 = parse_sections(tail);
    assert(ss[0] == first);
    assert(ss.skip(1) =~= ss2);
    assert(tail.len() == 0 || is_heading(tail[0])) by {
        if tail.len() > 0 {
            assert(tail[0] == after[gz]);
        }
    }
    if k == 0 {
        lemma_sections_keep_lines(tail);
        let gap = g + first.trailer;
        assert(no_heading(gap)) by {
            assert forall|i: int| 0 <= i < gap.len() implies !is_heading(#[trigger] gap[i]) by {
                if i < g.len() {
                    assert(gap[i] == g[i]);
                } else {
                    assert(gap[i] == first.trailer[i - g.len()]);
                }
            }
        }
        assert(w == notebook_of(gap, ss2));
        assert(w.lines() == gap + tail);
        lemma_parse_behind_gap(gap, tail);
    } else {
        assert(ss2.len() > 0);
        assert(tail.len() > 0);
        assert(b < rest.len());
        lemma_body_closed(rest);
        let body0 = rest.take(b);
        let nb2 = notebook_of(first.trailer, ss2);
        lemma_removal_parses(tail, first.trailer, k - 1);
        let w2 = nb2.without(k - 1);
        let y2 = w2.lines();
        let kept = SectionView { trailer: w2.preamble, ..first };
        assert(w.preamble == g);
        assert(w.sections =~= seq![kept] + w2.sections) by {
            if k == 1 {
                assert(ss[1] == ss2[0]);
                assert(ss.take(0) =~= Seq::<SectionView>::empty());
                assert(ss.skip(2) =~= ss2.skip(1));
            } else {
                assert(ss[k - 1] == ss2[k - 2]);
                assert(ss[k] == ss2[k - 1]);
                assert(ss.take(k - 1) =~= seq![first] + ss2.take(k - 2));
                assert(ss.skip(k + 1) =~= ss2.skip(k));
            }
        }
        assert((seq![kept] + w2.sections)[0] == kept);
        assert((seq![kept] + w2.sections).skip(1) =~= w2.sections);
        assert(sections_lines(w.sections) == kept.lines() + sections_lines(w2.sections));
        assert(heading_marker() + heading_text(x[0]) =~= x[0]);
        let z = seq![x[0]] + body0 + y2;
        assert(w.lines() =~= g + z);
        lemma_parse_behind_gap(g, z);
        // the first section of what is left
        assert(z[0] == x[0]);
        assert(z.skip(1) =~= body0 + y2);
        lemma_body_len_concat(body0, y2);
        assert(body_len(body0 + y2) == b);
        assert((body0 + y2).take(b) =~= body0);
        assert((body0 + y2).skip(b) =~= y2);
        lemma_gap_len_bounds(y2);
        assert(parse_sections(z) == seq![section_of(x[0], body0, y2.take(gap_len(y2)))]
            + parse_sections(y2.skip(gap_len(y2))));
        assert(section_of(x[0], body0, w2.preamble) == kept);
    }
}

/// A notebook that was read from lines, and from which a section was
/// taken, is read back from its lines as it is.
pub proof fn lemma_removal_reads_back(ls: Seq<Seq<char>>, k: int)
    requires
        0 <= k < parse_lines(ls).sections.len(),
    ensures
        parse_lines(parse_lines(ls).without(k).lines()) == parse_lines(ls).without(k),
{
    lemma_gap_has_no_heading(ls);
    lemma_gap_len_bounds(ls);
    let g = gap_len(ls);
    let x = ls.skip(g);
    assert(x.len() == 0 || is_heading(x[0])) by {
        if x.len() > 0 {
            assert(x[0] == ls[g]);
        }
    }
    lemma_removal_parses(x, ls.take(g), k);
}

/// Whether the lines are such as a text written with line feeds alone has
/// them: no line holds a line feed or ends with a carriage return, and the
/// last line is not empty.
pub open spec fn plain_lines(ls: Seq<Seq<char>>) -> bool {
    &&& forall|i: int| 0 <= i < ls.len() ==> one_line(#[trigger] ls[i])
    &&& forall|i: int|
        0 <= i < ls.len() && (#[trigger] ls[i]).len() > 0 ==> ls[i].last() != '\r'
    &&& ls.len() > 0 ==> ls.last().len() > 0
}

/// Plain lines that are joined by line feeds are read back as they are.
pub proof fn lemma_plain_lines_read_back(ls: Seq<Seq<char>>)
    requires
        plain_lines(ls),
    ensures
        lines(join(ls, newline())) == ls,
    decreases ls.len(),
{
    if ls.len() == 0 {
        assert(lines(join(ls, newline())) =~= ls);
    } else if ls.len() == 1 {
        let only = ls[0];
        lemma_line_end(only, only.len() as int);
        assert(lines(only) == seq![only]);
        assert(seq![only] =~= ls);
    } else {
        let first = ls[0];
        let rest = ls.skip(1);
        assert(ls =~= seq![first] + rest);
        lemma_join_front(first, rest, newline());
        assert(plain_lines(rest)) by {
            assert forall|i: int| 0 <= i < rest.len() implies one_line(#[trigger] rest[i]) by {
                assert(rest[i] == ls[i + 1]);
            }
            assert forall|i: int| 0 <= i < rest.len() && (#[trigger] rest[i]).len()
                > 0 implies rest[i].last() != '\r' by {
                assert(rest[i] == ls[i + 1]);
            }
            assert(rest.last() == ls.last());
        }
        lemma_plain_lines_read_back(rest);
        let tail = join(rest, newline());
        let whole = first + newline() + tail;
        assert(whole[first.len() as int] == '\n');
        assert forall|j: int| 0 <= j < first.len() implies whole[j] != '\n' by {
            assert(whole[j] == first[j]);
        }
        lemma_line_end(whole, first.len() as int);
        assert(whole.take(first.len() as int) =~= first);
        assert(whole.skip(first.len() as int + 1) =~= tail);
        assert(strip_cr(first) == first);
        assert(lines(whole) == seq![first] + lines(tail));
    }
}

/// A notebook from which a section was taken is read back from its text as
/// it is, where its lines are plain.
pub proof fn lemma_removal_reads_back_from_text(text: Seq<char>, k: int)
    requires
        0 <= k < parse_text(text).sections.len(),
        plain_lines(parse_text(text).without(k).lines()),
    ensures
        parse_text(parse_text(text).without(k).text()) == parse_text(text).without(k),
{
    let w = parse_text(text).without(k);
    lemma_plain_lines_read_back(w.lines());
    lemma_removal_reads_back(lines(text), k);
}

/// No section of a notebook from which a section was taken bears a name
/// that only that section bore.
pub proof fn lemma_removal_takes_the_name(nb: NotebookView, k: int, key: Seq<char>)
    requires
        0 <= k < nb.sections.len(),
        forall|i: int|
            0 <= i < nb.sections.len() && i != k ==> lowercase((#[trigger] nb.sections[i]).identity)
                != key,
    ensures
        forall|i: int|
            0 <= i < nb.without(k).sections.len() ==> #[trigger] identity_keys(
                nb.without(k).sections,
            )[i] != key,
        nb.without(k).sections.len() == nb.sections.len() - 1,
{
    let w = nb.without(k).sections;
    assert forall|i: int| 0 <= i < w.len() implies #[trigger] identity_keys(w)[i] != key by {
        if k == 0 {
            assert(w[i] == nb.sections[i + 1]);
        } else if i < k - 1 {
            assert(w[i] == nb.sections[i]);
        } else if i == k - 1 {
            assert(w[i].identity == nb.sections[k - 1].identity);
        } else {
            assert(w[i] == nb.sections[i + 1]);
        }
    }
}

/// A notebook in which no section bears a name holds no section of that
/// name, whatever its timestamp.
pub proof fn lemma_absent_name(content: Seq<char>, key: Seq<char>, stamp: Option<Seq<char>>)
    requires
        forall|i: int|
            0 <= i < parse_text(content).sections.len() ==> #[trigger] identity_keys(
                parse_text(content).sections,
            )[i] != key,
    ensures
        !content_holds(content, key, stamp),
        content_deletion(content, Some(key), stamp) is Err,
{
    let nb = parse_text(content);
    lemma_hit_from(identity_keys(nb.sections), nb.sections, Some(key), stamp, 0);
}

/// Of two changes to one section the winner stands alone. Where the local
/// change wins its conflict, the notebook that is written holds the local
/// text on top and the remote side's text of that section no more, and every
/// other section of the notebook that the merge left is kept as it was.
///
/// It holds of a merged notebook in which one section bears the name, the
/// remote side's, and of a local text of whole sections that bears marker and
/// separator. What is left without that section has plain lines.
pub proof fn lemma_winning_change_replaces(
    local: ChangeView,
    remote: ChangeView,
    merged: Seq<char>,
    now: Seq<char>,
    j: int,
)
    requires
        local.old_content is Some,
        local.new_content is Some,
        remote.new_content is Some,
        conflicts(local, remote),
        lowercase(local.word) == lowercase(remote.word),
        resolution(change_instant(local), change_instant(remote)) == Winner::Local,
        is_formatted(local.new_content->0),
        whole_sections(local.new_content->0),
        0 <= j < parse_text(merged).sections.len(),
        lowercase(parse_text(merged).sections[j].identity) == lowercase(local.word),
        remote.new_timestamp matches Some(t) ==> carries(parse_text(merged).sections[j].body, t),
        forall|i: int|
            0 <= i < parse_text(merged).sections.len() && i != j ==> lowercase(
                (#[trigger] parse_text(merged).sections[i]).identity,
            ) != lowercase(local.word),
        plain_lines(parse_text(merged).without(j).lines()),
    ensures
        ({
            let sides = one_each(local, remote);
            let out = steps_applied(merged, sides.steps(), now, sides.steps().len() as int);
            let left = parse_text(merged).without(j);
            let mine = trim(local.new_content->0);
            &&& sides.deferred_from(0).len() == 0
            &&& left.sections.len() == parse_text(merged).sections.len() - 1
            &&& forall|i: int|
                0 <= i < left.sections.len() ==> lowercase((#[trigger] left.sections[i]).identity)
                    != lowercase(local.word)
            &&& if is_blank(left.text()) {
                out == mine
            } else {
                out == mine + newline() + left.text() && joined_of(
                    parse_text(out).sections,
                    parse_text(mine).sections,
                    left.sections,
                )
            }
        }),
{
    let sides = one_each(local, remote);
    let key = lowercase(local.word);
    let nb = parse_text(merged);
    let left = nb.without(j);
    let content = local.new_content->0;
    lemma_one_each(local, remote);
    assert(sides.locals[0] == local);
    assert(sides.remotes[0] == remote);
    assert(sides.local_keys[0] == key);
    assert(sides.remote_keys[0] == key);
    assert(last_with_key(sides.local_keys, key, 1) == Some(0int));
    assert(last_with_key(sides.remote_keys, key, 1) == Some(0int));
    assert(sides.local_instants[0] == change_instant(local));
    assert(sides.remote_instants[0] == change_instant(remote));
    assert(sides.decision(0) == Decision::Override(0));
    let first = StepView::Remove { identity: remote.word, timestamp: remote.new_timestamp };
    let second = StepView::Remove { identity: local.word, timestamp: local.old_timestamp };
    let third = StepView::Insert {
        identity: local.word,
        content,
        timestamp: local.new_timestamp,
    };
    assert(sides.removals_at(0) =~= seq![first, second]);
    assert(sides.insertions_at(0) =~= seq![third]);
    assert(sides.deferred_at(0) =~= Seq::<ConflictView>::empty());
    let steps = sides.steps();
    assert(steps =~= seq![first, second, third]);
    // the remote side's section leaves
    let keys = identity_keys(nb.sections);
    assert(keys[j] == key);
    lemma_hit_from(keys, nb.sections, Some(key), remote.new_timestamp, 0);
    lemma_hit_from(keys, nb.sections, Some(key), remote.new_timestamp, j + 1);
    assert(selects(keys[j], nb.sections[j].body, Some(key), remote.new_timestamp));
    let hit = hit_from(keys, nb.sections, Some(key), remote.new_timestamp, 0);
    assert(hit == Some(j)) by {
        if hit is Some && hit->0 != j {
            assert(keys[hit->0] == lowercase(nb.sections[hit->0].identity));
        }
    }
    assert(hit_from(keys, nb.sections, Some(key), remote.new_timestamp, j + 1) is None) by {
        let more = hit_from(keys, nb.sections, Some(key), remote.new_timestamp, j + 1);
        if more is Some {
            assert(keys[more->0] == lowercase(nb.sections[more->0].identity));
        }
    }
    let one = steps_applied(merged, steps, now, 1);
    assert(steps_applied(merged, steps, now, 0) == merged);
    assert(one == step_applied(merged, first, now));
    assert(content_deletion(merged, Some(key), remote.new_timestamp) == Ok::<
        Seq<char>,
        StoreError,
    >(left.text()));
    assert(one == left.text());
    // nothing else bears the name
    lemma_removal_reads_back_from_text(merged, j);
    lemma_removal_takes_the_name(nb, j, key);
    assert(parse_text(one) == left);
    lemma_absent_name(one, key, local.old_timestamp);
    lemma_absent_name(one, key, local.new_timestamp);
    let two = steps_applied(merged, steps, now, 2);
    assert(two == step_applied(one, second, now));
    assert(two == one);
    let out = steps_applied(merged, steps, now, 3);
    assert(out == step_applied(two, third, now));
    assert(out == prepended(one, content, now));
    assert(entry_text(content, now) == trim(content));
    if !is_blank(one) {
        lemma_notebook_on_top(one, content, now);
    }
    assert forall|i: int| 0 <= i < left.sections.len() implies lowercase(
        (#[trigger] left.sections[i]).identity,
    ) != key by {
        assert(identity_keys(left.sections)[i] == lowercase(left.sections[i].identity));
    }
}

/// The lines of sections in a row are the lines of the first ones and then
/// the lines of the others.
pub proof fn lemma_sections_lines_concat(a: Seq<SectionView>, b: Seq<SectionView>)
    ensures
        sections_lines(a + b) == sections_lines(a) + sections_lines(b),
    decreases a.len(),
{
    if a.len() == 0 {
        assert(a + b =~= b);
        assert(sections_lines(a) =~= Seq::<Seq<char>>::empty());
        assert(sections_lines(a) + sections_lines(b) =~= sections_lines(b));
    } else {
        lemma_sections_lines_concat(a.skip(1), b);
        assert((a + b)[0] == a[0]);
        assert((a + b).skip(1) =~= a.skip(1) + b);
        assert(sections_lines(a + b) =~= sections_lines(a) + sections_lines(b));
    }
}

/// Whether the text holds no carriage return.
pub open spec fn cr_free(s: Seq<char>) -> bool {
    forall|i: int| 0 <= i < s.len() ==> #[trigger] s[i] != '\r'
}

/// Whether no line holds a line feed or a carriage return.
pub open spec fn tame_lines(ls: Seq<Seq<char>>) -> bool {
    forall|i: int| 0 <= i < ls.len() ==> one_line(#[trigger] ls[i]) && cr_free(ls[i])
}

/// The lines of a text without carriage returns hold neither line feeds
/// nor carriage returns, and the last of them is not empty where the text does
/// not end with a line feed.
pub proof fn lemma_lines_are_tame(text: Seq<char>)
    requires
        cr_free(text),
    ensures
        tame_lines(lines(text)),
        text.len() > 0 ==> lines(text).len() > 0,
        text.len() > 0 && text.last() != '\n' ==> lines(text).last().len() > 0,
    decreases text.len(),
{
    if text.len() > 0 {
        lemma_line_end_bounds(text);
        let n = line_end(text);
        if n >= text.len() {
            assert(lines(text) == seq![text]);
            assert forall|i: int| 0 <= i < text.len() implies text[i] != '\n' by {}
        } else {
            let head = text.take(n);
            let rest = text.skip(n + 1);
            assert(cr_free(rest)) by {
                assert forall|i: int| 0 <= i < rest.len() implies #[trigger] rest[i] != '\r' by {
                    assert(rest[i] == text[i + n + 1]);
                }
            }
            lemma_lines_are_tame(rest);
            assert(strip_cr(head) == head) by {
                if head.len() > 0 {
                    assert(head.last() == text[n - 1]);
                }
            }
            assert(one_line(head) && cr_free(head)) by {
                assert forall|i: int| 0 <= i < head.len() implies #[trigger] head[i] != '\n'
                    && head[i] != '\r' by {
                    assert(head[i] == text[i]);
                }
            }
            let all = lines(text);
            assert(all == seq![head] + lines(rest));
            assert forall|i: int| 0 <= i < all.len() implies one_line(#[trigger] all[i])
                && cr_free(all[i]) by {
                if i > 0 {
                    assert(all[i] == lines(rest)[i - 1]);
                }
            }
            if text.last() != '\n' {
                assert(rest.len() > 0) by {
                    if n + 1 == text.len() {
                        assert(text.last() == text[n]);
                    }
                }
                assert(rest.last() == text.last());
                assert(all.last() == lines(rest).last());
            }
        }
    }
}

/// The lines of a notebook from which a section was taken are the lines
/// of the notebook without those of the heading and the body of that section.
pub proof fn lemma_removal_cuts_lines(nb: NotebookView, k: int)
    requires
        0 <= k < nb.sections.len(),
    ensures
        ({
            let before = nb.preamble + sections_lines(nb.sections.take(k));
            let gone = seq![heading_marker() + nb.sections[k].heading] + nb.sections[k].body;
            let behind = nb.sections[k].trailer + sections_lines(nb.sections.skip(k + 1));
            &&& nb.lines() == before + gone + behind
            &&& nb.without(k).lines() == before + behind
        }),
{
    let ss = nb.sections;
    let head = ss.take(k);
    let rest = ss.skip(k + 1);
    let before = nb.preamble + sections_lines(head);
    let gone = seq![heading_marker() + ss[k].heading] + ss[k].body;
    let behind = ss[k].trailer + sections_lines(rest);
    assert(ss =~= head + (seq![ss[k]] + rest));
    lemma_sections_lines_concat(head, seq![ss[k]] + rest);
    assert((seq![ss[k]] + rest)[0] == ss[k]);
    assert((seq![ss[k]] + rest).skip(1) =~= rest);
    assert(sections_lines(seq![ss[k]] + rest) == ss[k].lines() + sections_lines(rest));
    assert(nb.lines() =~= before + gone + behind);
    if k == 0 {
        assert(head =~= Seq::<SectionView>::empty());
        assert(sections_lines(head) =~= Seq::<Seq<char>>::empty());
        assert(nb.without(k).lines() =~= before + behind);
    } else {
        let prev = ss[k - 1];
        let kept = SectionView { trailer: prev.trailer + ss[k].trailer, ..prev };
        let front = ss.take(k - 1);
        assert(head =~= front.push(prev));
        crate::notebook::lemma_sections_lines_push(front, prev);
        crate::notebook::lemma_sections_lines_push(front, kept);
        lemma_sections_lines_concat(front.push(kept), rest);
        assert(kept.lines() =~= prev.lines() + ss[k].trailer);
        assert(nb.without(k).lines() =~= before + behind);
    }
}

/// What is left of a notebook without carriage returns, and without a line
/// feed at its end, has plain lines when a section was taken from it that is
/// not the end of the notebook: another section follows it, or lines of its
/// trailer do.
pub proof fn lemma_removal_leaves_plain_lines(text: Seq<char>, k: int)
    requires
        cr_free(text),
        text.len() > 0 ==> text.last() != '\n',
        0 <= k < parse_text(text).sections.len(),
        k + 1 < parse_text(text).sections.len() || parse_text(text).sections[k].trailer.len() > 0,
    ensures
        plain_lines(parse_text(text).without(k).lines()),
{
    let nb = parse_text(text);
    let all = lines(text);
    lemma_lines_are_tame(text);
    crate::notebook::lemma_parse_keeps_lines(all);
    lemma_removal_cuts_lines(nb, k);
    let before = nb.preamble + sections_lines(nb.sections.take(k));
    let gone = seq![heading_marker() + nb.sections[k].heading] + nb.sections[k].body;
    let behind = nb.sections[k].trailer + sections_lines(nb.sections.skip(k + 1));
    let left = before + behind;
    assert(behind.len() > 0) by {
        if nb.sections[k].trailer.len() == 0 {
            let rest = nb.sections.skip(k + 1);
            assert(rest.len() > 0);
            assert(rest[0].lines().len() > 0);
            assert(sections_lines(rest) == rest[0].lines() + sections_lines(rest.skip(1)));
        }
    }
    assert(all.len() > 0);
    assert(text.len() > 0) by {
        if text.len() == 0 {
            assert(lines(text).len() == 0);
        }
    }
    assert forall|i: int| 0 <= i < left.len() implies one_line(#[trigger] left[i]) && (left[i].len()
        > 0 ==> left[i].last() != '\r') by {
        if i < before.len() {
            assert(left[i] == all[i]);
        } else {
            assert(left[i] == all[i + gone.len()]);
        }
    }
    assert(left.last() == all.last());
}

/// Of two changes to one section the winner stands alone: where the local
/// change wins and its text is one section of that name, the notebook that is
/// written holds exactly one section of that name, the first, and its body is
/// the local one.
pub proof fn lemma_winner_stands_alone(
    local: ChangeView,
    remote: ChangeView,
    merged: Seq<char>,
    now: Seq<char>,
    j: int,
)
    requires
        local.old_content is Some,
        local.new_content is Some,
        remote.new_content is Some,
        conflicts(local, remote),
        lowercase(local.word) == lowercase(remote.word),
        resolution(change_instant(local), change_instant(remote)) == Winner::Local,
        is_formatted(local.new_content->0),
        whole_sections(local.new_content->0),
        parse_text(trim(local.new_content->0)).sections.len() == 1,
        lowercase(parse_text(trim(local.new_content->0)).sections[0].identity) == lowercase(
            local.word,
        ),
        0 <= j < parse_text(merged).sections.len(),
        lowercase(parse_text(merged).sections[j].identity) == lowercase(local.word),
        remote.new_timestamp matches Some(t) ==> carries(parse_text(merged).sections[j].body, t),
        forall|i: int|
            0 <= i < parse_text(merged).sections.len() && i != j ==> lowercase(
                (#[trigger] parse_text(merged).sections[i]).identity,
            ) != lowercase(local.word),
        plain_lines(parse_text(merged).without(j).lines()),
    ensures
        ({
            let sides = one_each(local, remote);
            let out = steps_applied(merged, sides.steps(), now, sides.steps().len() as int);
            let all = parse_text(out).sections;
            let mine = parse_text(trim(local.new_content->0)).sections[0];
            &&& all.len() == parse_text(merged).sections.len()
            &&& all[0].body == mine.body
            &&& all[0].identity == mine.identity
            &&& forall|i: int|
                0 <= i < all.len() ==> (lowercase((#[trigger] all[i]).identity) == lowercase(
                    local.word,
                ) <==> i == 0)
        }),
{
    lemma_winning_change_replaces(local, remote, merged, now, j);
    let sides = one_each(local, remote);
    let out = steps_applied(merged, sides.steps(), now, sides.steps().len() as int);
    let all = parse_text(out).sections;
    let left = parse_text(merged).without(j);
    let mine = parse_text(trim(local.new_content->0)).sections;
    if is_blank(left.text()) {
        // what is left holds no section: else its text would hold a heading
        lemma_removal_reads_back_from_text(merged, j);
        lemma_blank_has_no_sections(left.text());
        assert(left.sections.len() == 0);
    } else {
        assert forall|i: int| 0 <= i < all.len() implies (lowercase((#[trigger] all[i]).identity)
            == lowercase(local.word) <==> i == 0) by {
            if i > 0 {
                assert(all[mine.len() + (i - 1)] == left.sections[i - 1]);
            }
        }
    }
}

/// A line that opens a section holds a character that is no white space.
pub proof fn lemma_heading_is_solid(line: Seq<char>)
    requires
        is_heading(line),
    ensures
        line.len() > 0,
        !is_whitespace(line[0]),
{
    lemma_marker_lengths();
    reveal_strlit("## ");
    assert(line.take(3)[0] == '#');
}

/// The characters of the first line of a text are those at the start of
/// the text, and the characters of its other lines are those of the rest.
pub proof fn lemma_line_chars(text: Seq<char>, i: int, c: int)
    requires
        0 <= i < lines(text).len(),
        0 <= c < lines(text)[i].len(),
    ensures
        exists|at: int| 0 <= at < text.len() && #[trigger] text[at] == lines(text)[i][c],
    decreases text.len(),
{
    lemma_line_end_bounds(text);
    let n = line_end(text);
    if n >= text.len() {
        assert(lines(text) == seq![text]);
        assert(text[c] == lines(text)[i][c]);
    } else {
        let head = text.take(n);
        let rest = text.skip(n + 1);
        assert(lines(text) == seq![strip_cr(head)] + lines(rest));
        if i == 0 {
            assert(text[c] == strip_cr(head)[c]);
        } else {
            assert(lines(text)[i] == lines(rest)[i - 1]);
            lemma_line_chars(rest, i - 1, c);
            let at = choose|at: int| 0 <= at < rest.len() && #[trigger] rest[at] == lines(rest)[i
                - 1][c];
            assert(text[at + n + 1] == rest[at]);
        }
    }
}

/// A text of white space alone holds no section.
pub proof fn lemma_blank_has_no_sections(text: Seq<char>)
    requires
        is_blank(text),
    ensures
        parse_text(text).sections.len() == 0,
{
    let ls = lines(text);
    assert forall|i: int| 0 <= i < ls.len() implies !is_heading(#[trigger] ls[i]) by {
        if is_heading(ls[i]) {
            lemma_heading_is_solid(ls[i]);
            lemma_line_chars(text, i, 0);
            let at = choose|at: int| 0 <= at < text.len() && #[trigger] text[at] == ls[i][0];
            crate::roundtrip::lemma_solid_is_not_blank(text, at);
        }
    }
    lemma_gap_len(ls, ls.len() as int);
    assert(ls.skip(ls.len() as int).len() == 0);
}

} // verus!
