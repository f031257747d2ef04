//! What holds of the notebook of both sides: a notebook that is put on top
//! of another keeps every section of both, its own before those of the other.

use crate::change::{ChangeType, ChangeView};
use crate::conflict::{conflicts, last_with_key, ConflictView};
use crate::format::{is_heading, is_separator, lemma_marker_lengths};
use crate::lines::{lines, newline};
use crate::merge::{content_holds, step_applied, steps_applied, Decision, Sides, StepView};
use crate::notebook::{
    body_len, gap_len, lemma_gap_len_bounds, parse_sections, parse_text, section_of, SectionView,
};
use crate::roundtrip::{ends_solid, lemma_lines_concat, lemma_trim_end_last, lines_before_feed};
use crate::store::{entry_text, is_formatted, prepended};
use crate::text::{is_blank, lowercase, trim, trim_start};
use vstd::prelude::*;

verus! {

/// The sections with `extra` behind the trailer of the last.
pub open spec fn with_trailer(sections: Seq<SectionView>, extra: Seq<Seq<char>>) -> Seq<SectionView> {
    if sections.len() == 0 {
        sections
    } else {
        sections.drop_last().push(
            SectionView { trailer: sections.last().trailer + extra, ..sections.last() },
        )
    }
}

/// A line that opens a section does not close one.
pub proof fn lemma_heading_is_no_separator(line: Seq<char>)
    requires
        is_heading(line),
    ensures
        !is_separator(line),
{
    lemma_marker_lengths();
    reveal_strlit("## ");
    reveal_strlit("---");
    assert(line.take(3)[0] == '#');
    assert(line[0] == '#');
    assert(crate::text::leading_space(line) == 0);
    assert(trim_start(line) =~= line);
    crate::text::lemma_trailing_space_bound(line);
    if is_separator(line) {
        assert(trim(line)[0] == line[0]);
    }
}

/// Where the body ends among lines that hold a separator does not depend
/// on what follows them.
pub proof fn lemma_body_len_concat(x: Seq<Seq<char>>, y: Seq<Seq<char>>)
    requires
        exists|k: int| 0 <= k < x.len() && is_separator(#[trigger] x[k]),
    ensures
        body_len(x + y) == body_len(x),
        1 <= body_len(x) <= x.len(),
    decreases x.len(),
{
    let k = choose|k: int| 0 <= k < x.len() && is_separator(#[trigger] x[k]);
    assert((x + y)[0] == x[0]);
    if !is_separator(x[0]) {
        assert(is_separator(x.skip(1)[k - 1]));
        lemma_body_len_concat(x.skip(1), y);
        assert((x + y).skip(1) =~= x.skip(1) + y);
    }
}

/// Where the gap ends among two runs of lines.
pub proof fn lemma_gap_len_concat(x: Seq<Seq<char>>, y: Seq<Seq<char>>)
    ensures
        gap_len(x + y) == if gap_len(x) < x.len() {
            gap_len(x)
        } else {
            x.len() + gap_len(y)
        },
    decreases x.len(),
{
    lemma_gap_len_bounds(x);
    if x.len() == 0 {
        assert(x + y =~= y);
    } else {
        assert((x + y)[0] == x[0]);
        if !is_heading(x[0]) {
            lemma_gap_len_concat(x.skip(1), y);
            assert((x + y).skip(1) =~= x.skip(1) + y);
        }
    }
}

/// The sections of two runs of lines in a row, where the first run opens
/// with a heading and ends with a separator: the sections of the first run,
/// then those of the second. What stands before the first section of the
/// second run becomes the trailer of the last section of the first.
pub proof fn lemma_sections_concat(a: Seq<Seq<char>>, b: Seq<Seq<char>>)
    requires
        a.len() > 0,
        is_heading(a[0]),
        is_separator(a.last()),
    ensures
        parse_sections(a).len() > 0,
        parse_sections(a + b) == with_trailer(parse_sections(a), b.take(gap_len(b)))
            + parse_sections(b.skip(gap_len(b))),
    decreases a.len(),
{
    lemma_heading_is_no_separator(a[0]);
    let rest = a.skip(1);
    assert(rest.len() > 0);
    assert(rest.last() == a.last());
    assert(is_separator(rest[rest.len() - 1]));
    lemma_body_len_concat(rest, b);
    let n = body_len(rest);
    let after_a = rest.skip(n);
    lemma_gap_len_concat(after_a, b);
    lemma_gap_len_bounds(after_a);
    lemma_gap_len_bounds(b);
    let g_a = gap_len(after_a);
    let whole = a + b;
    assert(whole[0] == a[0]);
    assert(whole.skip(1) =~= rest + b);
    assert((rest + b).take(n) =~= rest.take(n));
    assert((rest + b).skip(n) =~= after_a + b);
    let gb = gap_len(b);
    if g_a < after_a.len() {
        let tail = after_a.skip(g_a);
        assert(tail[0] == after_a[g_a]);
        assert(tail.last() == a.last());
        lemma_sections_concat(tail, b);
        assert((after_a + b).take(g_a) =~= after_a.take(g_a));
        assert((after_a + b).skip(g_a) =~= tail + b);
        let first = section_of(a[0], rest.take(n), after_a.take(g_a));
        assert(parse_sections(a) == seq![first] + parse_sections(tail));
        assert(parse_sections(whole) == seq![first] + parse_sections(tail + b));
        let x = parse_sections(tail);
        assert(with_trailer(seq![first] + x, b.take(gb)) =~= seq![first] + with_trailer(
            x,
            b.take(gb),
        )) by {
            assert((seq![first] + x).drop_last() =~= seq![first] + x.drop_last());
            assert((seq![first] + x).last() == x.last());
        }
        assert(parse_sections(whole) =~= with_trailer(parse_sections(a), b.take(gb))
            + parse_sections(b.skip(gb)));
    } else {
        assert((after_a + b).take(after_a.len() + gb) =~= after_a + b.take(gb));
        assert((after_a + b).skip(after_a.len() + gb) =~= b.skip(gb));
        assert(after_a.take(g_a) =~= after_a);
        assert(after_a.skip(g_a).len() == 0);
        let first = section_of(a[0], rest.take(n), after_a);
        let first_ab = section_of(a[0], rest.take(n), after_a + b.take(gb));
        assert(parse_sections(after_a.skip(g_a)) =~= Seq::<SectionView>::empty());
        assert(parse_sections(a) =~= seq![first]);
        assert(parse_sections(whole) == seq![first_ab] + parse_sections(b.skip(gb)));
        assert(with_trailer(seq![first], b.take(gb)) =~= seq![first_ab]) by {
            assert(seq![first].drop_last() =~= Seq::<SectionView>::empty());
        }
    }
}

/// Whether a text is a run of whole sections: it opens with a heading,
/// white space before it apart, and ends with a separator, white space behind
/// it apart.
pub open spec fn whole_sections(content: Seq<char>) -> bool {
    let ls = lines(trim(content));
    ls.len() > 0 && is_heading(ls[0]) && is_separator(ls.last())
}

/// Whether the sections `all` are the sections `mine` and then the sections
/// `theirs`, each with its name, its heading, its body and its timestamp
/// unchanged, none lost and none twice.
pub open spec fn joined_of(
    all: Seq<SectionView>,
    mine: Seq<SectionView>,
    theirs: Seq<SectionView>,
) -> bool {
    &&& all.len() == mine.len() + theirs.len()
    &&& forall|i: int|
        0 <= i < mine.len() ==> {
            &&& (#[trigger] all[i]).identity == mine[i].identity
            &&& all[i].heading == mine[i].heading
            &&& all[i].body == mine[i].body
            &&& all[i].timestamp == mine[i].timestamp
        }
    &&& forall|j: int| 0 <= j < theirs.len() ==> #[trigger] all[mine.len() + j] == theirs[j]
}

/// A notebook of whole sections that is put on top of another notebook
/// keeps every section of both: the result holds the sections of the one that
/// was put on top, in their order, and behind them the sections of the other,
/// in theirs. It holds of an entry that bears marker and separator already, so
/// that it is stored as it stands, on top of a notebook that is not blank.
pub proof fn lemma_notebook_on_top(existing: Seq<char>, content: Seq<char>, now: Seq<char>)
    requires
        is_formatted(content),
        whole_sections(content),
        !is_blank(existing),
    ensures
        prepended(existing, content, now) == trim(content) + newline() + existing,
        parse_text(prepended(existing, content, now)).preamble.len() == 0,
        parse_text(prepended(existing, content, now)).sections == with_trailer(
            parse_text(trim(content)).sections,
            parse_text(existing).preamble,
        ) + parse_text(existing).sections,
        joined_of(
            parse_text(prepended(existing, content, now)).sections,
            parse_text(trim(content)).sections,
            parse_text(existing).sections,
        ),
{
    let entry = trim(content);
    let a = lines(entry);
    let b = lines(existing);
    assert(entry.len() > 0);
    lemma_trim_end_last(trim_start(content));
    assert(ends_solid(entry));
    lemma_lines_concat(entry, existing);
    assert(lines_before_feed(entry) == a);
    let out = prepended(existing, content, now);
    assert(entry_text(content, now) == entry);
    assert(lines(out) == a + b);
    assert((a + b)[0] == a[0]);
    assert(gap_len(a + b) == 0);
    assert(gap_len(a) == 0);
    assert((a + b).skip(0) =~= a + b);
    assert(a.skip(0) =~= a);
    assert((a + b).take(0) =~= Seq::<Seq<char>>::empty());
    lemma_sections_concat(a, b);
    let mine = parse_text(entry).sections;
    let theirs = parse_text(existing).sections;
    let all = parse_text(out).sections;
    assert(mine == parse_sections(a));
    assert(all == with_trailer(mine, b.take(gap_len(b))) + theirs);
    assert forall|i: int| 0 <= i < mine.len() implies {
        &&& (#[trigger] all[i]).identity == mine[i].identity
        &&& all[i].heading == mine[i].heading
        &&& all[i].body == mine[i].body
        &&& all[i].timestamp == mine[i].timestamp
    } by {
        assert(all[i] == with_trailer(mine, b.take(gap_len(b)))[i]);
    }
    assert forall|j: int| 0 <= j < theirs.len() implies #[trigger] all[mine.len() + j]
        == theirs[j] by {
        assert(with_trailer(mine, b.take(gap_len(b))).len() == mine.len());
    }
}

/// In a first synchronisation the notebook that is written holds every
/// section of both sides, the local sections before the remote ones: the
/// machine writes the local notebook on top of what the merge left. It holds
/// of a local notebook of whole sections and of a merged notebook that is not
/// blank.
pub proof fn lemma_first_time_keeps_both(s: crate::sync::StateView, merged: Seq<char>)
    requires
        s.phase == crate::sync::Phase::ReadingUnrelated,
        is_formatted(s.local_content),
        whole_sections(s.local_content),
        !is_blank(merged),
    ensures
        ({
            let t = s.step(crate::sync::EventView { ok: true, text: merged });
            let written = prepended(merged, s.local_content, s.now);
            &&& t.action == crate::sync::ActionView::WriteNotebook(written)
            &&& joined_of(
                parse_text(written).sections,
                parse_text(trim(s.local_content)).sections,
                parse_text(merged).sections,
            )
        }),
{
    lemma_notebook_on_top(merged, s.local_content, s.now);
}

/// The two sides with one change each.
pub open spec fn one_each(local: ChangeView, remote: ChangeView) -> Sides {
    Sides::of(seq![local], seq![remote])
}

/// What becomes of the one local change where each side has one change:
/// it is carried out unless the two changes speak of the same section and are
/// in conflict.
pub proof fn lemma_one_each(local: ChangeView, remote: ChangeView)
    ensures
        lowercase(local.word) != lowercase(remote.word) || !conflicts(local, remote) ==> one_each(
            local,
            remote,
        ).decision(0) == Decision::Apply,
        one_each(local, remote).steps() == one_each(local, remote).removals_at(0) + one_each(
            local,
            remote,
        ).insertions_at(0),
        one_each(local, remote).deferred_from(0) == one_each(local, remote).deferred_at(0),
{
    let sides = one_each(local, remote);
    assert(sides.local_keys[0] == lowercase(local.word));
    assert(sides.remote_keys[0] == lowercase(remote.word));
    assert(last_with_key(sides.local_keys, sides.local_keys[0], 1) == Some(0int));
    assert(last_with_key(sides.remote_keys, sides.local_keys[0], 0) is None);
    assert(sides.removals_from(1) =~= Seq::<StepView>::empty());
    assert(sides.insertions_from(1) =~= Seq::<StepView>::empty());
    assert(sides.deferred_from(1) =~= Seq::<ConflictView>::empty());
    assert(sides.removals_from(0) =~= sides.removals_at(0));
    assert(sides.insertions_from(0) =~= sides.insertions_at(0));
    assert(sides.deferred_from(0) =~= sides.deferred_at(0));
}

/// A section that is put on top unless the notebook holds it already
/// takes no section away: the notebook stays as it is where it holds the
/// section, and else holds the sections of the entry and then every section
/// that it held before. It holds of an entry of whole sections that bears
/// marker and separator, and of a notebook that is not blank.
pub proof fn lemma_insertion_keeps_all(
    notebook: Seq<char>,
    identity: Seq<char>,
    content: Seq<char>,
    timestamp: Option<Seq<char>>,
    now: Seq<char>,
)
    requires
        is_formatted(content),
        whole_sections(content),
        !is_blank(notebook),
    ensures
        ({
            let out = step_applied(notebook, StepView::Insert { identity, content, timestamp }, now);
            if content_holds(notebook, lowercase(identity), timestamp) {
                out == notebook
            } else {
                joined_of(
                    parse_text(out).sections,
                    parse_text(trim(content)).sections,
                    parse_text(notebook).sections,
                )
            }
        }),
{
    lemma_notebook_on_top(notebook, content, now);
}

/// Additions on both sides to different sections are both kept. Where the
/// local side added one section and the remote side another, no conflict is
/// left open, and the notebook that is written holds the local section and
/// every section of the notebook that the merge left, which holds what the
/// remote side added. The local section is put on top unless the merge
/// brought it already.
pub proof fn lemma_apart_additions_are_both_kept(
    local: ChangeView,
    remote: ChangeView,
    merged: Seq<char>,
    now: Seq<char>,
)
    requires
        local.change_type == ChangeType::Added,
        local.wf(),
        lowercase(local.word) != lowercase(remote.word),
        is_formatted(local.new_content->0),
        whole_sections(local.new_content->0),
        !is_blank(merged),
    ensures
        ({
            let sides = one_each(local, remote);
            let out = steps_applied(merged, sides.steps(), now, sides.steps().len() as int);
            &&& sides.deferred_from(0).len() == 0
            &&& if content_holds(merged, lowercase(local.word), local.new_timestamp) {
                out == merged
            } else {
                joined_of(
                    parse_text(out).sections,
                    parse_text(trim(local.new_content->0)).sections,
                    parse_text(merged).sections,
                )
            }
        }),
{
    let sides = one_each(local, remote);
    lemma_one_each(local, remote);
    let step = StepView::Insert {
        identity: local.word,
        content: local.new_content->0,
        timestamp: local.new_timestamp,
    };
    assert(sides.locals[0] == local);
    assert(sides.removals_at(0) =~= Seq::<StepView>::empty());
    assert(sides.insertions_at(0) =~= seq![step]);
    assert(sides.steps() =~= seq![step]);
    assert(steps_applied(merged, sides.steps(), now, 0) == merged);
    assert(steps_applied(merged, sides.steps(), now, 1) == step_applied(merged, step, now));
    lemma_insertion_keeps_all(merged, local.word, local.new_content->0, local.new_timestamp, now);
}

/// Deletions of one section on both sides are no conflict, and they leave
/// alone a notebook in which the section is gone already: no conflict is left
/// open, and the notebook that is written is the one that the merge left,
/// with every other section as it was.
pub proof fn lemma_deletions_on_both_sides(
    local: ChangeView,
    remote: ChangeView,
    merged: Seq<char>,
    now: Seq<char>,
)
    requires
        local.change_type == ChangeType::Deleted,
        remote.change_type == ChangeType::Deleted,
        local.wf(),
        !content_holds(merged, lowercase(local.word), local.old_timestamp),
    ensures
        ({
            let sides = one_each(local, remote);
            &&& !conflicts(local, remote)
            &&& sides.deferred_from(0).len() == 0
            &&& steps_applied(merged, sides.steps(), now, sides.steps().len() as int) == merged
        }),
{
    let sides = one_each(local, remote);
    lemma_one_each(local, remote);
    let step = StepView::Remove { identity: local.word, timestamp: local.old_timestamp };
    assert(sides.locals[0] == local);
    assert(sides.removals_at(0) =~= seq![step]);
    assert(sides.insertions_at(0) =~= Seq::<StepView>::empty());
    assert(sides.steps() =~= seq![step]);
    assert(steps_applied(merged, sides.steps(), now, 0) == merged);
    assert(steps_applied(merged, sides.steps(), now, 1) == step_applied(merged, step, now));
}

} // verus!
