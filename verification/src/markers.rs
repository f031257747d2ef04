//! The regions that a merge leaves open in a file: between a line of `<`
//! and a line of `=` stands what the local side has, between that and a line
//! of `>` what the remote side has. A region is settled by keeping one of the
//! two.

use crate::conflict::{conflict_views, resolve, winner_of, ConflictView, SectionConflict, Winner};
use crate::format::{heading_text, is_heading, lemma_marker_lengths, line_is_heading};
use crate::lines::{join, join_parts, lines, newline, split_lines};
use crate::notebook::text_of;
use crate::pairing::same_text;
use crate::text::{
    from_chars, has_prefix, lowercase, slice_of, starts_with, string_views, to_chars, trim, trimmed,
    views,
};
use crate::three_way::{first_with, key_views};
use vstd::prelude::*;

verus! {

/// Why the regions of a file cannot be settled.
#[derive(Debug, Clone, Copy, PartialEq, Eq, Structural)]
pub enum MarkerError {
    /// A region opens inside a region.
    Nested,
    /// A region ends that did not open, or that has no remote part.
    Stray,
    /// The file ends inside a region.
    Unclosed,
}

/// Where a scan stands.
#[derive(Debug, Clone, Copy, PartialEq, Eq, Structural)]
pub enum Place {
    Outside,
    Ours,
    Theirs,
}

/// Whether the line opens a region.
pub open spec fn opens(line: Seq<char>) -> bool {
    starts_with(line, "<<<<<<<"@)
}

/// Whether the line parts the two sides of a region.
pub open spec fn divides(line: Seq<char>) -> bool {
    starts_with(line, "======="@)
}

/// Whether the line closes a region.
pub open spec fn closes(line: Seq<char>) -> bool {
    starts_with(line, ">>>>>>>"@)
}

/// Whether region `k` keeps the local side: as `picks` tells, and the
/// remote side where it tells nothing.
pub open spec fn keeps_ours(picks: Seq<bool>, k: int) -> bool {
    0 <= k < picks.len() && picks[k]
}

/// The lines from line `i` on with every region settled, behind the lines
/// `out` that are settled already. Outside a region a line of `=` is a line
/// like any other.
pub open spec fn settled_from(
    ls: Seq<Seq<char>>,
    i: int,
    picks: Seq<bool>,
    k: int,
    place: Place,
    ours: Seq<Seq<char>>,
    theirs: Seq<Seq<char>>,
    out: Seq<Seq<char>>,
) -> Result<Seq<Seq<char>>, MarkerError>
    decreases ls.len() - i,
{
    if i < 0 || i >= ls.len() {
        if place == Place::Outside {
            Ok(out)
        } else {
            Err(MarkerError::Unclosed)
        }
    } else {
        let l = ls[i];
        match place {
            Place::Outside => if opens(l) {
                settled_from(ls, i + 1, picks, k, Place::Ours, Seq::empty(), Seq::empty(), out)
            } else if closes(l) {
                Err(MarkerError::Stray)
            } else {
                settled_from(ls, i + 1, picks, k, place, ours, theirs, out.push(l))
            },
            Place::Ours => if opens(l) {
                Err(MarkerError::Nested)
            } else if divides(l) {
                settled_from(ls, i + 1, picks, k, Place::Theirs, ours, Seq::empty(), out)
            } else if closes(l) {
                Err(MarkerError::Stray)
            } else {
                settled_from(ls, i + 1, picks, k, place, ours.push(l), theirs, out)
            },
            Place::Theirs => if opens(l) {
                Err(MarkerError::Nested)
            } else if closes(l) {
                settled_from(
                    ls,
                    i + 1,
                    picks,
                    k + 1,
                    Place::Outside,
                    Seq::empty(),
                    Seq::empty(),
                    out + if keeps_ours(picks, k) {
                        ours
                    } else {
                        theirs
                    },
                )
            } else {
                settled_from(ls, i + 1, picks, k, place, ours, theirs.push(l), out)
            },
        }
    }
}

/// The text with every region settled as `picks` tells.
pub open spec fn settled(text: Seq<char>, picks: Seq<bool>) -> Result<Seq<char>, MarkerError> {
    match settled_from(
        lines(text),
        0,
        picks,
        0,
        Place::Outside,
        Seq::empty(),
        Seq::empty(),
        Seq::empty(),
    ) {
        Ok(ls) => Ok(join(ls, newline())),
        Err(e) => Err(e),
    }
}

/// The name of the first section that opens among the lines.
pub open spec fn first_identity(ls: Seq<Seq<char>>) -> Option<Seq<char>>
    decreases ls.len(),
{
    if ls.len() == 0 {
        None
    } else if is_heading(ls[0]) {
        Some(trim(heading_text(ls[0])))
    } else {
        first_identity(ls.skip(1))
    }
}

/// The section that a region is about: the first that opens in its local
/// part, else the first that opens in its remote part.
pub open spec fn region_identity(ours: Seq<Seq<char>>, theirs: Seq<Seq<char>>) -> Option<Seq<char>> {
    match first_identity(ours) {
        Some(w) => Some(w),
        None => first_identity(theirs),
    }
}

/// The sections that the regions from line `i` on are about, behind those
/// of the regions before.
pub open spec fn regions_from(
    ls: Seq<Seq<char>>,
    i: int,
    place: Place,
    ours: Seq<Seq<char>>,
    theirs: Seq<Seq<char>>,
    found: Seq<Option<Seq<char>>>,
) -> Result<Seq<Option<Seq<char>>>, MarkerError>
    decreases ls.len() - i,
{
    if i < 0 || i >= ls.len() {
        if place == Place::Outside {
            Ok(found)
        } else {
            Err(MarkerError::Unclosed)
        }
    } else {
        let l = ls[i];
        match place {
            Place::Outside => if opens(l) {
                regions_from(ls, i + 1, Place::Ours, Seq::empty(), Seq::empty(), found)
            } else if closes(l) {
                Err(MarkerError::Stray)
            } else {
                regions_from(ls, i + 1, place, ours, theirs, found)
            },
            Place::Ours => if opens(l) {
                Err(MarkerError::Nested)
            } else if divides(l) {
                regions_from(ls, i + 1, Place::Theirs, ours, Seq::empty(), found)
            } else if closes(l) {
                Err(MarkerError::Stray)
            } else {
                regions_from(ls, i + 1, place, ours.push(l), theirs, found)
            },
            Place::Theirs => if opens(l) {
                Err(MarkerError::Nested)
            } else if closes(l) {
                regions_from(
                    ls,
                    i + 1,
                    Place::Outside,
                    Seq::empty(),
                    Seq::empty(),
                    found.push(region_identity(ours, theirs)),
                )
            } else {
                regions_from(ls, i + 1, place, ours, theirs.push(l), found)
            },
        }
    }
}

/// The sections that the regions of a text are about, region by region.
pub open spec fn regions_of(text: Seq<char>) -> Result<Seq<Option<Seq<char>>>, MarkerError> {
    regions_from(lines(text), 0, Place::Outside, Seq::empty(), Seq::empty(), Seq::empty())
}

/// Whether a region about the section with the given key keeps the local
/// side: where the first conflict about that section goes to the local side.
pub open spec fn local_wins(key: Option<Seq<char>>, conflict_keys: Seq<Seq<char>>, winners: Seq<Winner>) -> bool {
    match key {
        Some(k) => match first_with(conflict_keys.map_values(|c: Seq<char>| Some(c)), k, 0) {
            Some(j) => 0 <= j < winners.len() && winners[j] == Winner::Local,
            None => false,
        },
        None => false,
    }
}

/// Which regions keep the local side, from the keys of their sections.
pub open spec fn picks_of(
    region_keys: Seq<Option<Seq<char>>>,
    conflict_keys: Seq<Seq<char>>,
    winners: Seq<Winner>,
) -> Seq<bool> {
    Seq::new(region_keys.len(), |i: int| local_wins(region_keys[i], conflict_keys, winners))
}

/// The key of a section that a region is about.
pub open spec fn key_of(word: Option<Seq<char>>) -> Option<Seq<char>> {
    match word {
        Some(w) => Some(lowercase(w)),
        None => None,
    }
}

/// The text with its regions settled by the conflicts: a region about a
/// section whose conflict the local side wins keeps the local side, and every
/// other region the remote side.
pub open spec fn settled_by(text: Seq<char>, conflicts: Seq<ConflictView>) -> Result<
    Seq<char>,
    MarkerError,
> {
    match regions_of(text) {
        Ok(words) => settled(
            text,
            picks_of(
                Seq::new(words.len(), |i: int| key_of(words[i])),
                Seq::new(conflicts.len(), |i: int| lowercase(conflicts[i].local.word)),
                Seq::new(conflicts.len(), |i: int| winner_of(conflicts[i])),
            ),
        ),
        Err(e) => Err(e),
    }
}

/// The view of a settled text.
pub open spec fn settled_view(r: Result<String, MarkerError>) -> Result<Seq<char>, MarkerError> {
    match r {
        Ok(s) => Ok(s@),
        Err(e) => Err(e),
    }
}

/// The view of the sections of regions.
pub open spec fn regions_view(r: Result<Vec<Option<String>>, MarkerError>) -> Result<
    Seq<Option<Seq<char>>>,
    MarkerError,
> {
    match r {
        Ok(v) => Ok(key_views(v@)),
        Err(e) => Err(e),
    }
}

fn begins(line: &Vec<char>, literal: &str) -> (r: bool)
    ensures
        r == starts_with(line@, literal@),
{
    let p = to_chars(literal);
    has_prefix(line, &p)
}

/// Appends copies of the lines of `tail` to `out`.
fn push_copies(out: &mut Vec<Vec<char>>, tail: &Vec<Vec<char>>)
    ensures
        views(final(out)@) == views(old(out)@) + views(tail@),
{
    let mut i: usize = 0;
    assert(views(out@) =~= views(old(out)@) + views(tail@).take(0));
    while i < tail.len()
        invariant
            i <= tail.len(),
            views(out@) == views(old(out)@) + views(tail@).take(i as int),
        decreases tail.len() - i,
    {
        let ghost before = views(out@);
        let n: usize = tail[i].len();
        let line = slice_of(&tail[i], 0, n);
        assert(line@ =~= tail@[i as int]@);
        out.push(line);
        assert(views(out@) =~= before.push(tail@[i as int]@));
        assert(views(tail@).take(i + 1) =~= views(tail@).take(i as int).push(tail@[i as int]@));
        assert(views(out@) =~= views(old(out)@) + views(tail@).take(i + 1));
        i += 1;
    }
    assert(views(tail@).take(tail.len() as int) =~= views(tail@));
}

/// Settles every region of a text as `picks` tells: region `k` keeps the
/// local side where `picks[k]` says so, else the remote side.
pub fn resolve_markers_with(text: &str, picks: &Vec<bool>) -> (r: Result<String, MarkerError>)
    ensures
        settled_view(r) == settled(text@, picks@),
{
    let chars = to_chars(text);
    let ls = split_lines(&chars);
    let ghost all = views(ls@);
    let ghost whole = settled_from(
        all,
        0,
        picks@,
        0,
        Place::Outside,
        Seq::empty(),
        Seq::empty(),
        Seq::empty(),
    );
    let mut out: Vec<Vec<char>> = Vec::new();
    let mut ours: Vec<Vec<char>> = Vec::new();
    let mut theirs: Vec<Vec<char>> = Vec::new();
    let mut place = Place::Outside;
    let mut k: usize = 0;
    let mut i: usize = 0;
    assert(views(out@) =~= Seq::<Seq<char>>::empty());
    assert(views(ours@) =~= Seq::<Seq<char>>::empty());
    assert(views(theirs@) =~= Seq::<Seq<char>>::empty());
    while i < ls.len()
        invariant
            i <= ls.len(),
            k <= i,
            all == views(ls@),
            all == lines(text@),
            whole == settled_from(
                lines(text@),
                0,
                picks@,
                0,
                Place::Outside,
                Seq::empty(),
                Seq::empty(),
                Seq::empty(),
            ),
            whole == settled_from(
                all,
                i as int,
                picks@,
                k as int,
                place,
                views(ours@),
                views(theirs@),
                views(out@),
            ),
        decreases ls.len() - i,
    {
        let line = &ls[i];
        assert(all[i as int] == line@);
        let ghost before_out = views(out@);
        let ghost before_ours = views(ours@);
        let ghost before_theirs = views(theirs@);
        let n: usize = line.len();
        match place {
            Place::Outside => {
                if begins(line, "<<<<<<<") {
                    place = Place::Ours;
                    ours = Vec::new();
                    theirs = Vec::new();
                    assert(views(ours@) =~= Seq::<Seq<char>>::empty());
                    assert(views(theirs@) =~= Seq::<Seq<char>>::empty());
                } else if begins(line, ">>>>>>>") {
                    return Err(MarkerError::Stray);
                } else {
                    let copy = slice_of(line, 0, n);
                    assert(copy@ =~= line@);
                    out.push(copy);
                    assert(views(out@) =~= before_out.push(line@));
                }
            },
            Place::Ours => {
                if begins(line, "<<<<<<<") {
                    return Err(MarkerError::Nested);
                } else if begins(line, "=======") {
                    place = Place::Theirs;
                    theirs = Vec::new();
                    assert(views(theirs@) =~= Seq::<Seq<char>>::empty());
                } else if begins(line, ">>>>>>>") {
                    return Err(MarkerError::Stray);
                } else {
                    let copy = slice_of(line, 0, n);
                    assert(copy@ =~= line@);
                    ours.push(copy);
                    assert(views(ours@) =~= before_ours.push(line@));
                }
            },
            Place::Theirs => {
                if begins(line, "<<<<<<<") {
                    return Err(MarkerError::Nested);
                } else if begins(line, ">>>>>>>") {
                    if k < picks.len() && picks[k] {
                        push_copies(&mut out, &ours);
                    } else {
                        push_copies(&mut out, &theirs);
                    }
                    k += 1;
                    place = Place::Outside;
                    ours = Vec::new();
                    theirs = Vec::new();
                    assert(views(ours@) =~= Seq::<Seq<char>>::empty());
                    assert(views(theirs@) =~= Seq::<Seq<char>>::empty());
                } else {
                    let copy = slice_of(line, 0, n);
                    assert(copy@ =~= line@);
                    theirs.push(copy);
                    assert(views(theirs@) =~= before_theirs.push(line@));
                }
            },
        }
        i += 1;
    }
    match place {
        Place::Outside => {
            let sep = to_chars("\n");
            proof {
                reveal_strlit("\n");
                assert(sep@ =~= newline());
            }
            Ok(from_chars(&join_parts(&out, &sep)))
        },
        _ => Err(MarkerError::Unclosed),
    }
}

/// Finds the name of the first section that opens among the lines.
fn find_identity(ls: &Vec<Vec<char>>) -> (r: Option<String>)
    ensures
        text_of(r) == first_identity(views(ls@)),
{
    let ghost all = views(ls@);
    let mut i: usize = 0;
    assert(all.skip(0) =~= all);
    while i < ls.len()
        invariant
            i <= ls.len(),
            all == views(ls@),
            first_identity(all) == first_identity(all.skip(i as int)),
        decreases ls.len() - i,
    {
        proof {
            lemma_marker_lengths();
        }
        let ghost rest = all.skip(i as int);
        assert(rest[0] == ls@[i as int]@);
        assert(rest.skip(1) =~= all.skip(i + 1));
        if line_is_heading(&ls[i]) {
            let n: usize = ls[i].len();
            let heading = slice_of(&ls[i], 3, n);
            assert(heading@ == heading_text(ls@[i as int]@));
            return Some(from_chars(&trimmed(&heading)));
        }
        i += 1;
    }
    None
}

/// Finds the sections that the regions of a text are about.
pub fn region_identities(text: &str) -> (r: Result<Vec<Option<String>>, MarkerError>)
    ensures
        regions_view(r) == regions_of(text@),
{
    let chars = to_chars(text);
    let ls = split_lines(&chars);
    let ghost all = views(ls@);
    let ghost whole = regions_of(text@);
    let mut found: Vec<Option<String>> = Vec::new();
    let mut ours: Vec<Vec<char>> = Vec::new();
    let mut theirs: Vec<Vec<char>> = Vec::new();
    let mut place = Place::Outside;
    let mut i: usize = 0;
    assert(key_views(found@) =~= Seq::<Option<Seq<char>>>::empty());
    assert(views(ours@) =~= Seq::<Seq<char>>::empty());
    assert(views(theirs@) =~= Seq::<Seq<char>>::empty());
    while i < ls.len()
        invariant
            i <= ls.len(),
            all == views(ls@),
            all == lines(text@),
            whole == regions_of(text@),
            whole == regions_from(
                all,
                i as int,
                place,
                views(ours@),
                views(theirs@),
                key_views(found@),
            ),
        decreases ls.len() - i,
    {
        let line = &ls[i];
        assert(all[i as int] == line@);
        let ghost before_found = key_views(found@);
        let ghost before_ours = views(ours@);
        let ghost before_theirs = views(theirs@);
        let n: usize = line.len();
        match place {
            Place::Outside => {
                if begins(line, "<<<<<<<") {
                    place = Place::Ours;
                    ours = Vec::new();
                    theirs = Vec::new();
                    assert(views(ours@) =~= Seq::<Seq<char>>::empty());
                    assert(views(theirs@) =~= Seq::<Seq<char>>::empty());
                } else if begins(line, ">>>>>>>") {
                    return Err(MarkerError::Stray);
                }
            },
            Place::Ours => {
                if begins(line, "<<<<<<<") {
                    return Err(MarkerError::Nested);
                } else if begins(line, "=======") {
                    place = Place::Theirs;
                    theirs = Vec::new();
                    assert(views(theirs@) =~= Seq::<Seq<char>>::empty());
                } else if begins(line, ">>>>>>>") {
                    return Err(MarkerError::Stray);
                } else {
                    let copy = slice_of(line, 0, n);
                    assert(copy@ =~= line@);
                    ours.push(copy);
                    assert(views(ours@) =~= before_ours.push(line@));
                }
            },
            Place::Theirs => {
                if begins(line, "<<<<<<<") {
                    return Err(MarkerError::Nested);
                } else if begins(line, ">>>>>>>") {
                    let word = match find_identity(&ours) {
                        Some(w) => Some(w),
                        None => find_identity(&theirs),
                    };
                    found.push(word);
                    assert(key_views(found@) =~= before_found.push(
                        region_identity(before_ours, before_theirs),
                    ));
                    place = Place::Outside;
                    ours = Vec::new();
                    theirs = Vec::new();
                    assert(views(ours@) =~= Seq::<Seq<char>>::empty());
                    assert(views(theirs@) =~= Seq::<Seq<char>>::empty());
                } else {
                    let copy = slice_of(line, 0, n);
                    assert(copy@ =~= line@);
                    theirs.push(copy);
                    assert(views(theirs@) =~= before_theirs.push(line@));
                }
            },
        }
        i += 1;
    }
    match place {
        Place::Outside => Ok(found),
        _ => Err(MarkerError::Unclosed),
    }
}

/// Tells which regions keep the local side, with `region_keys[i]` as the
/// key of the section that region `i` is about, and `conflict_keys[j]` and
/// `winners[j]` as key and winner of conflict `j`.
pub fn pick_sides(
    region_keys: &Vec<Option<String>>,
    conflict_keys: &Vec<String>,
    winners: &Vec<Winner>,
) -> (picks: Vec<bool>)
    ensures
        picks@ == picks_of(key_views(region_keys@), string_views(conflict_keys@), winners@),
{
    let ghost wanted = picks_of(key_views(region_keys@), string_views(conflict_keys@), winners@);
    let ghost keys = string_views(conflict_keys@).map_values(|c: Seq<char>| Some(c));
    let mut picks: Vec<bool> = Vec::new();
    let mut i: usize = 0;
    while i < region_keys.len()
        invariant
            i <= region_keys.len(),
            picks@ == wanted.take(i as int),
            wanted == picks_of(key_views(region_keys@), string_views(conflict_keys@), winners@),
            keys == string_views(conflict_keys@).map_values(|c: Seq<char>| Some(c)),
        decreases region_keys.len() - i,
    {
        let ghost before = picks@;
        assert(key_views(region_keys@)[i as int] == text_of(region_keys@[i as int]));
        let pick = match &region_keys[i] {
            Some(k) => {
                let mut j: usize = 0;
                let mut found: Option<usize> = None;
                while j < conflict_keys.len()
                    invariant_except_break
                        found is None,
                        first_with(keys, k@, 0) == first_with(keys, k@, j as int),
                    invariant
                        j <= conflict_keys.len(),
                        keys == string_views(conflict_keys@).map_values(|c: Seq<char>| Some(c)),
                    ensures
                        match found {
                            Some(at) => first_with(keys, k@, 0) == Some(at as int) && at
                                < conflict_keys.len(),
                            None => first_with(keys, k@, 0) is None,
                        },
                    decreases conflict_keys.len() - j,
                {
                    assert(keys[j as int] == Some(conflict_keys@[j as int]@));
                    if same_text(conflict_keys[j].as_str(), k.as_str()) {
                        found = Some(j);
                        break;
                    }
                    j += 1;
                }
                match found {
                    Some(at) => at < winners.len() && winners[at] == Winner::Local,
                    None => false,
                }
            },
            None => false,
        };
        picks.push(pick);
        assert(wanted.take(i + 1) =~= before.push(pick));
        i += 1;
    }
    assert(wanted.take(region_keys.len() as int) =~= wanted);
    picks
}

/// Settles the regions of a text by the conflicts between the two sides.
pub fn resolve_markers(text: &str, conflicts: &Vec<SectionConflict>) -> (r: Result<
    String,
    MarkerError,
>)
    ensures
        settled_view(r) == settled_by(text@, conflict_views(conflicts@)),
{
    let words = match region_identities(text) {
        Ok(words) => words,
        Err(e) => {
            return Err(e);
        },
    };
    let ghost cs = conflict_views(conflicts@);
    let ghost region_keys = Seq::new(words.len() as nat, |i: int| key_of(key_views(words@)[i]));
    let ghost conflict_keys = Seq::new(cs.len(), |i: int| lowercase(cs[i].local.word));
    let ghost wins = Seq::new(cs.len(), |i: int| winner_of(cs[i]));
    let mut keys: Vec<Option<String>> = Vec::new();
    let mut i: usize = 0;
    while i < words.len()
        invariant
            i <= words.len(),
            key_views(keys@) == region_keys.take(i as int),
            region_keys == Seq::new(words.len() as nat, |i: int| key_of(key_views(words@)[i])),
        decreases words.len() - i,
    {
        let ghost before = key_views(keys@);
        assert(key_views(words@)[i as int] == text_of(words@[i as int]));
        let key = match &words[i] {
            Some(w) => Some(w.as_str().to_lowercase()),
            None => None,
        };
        keys.push(key);
        assert(key_views(keys@) =~= before.push(text_of(key)));
        assert(region_keys.take(i + 1) =~= before.push(text_of(key)));
        i += 1;
    }
    assert(region_keys.take(words.len() as int) =~= region_keys);
    let mut names: Vec<String> = Vec::new();
    let mut winners: Vec<Winner> = Vec::new();
    let mut j: usize = 0;
    while j < conflicts.len()
        invariant
            j <= conflicts.len(),
            cs == conflict_views(conflicts@),
            string_views(names@) == conflict_keys.take(j as int),
            winners@ == wins.take(j as int),
            conflict_keys == Seq::new(cs.len(), |i: int| lowercase(cs[i].local.word)),
            wins == Seq::new(cs.len(), |i: int| winner_of(cs[i])),
        decreases conflicts.len() - j,
    {
        let ghost before_names = string_views(names@);
        let ghost before_wins = winners@;
        assert(cs[j as int] == conflicts@[j as int]@);
        let name = conflicts[j].local.word.as_str().to_lowercase();
        let w = resolve(&conflicts[j]);
        names.push(name);
        winners.push(w);
        assert(string_views(names@) =~= before_names.push(name@));
        assert(conflict_keys.take(j + 1) =~= before_names.push(name@));
        assert(wins.take(j + 1) =~= before_wins.push(w));
        j += 1;
    }
    assert(conflict_keys.take(conflicts.len() as int) =~= conflict_keys);
    assert(wins.take(conflicts.len() as int) =~= wins);
    let picks = pick_sides(&keys, &names, &winners);
    resolve_markers_with(text, &picks)
}

} // verus!
