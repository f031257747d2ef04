//! Conflicts: which changes of the two sides cannot both stand, and which
//! side prevails.

use crate::change::{change_views, ChangeType, ChangeView, SectionChange};
use crate::instant::{instant_of, read_instant, Instant};
use crate::notebook::text_of;
use crate::pairing::{change_keys, keys_of, same_text};
use crate::text::string_views;
use vstd::prelude::*;

verus! {

/// A local and a remote change to one section that cannot both stand.
#[derive(Debug)]
pub struct SectionConflict {
    pub local: SectionChange,
    pub remote: SectionChange,
}

/// A conflict as a mathematical value.
pub struct ConflictView {
    pub local: ChangeView,
    pub remote: ChangeView,
}

impl View for SectionConflict {
    type V = ConflictView;

    open spec fn view(&self) -> ConflictView {
        ConflictView { local: self.local@, remote: self.remote@ }
    }
}

/// The views of a vector of conflicts, element by element.
pub open spec fn conflict_views(v: Seq<SectionConflict>) -> Seq<ConflictView> {
    Seq::new(v.len(), |i: int| v[i]@)
}

/// The side that prevails in a conflict.
#[derive(Debug, Clone, Copy, PartialEq, Eq, Structural)]
pub enum Winner {
    Local,
    Remote,
    /// Neither side bears a timestamp that can be read.
    Unresolvable,
}

/// Whether a local and a remote change to one section are in conflict. Two
/// additions of the same text are not, nor are two deletions; every other
/// pair is.
pub open spec fn conflicts(local: ChangeView, remote: ChangeView) -> bool {
    match (local.change_type, remote.change_type) {
        (ChangeType::Added, ChangeType::Added) => local.new_content != remote.new_content,
        (ChangeType::Deleted, ChangeType::Deleted) => false,
        _ => true,
    }
}

/// The decision table, pair by pair.
pub proof fn lemma_conflict_table(local: ChangeView, remote: ChangeView)
    ensures
        local.change_type == ChangeType::Added && remote.change_type == ChangeType::Added ==> (
        conflicts(local, remote) <==> local.new_content != remote.new_content),
        local.change_type == ChangeType::Added && remote.change_type == ChangeType::Modified
            ==> conflicts(local, remote),
        local.change_type == ChangeType::Added && remote.change_type == ChangeType::Deleted
            ==> conflicts(local, remote),
        local.change_type == ChangeType::Modified && remote.change_type == ChangeType::Added
            ==> conflicts(local, remote),
        local.change_type == ChangeType::Modified && remote.change_type == ChangeType::Modified
            ==> conflicts(local, remote),
        local.change_type == ChangeType::Modified && remote.change_type == ChangeType::Deleted
            ==> conflicts(local, remote),
        local.change_type == ChangeType::Deleted && remote.change_type == ChangeType::Added
            ==> conflicts(local, remote),
        local.change_type == ChangeType::Deleted && remote.change_type == ChangeType::Modified
            ==> conflicts(local, remote),
        local.change_type == ChangeType::Deleted && remote.change_type == ChangeType::Deleted
            ==> !conflicts(local, remote),
{
}

/// Whether the two optional strings hold the same.
pub fn same_optional_text(a: &Option<String>, b: &Option<String>) -> (r: bool)
    ensures
        r == (text_of(*a) == text_of(*b)),
{
    match (a, b) {
        (Some(x), Some(y)) => same_text(x.as_str(), y.as_str()),
        (None, None) => true,
        _ => false,
    }
}

/// Tests whether a local and a remote change to one section are in conflict.
pub fn is_conflict(local: &SectionChange, remote: &SectionChange) -> (r: bool)
    ensures
        r == conflicts(local@, remote@),
{
    match (local.change_type, remote.change_type) {
        (ChangeType::Added, ChangeType::Added) => !same_optional_text(
            &local.new_content,
            &remote.new_content,
        ),
        (ChangeType::Deleted, ChangeType::Deleted) => false,
        _ => true,
    }
}

/// The last index below `upto` with the key `k`.
pub open spec fn last_with_key(keys: Seq<Seq<char>>, k: Seq<char>, upto: int) -> Option<int>
    decreases upto,
{
    if upto <= 0 {
        None
    } else if keys[upto - 1] == k {
        Some(upto - 1)
    } else {
        last_with_key(keys, k, upto - 1)
    }
}

/// What `last_with_key` returns is the greatest index with the key.
pub proof fn lemma_last_with_key(keys: Seq<Seq<char>>, k: Seq<char>, upto: int)
    ensures
        match last_with_key(keys, k, upto) {
            Some(i) => 0 <= i < upto && keys[i] == k && forall|j: int|
                i < j < upto ==> #[trigger] keys[j] != k,
            None => forall|j: int| 0 <= j < upto ==> #[trigger] keys[j] != k,
        },
    decreases upto,
{
    if upto > 0 && keys[upto - 1] != k {
        lemma_last_with_key(keys, k, upto - 1);
    }
}

/// The conflict that local change `i` is part of. Of the changes of one side
/// to one section only the last counts.
pub open spec fn conflict_at(
    locals: Seq<ChangeView>,
    local_keys: Seq<Seq<char>>,
    remotes: Seq<ChangeView>,
    remote_keys: Seq<Seq<char>>,
    i: int,
) -> Seq<ConflictView> {
    if last_with_key(local_keys, local_keys[i], locals.len() as int) == Some(i) {
        match last_with_key(remote_keys, local_keys[i], remotes.len() as int) {
            Some(j) => if conflicts(locals[i], remotes[j]) {
                seq![ConflictView { local: locals[i], remote: remotes[j] }]
            } else {
                Seq::empty()
            },
            None => Seq::empty(),
        }
    } else {
        Seq::empty()
    }
}

/// The conflicts of the local changes from `i` on, in the order of the
/// local changes.
pub open spec fn conflicts_from(
    locals: Seq<ChangeView>,
    local_keys: Seq<Seq<char>>,
    remotes: Seq<ChangeView>,
    remote_keys: Seq<Seq<char>>,
    i: int,
) -> Seq<ConflictView>
    decreases locals.len() - i,
{
    if i < 0 || i >= locals.len() {
        Seq::empty()
    } else {
        conflict_at(locals, local_keys, remotes, remote_keys, i) + conflicts_from(
            locals,
            local_keys,
            remotes,
            remote_keys,
            i + 1,
        )
    }
}

/// The conflicts between the changes of the two sides, with the sections
/// told apart by the given keys.
pub open spec fn classified(
    locals: Seq<ChangeView>,
    local_keys: Seq<Seq<char>>,
    remotes: Seq<ChangeView>,
    remote_keys: Seq<Seq<char>>,
) -> Seq<ConflictView> {
    conflicts_from(locals, local_keys, remotes, remote_keys, 0)
}

/// One local and one remote change to the same section are classified as
/// the decision table says: they are the one conflict where the table has a
/// conflict, and there is none where it has none. Changes to different
/// sections are never in conflict.
pub proof fn lemma_classified_pair(
    local: ChangeView,
    local_key: Seq<char>,
    remote: ChangeView,
    remote_key: Seq<char>,
)
    ensures
        classified(seq![local], seq![local_key], seq![remote], seq![remote_key]) == if local_key
            == remote_key && conflicts(local, remote) {
            seq![ConflictView { local, remote }]
        } else {
            Seq::<ConflictView>::empty()
        },
{
    let ls = seq![local];
    let lk = seq![local_key];
    let rs = seq![remote];
    let rk = seq![remote_key];
    assert(last_with_key(lk, lk[0], 1) == Some(0int));
    assert(last_with_key(rk, lk[0], 0) is None);
    assert(last_with_key(rk, lk[0], 1) == if remote_key == local_key {
        Some(0int)
    } else {
        None
    });
    assert(conflicts_from(ls, lk, rs, rk, 1) =~= Seq::<ConflictView>::empty());
    assert(conflicts_from(ls, lk, rs, rk, 0) =~= conflict_at(ls, lk, rs, rk, 0));
}

/// Finds the last index below `upto` with the key `k`.
pub fn find_last_with_key(keys: &Vec<String>, k: &str, upto: usize) -> (r: Option<usize>)
    requires
        upto <= keys.len(),
    ensures
        match r {
            Some(i) => last_with_key(string_views(keys@), k@, upto as int) == Some(i as int) && i
                < upto,
            None => last_with_key(string_views(keys@), k@, upto as int) is None,
        },
{
    let mut i: usize = upto;
    while i > 0
        invariant
            i <= upto,
            upto <= keys.len(),
            last_with_key(string_views(keys@), k@, upto as int) == last_with_key(
                string_views(keys@),
                k@,
                i as int,
            ),
        decreases i,
    {
        assert(string_views(keys@)[i - 1] == keys@[i - 1]@);
        if same_text(keys[i - 1].as_str(), k) {
            return Some(i - 1);
        }
        i -= 1;
    }
    None
}

/// Finds the conflicts between the changes of the two sides, with
/// `local_keys[i]` and `remote_keys[i]` as the keys of the sections that the
/// changes speak of.
pub fn classify_keyed(
    locals: &Vec<SectionChange>,
    local_keys: &Vec<String>,
    remotes: &Vec<SectionChange>,
    remote_keys: &Vec<String>,
) -> (out: Vec<SectionConflict>)
    requires
        local_keys.len() == locals.len(),
        remote_keys.len() == remotes.len(),
    ensures
        conflict_views(out@) == classified(
            change_views(locals@),
            string_views(local_keys@),
            change_views(remotes@),
            string_views(remote_keys@),
        ),
{
    let ghost ls = change_views(locals@);
    let ghost lk = string_views(local_keys@);
    let ghost rs = change_views(remotes@);
    let ghost rk = string_views(remote_keys@);
    let mut out: Vec<SectionConflict> = Vec::new();
    let n: usize = locals.len();
    let mut i: usize = 0;
    assert(conflict_views(out@) + classified(ls, lk, rs, rk) =~= classified(ls, lk, rs, rk));
    while i < n
        invariant
            i <= n,
            n == locals.len(),
            local_keys.len() == locals.len(),
            remote_keys.len() == remotes.len(),
            ls == change_views(locals@),
            lk == string_views(local_keys@),
            rs == change_views(remotes@),
            rk == string_views(remote_keys@),
            classified(ls, lk, rs, rk) == conflict_views(out@) + conflicts_from(
                ls,
                lk,
                rs,
                rk,
                i as int,
            ),
        decreases n - i,
    {
        let ghost before = conflict_views(out@);
        let key = local_keys[i].as_str();
        assert(lk[i as int] == key@);
        let mine = find_last_with_key(local_keys, key, n);
        let mut found = false;
        if mine == Some(i) {
            match find_last_with_key(remote_keys, key, remotes.len()) {
                Some(j) => {
                    assert(rs[j as int] == remotes@[j as int]@);
                    assert(ls[i as int] == locals@[i as int]@);
                    if is_conflict(&locals[i], &remotes[j]) {
                        let c = SectionConflict {
                            local: locals[i].duplicate(),
                            remote: remotes[j].duplicate(),
                        };
                        out.push(c);
                        assert(conflict_views(out@) =~= before + conflict_at(
                            ls,
                            lk,
                            rs,
                            rk,
                            i as int,
                        ));
                        found = true;
                    }
                },
                None => {},
            }
        }
        if !found {
            assert(conflict_views(out@) =~= before + conflict_at(ls, lk, rs, rk, i as int));
        }
        assert(before + (conflict_at(ls, lk, rs, rk, i as int) + conflicts_from(
            ls,
            lk,
            rs,
            rk,
            i + 1,
        )) =~= conflict_views(out@) + conflicts_from(ls, lk, rs, rk, i + 1));
        i += 1;
    }
    assert(conflict_views(out@) + Seq::<ConflictView>::empty() =~= conflict_views(out@));
    out
}

/// Finds the conflicts between the changes of the two sides. Changes speak
/// of the same section where their identities agree but for the case of
/// their letters.
pub fn classify(locals: &Vec<SectionChange>, remotes: &Vec<SectionChange>) -> (out: Vec<
    SectionConflict,
>)
    ensures
        conflict_views(out@) == classified(
            change_views(locals@),
            change_keys(change_views(locals@)),
            change_views(remotes@),
            change_keys(change_views(remotes@)),
        ),
{
    let local_keys = keys_of(locals);
    let remote_keys = keys_of(remotes);
    classify_keyed(locals, &local_keys, remotes, &remote_keys)
}

/// The side that prevails, from the instants that the two sides bear. The
/// later instant wins and a tie goes to the local side; a side without an
/// instant loses to one with an instant; without any, nothing is decided.
pub open spec fn resolution(local: Option<Instant>, remote: Option<Instant>) -> Winner {
    match (local, remote) {
        (Some(l), Some(r)) => if r.later_than(l) {
            Winner::Remote
        } else {
            Winner::Local
        },
        (Some(_), None) => Winner::Local,
        (None, Some(_)) => Winner::Remote,
        (None, None) => Winner::Unresolvable,
    }
}

/// The instant of a change: that of its new timestamp where it can be read,
/// else that of its old one.
pub open spec fn change_instant(c: ChangeView) -> Option<Instant> {
    match c.new_timestamp {
        Some(t) if instant_of(t) is Some => instant_of(t),
        _ => match c.old_timestamp {
            Some(t) => instant_of(t),
            None => None,
        },
    }
}

/// The side that prevails in a conflict.
pub open spec fn winner_of(c: ConflictView) -> Winner {
    resolution(change_instant(c.local), change_instant(c.remote))
}

/// Of two instants the later one wins, whichever side bears it.
pub proof fn lemma_later_instant_wins(earlier: Instant, later: Instant)
    requires
        later.later_than(earlier),
    ensures
        resolution(Some(earlier), Some(later)) == Winner::Remote,
        resolution(Some(later), Some(earlier)) == Winner::Local,
{
}

/// In a conflict whose sides bear different instants the side with the
/// later one wins, and it still wins when the sides change places.
pub proof fn lemma_winner_keeps_when_swapped(c: ConflictView)
    requires
        change_instant(c.local) is Some,
        change_instant(c.remote) is Some,
        change_instant(c.local) != change_instant(c.remote),
    ensures
        winner_of(c) == Winner::Local <==> winner_of(
            ConflictView { local: c.remote, remote: c.local },
        ) == Winner::Remote,
        winner_of(c) == Winner::Remote <==> change_instant(c.remote).unwrap().later_than(
            change_instant(c.local).unwrap(),
        ),
{
}

/// Decides between the instants of the two sides.
pub fn resolve_instants(local: Option<Instant>, remote: Option<Instant>) -> (w: Winner)
    ensures
        w == resolution(local, remote),
{
    match (local, remote) {
        (Some(l), Some(r)) => if r.is_later_than(&l) {
            Winner::Remote
        } else {
            Winner::Local
        },
        (Some(_), None) => Winner::Local,
        (None, Some(_)) => Winner::Remote,
        (None, None) => Winner::Unresolvable,
    }
}

/// Reads the instant of a change.
pub fn instant_of_change(c: &SectionChange) -> (r: Option<Instant>)
    ensures
        r == change_instant(c@),
{
    let newer = match &c.new_timestamp {
        Some(t) => read_instant(t.as_str()),
        None => None,
    };
    if newer.is_some() {
        return newer;
    }
    match &c.old_timestamp {
        Some(t) => read_instant(t.as_str()),
        None => None,
    }
}

/// Decides a conflict.
pub fn resolve(conflict: &SectionConflict) -> (w: Winner)
    ensures
        w == winner_of(conflict@),
{
    resolve_instants(instant_of_change(&conflict.local), instant_of_change(&conflict.remote))
}

/// The instant of a section: what its timestamp says, where it has one that
/// can be read. A section without one is the oldest in every comparison.
pub open spec fn section_instant(s: crate::notebook::SectionView) -> Option<Instant> {
    match s.timestamp {
        Some(t) => instant_of(t),
        None => None,
    }
}

impl crate::notebook::Section {
    /// Reads the timestamp of the section as an instant.
    pub fn instant(&self) -> (r: Option<Instant>)
        ensures
            r == section_instant(self@),
    {
        match &self.timestamp {
            Some(t) => read_instant(t.as_str()),
            None => None,
        }
    }
}

} // verus!
