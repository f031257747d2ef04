//! Pairing the removal of a section with its return. Where one hunk takes a
//! section away and brings a section of the same identity, the two changes
//! are one: the section was modified.

use crate::change::{change_views, ChangeType, ChangeView, SectionChange};
use crate::text::{lowercase, same_chars, string_views, to_chars};
use vstd::prelude::*;

verus! {

/// The keys of the changes: the identities of their sections in lower case.
pub open spec fn change_keys(cs: Seq<ChangeView>) -> Seq<Seq<char>> {
    Seq::new(cs.len(), |i: int| lowercase(cs[i].word))
}

/// Whether two changes with the given keys are the removal and the return of
/// one section.
pub open spec fn pairs_with(a: ChangeView, ka: Seq<char>, b: ChangeView, kb: Seq<char>) -> bool {
    &&& ka == kb
    &&& (a.change_type == ChangeType::Added && b.change_type == ChangeType::Deleted) || (
    a.change_type == ChangeType::Deleted && b.change_type == ChangeType::Added)
}

/// The first change at or after `from` that pairs with `c`.
pub open spec fn partner_from(
    c: ChangeView,
    k: Seq<char>,
    rest: Seq<ChangeView>,
    keys: Seq<Seq<char>>,
    from: int,
) -> Option<int>
    decreases rest.len() - from,
{
    if from < 0 || from >= rest.len() {
        None
    } else if pairs_with(c, k, rest[from], keys[from]) {
        Some(from)
    } else {
        partner_from(c, k, rest, keys, from + 1)
    }
}

/// The modification that a removal and a return make together. It bears the
/// identity of the first of the two; what is old comes from the removal and
/// what is new from the return.
pub open spec fn fused(a: ChangeView, b: ChangeView) -> ChangeView {
    let gone = if a.change_type == ChangeType::Deleted {
        a
    } else {
        b
    };
    let come = if a.change_type == ChangeType::Deleted {
        b
    } else {
        a
    };
    ChangeView {
        change_type: ChangeType::Modified,
        word: a.word,
        old_content: gone.old_content,
        new_content: come.new_content,
        old_timestamp: gone.old_timestamp,
        new_timestamp: come.new_timestamp,
    }
}

/// The changes with each removal and the first return of the same key after
/// it, or each return and the first removal after it, made one modification
/// that stands where the first of the two stood.
pub open spec fn paired(cs: Seq<ChangeView>, keys: Seq<Seq<char>>) -> Seq<ChangeView>
    decreases cs.len(),
{
    if cs.len() == 0 {
        Seq::empty()
    } else {
        let rest = cs.skip(1);
        let rest_keys = keys.skip(1);
        match partner_from(cs[0], keys[0], rest, rest_keys, 0) {
            Some(j) => if 0 <= j < rest.len() {
                seq![fused(cs[0], rest[j])] + paired(rest.remove(j), rest_keys.remove(j))
            } else {
                Seq::empty()
            },
            None => seq![cs[0]] + paired(rest, rest_keys),
        }
    }
}

/// The partner that `partner_from` returns lies in range.
pub proof fn lemma_partner_from(
    c: ChangeView,
    k: Seq<char>,
    rest: Seq<ChangeView>,
    keys: Seq<Seq<char>>,
    from: int,
)
    requires
        0 <= from,
    ensures
        match partner_from(c, k, rest, keys, from) {
            Some(j) => from <= j < rest.len() && pairs_with(c, k, rest[j], keys[j]) && forall|
                i: int,
            |
                from <= i < j ==> !pairs_with(c, k, #[trigger] rest[i], keys[i]),
            None => forall|i: int|
                from <= i < rest.len() ==> !pairs_with(c, k, #[trigger] rest[i], keys[i]),
        },
    decreases rest.len() - from,
{
    if from < rest.len() && !pairs_with(c, k, rest[from], keys[from]) {
        lemma_partner_from(c, k, rest, keys, from + 1);
    }
}

/// The keys of the changes.
pub fn keys_of(changes: &Vec<SectionChange>) -> (keys: Vec<String>)
    ensures
        keys.len() == changes.len(),
        string_views(keys@) == change_keys(change_views(changes@)),
{
    let mut keys: Vec<String> = Vec::new();
    let mut i: usize = 0;
    while i < changes.len()
        invariant
            i <= changes.len(),
            keys.len() == i,
            string_views(keys@) == change_keys(change_views(changes@)).take(i as int),
        decreases changes.len() - i,
    {
        let ghost before = string_views(keys@);
        let key = changes[i].word.as_str().to_lowercase();
        keys.push(key);
        assert(string_views(keys@) =~= before.push(key@));
        assert(change_keys(change_views(changes@)).take(i + 1) =~= before.push(key@));
        i += 1;
    }
    assert(change_keys(change_views(changes@)).take(changes.len() as int) =~= change_keys(
        change_views(changes@),
    ));
    keys
}

/// Whether the two strings hold the same characters.
pub fn same_text(a: &str, b: &str) -> (r: bool)
    ensures
        r == (a@ == b@),
{
    let x = to_chars(a);
    let y = to_chars(b);
    same_chars(&x, &y)
}

/// Makes one modification of a removal and a return.
pub fn fuse(a: SectionChange, b: SectionChange) -> (r: SectionChange)
    ensures
        r@ == fused(a@, b@),
{
    match a.change_type {
        ChangeType::Deleted => SectionChange {
            change_type: ChangeType::Modified,
            word: a.word,
            old_content: a.old_content,
            new_content: b.new_content,
            old_timestamp: a.old_timestamp,
            new_timestamp: b.new_timestamp,
        },
        _ => SectionChange {
            change_type: ChangeType::Modified,
            word: a.word,
            old_content: b.old_content,
            new_content: a.new_content,
            old_timestamp: b.old_timestamp,
            new_timestamp: a.new_timestamp,
        },
    }
}

/// Finds the first change that pairs with `c`.
fn find_partner(c: &SectionChange, key: &String, rest: &Vec<SectionChange>, keys: &Vec<String>) -> (r:
    Option<usize>)
    requires
        keys.len() == rest.len(),
    ensures
        match r {
            Some(j) => partner_from(c@, key@, change_views(rest@), string_views(keys@), 0) == Some(
                j as int,
            ) && j < rest.len(),
            None => partner_from(c@, key@, change_views(rest@), string_views(keys@), 0) is None,
        },
{
    let wanted = match c.change_type {
        ChangeType::Added => ChangeType::Deleted,
        ChangeType::Deleted => ChangeType::Added,
        ChangeType::Modified => {
            proof {
                lemma_partner_from(c@, key@, change_views(rest@), string_views(keys@), 0);
            }
            return None;
        },
    };
    let mut i: usize = 0;
    while i < rest.len()
        invariant
            i <= rest.len(),
            keys.len() == rest.len(),
            c.change_type != ChangeType::Modified,
            wanted == if c.change_type == ChangeType::Added {
                ChangeType::Deleted
            } else {
                ChangeType::Added
            },
            partner_from(c@, key@, change_views(rest@), string_views(keys@), 0) == partner_from(
                c@,
                key@,
                change_views(rest@),
                string_views(keys@),
                i as int,
            ),
        decreases rest.len() - i,
    {
        assert(change_views(rest@)[i as int] == rest@[i as int]@);
        assert(string_views(keys@)[i as int] == keys@[i as int]@);
        if rest[i].change_type == wanted && same_text(keys[i].as_str(), key.as_str()) {
            return Some(i);
        }
        i += 1;
    }
    None
}

/// Pairs removals and returns, with `keys[i]` as the key of change `i`.
pub fn pair_changes(changes: Vec<SectionChange>, keys: Vec<String>) -> (out: Vec<SectionChange>)
    requires
        keys.len() == changes.len(),
    ensures
        change_views(out@) == paired(change_views(changes@), string_views(keys@)),
{
    let ghost whole = paired(change_views(changes@), string_views(keys@));
    let mut changes = changes;
    let mut keys = keys;
    let mut out: Vec<SectionChange> = Vec::new();
    assert(change_views(out@) + whole =~= whole);
    while changes.len() > 0
        invariant
            keys.len() == changes.len(),
            whole == change_views(out@) + paired(change_views(changes@), string_views(keys@)),
        decreases changes.len(),
    {
        let ghost cs = change_views(changes@);
        let ghost ks = string_views(keys@);
        let ghost before = change_views(out@);
        let first = changes.remove(0);
        let key = keys.remove(0);
        assert(first@ == cs[0]);
        assert(key@ == ks[0]);
        assert(change_views(changes@) =~= cs.skip(1));
        assert(string_views(keys@) =~= ks.skip(1));
        match find_partner(&first, &key, &changes, &keys) {
            Some(j) => {
                let other = changes.remove(j);
                let _ = keys.remove(j);
                assert(other@ == cs.skip(1)[j as int]);
                assert(change_views(changes@) =~= cs.skip(1).remove(j as int));
                assert(string_views(keys@) =~= ks.skip(1).remove(j as int));
                let one = fuse(first, other);
                out.push(one);
                assert(change_views(out@) =~= before + seq![one@]);
                assert(before + (seq![one@] + paired(
                    change_views(changes@),
                    string_views(keys@),
                )) =~= change_views(out@) + paired(change_views(changes@), string_views(keys@)));
            },
            None => {
                let ghost kept = first@;
                out.push(first);
                assert(change_views(out@) =~= before + seq![kept]);
                assert(before + (seq![kept] + paired(change_views(changes@), string_views(keys@)))
                    =~= change_views(out@) + paired(
                    change_views(changes@),
                    string_views(keys@),
                ));
            },
        }
    }
    assert(change_views(out@) + Seq::<ChangeView>::empty() =~= change_views(out@));
    out
}

} // verus!
