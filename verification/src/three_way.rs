//! The merge of three notebooks entry by entry: the common base and the
//! two sides that grew from it. An entry is what stands between two
//! separators, and it is known by the word of its heading in lower case.
//! What a side added comes first, the local side before the remote side; then
//! come the entries of the base that a side still has, as the local side has
//! them where it does.

use crate::format::{heading_marker, is_heading, lemma_marker_lengths, line_is_heading};
use crate::lines::{join, join_parts, lines, split_lines};
use crate::notebook::text_of;
use crate::pairing::same_text;
use crate::text::{
    find, from_chars, has_prefix, lowercase, search_from, slice_of, string_views,
    to_chars, trim, trimmed, views,
};
use vstd::prelude::*;

verus! {

/// What stands between two entries.
pub open spec fn entry_break() -> Seq<char> {
    "\n---\n"@
}

/// What is written between two entries.
pub open spec fn entry_joint() -> Seq<char> {
    "\n\n---\n\n"@
}

/// The pieces of a text between the places where `sep` stands.
pub open spec fn split_on(s: Seq<char>, sep: Seq<char>) -> Seq<Seq<char>>
    decreases s.len(),
{
    match find(s, sep) {
        Some(k) => if sep.len() > 0 && 0 <= k && k + sep.len() <= s.len() {
            seq![s.take(k)] + split_on(s.skip(k + sep.len()), sep)
        } else {
            seq![s]
        },
        None => seq![s],
    }
}

/// The pieces without the white space around them, but for those that are
/// blank.
pub open spec fn solid_pieces(pieces: Seq<Seq<char>>) -> Seq<Seq<char>>
    decreases pieces.len(),
{
    if pieces.len() == 0 {
        Seq::empty()
    } else if trim(pieces.last()).len() == 0 {
        solid_pieces(pieces.drop_last())
    } else {
        solid_pieces(pieces.drop_last()).push(trim(pieces.last()))
    }
}

/// The entries of a notebook.
pub open spec fn entries_of(content: Seq<char>) -> Seq<Seq<char>> {
    solid_pieces(split_on(content, entry_break()))
}

/// The text behind every heading marker at its start.
pub open spec fn behind_markers(s: Seq<char>) -> Seq<char>
    decreases s.len(),
{
    if is_heading(s) && s.len() >= 3 {
        behind_markers(s.skip(3))
    } else {
        s
    }
}

/// The word of the first heading line among the lines.
pub open spec fn first_heading_word(ls: Seq<Seq<char>>) -> Option<Seq<char>>
    decreases ls.len(),
{
    if ls.len() == 0 {
        None
    } else if is_heading(ls[0]) {
        Some(trim(behind_markers(ls[0])))
    } else {
        first_heading_word(ls.skip(1))
    }
}

/// The word of an entry: that of its first heading line.
pub open spec fn entry_word(entry: Seq<char>) -> Option<Seq<char>> {
    first_heading_word(lines(entry))
}

/// The first index from `from` on with the key `k`.
pub open spec fn first_with(keys: Seq<Option<Seq<char>>>, k: Seq<char>, from: int) -> Option<int>
    decreases keys.len() - from,
{
    if from < 0 || from >= keys.len() {
        None
    } else if keys[from] == Some(k) {
        Some(from)
    } else {
        first_with(keys, k, from + 1)
    }
}

/// Whether one of the keys is `k`.
pub open spec fn has_key(keys: Seq<Option<Seq<char>>>, k: Seq<char>) -> bool {
    first_with(keys, k, 0) is Some
}

/// One side of the merge: its entries, and the key of each that has one.
pub struct Side {
    pub texts: Seq<Seq<char>>,
    pub keys: Seq<Option<Seq<char>>>,
}

impl Side {
    /// Whether there is a key, or none, for every entry.
    pub open spec fn wf(self) -> bool {
        self.keys.len() == self.texts.len()
    }

    /// The entries from `i` on that the side added: those with a key that
    /// is neither among those of the base nor among those of the side
    /// before, each key once.
    pub open spec fn added_from(
        self,
        base: Seq<Option<Seq<char>>>,
        before: Seq<Option<Seq<char>>>,
        i: int,
    ) -> Seq<Seq<char>>
        decreases self.texts.len() - i,
    {
        if i < 0 || i >= self.texts.len() {
            Seq::empty()
        } else {
            let here = match self.keys[i] {
                Some(k) => if !has_key(base, k) && !has_key(before, k) && first_with(
                    self.keys,
                    k,
                    0,
                ) == Some(i) {
                    seq![self.texts[i]]
                } else {
                    Seq::empty()
                },
                None => Seq::empty(),
            };
            here + self.added_from(base, before, i + 1)
        }
    }

    /// The entries of this base from `i` on that a side still has, each
    /// key once: as the local side has them, else as the remote side does.
    pub open spec fn kept_from(self, local: Side, remote: Side, i: int) -> Seq<Seq<char>>
        decreases self.texts.len() - i,
    {
        if i < 0 || i >= self.texts.len() {
            Seq::empty()
        } else {
            let here = match self.keys[i] {
                Some(k) => if first_with(self.keys, k, 0) == Some(i) {
                    match (first_with(local.keys, k, 0), first_with(remote.keys, k, 0)) {
                        (Some(j), _) => seq![local.texts[j]],
                        (None, Some(j)) => seq![remote.texts[j]],
                        (None, None) => Seq::empty(),
                    }
                } else {
                    Seq::empty()
                },
                None => Seq::empty(),
            };
            here + self.kept_from(local, remote, i + 1)
        }
    }

    /// The side with the entries of a notebook and their own keys.
    pub open spec fn of(content: Seq<char>) -> Side {
        let texts = entries_of(content);
        Side {
            texts,
            keys: Seq::new(
                texts.len(),
                |i: int|
                    match entry_word(texts[i]) {
                        Some(w) => Some(lowercase(w)),
                        None => None,
                    },
            ),
        }
    }
}

/// The entries of the merged notebook.
pub open spec fn merged_entries(base: Side, local: Side, remote: Side) -> Seq<Seq<char>> {
    local.added_from(base.keys, Seq::empty(), 0) + remote.added_from(base.keys, local.keys, 0)
        + base.kept_from(local, remote, 0)
}

/// The views of a vector of optional keys, element by element.
pub open spec fn key_views(v: Seq<Option<String>>) -> Seq<Option<Seq<char>>> {
    Seq::new(v.len(), |i: int| text_of(v[i]))
}

/// The side that the vectors hold.
pub open spec fn side_of(texts: &Vec<String>, keys: &Vec<Option<String>>) -> Side {
    Side { texts: string_views(texts@), keys: key_views(keys@) }
}

/// What `first_with` returns is the first index with the key.
pub proof fn lemma_first_with(keys: Seq<Option<Seq<char>>>, k: Seq<char>, from: int)
    requires
        0 <= from,
    ensures
        match first_with(keys, k, from) {
            Some(j) => from <= j < keys.len() && keys[j] == Some(k) && forall|i: int|
                from <= i < j ==> #[trigger] keys[i] != Some(k),
            None => forall|i: int| from <= i < keys.len() ==> #[trigger] keys[i] != Some(k),
        },
    decreases keys.len() - from,
{
    if from < keys.len() && keys[from] != Some(k) {
        lemma_first_with(keys, k, from + 1);
    }
}

/// Splits a notebook into its entries.
pub fn parse_vocabulary_entries(content: &str) -> (out: Vec<String>)
    ensures
        string_views(out@) == entries_of(content@),
{
    proof {
        reveal_strlit("\n---\n");
    }
    let s = to_chars(content);
    let sep = to_chars("\n---\n");
    let n: usize = s.len();
    let ghost whole = split_on(s@, sep@);
    let mut pieces: Vec<Vec<char>> = Vec::new();
    let mut at: usize = 0;
    assert(s@.skip(0) =~= s@);
    assert(views(pieces@) + whole =~= whole);
    loop
        invariant_except_break
            whole == views(pieces@) + split_on(s@.skip(at as int), sep@),
        invariant
            at <= n,
            n == s.len(),
            sep@ == entry_break(),
            sep@.len() == 5,
            whole == split_on(s@, sep@),
        ensures
            views(pieces@) == whole,
        decreases n - at,
    {
        let ghost rest = s@.skip(at as int);
        let ghost before = views(pieces@);
        proof {
            crate::prompt_templates::lemma_find_in_rest(s@, sep@, at as int, at as int);
        }
        match search_from(&s, &sep, at) {
            Some(k) => {
                let piece = slice_of(&s, at, k);
                assert(piece@ =~= rest.take(k - at));
                assert(rest.skip(k - at + sep@.len()) =~= s@.skip(k + sep@.len()));
                pieces.push(piece);
                assert(views(pieces@) =~= before + seq![piece@]);
                assert(before + (seq![piece@] + split_on(s@.skip(k + sep@.len()), sep@))
                    =~= views(pieces@) + split_on(s@.skip(k + sep@.len()), sep@));
                at = k + sep.len();
            },
            None => {
                let piece = slice_of(&s, at, n);
                assert(piece@ =~= rest);
                pieces.push(piece);
                assert(views(pieces@) =~= before + seq![piece@]);
                break;
            },
        }
    }
    let mut out: Vec<String> = Vec::new();
    let mut i: usize = 0;
    assert(views(pieces@).take(0) =~= Seq::<Seq<char>>::empty());
    assert(string_views(out@) =~= solid_pieces(views(pieces@).take(0)));
    while i < pieces.len()
        invariant
            i <= pieces.len(),
            string_views(out@) == solid_pieces(views(pieces@).take(i as int)),
        decreases pieces.len() - i,
    {
        let ghost before = string_views(out@);
        let ghost next = views(pieces@).take(i + 1);
        assert(next.drop_last() =~= views(pieces@).take(i as int));
        assert(next.last() == pieces@[i as int]@);
        let core = trimmed(&pieces[i]);
        if core.len() > 0 {
            let text = from_chars(&core);
            out.push(text);
            assert(string_views(out@) =~= before.push(core@));
        }
        i += 1;
    }
    assert(views(pieces@).take(pieces.len() as int) =~= views(pieces@));
    out
}

fn strip_markers(line: &Vec<char>) -> (out: Vec<char>)
    ensures
        out@ == behind_markers(line@),
{
    let marker = to_chars("## ");
    let n: usize = line.len();
    let mut at: usize = 0;
    assert(line@.skip(0) =~= line@);
    loop
        invariant_except_break
            behind_markers(line@) == behind_markers(line@.skip(at as int)),
        invariant
            at <= n,
            n == line.len(),
            marker@ == heading_marker(),
        ensures
            at <= n,
            behind_markers(line@) == line@.skip(at as int),
        decreases n - at,
    {
        proof {
            lemma_marker_lengths();
        }
        let rest = slice_of(line, at, n);
        assert(rest@ == line@.skip(at as int));
        if has_prefix(&rest, &marker) {
            assert(rest@.skip(3) =~= line@.skip(at + 3));
            at += 3;
        } else {
            break;
        }
    }
    slice_of(line, at, n)
}

/// The word of an entry: that of its first heading line.
pub fn extract_word_from_entry(entry: &str) -> (r: Option<String>)
    ensures
        text_of(r) == entry_word(entry@),
{
    let chars = to_chars(entry);
    let ls = split_lines(&chars);
    let ghost all = views(ls@);
    let mut i: usize = 0;
    assert(all.skip(0) =~= all);
    while i < ls.len()
        invariant
            i <= ls.len(),
            all == views(ls@),
            all == lines(entry@),
            first_heading_word(all) == first_heading_word(all.skip(i as int)),
        decreases ls.len() - i,
    {
        let ghost rest = all.skip(i as int);
        assert(rest[0] == ls@[i as int]@);
        assert(rest.skip(1) =~= all.skip(i + 1));
        if line_is_heading(&ls[i]) {
            let word = trimmed(&strip_markers(&ls[i]));
            return Some(from_chars(&word));
        }
        i += 1;
    }
    None
}

/// Finds the first index with the key `k`.
pub fn find_key(keys: &Vec<Option<String>>, k: &str) -> (r: Option<usize>)
    ensures
        match r {
            Some(j) => first_with(key_views(keys@), k@, 0) == Some(j as int) && j < keys.len(),
            None => first_with(key_views(keys@), k@, 0) is None,
        },
{
    let mut i: usize = 0;
    while i < keys.len()
        invariant
            i <= keys.len(),
            first_with(key_views(keys@), k@, 0) == first_with(key_views(keys@), k@, i as int),
        decreases keys.len() - i,
    {
        assert(key_views(keys@)[i as int] == text_of(keys@[i as int]));
        let same = match &keys[i] {
            Some(key) => same_text(key.as_str(), k),
            None => false,
        };
        if same {
            return Some(i);
        }
        i += 1;
    }
    None
}

/// The entries that a side added.
fn added_entries(
    texts: &Vec<String>,
    keys: &Vec<Option<String>>,
    base_keys: &Vec<Option<String>>,
    before_keys: &Vec<Option<String>>,
    out: &mut Vec<String>,
)
    requires
        keys.len() == texts.len(),
    ensures
        string_views(final(out)@) == string_views(old(out)@) + side_of(texts, keys).added_from(
            key_views(base_keys@),
            key_views(before_keys@),
            0,
        ),
{
    let ghost side = side_of(texts, keys);
    let ghost base = key_views(base_keys@);
    let ghost before = key_views(before_keys@);
    let ghost start = string_views(out@);
    let mut i: usize = 0;
    assert(start + side.added_from(base, before, 0) =~= string_views(out@) + side.added_from(
        base,
        before,
        0,
    ));
    while i < texts.len()
        invariant
            i <= texts.len(),
            keys.len() == texts.len(),
            side == side_of(texts, keys),
            base == key_views(base_keys@),
            before == key_views(before_keys@),
            start + side.added_from(base, before, 0) == string_views(out@) + side.added_from(
                base,
                before,
                i as int,
            ),
        decreases texts.len() - i,
    {
        let ghost so_far = string_views(out@);
        assert(side.keys[i as int] == text_of(keys@[i as int]));
        assert(side.texts[i as int] == texts@[i as int]@);
        let mut taken = false;
        match &keys[i] {
            Some(k) => {
                if find_key(base_keys, k.as_str()).is_none() && find_key(
                    before_keys,
                    k.as_str(),
                ).is_none() && find_key(keys, k.as_str()) == Some(i) {
                    out.push(texts[i].clone());
                    assert(string_views(out@) =~= so_far + seq![texts@[i as int]@]);
                    taken = true;
                }
            },
            None => {},
        }
        if !taken {
            assert(string_views(out@) =~= so_far + Seq::<Seq<char>>::empty());
        }
        assert(so_far + (side.added_from(base, before, i as int)) =~= string_views(out@)
            + side.added_from(base, before, i + 1));
        i += 1;
    }
    assert(string_views(out@) + Seq::<Seq<char>>::empty() =~= string_views(out@));
}

/// Merges the entries of the three notebooks, with `keys[i]` as the key of
/// entry `i` of its side.
pub fn merge_entries(
    base: &Vec<String>,
    base_keys: &Vec<Option<String>>,
    local: &Vec<String>,
    local_keys: &Vec<Option<String>>,
    remote: &Vec<String>,
    remote_keys: &Vec<Option<String>>,
) -> (out: Vec<String>)
    requires
        base_keys.len() == base.len(),
        local_keys.len() == local.len(),
        remote_keys.len() == remote.len(),
    ensures
        string_views(out@) == merged_entries(
            side_of(base, base_keys),
            side_of(local, local_keys),
            side_of(remote, remote_keys),
        ),
{
    let ghost b = side_of(base, base_keys);
    let ghost l = side_of(local, local_keys);
    let ghost r = side_of(remote, remote_keys);
    let mut out: Vec<String> = Vec::new();
    let nobody: Vec<Option<String>> = Vec::new();
    assert(key_views(nobody@) =~= Seq::<Option<Seq<char>>>::empty());
    added_entries(local, local_keys, base_keys, &nobody, &mut out);
    added_entries(remote, remote_keys, base_keys, local_keys, &mut out);
    let ghost start = string_views(out@);
    let mut i: usize = 0;
    while i < base.len()
        invariant
            i <= base.len(),
            base_keys.len() == base.len(),
            local_keys.len() == local.len(),
            remote_keys.len() == remote.len(),
            b == side_of(base, base_keys),
            l == side_of(local, local_keys),
            r == side_of(remote, remote_keys),
            start + b.kept_from(l, r, 0) == string_views(out@) + b.kept_from(l, r, i as int),
        decreases base.len() - i,
    {
        let ghost so_far = string_views(out@);
        assert(b.keys[i as int] == text_of(base_keys@[i as int]));
        let mut taken = false;
        match &base_keys[i] {
            Some(k) => {
                if find_key(base_keys, k.as_str()) == Some(i) {
                    match find_key(local_keys, k.as_str()) {
                        Some(j) => {
                            assert(l.texts[j as int] == local@[j as int]@);
                            out.push(local[j].clone());
                            assert(string_views(out@) =~= so_far + seq![local@[j as int]@]);
                            taken = true;
                        },
                        None => match find_key(remote_keys, k.as_str()) {
                            Some(j) => {
                                assert(r.texts[j as int] == remote@[j as int]@);
                                out.push(remote[j].clone());
                                assert(string_views(out@) =~= so_far + seq![remote@[j as int]@]);
                                taken = true;
                            },
                            None => {},
                        },
                    }
                }
            },
            None => {},
        }
        if !taken {
            assert(string_views(out@) =~= so_far + Seq::<Seq<char>>::empty());
        }
        assert(so_far + b.kept_from(l, r, i as int) =~= string_views(out@) + b.kept_from(
            l,
            r,
            i + 1,
        ));
        i += 1;
    }
    assert(string_views(out@) + Seq::<Seq<char>>::empty() =~= string_views(out@));
    out
}

/// The keys of the entries: their words in lower case.
pub fn entry_keys(entries: &Vec<String>) -> (keys: Vec<Option<String>>)
    ensures
        keys.len() == entries.len(),
        forall|i: int|
            0 <= i < keys.len() ==> text_of(#[trigger] keys[i]) == match entry_word(entries[i]@) {
                Some(w) => Some(lowercase(w)),
                None => None,
            },
{
    let mut keys: Vec<Option<String>> = Vec::new();
    let mut i: usize = 0;
    while i < entries.len()
        invariant
            i <= entries.len(),
            keys.len() == i,
            forall|j: int|
                0 <= j < i ==> text_of(#[trigger] keys[j]) == match entry_word(entries[j]@) {
                    Some(w) => Some(lowercase(w)),
                    None => None,
                },
        decreases entries.len() - i,
    {
        let key = match extract_word_from_entry(entries[i].as_str()) {
            Some(w) => Some(w.as_str().to_lowercase()),
            None => None,
        };
        keys.push(key);
        i += 1;
    }
    keys
}

/// Merges the three notebooks entry by entry.
pub fn three_way_merge_vocabulary(base_content: &str, local_content: &str, remote_content: &str) -> (out:
    String)
    ensures
        out@ == join(
            merged_entries(
                Side::of(base_content@),
                Side::of(local_content@),
                Side::of(remote_content@),
            ),
            entry_joint(),
        ),
{
    let base = parse_vocabulary_entries(base_content);
    let local = parse_vocabulary_entries(local_content);
    let remote = parse_vocabulary_entries(remote_content);
    let base_keys = entry_keys(&base);
    let local_keys = entry_keys(&local);
    let remote_keys = entry_keys(&remote);
    assert(side_of(&base, &base_keys) == Side::of(base_content@)) by {
        assert(key_views(base_keys@) =~= Side::of(base_content@).keys);
    }
    assert(side_of(&local, &local_keys) == Side::of(local_content@)) by {
        assert(key_views(local_keys@) =~= Side::of(local_content@).keys);
    }
    assert(side_of(&remote, &remote_keys) == Side::of(remote_content@)) by {
        assert(key_views(remote_keys@) =~= Side::of(remote_content@).keys);
    }
    let merged = merge_entries(&base, &base_keys, &local, &local_keys, &remote, &remote_keys);
    let mut ls: Vec<Vec<char>> = Vec::new();
    crate::notebook::push_lines(&mut ls, &merged);
    assert(views(ls@) =~= string_views(merged@));
    let joint = to_chars("\n\n---\n\n");
    from_chars(&join_parts(&ls, &joint))
}

/// How the local branch stands to the remote one.
#[derive(Debug, Clone, Copy, PartialEq, Eq, Structural)]
pub enum Divergence {
    /// Both are at the same commit.
    Level,
    /// The remote branch is an ancestor of the local one.
    LocalAhead,
    /// The local branch is an ancestor of the remote one.
    RemoteAhead,
    /// Each has commits that the other lacks.
    Diverged,
}

/// How the local branch stands to the remote one, from their commits and
/// their common ancestor.
pub open spec fn divergence_of(local: Seq<char>, remote: Seq<char>, base: Seq<char>) -> Divergence {
    if remote == local {
        Divergence::Level
    } else if base == remote {
        Divergence::LocalAhead
    } else if base == local {
        Divergence::RemoteAhead
    } else {
        Divergence::Diverged
    }
}

/// Finds how the local branch stands to the remote one.
pub fn divergence(local: &str, remote: &str, merge_base: &str) -> (r: Divergence)
    ensures
        r == divergence_of(local@, remote@, merge_base@),
{
    if same_text(remote, local) {
        Divergence::Level
    } else if same_text(merge_base, remote) {
        Divergence::LocalAhead
    } else if same_text(merge_base, local) {
        Divergence::RemoteAhead
    } else {
        Divergence::Diverged
    }
}

} // verus!
