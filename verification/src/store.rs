//! The notebook store: the text of the notebook file, held in memory, with
//! the two operations that change it. New entries go to the top; a section
//! leaves as a whole. Whoever owns the file reads it into a store and writes
//! the store's content back.

use crate::format::{marker_prefix, separator};
use crate::instant::{local_timestamp, stamp_text};
use crate::roundtrip::{crlf_free, lemma_prepend_round_trip, lemma_stamp_text_is_tame, plain};
use crate::lines::newline;
use crate::notebook::{
    body_carries, carries, parse_text, Notebook, NotebookView, SectionView,
};
use crate::text::{
    contains, from_chars, has_inside, is_blank, lowercase, push_all, same_chars, string_views,
    to_chars, trim, trimmed,
};
use vstd::prelude::*;

verus! {

/// Why a deletion did not take place.
#[derive(Debug, Clone, Copy, PartialEq, Eq, Structural)]
pub enum StoreError {
    /// No section matches.
    NotFound,
    /// Several sections bear the identity and no timestamp tells them apart.
    Ambiguous,
}

impl StoreError {
    /// The error in words.
    pub fn message(&self) -> (out: String)
        ensures
            out@ == match *self {
                StoreError::NotFound => "Entry not found in vocabulary notebook"@,
                StoreError::Ambiguous => "Several entries match: a timestamp is required"@,
            },
    {
        match self {
            StoreError::NotFound => String::from_str("Entry not found in vocabulary notebook"),
            StoreError::Ambiguous => String::from_str(
                "Several entries match: a timestamp is required",
            ),
        }
    }
}

/// Whether an entry already bears a timestamp marker and a separator.
pub open spec fn is_formatted(body: Seq<char>) -> bool {
    contains(body, marker_prefix()) && contains(body, separator())
}

/// The entry as it is stored: as it stands where it is formatted already,
/// else followed by a marker with the timestamp and by a separator. White
/// space around the entry is dropped.
pub open spec fn entry_text(body: Seq<char>, stamp: Seq<char>) -> Seq<char> {
    if is_formatted(body) {
        trim(body)
    } else {
        trim(body) + "\n\n<!-- timestamp="@ + stamp + " -->\n\n---"@
    }
}

/// The content with the entry before everything else.
pub open spec fn prepended(existing: Seq<char>, body: Seq<char>, stamp: Seq<char>) -> Seq<char> {
    if is_blank(existing) {
        entry_text(body, stamp)
    } else {
        entry_text(body, stamp) + newline() + existing
    }
}

/// The keys of the sections: their identities in lower case.
pub open spec fn identity_keys(sections: Seq<SectionView>) -> Seq<Seq<char>> {
    Seq::new(sections.len(), |i: int| lowercase(sections[i].identity))
}

/// Whether a section with the given key and body is the one looked for: its
/// key is `key`, where one is given, and a timestamp marker of its body holds
/// `stamp`, where one is given.
pub open spec fn selects(
    section_key: Seq<char>,
    body: Seq<Seq<char>>,
    key: Option<Seq<char>>,
    stamp: Option<Seq<char>>,
) -> bool {
    &&& key matches Some(k) ==> section_key == k
    &&& stamp matches Some(t) ==> carries(body, t)
}

/// The first section at or after `from` that is selected.
pub open spec fn hit_from(
    keys: Seq<Seq<char>>,
    sections: Seq<SectionView>,
    key: Option<Seq<char>>,
    stamp: Option<Seq<char>>,
    from: int,
) -> Option<int>
    decreases sections.len() - from,
{
    if from < 0 || from >= sections.len() {
        None
    } else if selects(keys[from], sections[from].body, key, stamp) {
        Some(from)
    } else {
        hit_from(keys, sections, key, stamp, from + 1)
    }
}

/// What a deletion does to a notebook. The first selected section leaves.
/// Without a timestamp a second selected section makes the request ambiguous.
pub open spec fn deletion(
    nb: NotebookView,
    keys: Seq<Seq<char>>,
    key: Option<Seq<char>>,
    stamp: Option<Seq<char>>,
) -> Result<NotebookView, StoreError> {
    match hit_from(keys, nb.sections, key, stamp, 0) {
        None => Err(StoreError::NotFound),
        Some(k) => if stamp is None && hit_from(keys, nb.sections, key, stamp, k + 1) is Some {
            Err(StoreError::Ambiguous)
        } else {
            Ok(nb.without(k))
        },
    }
}

/// What a deletion does to the content of a store.
pub open spec fn content_deletion(
    content: Seq<char>,
    key: Option<Seq<char>>,
    stamp: Option<Seq<char>>,
) -> Result<Seq<char>, StoreError> {
    let nb = parse_text(content);
    match deletion(nb, identity_keys(nb.sections), key, stamp) {
        Ok(left) => Ok(left.text()),
        Err(e) => Err(e),
    }
}

/// What `hit_from` returns is the first selected section from `from` on.
pub proof fn lemma_hit_from(
    keys: Seq<Seq<char>>,
    sections: Seq<SectionView>,
    key: Option<Seq<char>>,
    stamp: Option<Seq<char>>,
    from: int,
)
    requires
        0 <= from,
    ensures
        match hit_from(keys, sections, key, stamp, from) {
            Some(k) => from <= k < sections.len() && selects(keys[k], sections[k].body, key, stamp)
                && forall|j: int|
                from <= j < k ==> !selects(keys[j], #[trigger] sections[j].body, key, stamp),
            None => forall|j: int|
                from <= j < sections.len() ==> !selects(
                    keys[j],
                    #[trigger] sections[j].body,
                    key,
                    stamp,
                ),
        },
    decreases sections.len() - from,
{
    if from < sections.len() && !selects(keys[from], sections[from].body, key, stamp) {
        lemma_hit_from(keys, sections, key, stamp, from + 1);
    }
}

/// A deletion that selects no section fails with `NotFound`, and only
/// such a deletion does.
pub proof fn lemma_not_found_iff_absent(
    content: Seq<char>,
    key: Option<Seq<char>>,
    stamp: Option<Seq<char>>,
)
    ensures
        content_deletion(content, key, stamp) == Err::<Seq<char>, StoreError>(StoreError::NotFound)
            <==> forall|k: int|
            0 <= k < parse_text(content).sections.len() ==> !selects(
                identity_keys(parse_text(content).sections)[k],
                #[trigger] parse_text(content).sections[k].body,
                key,
                stamp,
            ),
{
    let nb = parse_text(content);
    lemma_hit_from(identity_keys(nb.sections), nb.sections, key, stamp, 0);
}

/// Formats an entry for the store.
pub fn format_entry(body: &str, stamp: &str) -> (out: String)
    ensures
        out@ == entry_text(body@, stamp@),
{
    let chars = to_chars(body);
    let prefix = to_chars("<!-- timestamp=");
    let sep = to_chars("---");
    let mut out = trimmed(&chars);
    if !(has_inside(&chars, &prefix) && has_inside(&chars, &sep)) {
        let open = to_chars("\n\n<!-- timestamp=");
        let stamp_chars = to_chars(stamp);
        let close = to_chars(" -->\n\n---");
        push_all(&mut out, &open);
        push_all(&mut out, &stamp_chars);
        push_all(&mut out, &close);
    }
    from_chars(&out)
}

/// The content with the entry before everything else.
pub fn prepend_entry(existing: &str, body: &str, stamp: &str) -> (out: String)
    ensures
        out@ == prepended(existing@, body@, stamp@),
{
    let entry = format_entry(body, stamp);
    let old_chars = to_chars(existing);
    let core = trimmed(&old_chars);
    if core.len() == 0 {
        entry
    } else {
        let mut out = to_chars(entry.as_str());
        out.push('\n');
        push_all(&mut out, &old_chars);
        assert(out@ =~= entry@ + newline() + existing@);
        from_chars(&out)
    }
}

impl Notebook {
    /// The keys of the sections: their identities in lower case.
    pub fn section_keys(&self) -> (keys: Vec<String>)
        ensures
            keys.len() == self.sections.len(),
            string_views(keys@) == identity_keys(self@.sections),
    {
        let mut keys: Vec<String> = Vec::new();
        let mut i: usize = 0;
        while i < self.sections.len()
            invariant
                i <= self.sections.len(),
                keys.len() == i,
                string_views(keys@) == identity_keys(self@.sections).take(i as int),
            decreases self.sections.len() - i,
        {
            let ghost before = string_views(keys@);
            let key = self.sections[i].identity.as_str().to_lowercase();
            keys.push(key);
            assert(string_views(keys@) =~= before.push(key@));
            assert(identity_keys(self@.sections).take(i + 1) =~= before.push(key@));
            i += 1;
        }
        assert(identity_keys(self@.sections).take(self.sections.len() as int) =~= identity_keys(
            self@.sections,
        ));
        keys
    }

    /// Finds the first selected section at or after `from`, with `keys[i]`
    /// as the key of section `i`.
    pub fn select_from(
        &self,
        keys: &Vec<String>,
        key: Option<&str>,
        stamp: Option<&str>,
        from: usize,
    ) -> (r: Option<usize>)
        requires
            keys.len() == self.sections.len(),
        ensures
            match r {
                Some(k) => hit_from(
                    string_views(keys@),
                    self@.sections,
                    key_view(key),
                    key_view(stamp),
                    from as int,
                ) == Some(k as int) && k < self.sections.len(),
                None => hit_from(
                    string_views(keys@),
                    self@.sections,
                    key_view(key),
                    key_view(stamp),
                    from as int,
                ) is None,
            },
    {
        let stamp_chars: Option<Vec<char>> = match stamp {
            Some(t) => Some(to_chars(t)),
            None => None,
        };
        let n: usize = self.sections.len();
        let mut i: usize = from;
        while i < n
            invariant
                from <= i,
                n == self.sections.len(),
                keys.len() == n,
                match stamp_chars {
                    Some(t) => stamp is Some && t@ == stamp.unwrap()@,
                    None => stamp is None,
                },
                hit_from(
                    string_views(keys@),
                    self@.sections,
                    key_view(key),
                    key_view(stamp),
                    from as int,
                ) == hit_from(
                    string_views(keys@),
                    self@.sections,
                    key_view(key),
                    key_view(stamp),
                    i as int,
                ),
            decreases n - i,
        {
            let key_ok = match key {
                Some(k) => {
                    let same = to_chars(keys[i].as_str());
                    let wanted = to_chars(k);
                    same_chars(&same, &wanted)
                },
                None => true,
            };
            let stamp_ok = match &stamp_chars {
                Some(t) => body_carries(&self.sections[i].body, t),
                None => true,
            };
            assert(string_views(keys@)[i as int] == keys@[i as int]@);
            assert(self@.sections[i as int].body == string_views(self.sections@[i as int].body@));
            if key_ok && stamp_ok {
                return Some(i);
            }
            i += 1;
        }
        None
    }

    /// Deletes the section that `key` and `stamp` select, with `keys[i]` as
    /// the key of section `i`.
    pub fn delete(&mut self, keys: &Vec<String>, key: Option<&str>, stamp: Option<&str>) -> (r:
        Result<(), StoreError>)
        requires
            keys.len() == old(self).sections.len(),
        ensures
            match r {
                Ok(()) => deletion(old(self)@, string_views(keys@), key_view(key), key_view(stamp))
                    == Ok::<NotebookView, StoreError>(final(self)@),
                Err(e) => deletion(old(self)@, string_views(keys@), key_view(key), key_view(stamp))
                    == Err::<NotebookView, StoreError>(e) && *final(self) == *old(self),
            },
    {
        match self.select_from(keys, key, stamp, 0) {
            None => Err(StoreError::NotFound),
            Some(k) => {
                if stamp.is_none() && self.select_from(keys, key, stamp, k + 1).is_some() {
                    return Err(StoreError::Ambiguous);
                }
                self.remove(k);
                Ok(())
            },
        }
    }
}

/// The view of an optional string slice.
pub open spec fn key_view(o: Option<&str>) -> Option<Seq<char>> {
    match o {
        Some(s) => Some(s@),
        None => None,
    }
}

/// The text of the notebook file, held in memory.
#[derive(Debug)]
pub struct NotebookStore {
    pub content: String,
}

impl NotebookStore {
    /// A store that holds `content`.
    pub fn new(content: String) -> (store: NotebookStore)
        ensures
            store.content@ == content@,
    {
        NotebookStore { content }
    }

    /// The sections of the store, in the order of the file.
    pub fn notebook(&self) -> (nb: Notebook)
        ensures
            nb@ == parse_text(self.content@),
    {
        Notebook::parse(self.content.as_str())
    }

    /// Puts an entry before everything else, stamped with `stamp` unless it
    /// is formatted already.
    pub fn prepend_at(&mut self, body: &str, stamp: &str)
        ensures
            final(self).content@ == prepended(old(self).content@, body@, stamp@),
    {
        self.content = prepend_entry(self.content.as_str(), body, stamp);
    }

    /// Puts an entry before everything else, stamped with the local time
    /// unless it is formatted already.
    ///
    /// Where the entry holds no carriage return before a line feed, on top
    /// of a content that is blank or plain, the new content is read and
    /// written out again as it stands.
    pub fn prepend(&mut self, body: &str)
        ensures
            exists|stamp: Seq<char>|
                stamp_text(stamp) && final(self).content@ == prepended(
                    old(self).content@,
                    body@,
                    stamp,
                ),
            is_formatted(body@) ==> final(self).content@ == prepended(
                old(self).content@,
                body@,
                Seq::empty(),
            ),
            crlf_free(trim(body@)) && (is_blank(old(self).content@) || plain(old(self).content@))
                ==> parse_text(final(self).content@).text() == final(self).content@ && plain(
                final(self).content@,
            ),
    {
        let stamp = local_timestamp();
        proof {
            lemma_stamp_text_is_tame(stamp@);
            if crlf_free(trim(body@)) && (is_blank(self.content@) || plain(self.content@)) {
                lemma_prepend_round_trip(self.content@, body@, stamp@);
            }
        }
        self.content = prepend_entry(self.content.as_str(), body, stamp.as_str());
    }

    /// Deletes the first section with a timestamp marker that holds `stamp`.
    /// Where no section has one the content stays as it is.
    pub fn delete_by_timestamp(&mut self, stamp: &str) -> (r: Result<(), StoreError>)
        ensures
            match r {
                Ok(()) => content_deletion(old(self).content@, None, Some(stamp@)) == Ok::<
                    Seq<char>,
                    StoreError,
                >(final(self).content@),
                Err(e) => e == StoreError::NotFound && content_deletion(
                    old(self).content@,
                    None,
                    Some(stamp@),
                ) == Err::<Seq<char>, StoreError>(e) && *final(self) == *old(self),
            },
    {
        let mut nb = self.notebook();
        let keys = nb.section_keys();
        match nb.delete(&keys, None, Some(stamp)) {
            Ok(()) => {
                self.content = nb.to_text();
                Ok(())
            },
            Err(e) => Err(e),
        }
    }

    /// Deletes the section named `identity`, whatever the case of its
    /// letters. With a timestamp, the first such section with a marker that
    /// holds it leaves; without one, the only such section. Where the
    /// deletion fails the content stays as it is.
    pub fn delete(&mut self, identity: &str, stamp: Option<&str>) -> (r: Result<(), StoreError>)
        ensures
            match r {
                Ok(()) => content_deletion(
                    old(self).content@,
                    Some(lowercase(identity@)),
                    key_view(stamp),
                ) == Ok::<Seq<char>, StoreError>(final(self).content@),
                Err(e) => content_deletion(
                    old(self).content@,
                    Some(lowercase(identity@)),
                    key_view(stamp),
                ) == Err::<Seq<char>, StoreError>(e) && *final(self) == *old(self),
            },
    {
        let mut nb = self.notebook();
        let keys = nb.section_keys();
        let key = identity.to_lowercase();
        match nb.delete(&keys, Some(key.as_str()), stamp) {
            Ok(()) => {
                self.content = nb.to_text();
                Ok(())
            },
            Err(e) => Err(e),
        }
    }
}

} // verus!
