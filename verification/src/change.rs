//! How a section differs between two snapshots of the notebook.

use crate::notebook::text_of;
use vstd::prelude::*;

verus! {

/// The kind of a change.
#[derive(Debug, Clone, Copy, PartialEq, Eq, Structural)]
pub enum ChangeType {
    /// The section stands in the new snapshot only.
    Added,
    /// The section stands in the old snapshot only.
    Deleted,
    /// The section stands in both, with different text.
    Modified,
}

/// One change to one section.
#[derive(Debug)]
pub struct SectionChange {
    pub change_type: ChangeType,
    /// The identity of the section.
    pub word: String,
    pub old_content: Option<String>,
    pub new_content: Option<String>,
    pub old_timestamp: Option<String>,
    pub new_timestamp: Option<String>,
}

/// A change as a mathematical value.
pub struct ChangeView {
    pub change_type: ChangeType,
    pub word: Seq<char>,
    pub old_content: Option<Seq<char>>,
    pub new_content: Option<Seq<char>>,
    pub old_timestamp: Option<Seq<char>>,
    pub new_timestamp: Option<Seq<char>>,
}

impl View for SectionChange {
    type V = ChangeView;

    open spec fn view(&self) -> ChangeView {
        ChangeView {
            change_type: self.change_type,
            word: self.word@,
            old_content: text_of(self.old_content),
            new_content: text_of(self.new_content),
            old_timestamp: text_of(self.old_timestamp),
            new_timestamp: text_of(self.new_timestamp),
        }
    }
}

/// The views of a vector of changes, element by element.
pub open spec fn change_views(v: Seq<SectionChange>) -> Seq<ChangeView> {
    Seq::new(v.len(), |i: int| v[i]@)
}

impl ChangeView {
    /// Whether the change holds what its kind asks for: an added section has
    /// nothing old, a deleted section nothing new, a modified section both
    /// texts.
    pub open spec fn wf(self) -> bool {
        match self.change_type {
            ChangeType::Added => self.old_content is None && self.old_timestamp is None
                && self.new_content is Some,
            ChangeType::Deleted => self.new_content is None && self.new_timestamp is None
                && self.old_content is Some,
            ChangeType::Modified => self.old_content is Some && self.new_content is Some,
        }
    }

    /// The latest timestamp that the change bears: the new one where there
    /// is one, else the old one.
    pub open spec fn latest_timestamp(self) -> Option<Seq<char>> {
        if self.new_timestamp is Some {
            self.new_timestamp
        } else {
            self.old_timestamp
        }
    }
}

/// A copy of an optional string.
pub fn copy_text(o: &Option<String>) -> (r: Option<String>)
    ensures
        text_of(r) == text_of(*o),
{
    match o {
        Some(s) => Some(s.clone()),
        None => None,
    }
}

impl SectionChange {
    /// A copy of the change.
    pub fn duplicate(&self) -> (r: SectionChange)
        ensures
            r@ == self@,
    {
        SectionChange {
            change_type: self.change_type,
            word: self.word.clone(),
            old_content: copy_text(&self.old_content),
            new_content: copy_text(&self.new_content),
            old_timestamp: copy_text(&self.old_timestamp),
            new_timestamp: copy_text(&self.new_timestamp),
        }
    }

    /// The latest timestamp that the change bears.
    pub fn latest_timestamp(&self) -> (r: Option<&String>)
        ensures
            match r {
                Some(s) => self@.latest_timestamp() == Some(s@),
                None => self@.latest_timestamp() is None,
            },
    {
        match &self.new_timestamp {
            Some(s) => Some(s),
            None => match &self.old_timestamp {
                Some(s) => Some(s),
                None => None,
            },
        }
    }
}

/// The changes of one side since the common parent, and that parent.
#[derive(Debug)]
pub struct SectionChanges {
    pub local_changes: Vec<SectionChange>,
    pub has_common_parent: bool,
    pub common_parent_hash: Option<String>,
}

} // verus!
