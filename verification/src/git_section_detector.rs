//! The change detector: what each side did to the sections of the notebook
//! since the common parent of the two branches. Where the branches have no
//! common parent every section of a side counts as added by it.

use crate::change::{change_views, copy_text, ChangeType, ChangeView, SectionChange, SectionChanges};
use crate::diff::{diff_changes, join_strings, parse_diff_for_sections};
use crate::format::{heading_marker, marker_text, read_marker};
use crate::lines::{join, join_parts, lines, newline};
use crate::notebook::{
    parse_text, push_lines, text_of, Notebook, Section, SectionView,
};
use crate::paths::{parent_of, relative_path_from, relative_to, PathError};
use crate::sync::{text_is_blank, trim_text, Event};
use crate::text::{from_chars, is_blank, push_all, string_views, to_chars, trim, views};
use vstd::prelude::*;

verus! {

/// The change that adds a section.
pub open spec fn added_change(s: SectionView) -> ChangeView {
    ChangeView {
        change_type: ChangeType::Added,
        word: s.identity,
        old_content: None,
        new_content: Some(s.content()),
        old_timestamp: None,
        new_timestamp: s.timestamp,
    }
}

/// The changes that add the sections, one for each.
pub open spec fn added_changes(sections: Seq<SectionView>) -> Seq<ChangeView> {
    Seq::new(sections.len(), |i: int| added_change(sections[i]))
}

/// The common parent that the search for one reported: the commit it
/// printed, or none where it failed or printed nothing.
pub open spec fn common_parent_of(ok: bool, out: Seq<char>) -> Option<Seq<char>> {
    if ok && !is_blank(out) {
        Some(trim(out))
    } else {
        None
    }
}

/// The timestamp that a marker line bears, or the empty text.
pub open spec fn timestamp_or_empty(line: Seq<char>) -> Seq<char> {
    match marker_text(line) {
        Some(t) => t,
        None => Seq::empty(),
    }
}

impl Section {
    /// The section from its heading to its separator, as one text.
    pub fn content(&self) -> (out: String)
        ensures
            out@ == self@.content(),
    {
        let mut ls: Vec<Vec<char>> = Vec::new();
        let mut first = to_chars("## ");
        let heading = to_chars(self.heading.as_str());
        push_all(&mut first, &heading);
        ls.push(first);
        assert(views(ls@) =~= seq![heading_marker() + self@.heading]);
        push_lines(&mut ls, &self.body);
        let sep = to_chars("\n");
        proof {
            reveal_strlit("\n");
            assert(sep@ =~= newline());
        }
        from_chars(&join_parts(&ls, &sep))
    }

    /// The lines of the section behind its heading line, as one text.
    pub fn body_text(&self) -> (out: String)
        ensures
            out@ == join(self@.body, newline()),
    {
        join_strings(&self.body)
    }

    /// The change that adds the section.
    pub fn as_added(&self) -> (c: SectionChange)
        ensures
            c@ == added_change(self@),
    {
        SectionChange {
            change_type: ChangeType::Added,
            word: self.identity.clone(),
            old_content: None,
            new_content: Some(self.content()),
            old_timestamp: None,
            new_timestamp: copy_text(&self.timestamp),
        }
    }
}

/// The names of the sections of a notebook, in the order of the file.
pub open spec fn words_of(sections: Seq<SectionView>) -> Seq<Seq<char>> {
    Seq::new(sections.len(), |i: int| sections[i].identity)
}

/// The words that a notebook holds: the names of its sections.
pub fn parse_saved_words(content: &str) -> (out: Vec<String>)
    ensures
        string_views(out@) == words_of(parse_text(content@).sections),
{
    let nb = Notebook::parse(content);
    let mut out: Vec<String> = Vec::new();
    let mut i: usize = 0;
    while i < nb.sections.len()
        invariant
            i <= nb.sections.len(),
            nb@ == parse_text(content@),
            string_views(out@) == words_of(nb@.sections).take(i as int),
        decreases nb.sections.len() - i,
    {
        let ghost before = string_views(out@);
        let word = nb.sections[i].identity.clone();
        out.push(word);
        assert(string_views(out@) =~= before.push(word@));
        assert(words_of(nb@.sections).take(i + 1) =~= before.push(word@));
        i += 1;
    }
    assert(words_of(nb@.sections).take(nb.sections.len() as int) =~= words_of(nb@.sections));
    out
}

/// The sections of a notebook as changes that add them.
pub fn sections_as_added(content: &str) -> (out: Vec<SectionChange>)
    ensures
        change_views(out@) == added_changes(parse_text(content@).sections),
{
    let nb = Notebook::parse(content);
    let mut out: Vec<SectionChange> = Vec::new();
    let mut i: usize = 0;
    while i < nb.sections.len()
        invariant
            i <= nb.sections.len(),
            nb@ == parse_text(content@),
            change_views(out@) == added_changes(nb@.sections).take(i as int),
        decreases nb.sections.len() - i,
    {
        let ghost before = change_views(out@);
        let c = nb.sections[i].as_added();
        out.push(c);
        assert(change_views(out@) =~= before.push(c@));
        assert(added_changes(nb@.sections).take(i + 1) =~= before.push(c@));
        i += 1;
    }
    assert(added_changes(nb@.sections).take(nb.sections.len() as int) =~= added_changes(
        nb@.sections,
    ));
    out
}

/// The detector of one notebook.
#[derive(Debug)]
pub struct GitSectionDetector {
    pub work_dir: String,
    pub vocabulary_file: String,
}

/// The view of what the remote side's changes are read as.
pub open spec fn detected_view(r: Result<Vec<SectionChange>, String>) -> Result<
    Seq<ChangeView>,
    Seq<char>,
> {
    match r {
        Ok(v) => Ok(change_views(v@)),
        Err(e) => Err(e@),
    }
}

/// The remote side's changes. With a common parent they are read out of the
/// diff from it to the remote branch, and without that diff there is no
/// answer. Without a common parent they are the sections of the remote
/// notebook, and no sections where it cannot be shown.
pub open spec fn remote_changes_of(has_parent: bool, ok: bool, text: Seq<char>) -> Result<
    Seq<ChangeView>,
    Seq<char>,
> {
    if has_parent {
        if ok {
            Ok(diff_changes(lines(text)))
        } else {
            Err(text)
        }
    } else if ok {
        Ok(added_changes(parse_text(text).sections))
    } else {
        Ok(Seq::empty())
    }
}

impl GitSectionDetector {
    /// The detector of the notebook at the given path, with the given
    /// parent of that path.
    pub fn with_parent(vocabulary_file: &str, parent: Option<String>) -> (r: Result<
        GitSectionDetector,
        PathError,
    >)
        ensures
            match (r, parent) {
                (Ok(d), Some(dir)) => d.work_dir == dir && d.vocabulary_file@ == vocabulary_file@,
                (Err(e), None) => e == PathError::NoParent,
                _ => false,
            },
    {
        match parent {
            Some(dir) => Ok(
                GitSectionDetector {
                    work_dir: dir,
                    vocabulary_file: String::from_str(vocabulary_file),
                },
            ),
            None => Err(PathError::NoParent),
        }
    }

    /// The detector of the notebook at the given path. It fails exactly
    /// where the path has no parent.
    pub fn new(vocabulary_file: &str) -> (r: Result<GitSectionDetector, PathError>)
        ensures
            match r {
                Ok(d) => d.vocabulary_file@ == vocabulary_file@,
                Err(e) => e == PathError::NoParent,
            },
            vocabulary_file@.len() == 0 ==> r is Err,
    {
        GitSectionDetector::with_parent(vocabulary_file, parent_of(vocabulary_file))
    }

    /// Reads the common parent out of the outcome of the search for it.
    pub fn find_common_parent(&self, outcome: &Event) -> (r: Option<String>)
        ensures
            text_of(r) == common_parent_of(outcome@.ok, outcome@.text),
    {
        match outcome {
            Event::Done(out) => {
                if text_is_blank(out.as_str()) {
                    None
                } else {
                    Some(trim_text(out.as_str()))
                }
            },
            Event::Failed(_) => None,
        }
    }

    /// The local side's changes: with a common parent, those that the diff
    /// from it to the local branch holds; without one, the sections of the
    /// local notebook. `text` is that diff, or that notebook.
    pub fn detect_section_changes(&self, common_parent: Option<String>, text: &str) -> (r:
        SectionChanges)
        ensures
            r.common_parent_hash == common_parent,
            r.has_common_parent == common_parent is Some,
            change_views(r.local_changes@) == if common_parent is Some {
                diff_changes(lines(text@))
            } else {
                added_changes(parse_text(text@).sections)
            },
    {
        match common_parent {
            Some(hash) => SectionChanges {
                local_changes: self.get_changes_since_commit(text),
                has_common_parent: true,
                common_parent_hash: Some(hash),
            },
            None => SectionChanges {
                local_changes: self.get_all_local_sections_as_new(text),
                has_common_parent: false,
                common_parent_hash: None,
            },
        }
    }

    /// The remote side's changes, from the outcome of the diff against the
    /// common parent, or of showing the remote notebook where there is none.
    pub fn detect_remote_changes(&self, common_parent: Option<&str>, outcome: &Event) -> (r: Result<
        Vec<SectionChange>,
        String,
    >)
        ensures
            detected_view(r) == remote_changes_of(
                common_parent is Some,
                outcome@.ok,
                outcome@.text,
            ),
    {
        match common_parent {
            Some(_) => match outcome {
                Event::Done(diff) => Ok(self.parse_diff_for_sections(diff.as_str())),
                Event::Failed(msg) => Err(msg.clone()),
            },
            None => Ok(self.get_all_remote_sections_as_new(outcome)),
        }
    }

    /// The changes that a diff from the common parent holds.
    pub fn get_changes_since_commit(&self, diff_output: &str) -> (out: Vec<SectionChange>)
        ensures
            change_views(out@) == diff_changes(lines(diff_output@)),
    {
        self.parse_diff_for_sections(diff_output)
    }

    /// The sections of the local notebook as changes that add them.
    pub fn get_all_local_sections_as_new(&self, content: &str) -> (out: Vec<SectionChange>)
        ensures
            change_views(out@) == added_changes(parse_text(content@).sections),
    {
        sections_as_added(content)
    }

    /// The sections of the remote notebook as changes that add them; none
    /// where the notebook could not be shown.
    pub fn get_all_remote_sections_as_new(&self, outcome: &Event) -> (out: Vec<SectionChange>)
        ensures
            change_views(out@) == if outcome@.ok {
                added_changes(parse_text(outcome@.text).sections)
            } else {
                Seq::empty()
            },
    {
        match outcome {
            Event::Done(content) => sections_as_added(content.as_str()),
            Event::Failed(_) => {
                let out: Vec<SectionChange> = Vec::new();
                assert(change_views(out@) =~= Seq::empty());
                out
            },
        }
    }

    /// Reads the section changes out of the text of a unified diff.
    pub fn parse_diff_for_sections(&self, diff_output: &str) -> (out: Vec<SectionChange>)
        ensures
            change_views(out@) == diff_changes(lines(diff_output@)),
    {
        parse_diff_for_sections(diff_output)
    }

    /// The sections of a notebook: for each its name, its text from heading
    /// to separator, and its timestamp. The timestamp is the empty text where
    /// the section has no marker, or one that is no instant in the notation
    /// of RFC 3339.
    pub fn parse_vocabulary_content(&self, content: &str) -> (out: Vec<(String, String, String)>)
        ensures
            out.len() == parse_text(content@).sections.len(),
            forall|i: int|
                0 <= i < out.len() ==> {
                    let s = parse_text(content@).sections[i];
                    &&& (#[trigger] out[i]).0@ == s.identity
                    &&& out[i].1@ == s.content()
                    &&& out[i].2@ == match s.timestamp {
                        Some(t) => t,
                        None => Seq::empty(),
                    }
                },
    {
        let nb = Notebook::parse(content);
        let mut out: Vec<(String, String, String)> = Vec::new();
        let mut i: usize = 0;
        while i < nb.sections.len()
            invariant
                i <= nb.sections.len(),
                nb@ == parse_text(content@),
                out.len() == i,
                forall|j: int|
                    0 <= j < i ==> {
                        let s = nb@.sections[j];
                        &&& (#[trigger] out[j]).0@ == s.identity
                        &&& out[j].1@ == s.content()
                        &&& out[j].2@ == match s.timestamp {
                            Some(t) => t,
                            None => Seq::empty(),
                        }
                    },
            decreases nb.sections.len() - i,
        {
            let s = &nb.sections[i];
            assert(nb@.sections[i as int] == s@);
            let stamp = match &s.timestamp {
                Some(t) => t.clone(),
                None => String::new(),
            };
            out.push((s.identity.clone(), s.content(), stamp));
            i += 1;
        }
        out
    }

    /// The timestamp that a marker line bears, or the empty text.
    pub fn extract_timestamp_from_line(&self, line: &str) -> (out: String)
        ensures
            out@ == timestamp_or_empty(line@),
    {
        let chars = to_chars(line);
        match read_marker(&chars) {
            Some(t) => from_chars(&t),
            None => String::new(),
        }
    }

    /// The path of the notebook as seen from its directory. It fails
    /// exactly where the notebook does not lie below the directory.
    pub fn get_relative_vocabulary_path(&self) -> (r: Result<String, PathError>)
        ensures
            r matches Err(e) ==> e == PathError::NotWithin,
    {
        relative_path_from(relative_to(self.vocabulary_file.as_str(), self.work_dir.as_str()))
    }
}

} // verus!
