//! The synchronisation of the notebook with its remote, as a state machine.
//!
//! The machine decides and the caller acts: each step takes the outcome of
//! the last action and answers with the next action, until it answers with
//! `Finish` or `Fail`. Actions are operations of the version-control tool on
//! the notebook's directory, and reads and writes of the notebook file.
//!
//! ```text
//! Start -> Fetched -> HistoryChecked -> { FirstTimeSync | NormalSync }
//!       -> Merged -> Committed -> Pushed -> Done
//! ```

use crate::change::{change_views, ChangeView, SectionChange};
use crate::conflict::{classified, classify, conflict_views, ConflictView, SectionConflict};
use crate::diff::{diff_changes, parse_diff_for_sections};
use crate::lines::{lines, split_lines};
use crate::markers::{resolve_markers, settled_by};
use crate::merge::{plan_merge, steps_applied, Sides};
use crate::pairing::change_keys;
use crate::store::{prepend_entry, prepended, NotebookStore};
use crate::text::{
    contains, from_chars, has_inside, has_prefix, is_blank, starts_with, to_chars, trim, trimmed,
    views,
};
use vstd::prelude::*;

verus! {

/// How one synchronisation ended.
#[derive(Debug)]
pub enum SyncResult {
    /// The two sides were brought together.
    Success,
    /// There was nothing to bring together.
    NoChanges,
    /// The sides were brought together but for these conflicts, which are
    /// left to a person.
    Conflicts(Vec<SectionConflict>),
}

/// A result as a mathematical value.
pub enum ResultView {
    Success,
    NoChanges,
    Conflicts(Seq<ConflictView>),
}

impl View for SyncResult {
    type V = ResultView;

    open spec fn view(&self) -> ResultView {
        match *self {
            SyncResult::Success => ResultView::Success,
            SyncResult::NoChanges => ResultView::NoChanges,
            SyncResult::Conflicts(list) => ResultView::Conflicts(conflict_views(list@)),
        }
    }
}

/// What a commit is made for.
#[derive(Debug, Clone, Copy, PartialEq, Eq, Structural)]
pub enum Stage {
    /// The local edits, before anything is merged.
    LocalEdits,
    /// The local notebook of a first synchronisation without a remote branch.
    InitialLocal,
    /// The local notebook, put on top of the remote one.
    Prepended,
    /// The notebook after its conflicts were resolved.
    Resolved,
}

/// The message of a commit.
#[derive(Debug, Clone, Copy, PartialEq, Eq, Structural)]
pub enum CommitMessage {
    For(Stage),
    MergeRemote,
    MergeRemoteNoFileChanges,
    Fallback,
}

impl CommitMessage {
    /// The message as text.
    pub open spec fn spec_text(self) -> Seq<char> {
        match self {
            CommitMessage::For(Stage::LocalEdits) => "Update vocabulary"@,
            CommitMessage::For(Stage::InitialLocal) => "Initial sync: local content only"@,
            CommitMessage::For(Stage::Prepended) => "Prepend local content after initial sync"@,
            CommitMessage::For(Stage::Resolved) =>
                "Merge origin/main (resolved conflicts by preserving local changes)"@,
            CommitMessage::MergeRemote => "Merge remote changes"@,
            CommitMessage::MergeRemoteNoFileChanges => "Merge remote changes (no file changes)"@,
            CommitMessage::Fallback => "Apply local changes to remote base (fallback commit)"@,
        }
    }

    /// The message as text.
    pub fn text(&self) -> (out: String)
        ensures
            out@ == self.spec_text(),
    {
        match self {
            CommitMessage::For(Stage::LocalEdits) => String::from_str("Update vocabulary"),
            CommitMessage::For(Stage::InitialLocal) => String::from_str(
                "Initial sync: local content only",
            ),
            CommitMessage::For(Stage::Prepended) => String::from_str(
                "Prepend local content after initial sync",
            ),
            CommitMessage::For(Stage::Resolved) => String::from_str(
                "Merge origin/main (resolved conflicts by preserving local changes)",
            ),
            CommitMessage::MergeRemote => String::from_str("Merge remote changes"),
            CommitMessage::MergeRemoteNoFileChanges => String::from_str(
                "Merge remote changes (no file changes)",
            ),
            CommitMessage::Fallback => String::from_str(
                "Apply local changes to remote base (fallback commit)",
            ),
        }
    }
}

/// How the remote branch is merged.
#[derive(Debug, Clone, Copy, PartialEq, Eq, Structural)]
pub enum MergeMode {
    /// Without fast-forward and without a commit.
    NoCommit,
    /// Unrelated histories allowed; where both sides touched the same lines,
    /// the remote side's lines are taken.
    PreferTheirs,
}

/// What the machine asks its caller to do.
#[derive(Debug)]
pub enum Action {
    /// Stage every change in the directory.
    StageAll,
    /// List the paths that differ from the last commit.
    ListChangedPaths,
    Commit(CommitMessage),
    /// Fetch from the remote.
    Fetch,
    /// Ask whether the remote branch is known.
    VerifyRemoteBranch,
    /// Ask whether there is a local commit.
    VerifyHead,
    /// Find the common ancestor of the local and the remote branch.
    FindMergeBase,
    /// Count the local commits that the remote branch lacks.
    CountUnpushed,
    /// Count the remote commits that the local branch lacks.
    CountIncoming,
    /// Merge the remote branch.
    Merge(MergeMode),
    AbortMerge,
    /// Diff the notebook between the given commit and the local branch.
    DiffLocal(String),
    /// Diff the notebook between the given commit and the remote branch.
    DiffRemote(String),
    /// Read the notebook file.
    ReadNotebook,
    /// Write the notebook file.
    WriteNotebook(String),
    /// Show the notebook as the remote branch has it.
    ShowRemoteNotebook,
    Push,
    /// The synchronisation is over.
    Finish(SyncResult),
    /// The synchronisation failed with this message.
    Fail(String),
}

/// An action as a mathematical value.
pub enum ActionView {
    StageAll,
    ListChangedPaths,
    Commit(CommitMessage),
    Fetch,
    VerifyRemoteBranch,
    VerifyHead,
    FindMergeBase,
    CountUnpushed,
    CountIncoming,
    Merge(MergeMode),
    AbortMerge,
    DiffLocal(Seq<char>),
    DiffRemote(Seq<char>),
    ReadNotebook,
    WriteNotebook(Seq<char>),
    ShowRemoteNotebook,
    Push,
    Finish(ResultView),
    Fail(Seq<char>),
}

impl View for Action {
    type V = ActionView;

    open spec fn view(&self) -> ActionView {
        match *self {
            Action::StageAll => ActionView::StageAll,
            Action::ListChangedPaths => ActionView::ListChangedPaths,
            Action::Commit(m) => ActionView::Commit(m),
            Action::Fetch => ActionView::Fetch,
            Action::VerifyRemoteBranch => ActionView::VerifyRemoteBranch,
            Action::VerifyHead => ActionView::VerifyHead,
            Action::FindMergeBase => ActionView::FindMergeBase,
            Action::CountUnpushed => ActionView::CountUnpushed,
            Action::CountIncoming => ActionView::CountIncoming,
            Action::Merge(m) => ActionView::Merge(m),
            Action::AbortMerge => ActionView::AbortMerge,
            Action::DiffLocal(s) => ActionView::DiffLocal(s@),
            Action::DiffRemote(s) => ActionView::DiffRemote(s@),
            Action::ReadNotebook => ActionView::ReadNotebook,
            Action::WriteNotebook(s) => ActionView::WriteNotebook(s@),
            Action::ShowRemoteNotebook => ActionView::ShowRemoteNotebook,
            Action::Push => ActionView::Push,
            Action::Finish(r) => ActionView::Finish(r@),
            Action::Fail(s) => ActionView::Fail(s@),
        }
    }
}

impl ActionView {
    /// Whether the action ends the synchronisation.
    pub open spec fn is_last(self) -> bool {
        self is Finish || self is Fail
    }

    /// Whether the action changes the repository, the remote or the
    /// notebook file.
    pub open spec fn mutates(self) -> bool {
        self is Commit || self is Merge || self is AbortMerge || self is WriteNotebook
            || self is Push
    }
}

/// The outcome of an action: what it printed, or why it failed.
#[derive(Debug)]
pub enum Event {
    Done(String),
    Failed(String),
}

/// An outcome as a mathematical value.
pub struct EventView {
    pub ok: bool,
    pub text: Seq<char>,
}

impl View for Event {
    type V = EventView;

    open spec fn view(&self) -> EventView {
        match *self {
            Event::Done(s) => EventView { ok: true, text: s@ },
            Event::Failed(s) => EventView { ok: false, text: s@ },
        }
    }
}

/// Something worth telling the user.
#[derive(Debug, Clone, Copy, PartialEq, Eq, Structural)]
pub enum Notice {
    FetchFailed,
    FirstTimeSync,
    NothingToCommit,
    SkippingMerge,
    UpToDate,
    RemoteBranchMissing,
    ConflictsDetected,
    RolledBack,
    Degraded,
    PushFailed,
}

/// Where the machine stands: which outcome it waits for.
#[derive(Debug, Clone, Copy, PartialEq, Eq, Structural)]
pub enum Phase {
    Start,
    Staging(Stage),
    CheckingTree(Stage),
    Committing(Stage),
    CommittingFallback,
    Fetching,
    CheckingRemoteBranch,
    CheckingHead,
    FindingBase,
    CapturingLocal,
    MergingUnrelated,
    ReadingUnrelated,
    WritingPrepended,
    CountingUnpushed,
    CountingIncoming,
    Merging,
    CheckingMerged,
    CommittingMerge,
    ReadingConflicted,
    AbortingMerge,
    DiffingLocal,
    DiffingRemote,
    MergingTheirs,
    RollingBack,
    ReadingMerged,
    TakingRemote,
    WritingResolved,
    Pushing,
    Done,
    Aborted,
}

impl Phase {
    /// Whether the synchronisation is over.
    pub open spec fn is_last(self) -> bool {
        self == Phase::Done || self == Phase::Aborted
    }

    /// An upper bound for the steps that are left.
    pub open spec fn rank(self) -> nat {
        match self {
            Phase::Start => 42,
            Phase::Staging(Stage::LocalEdits) => 41,
            Phase::CheckingTree(Stage::LocalEdits) => 40,
            Phase::Committing(Stage::LocalEdits) => 39,
            Phase::Fetching => 38,
            Phase::CheckingRemoteBranch => 37,
            Phase::CheckingHead => 36,
            Phase::FindingBase => 35,
            Phase::CapturingLocal => 34,
            Phase::MergingUnrelated => 33,
            Phase::ReadingUnrelated => 32,
            Phase::WritingPrepended => 31,
            Phase::CountingUnpushed => 34,
            Phase::CountingIncoming => 33,
            Phase::Merging => 32,
            Phase::CheckingMerged => 31,
            Phase::CommittingMerge => 30,
            Phase::ReadingConflicted => 31,
            Phase::AbortingMerge => 30,
            Phase::DiffingLocal => 29,
            Phase::DiffingRemote => 28,
            Phase::MergingTheirs => 27,
            Phase::RollingBack => 26,
            Phase::ReadingMerged => 26,
            Phase::TakingRemote => 25,
            Phase::WritingResolved => 24,
            Phase::Staging(_) => 23,
            Phase::CheckingTree(_) => 22,
            Phase::Committing(_) => 21,
            Phase::CommittingFallback => 20,
            Phase::Pushing => 10,
            Phase::Done => 0,
            Phase::Aborted => 0,
        }
    }

    /// Whether the local edits are committed, or known to be none, once the
    /// machine stands here.
    pub open spec fn tree_settled(self) -> bool {
        match self {
            Phase::Start => false,
            Phase::Staging(Stage::LocalEdits) => false,
            Phase::CheckingTree(Stage::LocalEdits) => false,
            Phase::Committing(Stage::LocalEdits) => false,
            Phase::Aborted => false,
            _ => true,
        }
    }
}

/// The state of one synchronisation.
#[derive(Debug)]
pub struct SyncState {
    pub phase: Phase,
    /// Whether a remote is configured.
    pub has_remote: bool,
    /// The timestamp for entries that bear none.
    pub now: String,
    /// Whether this run committed local edits.
    pub committed: bool,
    /// Whether the remote branch is known.
    pub remote_branch: bool,
    /// Whether local commits are unpushed, where the count could be had.
    pub unpushed: Option<bool>,
    /// The local notebook, as captured before a first-time merge.
    pub local_content: String,
    /// The common ancestor of the two branches.
    pub base: String,
    /// The notebook as a merge with conflicts left it.
    pub conflicted: String,
    pub local_changes: Vec<SectionChange>,
    pub remote_changes: Vec<SectionChange>,
    /// The conflicts that could not be decided.
    pub unresolved: Vec<SectionConflict>,
}

/// A state as a mathematical value.
pub struct StateView {
    pub phase: Phase,
    pub has_remote: bool,
    pub now: Seq<char>,
    pub committed: bool,
    pub remote_branch: bool,
    pub unpushed: Option<bool>,
    pub local_content: Seq<char>,
    pub base: Seq<char>,
    pub conflicted: Seq<char>,
    pub local_changes: Seq<ChangeView>,
    pub remote_changes: Seq<ChangeView>,
    pub unresolved: Seq<ConflictView>,
}

impl View for SyncState {
    type V = StateView;

    open spec fn view(&self) -> StateView {
        StateView {
            phase: self.phase,
            has_remote: self.has_remote,
            now: self.now@,
            committed: self.committed,
            remote_branch: self.remote_branch,
            unpushed: self.unpushed,
            local_content: self.local_content@,
            base: self.base@,
            conflicted: self.conflicted@,
            local_changes: change_views(self.local_changes@),
            remote_changes: change_views(self.remote_changes@),
            unresolved: conflict_views(self.unresolved@),
        }
    }
}

/// One step of the machine: the state it goes to, the action it asks for,
/// and what there is to tell.
#[derive(Debug)]
pub struct Transition {
    pub state: SyncState,
    pub action: Action,
    pub notice: Option<Notice>,
}

/// A step as a mathematical value.
pub struct TransitionView {
    pub state: StateView,
    pub action: ActionView,
    pub notice: Option<Notice>,
}

impl View for Transition {
    type V = TransitionView;

    open spec fn view(&self) -> TransitionView {
        TransitionView { state: self.state@, action: self.action@, notice: self.notice }
    }
}

/// Whether the character is a decimal digit.
pub open spec fn is_digit(c: char) -> bool {
    '0' <= c <= '9'
}

/// Whether a count is above zero, where the text is a count: decimal digits
/// with white space around them.
pub open spec fn count_is_positive(out: Seq<char>) -> Option<bool> {
    let t = trim(out);
    if t.len() > 0 && forall|i: int| 0 <= i < t.len() ==> is_digit(#[trigger] t[i]) {
        Some(exists|i: int| 0 <= i < t.len() && #[trigger] t[i] != '0')
    } else {
        None
    }
}

/// Whether one of the lines opens a region that a merge left unresolved.
pub open spec fn has_conflict_markers(text: Seq<char>) -> bool {
    exists|i: int| 0 <= i < lines(text).len() && starts_with(#[trigger] lines(text)[i], "<<<<<<<"@)
}

/// Whether a failed merge reported a conflict.
pub open spec fn reports_conflict(msg: Seq<char>) -> bool {
    contains(msg, "CONFLICT"@) || contains(msg, "Automatic merge failed"@)
}

impl StateView {
    /// The step to `phase` with `action`.
    pub open spec fn go(self, phase: Phase, action: ActionView) -> TransitionView {
        TransitionView { state: StateView { phase, ..self }, action, notice: None }
    }

    /// The step to `phase` with `action` and something to tell.
    pub open spec fn tell(self, phase: Phase, action: ActionView, notice: Notice) -> TransitionView {
        TransitionView { state: StateView { phase, ..self }, action, notice: Some(notice) }
    }

    /// The step that gives up.
    pub open spec fn fail(self, msg: Seq<char>) -> TransitionView {
        self.go(Phase::Aborted, ActionView::Fail(msg))
    }

    /// The result of a synchronisation that went through.
    pub open spec fn result(self) -> ResultView {
        if self.unresolved.len() > 0 {
            ResultView::Conflicts(self.unresolved)
        } else {
            ResultView::Success
        }
    }

    /// The step to the push.
    pub open spec fn push(self) -> TransitionView {
        self.go(Phase::Pushing, ActionView::Push)
    }

    /// The step behind a commit, or behind the finding that there is
    /// nothing to commit. After the local edits the remote is fetched, and
    /// without a remote the run is over; after every other commit comes the
    /// push.
    pub open spec fn after_commit(self, stage: Stage) -> TransitionView {
        if stage == Stage::LocalEdits {
            if self.has_remote {
                self.go(Phase::Fetching, ActionView::Fetch)
            } else {
                self.go(
                    Phase::Done,
                    ActionView::Finish(
                        if self.committed {
                            ResultView::Success
                        } else {
                            ResultView::NoChanges
                        },
                    ),
                )
            }
        } else {
            self.push()
        }
    }

    /// The step into a first synchronisation: the local notebook is read
    /// before anything is merged.
    pub open spec fn first_time(self, remote_branch: bool) -> TransitionView {
        StateView { remote_branch, ..self }.tell(
            Phase::CapturingLocal,
            ActionView::ReadNotebook,
            Notice::FirstTimeSync,
        )
    }

    /// The conflicts between the changes of the two sides.
    pub open spec fn conflicts(self) -> Seq<ConflictView> {
        classified(
            self.local_changes,
            change_keys(self.local_changes),
            self.remote_changes,
            change_keys(self.remote_changes),
        )
    }

    /// The step that writes the notebook of both sides: on the given text,
    /// which holds what the remote side has, every local change that is in no
    /// conflict or wins its conflict is carried out. The conflicts that are
    /// not decided are kept for the result.
    #[verifier::opaque]
    pub open spec fn reconcile(self, text: Seq<char>) -> TransitionView {
        let sides = Sides::of(self.local_changes, self.remote_changes);
        StateView { unresolved: sides.deferred_from(0), ..self }.go(
            Phase::WritingResolved,
            ActionView::WriteNotebook(
                steps_applied(text, sides.steps(), self.now, sides.steps().len() as int),
            ),
        )
    }

    /// The step that gives the sections up and takes the remote notebook as
    /// a whole.
    pub open spec fn degrade(self) -> TransitionView {
        self.tell(Phase::TakingRemote, ActionView::ShowRemoteNotebook, Notice::Degraded)
    }

    /// The step that the machine takes on the outcome `e`.
    pub open spec fn step(self, e: EventView) -> TransitionView {
        match self.phase {
            Phase::Start => self.go(Phase::Staging(Stage::LocalEdits), ActionView::StageAll),
            Phase::Staging(stage) => if e.ok {
                self.go(Phase::CheckingTree(stage), ActionView::ListChangedPaths)
            } else {
                self.fail(e.text)
            },
            Phase::CheckingTree(stage) => if !e.ok {
                self.fail(e.text)
            } else if !is_blank(e.text) {
                self.go(Phase::Committing(stage), ActionView::Commit(CommitMessage::For(stage)))
            } else {
                self.after_commit(stage)
            },
            Phase::Committing(stage) => if e.ok {
                StateView { committed: self.committed || stage == Stage::LocalEdits, ..self }
                    .after_commit(stage)
            } else if stage == Stage::Resolved {
                self.go(Phase::CommittingFallback, ActionView::Commit(CommitMessage::Fallback))
            } else if contains(e.text, "nothing to commit"@) {
                TransitionView { notice: Some(Notice::NothingToCommit), ..self.after_commit(stage) }
            } else {
                self.fail(e.text)
            },
            Phase::CommittingFallback => if e.ok {
                self.push()
            } else {
                self.fail(e.text)
            },
            Phase::Fetching => if e.ok {
                self.go(Phase::CheckingRemoteBranch, ActionView::VerifyRemoteBranch)
            } else {
                self.tell(
                    Phase::CheckingRemoteBranch,
                    ActionView::VerifyRemoteBranch,
                    Notice::FetchFailed,
                )
            },
            Phase::CheckingRemoteBranch => if e.ok {
                StateView { remote_branch: true, ..self }.go(
                    Phase::CheckingHead,
                    ActionView::VerifyHead,
                )
            } else {
                self.first_time(false)
            },
            Phase::CheckingHead => if e.ok {
                self.go(Phase::FindingBase, ActionView::FindMergeBase)
            } else {
                self.first_time(true)
            },
            Phase::FindingBase => if e.ok && !is_blank(e.text) {
                StateView { base: trim(e.text), ..self }.go(
                    Phase::CountingUnpushed,
                    ActionView::CountUnpushed,
                )
            } else {
                self.first_time(true)
            },
            Phase::CapturingLocal => if !e.ok {
                self.fail(e.text)
            } else {
                let kept = StateView { local_content: trim(e.text), ..self };
                if self.remote_branch {
                    kept.go(Phase::MergingUnrelated, ActionView::Merge(MergeMode::PreferTheirs))
                } else if trim(e.text).len() > 0 {
                    kept.go(Phase::Staging(Stage::InitialLocal), ActionView::StageAll)
                } else {
                    kept.push()
                }
            },
            Phase::MergingUnrelated => if !e.ok {
                self.fail(e.text)
            } else if self.local_content.len() > 0 {
                self.go(Phase::ReadingUnrelated, ActionView::ReadNotebook)
            } else {
                self.push()
            },
            Phase::ReadingUnrelated => if e.ok {
                self.go(
                    Phase::WritingPrepended,
                    ActionView::WriteNotebook(prepended(e.text, self.local_content, self.now)),
                )
            } else {
                self.fail(e.text)
            },
            Phase::WritingPrepended => if e.ok {
                self.go(Phase::Staging(Stage::Prepended), ActionView::StageAll)
            } else {
                self.fail(e.text)
            },
            Phase::CountingUnpushed => StateView {
                unpushed: if e.ok {
                    count_is_positive(e.text)
                } else {
                    None
                },
                ..self
            }.go(Phase::CountingIncoming, ActionView::CountIncoming),
            Phase::CountingIncoming => {
                let incoming = if e.ok {
                    count_is_positive(e.text)
                } else {
                    None
                };
                if self.unpushed == Some(true) && incoming != Some(true) {
                    self.tell(Phase::Pushing, ActionView::Push, Notice::SkippingMerge)
                } else if self.unpushed == Some(false) && incoming == Some(false) {
                    self.go(Phase::Done, ActionView::Finish(ResultView::NoChanges))
                } else {
                    self.go(Phase::Merging, ActionView::Merge(MergeMode::NoCommit))
                }
            },
            Phase::Merging => if e.ok {
                if contains(e.text, "Already up to date"@) {
                    self.tell(Phase::Pushing, ActionView::Push, Notice::UpToDate)
                } else {
                    self.go(Phase::CheckingMerged, ActionView::ListChangedPaths)
                }
            } else if reports_conflict(e.text) {
                self.tell(
                    Phase::ReadingConflicted,
                    ActionView::ReadNotebook,
                    Notice::ConflictsDetected,
                )
            } else if contains(e.text, "Already up to date"@) {
                self.tell(Phase::Pushing, ActionView::Push, Notice::UpToDate)
            } else if contains(e.text, "not something we can merge"@) {
                self.tell(Phase::Pushing, ActionView::Push, Notice::RemoteBranchMissing)
            } else {
                self.fail(e.text)
            },
            Phase::CheckingMerged => if e.ok {
                self.go(
                    Phase::CommittingMerge,
                    ActionView::Commit(
                        if is_blank(e.text) {
                            CommitMessage::MergeRemoteNoFileChanges
                        } else {
                            CommitMessage::MergeRemote
                        },
                    ),
                )
            } else {
                self.fail(e.text)
            },
            Phase::CommittingMerge => if e.ok {
                self.push()
            } else {
                self.fail(e.text)
            },
            Phase::ReadingConflicted => StateView {
                conflicted: if e.ok {
                    e.text
                } else {
                    Seq::empty()
                },
                ..self
            }.go(Phase::AbortingMerge, ActionView::AbortMerge),
            Phase::AbortingMerge => self.go(Phase::DiffingLocal, ActionView::DiffLocal(self.base)),
            Phase::DiffingLocal => if e.ok {
                StateView { local_changes: diff_changes(lines(e.text)), ..self }.go(
                    Phase::DiffingRemote,
                    ActionView::DiffRemote(self.base),
                )
            } else {
                self.fail(e.text)
            },
            Phase::DiffingRemote => if e.ok {
                StateView { remote_changes: diff_changes(lines(e.text)), ..self }.go(
                    Phase::MergingTheirs,
                    ActionView::Merge(MergeMode::PreferTheirs),
                )
            } else {
                self.fail(e.text)
            },
            Phase::MergingTheirs => if !e.ok {
                self.tell(Phase::RollingBack, ActionView::AbortMerge, Notice::RolledBack)
            } else if has_conflict_markers(self.conflicted) {
                match settled_by(self.conflicted, self.conflicts()) {
                    Ok(text) => self.reconcile(text),
                    Err(_) => self.degrade(),
                }
            } else {
                self.go(Phase::ReadingMerged, ActionView::ReadNotebook)
            },
            Phase::RollingBack => self.push(),
            Phase::ReadingMerged => if !e.ok {
                self.fail(e.text)
            } else if has_conflict_markers(e.text) {
                self.degrade()
            } else {
                self.reconcile(e.text)
            },
            Phase::TakingRemote => if e.ok {
                self.go(Phase::WritingResolved, ActionView::WriteNotebook(e.text))
            } else {
                self.fail(e.text)
            },
            Phase::WritingResolved => if e.ok {
                self.go(Phase::Staging(Stage::Resolved), ActionView::StageAll)
            } else {
                self.fail(e.text)
            },
            Phase::Pushing => if e.ok {
                self.go(Phase::Done, ActionView::Finish(self.result()))
            } else {
                self.tell(Phase::Done, ActionView::Finish(self.result()), Notice::PushFailed)
            },
            Phase::Done => self.go(Phase::Done, ActionView::Fail("synchronisation is over"@)),
            Phase::Aborted => self.go(Phase::Aborted, ActionView::Fail("synchronisation is over"@)),
        }
    }
}

/// Tests whether the text holds nothing but white space.
pub fn text_is_blank(text: &str) -> (r: bool)
    ensures
        r == is_blank(text@),
{
    let chars = to_chars(text);
    trimmed(&chars).len() == 0
}

/// The text without the white space around it.
pub fn trim_text(text: &str) -> (out: String)
    ensures
        out@ == trim(text@),
{
    let chars = to_chars(text);
    from_chars(&trimmed(&chars))
}

/// Tests whether the message holds the phrase.
pub fn says(msg: &str, phrase: &str) -> (r: bool)
    ensures
        r == contains(msg@, phrase@),
{
    let m = to_chars(msg);
    let p = to_chars(phrase);
    has_inside(&m, &p)
}

/// Reads a count and tests whether it is above zero.
pub fn positive_count(out: &str) -> (r: Option<bool>)
    ensures
        r == count_is_positive(out@),
{
    let chars = to_chars(out);
    let t = trimmed(&chars);
    if t.len() == 0 {
        return None;
    }
    let mut positive = false;
    let mut i: usize = 0;
    while i < t.len()
        invariant
            i <= t.len(),
            t@ == trim(out@),
            forall|j: int| 0 <= j < i ==> is_digit(#[trigger] t@[j]),
            positive == exists|j: int| 0 <= j < i && #[trigger] t@[j] != '0',
        decreases t.len() - i,
    {
        let c = t[i];
        if !('0' <= c && c <= '9') {
            assert(!is_digit(t@[i as int]));
            return None;
        }
        if c != '0' {
            positive = true;
        }
        i += 1;
    }
    Some(positive)
}

/// Tests whether one of the lines opens a region that a merge left
/// unresolved.
pub fn text_has_conflict_markers(text: &str) -> (r: bool)
    ensures
        r == has_conflict_markers(text@),
{
    let chars = to_chars(text);
    let ls = split_lines(&chars);
    let marker = to_chars("<<<<<<<");
    let mut i: usize = 0;
    while i < ls.len()
        invariant
            i <= ls.len(),
            views(ls@) == lines(text@),
            marker@ == "<<<<<<<"@,
            forall|j: int| 0 <= j < i ==> !starts_with(#[trigger] lines(text@)[j], "<<<<<<<"@),
        decreases ls.len() - i,
    {
        assert(views(ls@)[i as int] == ls@[i as int]@);
        if has_prefix(&ls[i], &marker) {
            return true;
        }
        i += 1;
    }
    false
}

impl SyncState {
    /// The state before the first step.
    pub fn new(has_remote: bool, now: &str) -> (s: SyncState)
        ensures
            s@ == StateView::initial(has_remote, now@),
    {
        let s = SyncState {
            phase: Phase::Start,
            has_remote,
            now: String::from_str(now),
            committed: false,
            remote_branch: false,
            unpushed: None,
            local_content: String::new(),
            base: String::new(),
            conflicted: String::new(),
            local_changes: Vec::new(),
            remote_changes: Vec::new(),
            unresolved: Vec::new(),
        };
        assert(s@.local_changes =~= Seq::empty());
        assert(s@.remote_changes =~= Seq::empty());
        assert(s@.unresolved =~= Seq::empty());
        s
    }

    /// The state before the first step, with the local time as the
    /// timestamp for entries that bear none.
    pub fn start(has_remote: bool) -> (s: SyncState)
        ensures
            exists|now: Seq<char>|
                crate::instant::stamp_text(now) && s@ == StateView::initial(has_remote, now),
    {
        let now = crate::instant::local_timestamp();
        SyncState::new(has_remote, now.as_str())
    }

    fn go(self, phase: Phase, action: Action) -> (t: Transition)
        ensures
            t@ == self@.go(phase, action@),
    {
        Transition { state: SyncState { phase, ..self }, action, notice: None }
    }

    fn tell(self, phase: Phase, action: Action, notice: Notice) -> (t: Transition)
        ensures
            t@ == self@.tell(phase, action@, notice),
    {
        Transition { state: SyncState { phase, ..self }, action, notice: Some(notice) }
    }

    fn fail(self, msg: String) -> (t: Transition)
        ensures
            t@ == self@.fail(msg@),
    {
        self.go(Phase::Aborted, Action::Fail(msg))
    }

    fn push(self) -> (t: Transition)
        ensures
            t@ == self@.push(),
    {
        self.go(Phase::Pushing, Action::Push)
    }

    fn finish(self, notice: Option<Notice>) -> (t: Transition)
        ensures
            t@ == (TransitionView {
                notice,
                ..self@.go(Phase::Done, ActionView::Finish(self@.result()))
            }),
    {
        let SyncState {
            phase,
            has_remote,
            now,
            committed,
            remote_branch,
            unpushed,
            local_content,
            base,
            conflicted,
            local_changes,
            remote_changes,
            unresolved,
        } = self;
        let result = if unresolved.len() > 0 {
            SyncResult::Conflicts(crate::sync::duplicate_conflicts(&unresolved))
        } else {
            SyncResult::Success
        };
        Transition {
            state: SyncState {
                phase: Phase::Done,
                has_remote,
                now,
                committed,
                remote_branch,
                unpushed,
                local_content,
                base,
                conflicted,
                local_changes,
                remote_changes,
                unresolved,
            },
            action: Action::Finish(result),
            notice,
        }
    }

    fn after_commit(self, stage: Stage) -> (t: Transition)
        ensures
            t@ == self@.after_commit(stage),
    {
        match stage {
            Stage::LocalEdits => {
                if self.has_remote {
                    self.go(Phase::Fetching, Action::Fetch)
                } else {
                    let result = if self.committed {
                        SyncResult::Success
                    } else {
                        SyncResult::NoChanges
                    };
                    self.go(Phase::Done, Action::Finish(result))
                }
            },
            _ => self.push(),
        }
    }

    fn reconcile(self, text: String) -> (t: Transition)
        ensures
            t@ == self@.reconcile(text@),
    {
        reveal(StateView::reconcile);
        let plan = plan_merge(&self.local_changes, &self.remote_changes);
        let mut store = NotebookStore::new(text);
        store.apply_steps(&plan.steps, self.now.as_str());
        let next = SyncState { unresolved: plan.unresolved, ..self };
        next.go(Phase::WritingResolved, Action::WriteNotebook(store.content))
    }

    fn degrade(self) -> (t: Transition)
        ensures
            t@ == self@.degrade(),
    {
        self.tell(Phase::TakingRemote, Action::ShowRemoteNotebook, Notice::Degraded)
    }

    fn first_time(self, remote_branch: bool) -> (t: Transition)
        ensures
            t@ == self@.first_time(remote_branch),
    {
        let next = SyncState { remote_branch, ..self };
        next.tell(Phase::CapturingLocal, Action::ReadNotebook, Notice::FirstTimeSync)
    }

    /// Takes the outcome of the last action and answers with the next one.
    #[verifier::rlimit(30)]
    pub fn step(self, event: Event) -> (t: Transition)
        ensures
            t@ == self@.step(event@),
    {
        let (ok, text) = match event {
            Event::Done(s) => (true, s),
            Event::Failed(s) => (false, s),
        };
        match self.phase {
            Phase::Start => self.go(Phase::Staging(Stage::LocalEdits), Action::StageAll),
            Phase::Staging(stage) => {
                if ok {
                    self.go(Phase::CheckingTree(stage), Action::ListChangedPaths)
                } else {
                    self.fail(text)
                }
            },
            Phase::CheckingTree(stage) => {
                if !ok {
                    self.fail(text)
                } else if !text_is_blank(text.as_str()) {
                    self.go(Phase::Committing(stage), Action::Commit(CommitMessage::For(stage)))
                } else {
                    self.after_commit(stage)
                }
            },
            Phase::Committing(stage) => {
                if ok {
                    let committed = self.committed || stage == Stage::LocalEdits;
                    let next = SyncState { committed, ..self };
                    next.after_commit(stage)
                } else if stage == Stage::Resolved {
                    self.go(Phase::CommittingFallback, Action::Commit(CommitMessage::Fallback))
                } else if says(text.as_str(), "nothing to commit") {
                    let t = self.after_commit(stage);
                    Transition { state: t.state, action: t.action, notice: Some(Notice::NothingToCommit) }
                } else {
                    self.fail(text)
                }
            },
            Phase::CommittingFallback => {
                if ok {
                    self.push()
                } else {
                    self.fail(text)
                }
            },
            Phase::Fetching => {
                if ok {
                    self.go(Phase::CheckingRemoteBranch, Action::VerifyRemoteBranch)
                } else {
                    self.tell(
                        Phase::CheckingRemoteBranch,
                        Action::VerifyRemoteBranch,
                        Notice::FetchFailed,
                    )
                }
            },
            Phase::CheckingRemoteBranch => {
                if ok {
                    let next = SyncState { remote_branch: true, ..self };
                    next.go(Phase::CheckingHead, Action::VerifyHead)
                } else {
                    self.first_time(false)
                }
            },
            Phase::CheckingHead => {
                if ok {
                    self.go(Phase::FindingBase, Action::FindMergeBase)
                } else {
                    self.first_time(true)
                }
            },
            Phase::FindingBase => {
                if ok && !text_is_blank(text.as_str()) {
                    let next = SyncState { base: trim_text(text.as_str()), ..self };
                    next.go(Phase::CountingUnpushed, Action::CountUnpushed)
                } else {
                    self.first_time(true)
                }
            },
            Phase::CapturingLocal => {
                if !ok {
                    self.fail(text)
                } else {
                    let local = trim_text(text.as_str());
                    let empty = local.as_str().unicode_len() == 0;
                    let remote_branch = self.remote_branch;
                    let kept = SyncState { local_content: local, ..self };
                    if remote_branch {
                        kept.go(Phase::MergingUnrelated, Action::Merge(MergeMode::PreferTheirs))
                    } else if !empty {
                        kept.go(Phase::Staging(Stage::InitialLocal), Action::StageAll)
                    } else {
                        kept.push()
                    }
                }
            },
            Phase::MergingUnrelated => {
                if !ok {
                    self.fail(text)
                } else if self.local_content.as_str().unicode_len() > 0 {
                    self.go(Phase::ReadingUnrelated, Action::ReadNotebook)
                } else {
                    self.push()
                }
            },
            Phase::ReadingUnrelated => {
                if ok {
                    let merged = prepend_entry(
                        text.as_str(),
                        self.local_content.as_str(),
                        self.now.as_str(),
                    );
                    self.go(Phase::WritingPrepended, Action::WriteNotebook(merged))
                } else {
                    self.fail(text)
                }
            },
            Phase::WritingPrepended => {
                if ok {
                    self.go(Phase::Staging(Stage::Prepended), Action::StageAll)
                } else {
                    self.fail(text)
                }
            },
            Phase::CountingUnpushed => {
                let unpushed = if ok {
                    positive_count(text.as_str())
                } else {
                    None
                };
                let next = SyncState { unpushed, ..self };
                next.go(Phase::CountingIncoming, Action::CountIncoming)
            },
            Phase::CountingIncoming => {
                let incoming = if ok {
                    positive_count(text.as_str())
                } else {
                    None
                };
                let unpushed = self.unpushed;
                if unpushed == Some(true) && incoming != Some(true) {
                    self.tell(Phase::Pushing, Action::Push, Notice::SkippingMerge)
                } else if unpushed == Some(false) && incoming == Some(false) {
                    self.go(Phase::Done, Action::Finish(SyncResult::NoChanges))
                } else {
                    self.go(Phase::Merging, Action::Merge(MergeMode::NoCommit))
                }
            },
            Phase::Merging => {
                if ok {
                    if says(text.as_str(), "Already up to date") {
                        self.tell(Phase::Pushing, Action::Push, Notice::UpToDate)
                    } else {
                        self.go(Phase::CheckingMerged, Action::ListChangedPaths)
                    }
                } else if says(text.as_str(), "CONFLICT") || says(
                    text.as_str(),
                    "Automatic merge failed",
                ) {
                    self.tell(
                        Phase::ReadingConflicted,
                        Action::ReadNotebook,
                        Notice::ConflictsDetected,
                    )
                } else if says(text.as_str(), "Already up to date") {
                    self.tell(Phase::Pushing, Action::Push, Notice::UpToDate)
                } else if says(text.as_str(), "not something we can merge") {
                    self.tell(Phase::Pushing, Action::Push, Notice::RemoteBranchMissing)
                } else {
                    self.fail(text)
                }
            },
            Phase::CheckingMerged => {
                if ok {
                    let message = if text_is_blank(text.as_str()) {
                        CommitMessage::MergeRemoteNoFileChanges
                    } else {
                        CommitMessage::MergeRemote
                    };
                    self.go(Phase::CommittingMerge, Action::Commit(message))
                } else {
                    self.fail(text)
                }
            },
            Phase::CommittingMerge => {
                if ok {
                    self.push()
                } else {
                    self.fail(text)
                }
            },
            Phase::ReadingConflicted => {
                let conflicted = if ok {
                    text
                } else {
                    String::new()
                };
                let next = SyncState { conflicted, ..self };
                next.go(Phase::AbortingMerge, Action::AbortMerge)
            },
            Phase::AbortingMerge => {
                let base = self.base.clone();
                self.go(Phase::DiffingLocal, Action::DiffLocal(base))
            },
            Phase::DiffingLocal => {
                if ok {
                    let base = self.base.clone();
                    let next = SyncState {
                        local_changes: parse_diff_for_sections(text.as_str()),
                        ..self
                    };
                    next.go(Phase::DiffingRemote, Action::DiffRemote(base))
                } else {
                    self.fail(text)
                }
            },
            Phase::DiffingRemote => {
                if ok {
                    let next = SyncState {
                        remote_changes: parse_diff_for_sections(text.as_str()),
                        ..self
                    };
                    next.go(Phase::MergingTheirs, Action::Merge(MergeMode::PreferTheirs))
                } else {
                    self.fail(text)
                }
            },
            Phase::MergingTheirs => {
                if !ok {
                    self.tell(Phase::RollingBack, Action::AbortMerge, Notice::RolledBack)
                } else if text_has_conflict_markers(self.conflicted.as_str()) {
                    let conflicts = classify(&self.local_changes, &self.remote_changes);
                    match resolve_markers(self.conflicted.as_str(), &conflicts) {
                        Ok(settled) => self.reconcile(settled),
                        Err(_) => self.degrade(),
                    }
                } else {
                    self.go(Phase::ReadingMerged, Action::ReadNotebook)
                }
            },
            Phase::RollingBack => self.push(),
            Phase::ReadingMerged => {
                if !ok {
                    self.fail(text)
                } else if text_has_conflict_markers(text.as_str()) {
                    self.degrade()
                } else {
                    self.reconcile(text)
                }
            },
            Phase::TakingRemote => {
                if ok {
                    self.go(Phase::WritingResolved, Action::WriteNotebook(text))
                } else {
                    self.fail(text)
                }
            },
            Phase::WritingResolved => {
                if ok {
                    self.go(Phase::Staging(Stage::Resolved), Action::StageAll)
                } else {
                    self.fail(text)
                }
            },
            Phase::Pushing => {
                if ok {
                    self.finish(None)
                } else {
                    self.finish(Some(Notice::PushFailed))
                }
            },
            Phase::Done => self.go(
                Phase::Done,
                Action::Fail(String::from_str("synchronisation is over")),
            ),
            Phase::Aborted => self.go(
                Phase::Aborted,
                Action::Fail(String::from_str("synchronisation is over")),
            ),
        }
    }
}

/// Copies of the conflicts.
pub fn duplicate_conflicts(list: &Vec<SectionConflict>) -> (out: Vec<SectionConflict>)
    ensures
        conflict_views(out@) == conflict_views(list@),
{
    let mut out: Vec<SectionConflict> = Vec::new();
    let mut i: usize = 0;
    while i < list.len()
        invariant
            i <= list.len(),
            conflict_views(out@) == conflict_views(list@).take(i as int),
        decreases list.len() - i,
    {
        let ghost before = conflict_views(out@);
        let c = SectionConflict {
            local: list[i].local.duplicate(),
            remote: list[i].remote.duplicate(),
        };
        out.push(c);
        assert(conflict_views(out@) =~= before.push(c@));
        assert(conflict_views(list@).take(i + 1) =~= before.push(c@));
        i += 1;
    }
    assert(conflict_views(list@).take(list.len() as int) =~= conflict_views(list@));
    out
}

impl StateView {
    /// The state before the first step.
    pub open spec fn initial(has_remote: bool, now: Seq<char>) -> StateView {
        StateView {
            phase: Phase::Start,
            has_remote,
            now,
            committed: false,
            remote_branch: false,
            unpushed: None,
            local_content: Seq::empty(),
            base: Seq::empty(),
            conflicted: Seq::empty(),
            local_changes: Seq::empty(),
            remote_changes: Seq::empty(),
            unresolved: Seq::empty(),
        }
    }
}

} // verus!
