//! A model of the repository and its remote, as far as the synchronisation
//! can tell them apart, and what holds of the machine when it runs against
//! the model: a run that pushed leaves nothing to do for the next run.

use crate::pairing::same_text;
use crate::roundtrip::{lemma_solid_is_not_blank, lemma_trim_of_solid};
use crate::sync::{
    count_is_positive, is_digit, reports_conflict, Action, ActionView, Event, EventView, MergeMode,
    Phase, ResultView, Stage, StateView, TransitionView,
};
use crate::sync_laws::{
    lemma_last_action_ends_run, lemma_reconcile_writes, lemma_step_descends, lemma_step_keeps_inv,
};
use crate::text::{
    contains, is_blank, lemma_find_is, lemma_leading_space_bound, lemma_trailing_space_bound,
    trim_start,
};
use vstd::prelude::*;

verus! {

/// The repository in its directory, and what it knows of its remote: a
/// stand-in for the version-control tool that answers the actions of the
/// synchronisation from memory.
#[derive(Debug)]
pub struct Repository {
    /// The notebook file.
    pub notebook: String,
    /// The notebook as the remote branch has it.
    pub remote_notebook: String,
    /// The notebook before the merge that is under way.
    pub before_merge: String,
    /// Whether the directory differs from the last commit.
    pub dirty: bool,
    /// Whether a merge is under way.
    pub merging: bool,
    /// Whether there is a local commit.
    pub has_head: bool,
    /// Whether the remote branch is known.
    pub remote_branch: bool,
    /// Whether the two branches have a common ancestor.
    pub related: bool,
    /// Whether the local branch has commits that the remote branch lacks.
    pub ahead: bool,
    /// Whether the remote branch has commits that the local branch lacks.
    pub behind: bool,
    /// Whether the remote can be reached.
    pub online: bool,
    /// Whether the two sides changed the same lines.
    pub conflicting: bool,
    /// Whether a merge that prefers the remote side fails.
    pub stubborn: bool,
    /// The notebook as a merge without conflicts leaves it.
    pub merged: String,
    /// The notebook as a merge with conflicts leaves it.
    pub conflicted: String,
    /// The notebook as a merge that prefers the remote side leaves it.
    pub preferred: String,
    /// The diff from the common ancestor to the local branch.
    pub local_diff: String,
    /// The diff from the common ancestor to the remote branch.
    pub remote_diff: String,
}

impl View for Repository {
    type V = RepositoryView;

    open spec fn view(&self) -> RepositoryView {
        RepositoryView {
            notebook: self.notebook@,
            remote_notebook: self.remote_notebook@,
            before_merge: self.before_merge@,
            dirty: self.dirty,
            merging: self.merging,
            has_head: self.has_head,
            remote_branch: self.remote_branch,
            related: self.related,
            ahead: self.ahead,
            behind: self.behind,
            online: self.online,
            conflicting: self.conflicting,
            stubborn: self.stubborn,
            merged: self.merged@,
            conflicted: self.conflicted@,
            preferred: self.preferred@,
            local_diff: self.local_diff@,
            remote_diff: self.remote_diff@,
        }
    }
}

/// The repository as a mathematical value.
pub struct RepositoryView {
    /// The notebook file.
    pub notebook: Seq<char>,
    /// The notebook as the remote branch has it.
    pub remote_notebook: Seq<char>,
    /// The notebook before the merge that is under way.
    pub before_merge: Seq<char>,
    /// Whether the directory differs from the last commit.
    pub dirty: bool,
    /// Whether a merge is under way.
    pub merging: bool,
    /// Whether there is a local commit.
    pub has_head: bool,
    /// Whether the remote branch is known.
    pub remote_branch: bool,
    /// Whether the two branches have a common ancestor.
    pub related: bool,
    /// Whether the local branch has commits that the remote branch lacks.
    pub ahead: bool,
    /// Whether the remote branch has commits that the local branch lacks.
    pub behind: bool,
    /// Whether the remote can be reached.
    pub online: bool,
    /// Whether the two sides changed the same lines.
    pub conflicting: bool,
    /// Whether a merge that prefers the remote side fails.
    pub stubborn: bool,
    /// The notebook as a merge without conflicts leaves it.
    pub merged: Seq<char>,
    /// The notebook as a merge with conflicts leaves it.
    pub conflicted: Seq<char>,
    /// The notebook as a merge that prefers the remote side leaves it.
    pub preferred: Seq<char>,
    /// The diff from the common ancestor to the local branch.
    pub local_diff: Seq<char>,
    /// The diff from the common ancestor to the remote branch.
    pub remote_diff: Seq<char>,
}

/// An outcome without output.
pub open spec fn done() -> EventView {
    EventView { ok: true, text: Seq::empty() }
}

/// An outcome with output.
pub open spec fn printed(text: Seq<char>) -> EventView {
    EventView { ok: true, text }
}

/// A failure with its message.
pub open spec fn failed(text: Seq<char>) -> EventView {
    EventView { ok: false, text }
}

/// A count as the tool prints it.
pub open spec fn count(some: bool) -> Seq<char> {
    if some {
        "1"@
    } else {
        "0"@
    }
}

impl RepositoryView {
    /// Whether nothing is left to commit and no merge is under way.
    pub open spec fn clean(self) -> bool {
        !self.dirty && !self.merging
    }

    /// Whether the two branches are at the same commit and nothing is left
    /// to commit.
    pub open spec fn level(self) -> bool {
        &&& self.clean()
        &&& self.has_head
        &&& self.remote_branch
        &&& self.related
        &&& !self.ahead
        &&& !self.behind
    }

    /// The repository after a commit.
    pub open spec fn committed(self) -> RepositoryView {
        RepositoryView {
            dirty: false,
            merging: false,
            has_head: true,
            ahead: true,
            behind: self.behind && !self.merging,
            related: self.related || self.merging,
            ..self
        }
    }

    /// What the repository answers to an action, and what the action makes
    /// of it.
    pub open spec fn respond(self, action: ActionView) -> (RepositoryView, EventView) {
        match action {
            ActionView::StageAll => (self, done()),
            ActionView::ListChangedPaths => (
                self,
                if self.dirty {
                    printed(" M vocabulary_notebook.md"@)
                } else {
                    done()
                },
            ),
            ActionView::Commit(_) => if self.dirty || self.merging {
                (self.committed(), done())
            } else {
                (self, failed("nothing to commit, working tree clean"@))
            },
            ActionView::Fetch => (
                self,
                if self.online {
                    done()
                } else {
                    failed("unable to access the remote"@)
                },
            ),
            ActionView::VerifyRemoteBranch => (
                self,
                if self.remote_branch {
                    printed("remote"@)
                } else {
                    failed("Needed a single revision"@)
                },
            ),
            ActionView::VerifyHead => (
                self,
                if self.has_head {
                    printed("head"@)
                } else {
                    failed("Needed a single revision"@)
                },
            ),
            ActionView::FindMergeBase => (
                self,
                if self.related && self.has_head && self.remote_branch {
                    printed("base"@)
                } else {
                    failed(Seq::empty())
                },
            ),
            ActionView::CountUnpushed => (self, printed(count(self.ahead))),
            ActionView::CountIncoming => (self, printed(count(self.behind))),
            ActionView::Merge(MergeMode::NoCommit) => if !self.remote_branch {
                (self, failed("not something we can merge"@))
            } else if !self.behind {
                (self, printed("Already up to date."@))
            } else if self.conflicting {
                (
                    RepositoryView {
                        merging: true,
                        dirty: true,
                        before_merge: self.notebook,
                        notebook: self.conflicted,
                        ..self
                    },
                    failed("CONFLICT"@),
                )
            } else {
                (
                    RepositoryView {
                        merging: true,
                        dirty: true,
                        before_merge: self.notebook,
                        notebook: self.merged,
                        ..self
                    },
                    done(),
                )
            },
            ActionView::Merge(MergeMode::PreferTheirs) => if !self.remote_branch || self.stubborn {
                (self, failed("refusing to merge"@))
            } else {
                (
                    RepositoryView {
                        notebook: self.preferred,
                        has_head: true,
                        related: true,
                        ahead: true,
                        behind: false,
                        ..self
                    },
                    done(),
                )
            },
            ActionView::AbortMerge => if self.merging {
                (
                    RepositoryView {
                        merging: false,
                        dirty: false,
                        notebook: self.before_merge,
                        ..self
                    },
                    done(),
                )
            } else {
                (self, failed("There is no merge to abort"@))
            },
            ActionView::DiffLocal(_) => (self, printed(self.local_diff)),
            ActionView::DiffRemote(_) => (self, printed(self.remote_diff)),
            ActionView::ReadNotebook => (self, printed(self.notebook)),
            ActionView::WriteNotebook(text) => (
                RepositoryView { notebook: text, dirty: self.dirty || text != self.notebook, ..self },
                done(),
            ),
            ActionView::ShowRemoteNotebook => (
                self,
                if self.remote_branch {
                    printed(self.remote_notebook)
                } else {
                    failed("invalid object name"@)
                },
            ),
            ActionView::Push => if self.online && self.has_head && !self.behind {
                (
                    RepositoryView {
                        ahead: false,
                        remote_branch: true,
                        related: true,
                        remote_notebook: self.notebook,
                        ..self
                    },
                    done(),
                )
            } else {
                (self, failed("rejected"@))
            },
            ActionView::Finish(_) => (self, done()),
            ActionView::Fail(_) => (self, done()),
        }
    }
}

fn answer(text: &str) -> (e: Event)
    ensures
        e@ == printed(text@),
{
    Event::Done(String::from_str(text))
}

fn refusal(text: &str) -> (e: Event)
    ensures
        e@ == failed(text@),
{
    Event::Failed(String::from_str(text))
}

fn nothing() -> (e: Event)
    ensures
        e@ == done(),
{
    Event::Done(String::new())
}

impl Repository {
    /// A repository with the given notebook in which nothing has happened
    /// yet: no commit, no remote branch, and a notebook that is not committed
    /// where it is not empty.
    pub fn new(notebook: &str, online: bool) -> (r: Repository)
        ensures
            r@.notebook == notebook@,
            r@.online == online,
            r@.dirty == (notebook@.len() > 0),
            !r@.merging && !r@.has_head && !r@.remote_branch && !r@.related && !r@.ahead
                && !r@.behind && !r@.conflicting && !r@.stubborn,
    {
        Repository {
            notebook: String::from_str(notebook),
            remote_notebook: String::new(),
            before_merge: String::new(),
            dirty: notebook.unicode_len() > 0,
            merging: false,
            has_head: false,
            remote_branch: false,
            related: false,
            ahead: false,
            behind: false,
            online,
            conflicting: false,
            stubborn: false,
            merged: String::new(),
            conflicted: String::new(),
            preferred: String::new(),
            local_diff: String::new(),
            remote_diff: String::new(),
        }
    }

    fn commit(&mut self) -> (e: Event)
        ensures
            forall|m: crate::sync::CommitMessage|
                (final(self)@, e@) == #[trigger] old(self)@.respond(ActionView::Commit(m)),
    {
        if self.dirty || self.merging {
            self.behind = self.behind && !self.merging;
            self.related = self.related || self.merging;
            self.dirty = false;
            self.merging = false;
            self.has_head = true;
            self.ahead = true;
            nothing()
        } else {
            refusal("nothing to commit, working tree clean")
        }
    }

    fn merge(&mut self) -> (e: Event)
        ensures
            (final(self)@, e@) == old(self)@.respond(ActionView::Merge(MergeMode::NoCommit)),
    {
        if !self.remote_branch {
            refusal("not something we can merge")
        } else if !self.behind {
            answer("Already up to date.")
        } else if self.conflicting {
            self.merging = true;
            self.dirty = true;
            self.before_merge = self.notebook.clone();
            self.notebook = self.conflicted.clone();
            refusal("CONFLICT")
        } else {
            self.merging = true;
            self.dirty = true;
            self.before_merge = self.notebook.clone();
            self.notebook = self.merged.clone();
            nothing()
        }
    }

    fn merge_theirs(&mut self) -> (e: Event)
        ensures
            (final(self)@, e@) == old(self)@.respond(ActionView::Merge(MergeMode::PreferTheirs)),
    {
        if !self.remote_branch || self.stubborn {
            refusal("refusing to merge")
        } else {
            self.notebook = self.preferred.clone();
            self.has_head = true;
            self.related = true;
            self.ahead = true;
            self.behind = false;
            nothing()
        }
    }

    fn abort(&mut self) -> (e: Event)
        ensures
            (final(self)@, e@) == old(self)@.respond(ActionView::AbortMerge),
    {
        if self.merging {
            self.merging = false;
            self.dirty = false;
            self.notebook = self.before_merge.clone();
            nothing()
        } else {
            refusal("There is no merge to abort")
        }
    }

    fn write(&mut self, text: &String) -> (e: Event)
        ensures
            (final(self)@, e@) == old(self)@.respond(ActionView::WriteNotebook(text@)),
    {
        let same = same_text(text.as_str(), self.notebook.as_str());
        self.dirty = self.dirty || !same;
        self.notebook = text.clone();
        nothing()
    }

    fn push(&mut self) -> (e: Event)
        ensures
            (final(self)@, e@) == old(self)@.respond(ActionView::Push),
    {
        if self.online && self.has_head && !self.behind {
            self.ahead = false;
            self.remote_branch = true;
            self.related = true;
            self.remote_notebook = self.notebook.clone();
            nothing()
        } else {
            refusal("rejected")
        }
    }

    fn ask(&self, action: &Action) -> (e: Event)
        requires
            !action@.mutates(),
        ensures
            (self@, e@) == self@.respond(action@),
    {
        match action {
            Action::ListChangedPaths => {
                if self.dirty {
                    answer(" M vocabulary_notebook.md")
                } else {
                    nothing()
                }
            },
            Action::Fetch => {
                if self.online {
                    nothing()
                } else {
                    refusal("unable to access the remote")
                }
            },
            Action::VerifyRemoteBranch => {
                if self.remote_branch {
                    answer("remote")
                } else {
                    refusal("Needed a single revision")
                }
            },
            Action::VerifyHead => {
                if self.has_head {
                    answer("head")
                } else {
                    refusal("Needed a single revision")
                }
            },
            Action::FindMergeBase => {
                if self.related && self.has_head && self.remote_branch {
                    answer("base")
                } else {
                    Event::Failed(String::new())
                }
            },
            Action::CountUnpushed => {
                if self.ahead {
                    answer("1")
                } else {
                    answer("0")
                }
            },
            Action::CountIncoming => {
                if self.behind {
                    answer("1")
                } else {
                    answer("0")
                }
            },
            Action::DiffLocal(_) => Event::Done(self.local_diff.clone()),
            Action::DiffRemote(_) => Event::Done(self.remote_diff.clone()),
            Action::ReadNotebook => Event::Done(self.notebook.clone()),
            Action::ShowRemoteNotebook => {
                if self.remote_branch {
                    Event::Done(self.remote_notebook.clone())
                } else {
                    refusal("invalid object name")
                }
            },
            _ => nothing(),
        }
    }

    /// Answers an action, and becomes what the action makes of the
    /// repository.
    pub fn perform(&mut self, action: &Action) -> (e: Event)
        ensures
            (final(self)@, e@) == old(self)@.respond(action@),
    {
        match action {
            Action::Commit(_) => self.commit(),
            Action::Merge(MergeMode::NoCommit) => self.merge(),
            Action::Merge(MergeMode::PreferTheirs) => self.merge_theirs(),
            Action::AbortMerge => self.abort(),
            Action::WriteNotebook(text) => self.write(text),
            Action::Push => self.push(),
            _ => self.ask(action),
        }
    }
}

/// How a run ended: the last step of the machine, the repository as the run
/// left it, and whether the run pushed.
pub struct RunEnd {
    pub last: TransitionView,
    pub repository: RepositoryView,
    pub pushed: bool,
}

/// The run of the machine against the repository, from the state `s` and
/// the action `a` that the machine asked for last.
pub open spec fn run_from(s: StateView, r: RepositoryView, a: ActionView, pushed: bool) -> RunEnd
    decreases s.phase.rank(),
    when !s.phase.is_last()
    via run_from_decreases
{
    let (after, e) = r.respond(a);
    let t = s.step(e);
    let pushed = pushed || (a is Push && e.ok);
    if t.state.phase.is_last() {
        RunEnd { last: t, repository: after, pushed }
    } else {
        run_from(t.state, after, t.action, pushed)
    }
}

#[via_fn]
proof fn run_from_decreases(s: StateView, r: RepositoryView, a: ActionView, pushed: bool) {
    let (after, e) = r.respond(a);
    lemma_step_descends(s, e);
}

/// The run of the machine against the repository, from its first step.
pub open spec fn run(has_remote: bool, now: Seq<char>, r: RepositoryView) -> RunEnd {
    let first = StateView::initial(has_remote, now).step(done());
    run_from(first.state, r, first.action, false)
}

/// What holds of the repository while the machine waits at `phase` for the
/// answer to the action `a`: the action is the one that the phase waits for,
/// and nothing is left to commit wherever the machine relies on that.
pub open spec fn in_step(phase: Phase, a: ActionView, r: RepositoryView) -> bool {
    match phase {
        Phase::Start => false,
        Phase::Staging(_) => a is StageAll && !r.merging,
        Phase::CheckingTree(_) => a is ListChangedPaths && !r.merging,
        Phase::Committing(_) => a is Commit && !r.merging,
        Phase::CommittingFallback => a is Commit && !r.merging,
        Phase::Fetching => a is Fetch && r.clean(),
        Phase::CheckingRemoteBranch => a is VerifyRemoteBranch && r.clean(),
        Phase::CheckingHead => a is VerifyHead && r.clean(),
        Phase::FindingBase => a is FindMergeBase && r.clean(),
        Phase::CapturingLocal => a is ReadNotebook && r.clean(),
        Phase::MergingUnrelated => a == ActionView::Merge(MergeMode::PreferTheirs) && r.clean(),
        Phase::ReadingUnrelated => a is ReadNotebook && r.clean(),
        Phase::WritingPrepended => a is WriteNotebook && r.clean(),
        Phase::CountingUnpushed => a is CountUnpushed && r.clean(),
        Phase::CountingIncoming => a is CountIncoming && r.clean(),
        Phase::Merging => a == ActionView::Merge(MergeMode::NoCommit) && r.clean(),
        Phase::CheckingMerged => a is ListChangedPaths && (r.merging || r.clean()),
        Phase::CommittingMerge => a is Commit && (r.merging || r.clean()),
        Phase::ReadingConflicted => a is ReadNotebook && (r.merging || r.clean()),
        Phase::AbortingMerge => a is AbortMerge && (r.merging || r.clean()),
        Phase::DiffingLocal => a is DiffLocal && r.clean(),
        Phase::DiffingRemote => a is DiffRemote && r.clean(),
        Phase::MergingTheirs => a == ActionView::Merge(MergeMode::PreferTheirs) && r.clean(),
        Phase::RollingBack => a is AbortMerge && r.clean(),
        Phase::ReadingMerged => a is ReadNotebook && r.clean(),
        Phase::TakingRemote => a is ShowRemoteNotebook && r.clean(),
        Phase::WritingResolved => a is WriteNotebook && r.clean(),
        Phase::Pushing => a is Push && r.clean(),
        Phase::Done => true,
        Phase::Aborted => true,
    }
}

/// What the answers of the repository say to the machine.
pub proof fn lemma_answers()
    ensures
        is_blank(Seq::empty()),
        !is_blank(" M vocabulary_notebook.md"@),
        !is_blank("base"@),
        count_is_positive("0"@) == Some(false),
        count_is_positive("1"@) == Some(true),
        reports_conflict("CONFLICT"@),
        !contains(Seq::empty(), "Already up to date"@),
{
    let nothing = Seq::<char>::empty();
    assert(is_blank(nothing)) by {
        lemma_leading_space_bound(nothing);
        lemma_trailing_space_bound(trim_start(nothing));
    }
    assert(!is_blank(" M vocabulary_notebook.md"@)) by {
        reveal_strlit(" M vocabulary_notebook.md");
        lemma_solid_is_not_blank(" M vocabulary_notebook.md"@, 1);
    }
    assert(!is_blank("base"@)) by {
        reveal_strlit("base");
        lemma_solid_is_not_blank("base"@, 0);
    }
    assert(count_is_positive("0"@) == Some(false)) by {
        reveal_strlit("0");
        lemma_trim_of_solid("0"@);
        assert(is_digit("0"@[0]));
    }
    assert(count_is_positive("1"@) == Some(true)) by {
        reveal_strlit("1");
        lemma_trim_of_solid("1"@);
        assert(is_digit("1"@[0]));
        assert("1"@[0] != '0');
    }
    assert(reports_conflict("CONFLICT"@)) by {
        let c = "CONFLICT"@;
        assert(c.subrange(0, 0 + c.len() as int) =~= c);
        lemma_find_is(c, c, 0);
    }
    assert(!contains(nothing, "Already up to date"@)) by {
        reveal_strlit("Already up to date");
    }
}

/// What a step of a run keeps.
pub open spec fn step_kept(s: StateView, r: RepositoryView, a: ActionView) -> bool {
    let (after, e) = r.respond(a);
    let t = s.step(e);
    &&& in_step(t.state.phase, t.action, after)
    &&& a is Push ==> s.phase == Phase::Pushing && t.state.phase == Phase::Done
    &&& a is Push && e.ok ==> after.level()
    &&& t.state.phase == Phase::Done && !s.has_remote && s.phase != Phase::Done && s.inv()
        ==> after.clean()
    &&& !a.mutates() ==> after == r
}

/// Every step of a run keeps what holds of the repository: a push that
/// goes through leaves the branches level, and an action that changes nothing
/// leaves the repository as it is.
pub proof fn lemma_step_keeps_repository(s: StateView, r: RepositoryView, a: ActionView)
    requires
        in_step(s.phase, a, r),
        !s.phase.is_last(),
    ensures
        step_kept(s, r, a),
{
    lemma_answers();
    match s.phase {
        Phase::Start => {
            assert(step_kept(s, r, a));
        },
        Phase::Staging(_) => {
            assert(step_kept(s, r, a));
        },
        Phase::CheckingTree(_) => {
            assert(step_kept(s, r, a));
        },
        Phase::Committing(_) => {
            assert(step_kept(s, r, a));
        },
        Phase::CommittingFallback => {
            assert(step_kept(s, r, a));
        },
        Phase::Fetching => {
            assert(step_kept(s, r, a));
        },
        Phase::CheckingRemoteBranch => {
            assert(step_kept(s, r, a));
        },
        Phase::CheckingHead => {
            assert(step_kept(s, r, a));
        },
        Phase::FindingBase => {
            assert(step_kept(s, r, a));
        },
        Phase::CapturingLocal => {
            assert(step_kept(s, r, a));
        },
        Phase::MergingUnrelated => {
            assert(step_kept(s, r, a));
        },
        Phase::ReadingUnrelated => {
            assert(step_kept(s, r, a));
        },
        Phase::WritingPrepended => {
            assert(step_kept(s, r, a));
        },
        Phase::CountingUnpushed => {
            assert(step_kept(s, r, a));
        },
        Phase::CountingIncoming => {
            assert(step_kept(s, r, a));
        },
        Phase::Merging => {
            assert(step_kept(s, r, a));
        },
        Phase::CheckingMerged => {
            assert(step_kept(s, r, a));
        },
        Phase::CommittingMerge => {
            assert(step_kept(s, r, a));
        },
        Phase::ReadingConflicted => {
            assert(step_kept(s, r, a));
        },
        Phase::AbortingMerge => {
            assert(step_kept(s, r, a));
        },
        Phase::DiffingLocal => {
            assert(step_kept(s, r, a));
        },
        Phase::DiffingRemote => {
            assert(step_kept(s, r, a));
        },
        Phase::MergingTheirs => {
            lemma_reconcile_writes(s);
            assert(step_kept(s, r, a));
        },
        Phase::RollingBack => {
            assert(step_kept(s, r, a));
        },
        Phase::ReadingMerged => {
            lemma_reconcile_writes(s);
            assert(step_kept(s, r, a));
        },
        Phase::TakingRemote => {
            assert(step_kept(s, r, a));
        },
        Phase::WritingResolved => {
            assert(step_kept(s, r, a));
        },
        Phase::Pushing => {
            assert(step_kept(s, r, a));
        },
        Phase::Done => {},
        Phase::Aborted => {},
    }
}

/// A run that pushed leaves the two branches level, and a run without a
/// remote that came to its end leaves nothing to commit.
pub proof fn lemma_run_from_ends_well(s: StateView, r: RepositoryView, a: ActionView)
    requires
        !s.phase.is_last(),
        in_step(s.phase, a, r),
        s.inv(),
    ensures
        run_from(s, r, a, false).pushed ==> run_from(s, r, a, false).repository.level(),
        !s.has_remote && run_from(s, r, a, false).last.action is Finish ==> run_from(
            s,
            r,
            a,
            false,
        ).repository.clean(),
    decreases s.phase.rank(),
{
    let (after, e) = r.respond(a);
    let t = s.step(e);
    lemma_step_keeps_repository(s, r, a);
    lemma_step_descends(s, e);
    lemma_step_keeps_inv(s, e);
    lemma_last_action_ends_run(s, e);
    if !t.state.phase.is_last() {
        assert(!(a is Push));
        assert(t.state.has_remote == s.has_remote) by {
            lemma_remote_stays(s, e);
        }
        lemma_run_from_ends_well(t.state, after, t.action);
    }
}

/// Whether a remote is configured does not change in a run.
pub proof fn lemma_remote_stays(s: StateView, e: EventView)
    ensures
        s.step(e).state.has_remote == s.has_remote,
{
    match s.phase {
        Phase::Start => {},
        Phase::Staging(_) => {},
        Phase::CheckingTree(_) => {},
        Phase::Committing(_) => {},
        Phase::CommittingFallback => {},
        Phase::Fetching => {},
        Phase::CheckingRemoteBranch => {},
        Phase::CheckingHead => {},
        Phase::FindingBase => {},
        Phase::CapturingLocal => {},
        Phase::MergingUnrelated => {},
        Phase::ReadingUnrelated => {},
        Phase::WritingPrepended => {},
        Phase::CountingUnpushed => {},
        Phase::CountingIncoming => {},
        Phase::Merging => {},
        Phase::CheckingMerged => {},
        Phase::CommittingMerge => {},
        Phase::ReadingConflicted => {},
        Phase::AbortingMerge => {},
        Phase::DiffingLocal => {},
        Phase::DiffingRemote => {},
        Phase::MergingTheirs => {
            lemma_reconcile_writes(s);
        },
        Phase::RollingBack => {},
        Phase::ReadingMerged => {
            lemma_reconcile_writes(s);
        },
        Phase::TakingRemote => {},
        Phase::WritingResolved => {},
        Phase::Pushing => {},
        Phase::Done => {},
        Phase::Aborted => {},
    }
}

/// A run that pushed leaves the two branches level, and a run without a
/// remote that came to its end leaves nothing to commit. It holds of a
/// repository in which no merge is under way.
pub proof fn lemma_run_ends_well(has_remote: bool, now: Seq<char>, r: RepositoryView)
    requires
        !r.merging,
    ensures
        run(has_remote, now, r).pushed ==> run(has_remote, now, r).repository.level(),
        !has_remote && run(has_remote, now, r).last.action is Finish ==> run(
            has_remote,
            now,
            r,
        ).repository.clean(),
{
    let first = StateView::initial(has_remote, now).step(done());
    lemma_run_from_ends_well(first.state, r, first.action);
}

/// Whether the machine stands in the opening of a run, before anything is
/// merged or pushed, and waits for the answer to the action `a`.
pub open spec fn in_opening(s: StateView, a: ActionView) -> bool {
    match s.phase {
        Phase::Staging(Stage::LocalEdits) => a is StageAll,
        Phase::CheckingTree(Stage::LocalEdits) => a is ListChangedPaths,
        Phase::Fetching => a is Fetch,
        Phase::CheckingRemoteBranch => a is VerifyRemoteBranch,
        Phase::CheckingHead => a is VerifyHead,
        Phase::FindingBase => a is FindMergeBase,
        Phase::CountingUnpushed => a is CountUnpushed,
        Phase::CountingIncoming => a is CountIncoming && s.unpushed == Some(false),
        _ => false,
    }
}

/// From its opening, a run on a repository whose branches are level
/// changes nothing and ends with `NoChanges`.
pub proof fn lemma_level_run_from_opening(s: StateView, r: RepositoryView, a: ActionView)
    requires
        r.level(),
        s.has_remote,
        in_opening(s, a),
    ensures
        run_from(s, r, a, false).last.action == ActionView::Finish(ResultView::NoChanges),
        run_from(s, r, a, false).repository == r,
        !run_from(s, r, a, false).pushed,
    decreases s.phase.rank(),
{
    lemma_answers();
    let (after, e) = r.respond(a);
    let t = s.step(e);
    assert(after == r);
    if s.phase == Phase::CountingIncoming {
        assert(t.action == ActionView::Finish(ResultView::NoChanges));
    } else {
        assert(in_opening(t.state, t.action));
        assert(t.state.has_remote);
        lemma_level_run_from_opening(t.state, r, t.action);
    }
}

/// On a repository whose branches are level a run changes nothing and ends
/// with `NoChanges`, whether the remote can be reached or not.
pub proof fn lemma_level_run_changes_nothing(now: Seq<char>, r: RepositoryView)
    requires
        r.level(),
    ensures
        run(true, now, r).last.action == ActionView::Finish(ResultView::NoChanges),
        run(true, now, r).repository == r,
        !run(true, now, r).pushed,
{
    let first = StateView::initial(true, now).step(done());
    lemma_level_run_from_opening(first.state, r, first.action);
}

/// Without a remote, a run on a repository with nothing to commit changes
/// nothing and ends with `NoChanges`.
pub proof fn lemma_clean_local_run_changes_nothing(now: Seq<char>, r: RepositoryView)
    requires
        r.clean(),
    ensures
        run(false, now, r).last.action == ActionView::Finish(ResultView::NoChanges),
        run(false, now, r).repository == r,
{
    lemma_answers();
    let t0 = StateView::initial(false, now).step(done());
    assert(t0.state.phase == Phase::Staging(Stage::LocalEdits));
    let t1 = t0.state.step(r.respond(t0.action).1);
    assert(t1.state.phase == Phase::CheckingTree(Stage::LocalEdits));
    assert(run_from(t0.state, r, t0.action, false) == run_from(t1.state, r, t1.action, false));
    let t2 = t1.state.step(r.respond(t1.action).1);
    assert(t2.state.phase == Phase::Done);
    assert(t2.action == ActionView::Finish(ResultView::NoChanges));
    assert(run_from(t1.state, r, t1.action, false) == (RunEnd {
        last: t2,
        repository: r,
        pushed: false,
    }));
}

/// Two runs in a row, with nothing done to either side between them: where
/// the first run pushed, the second run finds nothing to do. It ends with
/// `NoChanges` and leaves the repository as the first run left it.
pub proof fn lemma_second_run_finds_no_changes(now: Seq<char>, later: Seq<char>, r: RepositoryView)
    requires
        !r.merging,
        run(true, now, r).pushed,
    ensures
        run(true, later, run(true, now, r).repository).last.action == ActionView::Finish(
            ResultView::NoChanges,
        ),
        run(true, later, run(true, now, r).repository).repository == run(true, now, r).repository,
{
    lemma_run_ends_well(true, now, r);
    lemma_level_run_changes_nothing(later, run(true, now, r).repository);
}

/// Two runs in a row without a remote: where the first run came to its
/// end, the second run finds nothing to do.
pub proof fn lemma_second_local_run_finds_no_changes(
    now: Seq<char>,
    later: Seq<char>,
    r: RepositoryView,
)
    requires
        !r.merging,
        run(false, now, r).last.action is Finish,
    ensures
        run(false, later, run(false, now, r).repository).last.action == ActionView::Finish(
            ResultView::NoChanges,
        ),
        run(false, later, run(false, now, r).repository).repository == run(
            false,
            now,
            r,
        ).repository,
{
    lemma_run_ends_well(false, now, r);
    lemma_clean_local_run_changes_nothing(later, run(false, now, r).repository);
}

} // verus!
