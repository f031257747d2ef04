//! What holds of every run of the synchronisation machine.

use crate::sync::{
    count_is_positive, ActionView, EventView, Phase, ResultView, Stage, StateView,
};
use crate::text::{contains, is_blank};
use vstd::prelude::*;

verus! {

impl StateView {
    /// What holds of every state that a run reaches: behind the commit of
    /// the local edits the machine goes on only where a remote is configured.
    pub open spec fn inv(self) -> bool {
        self.phase.tree_settled() && self.phase != Phase::Done ==> self.has_remote
    }
}

/// The step that writes the notebook of both sides asks for nothing but
/// that, and changes nothing of the state but the conflicts that are left.
pub proof fn lemma_reconcile_writes(s: StateView)
    ensures
        forall|text: Seq<char>|
            {
                let t = #[trigger] s.reconcile(text);
                &&& t.state.phase == Phase::WritingResolved
                &&& t.action is WriteNotebook
                &&& t.notice is None
                &&& t.state.has_remote == s.has_remote
                &&& t.state.committed == s.committed
                &&& t.state.unpushed == s.unpushed
                &&& t.state.now == s.now
            },
{
    reveal(StateView::reconcile);
}

/// What the step that writes the notebook of both sides writes: the text
/// it was given, with the steps of the merge carried out on it; and it keeps
/// the conflicts that the merge leaves open.
pub proof fn lemma_reconcile_carries_out_the_plan(s: StateView, text: Seq<char>)
    ensures
        ({
            let sides = crate::merge::Sides::of(s.local_changes, s.remote_changes);
            let t = s.reconcile(text);
            &&& t.action == ActionView::WriteNotebook(
                crate::merge::steps_applied(text, sides.steps(), s.now, sides.steps().len() as int),
            )
            &&& t.state.unresolved == sides.deferred_from(0)
        }),
{
    reveal(StateView::reconcile);
}

/// Every step of a run that is not over brings the end nearer: no run takes
/// more steps than the rank of its first state.
pub proof fn lemma_step_descends(s: StateView, e: EventView)
    requires
        !s.phase.is_last(),
    ensures
        s.step(e).state.phase.rank() < s.phase.rank(),
{
    match s.phase {
        Phase::Start => {},
        Phase::Staging(_) => {},
        Phase::CheckingTree(_) => {},
        Phase::Committing(_) => {},
        Phase::CommittingFallback => {},
        Phase::Fetching => {},
        Phase::CheckingRemoteBranch => {},
        Phase::CheckingHead => {},
        Phase::FindingBase => {},
        Phase::CapturingLocal => {},
        Phase::MergingUnrelated => {},
        Phase::ReadingUnrelated => {},
        Phase::WritingPrepended => {},
        Phase::CountingUnpushed => {},
        Phase::CountingIncoming => {},
        Phase::Merging => {},
        Phase::CheckingMerged => {},
        Phase::CommittingMerge => {},
        Phase::ReadingConflicted => {},
        Phase::AbortingMerge => {},
        Phase::DiffingLocal => {},
        Phase::DiffingRemote => {},
        Phase::MergingTheirs => {
            lemma_reconcile_writes(s);
        },
        Phase::RollingBack => {},
        Phase::ReadingMerged => {
            lemma_reconcile_writes(s);
        },
        Phase::TakingRemote => {},
        Phase::WritingResolved => {},
        Phase::Pushing => {},
        Phase::Done => {},
        Phase::Aborted => {},
    }
}

/// A run is over exactly when the machine answers with `Finish` or `Fail`.
pub proof fn lemma_last_action_ends_run(s: StateView, e: EventView)
    requires
        !s.phase.is_last(),
    ensures
        s.step(e).action.is_last() <==> s.step(e).state.phase.is_last(),
        s.step(e).action is Fail <==> s.step(e).state.phase == Phase::Aborted,
{
    match s.phase {
        Phase::Start => {},
        Phase::Staging(_) => {},
        Phase::CheckingTree(_) => {},
        Phase::Committing(_) => {},
        Phase::CommittingFallback => {},
        Phase::Fetching => {},
        Phase::CheckingRemoteBranch => {},
        Phase::CheckingHead => {},
        Phase::FindingBase => {},
        Phase::CapturingLocal => {},
        Phase::MergingUnrelated => {},
        Phase::ReadingUnrelated => {},
        Phase::WritingPrepended => {},
        Phase::CountingUnpushed => {},
        Phase::CountingIncoming => {},
        Phase::Merging => {},
        Phase::CheckingMerged => {},
        Phase::CommittingMerge => {},
        Phase::ReadingConflicted => {},
        Phase::AbortingMerge => {},
        Phase::DiffingLocal => {},
        Phase::DiffingRemote => {},
        Phase::MergingTheirs => {
            lemma_reconcile_writes(s);
        },
        Phase::RollingBack => {},
        Phase::ReadingMerged => {
            lemma_reconcile_writes(s);
        },
        Phase::TakingRemote => {},
        Phase::WritingResolved => {},
        Phase::Pushing => {},
        Phase::Done => {},
        Phase::Aborted => {},
    }
}

/// The invariant holds before the first step and every step keeps it.
pub proof fn lemma_step_keeps_inv(s: StateView, e: EventView)
    requires
        s.inv(),
    ensures
        s.step(e).state.inv(),
        forall|has_remote: bool, now: Seq<char>| (#[trigger] StateView::initial(has_remote, now)).inv(),
{
    match s.phase {
        Phase::Start => {},
        Phase::Staging(_) => {},
        Phase::CheckingTree(_) => {},
        Phase::Committing(_) => {},
        Phase::CommittingFallback => {},
        Phase::Fetching => {},
        Phase::CheckingRemoteBranch => {},
        Phase::CheckingHead => {},
        Phase::FindingBase => {},
        Phase::CapturingLocal => {},
        Phase::MergingUnrelated => {},
        Phase::ReadingUnrelated => {},
        Phase::WritingPrepended => {},
        Phase::CountingUnpushed => {},
        Phase::CountingIncoming => {},
        Phase::Merging => {},
        Phase::CheckingMerged => {},
        Phase::CommittingMerge => {},
        Phase::ReadingConflicted => {},
        Phase::AbortingMerge => {},
        Phase::DiffingLocal => {},
        Phase::DiffingRemote => {},
        Phase::MergingTheirs => {
            lemma_reconcile_writes(s);
        },
        Phase::RollingBack => {},
        Phase::ReadingMerged => {
            lemma_reconcile_writes(s);
        },
        Phase::TakingRemote => {},
        Phase::WritingResolved => {},
        Phase::Pushing => {},
        Phase::Done => {},
        Phase::Aborted => {},
    }
}

/// A merge is asked for only when the local edits are committed: the
/// machine gets behind the look at the working tree only where the tree is
/// clean or the commit went through.
pub proof fn lemma_merge_needs_committed_tree(s: StateView, e: EventView)
    ensures
        s.step(e).action is Merge ==> s.phase.tree_settled(),
        s.step(e).state.phase.tree_settled() && !s.phase.tree_settled() ==> e.ok || contains(
            e.text,
            "nothing to commit"@,
        ),
        s.step(e).state.phase.tree_settled() && !s.phase.tree_settled() ==> (s.phase
            == Phase::CheckingTree(Stage::LocalEdits) && is_blank(e.text)) || s.phase
            == Phase::Committing(Stage::LocalEdits),
{
    match s.phase {
        Phase::Start => {},
        Phase::Staging(_) => {},
        Phase::CheckingTree(_) => {},
        Phase::Committing(_) => {},
        Phase::CommittingFallback => {},
        Phase::Fetching => {},
        Phase::CheckingRemoteBranch => {},
        Phase::CheckingHead => {},
        Phase::FindingBase => {},
        Phase::CapturingLocal => {},
        Phase::MergingUnrelated => {},
        Phase::ReadingUnrelated => {},
        Phase::WritingPrepended => {},
        Phase::CountingUnpushed => {},
        Phase::CountingIncoming => {},
        Phase::Merging => {},
        Phase::CheckingMerged => {},
        Phase::CommittingMerge => {},
        Phase::ReadingConflicted => {},
        Phase::AbortingMerge => {},
        Phase::DiffingLocal => {},
        Phase::DiffingRemote => {},
        Phase::MergingTheirs => {
            lemma_reconcile_writes(s);
        },
        Phase::RollingBack => {},
        Phase::ReadingMerged => {
            lemma_reconcile_writes(s);
        },
        Phase::TakingRemote => {},
        Phase::WritingResolved => {},
        Phase::Pushing => {},
        Phase::Done => {},
        Phase::Aborted => {},
    }
}

/// Nothing is fetched, merged or pushed unless a remote is configured.
pub proof fn lemma_remote_needed(s: StateView, e: EventView)
    requires
        s.inv(),
    ensures
        s.step(e).action is Fetch || s.step(e).action is Merge || s.step(e).action is Push
            ==> s.has_remote,
{
    match s.phase {
        Phase::Start => {},
        Phase::Staging(_) => {},
        Phase::CheckingTree(_) => {},
        Phase::Committing(_) => {},
        Phase::CommittingFallback => {},
        Phase::Fetching => {},
        Phase::CheckingRemoteBranch => {},
        Phase::CheckingHead => {},
        Phase::FindingBase => {},
        Phase::CapturingLocal => {},
        Phase::MergingUnrelated => {},
        Phase::ReadingUnrelated => {},
        Phase::WritingPrepended => {},
        Phase::CountingUnpushed => {},
        Phase::CountingIncoming => {},
        Phase::Merging => {},
        Phase::CheckingMerged => {},
        Phase::CommittingMerge => {},
        Phase::ReadingConflicted => {},
        Phase::AbortingMerge => {},
        Phase::DiffingLocal => {},
        Phase::DiffingRemote => {},
        Phase::MergingTheirs => {
            lemma_reconcile_writes(s);
        },
        Phase::RollingBack => {},
        Phase::ReadingMerged => {
            lemma_reconcile_writes(s);
        },
        Phase::TakingRemote => {},
        Phase::WritingResolved => {},
        Phase::Pushing => {},
        Phase::Done => {},
        Phase::Aborted => {},
    }
}

/// A failed fetch or push never fails the run.
pub proof fn lemma_fetch_and_push_are_not_fatal(s: StateView, e: EventView)
    requires
        s.phase == Phase::Fetching || s.phase == Phase::Pushing,
    ensures
        !(s.step(e).action is Fail),
{
    match s.phase {
        Phase::Start => {},
        Phase::Staging(_) => {},
        Phase::CheckingTree(_) => {},
        Phase::Committing(_) => {},
        Phase::CommittingFallback => {},
        Phase::Fetching => {},
        Phase::CheckingRemoteBranch => {},
        Phase::CheckingHead => {},
        Phase::FindingBase => {},
        Phase::CapturingLocal => {},
        Phase::MergingUnrelated => {},
        Phase::ReadingUnrelated => {},
        Phase::WritingPrepended => {},
        Phase::CountingUnpushed => {},
        Phase::CountingIncoming => {},
        Phase::Merging => {},
        Phase::CheckingMerged => {},
        Phase::CommittingMerge => {},
        Phase::ReadingConflicted => {},
        Phase::AbortingMerge => {},
        Phase::DiffingLocal => {},
        Phase::DiffingRemote => {},
        Phase::MergingTheirs => {
            lemma_reconcile_writes(s);
        },
        Phase::RollingBack => {},
        Phase::ReadingMerged => {
            lemma_reconcile_writes(s);
        },
        Phase::TakingRemote => {},
        Phase::WritingResolved => {},
        Phase::Pushing => {},
        Phase::Done => {},
        Phase::Aborted => {},
    }
}

/// A run on a repository that is clean and level with its remote changes
/// nothing and ends with `NoChanges`: the working tree holds no edits, the
/// branches have a common ancestor, and neither side has a commit that the
/// other lacks. Whether the fetch went through does not matter.
#[verifier::rlimit(30)]
pub proof fn lemma_quiet_run_makes_no_changes(
    now: Seq<char>,
    staged: EventView,
    listed: EventView,
    fetched: EventView,
    branch: EventView,
    head: EventView,
    base: EventView,
    unpushed: EventView,
    incoming: EventView,
)
    requires
        staged.ok,
        listed.ok && is_blank(listed.text),
        branch.ok,
        head.ok,
        base.ok && !is_blank(base.text),
        unpushed.ok && count_is_positive(unpushed.text) == Some(false),
        incoming.ok && count_is_positive(incoming.text) == Some(false),
    ensures
        ({
            let t0 = StateView::initial(true, now).step(EventView { ok: true, text: Seq::empty() });
            let t1 = t0.state.step(staged);
            let t2 = t1.state.step(listed);
            let t3 = t2.state.step(fetched);
            let t4 = t3.state.step(branch);
            let t5 = t4.state.step(head);
            let t6 = t5.state.step(base);
            let t7 = t6.state.step(unpushed);
            let t8 = t7.state.step(incoming);
            &&& t8.action == ActionView::Finish(ResultView::NoChanges)
            &&& !t0.action.mutates() && !t1.action.mutates() && !t2.action.mutates()
            &&& !t3.action.mutates() && !t4.action.mutates() && !t5.action.mutates()
            &&& !t6.action.mutates() && !t7.action.mutates() && !t8.action.mutates()
        }),
{
    let t0 = StateView::initial(true, now).step(EventView { ok: true, text: Seq::empty() });
    assert(t0.state.phase == Phase::Staging(Stage::LocalEdits));
    let t1 = t0.state.step(staged);
    assert(t1.state.phase == Phase::CheckingTree(Stage::LocalEdits));
    let t2 = t1.state.step(listed);
    assert(t2.state.phase == Phase::Fetching);
    let t3 = t2.state.step(fetched);
    assert(t3.state.phase == Phase::CheckingRemoteBranch);
    let t4 = t3.state.step(branch);
    assert(t4.state.phase == Phase::CheckingHead);
    let t5 = t4.state.step(head);
    assert(t5.state.phase == Phase::FindingBase);
    let t6 = t5.state.step(base);
    assert(t6.state.phase == Phase::CountingUnpushed);
    let t7 = t6.state.step(unpushed);
    assert(t7.state.phase == Phase::CountingIncoming);
    assert(t7.state.unpushed == Some(false));
}

} // verus!
