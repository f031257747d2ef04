//! Putting the local side's changes on top of the remote side's notebook.
//!
//! The remote notebook is the ground. Every local change that is in no
//! conflict, or wins its conflict, is carried out on it: what the change took
//! away leaves, what it brought is put on top. A local change that loses is
//! dropped, and one whose conflict cannot be decided is handed back.

use crate::change::{change_views, ChangeView, SectionChange};
use crate::change::copy_text;
use crate::conflict::{
    change_instant, conflict_views, conflicts, find_last_with_key, instant_of_change, is_conflict,
    last_with_key, lemma_last_with_key, resolution, resolve_instants, ConflictView,
    SectionConflict, Winner,
};
use crate::instant::Instant;
use crate::notebook::{parse_text, text_of};
use crate::pairing::{change_keys, keys_of};
use crate::store::{
    content_deletion, hit_from, identity_keys, key_view, prepended, NotebookStore,
};
use crate::text::{lowercase, string_views};
use vstd::prelude::*;

verus! {

/// One step of a merge.
#[derive(Debug)]
pub enum MergeStep {
    /// Take the section with this identity away; with a timestamp, the one
    /// that bears it.
    Remove { identity: String, timestamp: Option<String> },
    /// Put this section on top, unless the notebook holds it already.
    Insert { identity: String, content: String, timestamp: Option<String> },
}

/// A step as a mathematical value.
pub enum StepView {
    Remove { identity: Seq<char>, timestamp: Option<Seq<char>> },
    Insert { identity: Seq<char>, content: Seq<char>, timestamp: Option<Seq<char>> },
}

impl View for MergeStep {
    type V = StepView;

    open spec fn view(&self) -> StepView {
        match *self {
            MergeStep::Remove { identity, timestamp } => StepView::Remove {
                identity: identity@,
                timestamp: text_of(timestamp),
            },
            MergeStep::Insert { identity, content, timestamp } => StepView::Insert {
                identity: identity@,
                content: content@,
                timestamp: text_of(timestamp),
            },
        }
    }
}

/// The views of a vector of steps, element by element.
pub open spec fn step_views(v: Seq<MergeStep>) -> Seq<StepView> {
    Seq::new(v.len(), |i: int| v[i]@)
}

/// What becomes of a local change.
#[derive(Debug, Clone, Copy, PartialEq, Eq, Structural)]
pub enum Decision {
    /// It is in no conflict and is carried out.
    Apply,
    /// It wins against the remote change with this index and replaces it.
    Override(usize),
    /// It loses and is dropped.
    Yield,
    /// Its conflict with the remote change with this index is not decided.
    Defer(usize),
}

/// The instants of the changes, one by one.
pub open spec fn change_instants(cs: Seq<ChangeView>) -> Seq<Option<Instant>> {
    Seq::new(cs.len(), |i: int| change_instant(cs[i]))
}

/// The two sides of a merge: their changes, and for each change the key of
/// its section and the instant it bears.
pub struct Sides {
    pub locals: Seq<ChangeView>,
    pub local_keys: Seq<Seq<char>>,
    pub local_instants: Seq<Option<Instant>>,
    pub remotes: Seq<ChangeView>,
    pub remote_keys: Seq<Seq<char>>,
    pub remote_instants: Seq<Option<Instant>>,
}

impl Sides {
    /// The sides with the keys and instants that the changes themselves give.
    pub open spec fn of(locals: Seq<ChangeView>, remotes: Seq<ChangeView>) -> Sides {
        Sides {
            locals,
            local_keys: change_keys(locals),
            local_instants: change_instants(locals),
            remotes,
            remote_keys: change_keys(remotes),
            remote_instants: change_instants(remotes),
        }
    }

    /// Whether there is a key and an instant for every change.
    pub open spec fn wf(self) -> bool {
        &&& self.local_keys.len() == self.locals.len()
        &&& self.local_instants.len() == self.locals.len()
        &&& self.remote_keys.len() == self.remotes.len()
        &&& self.remote_instants.len() == self.remotes.len()
    }

    /// What becomes of local change `i`. Of the changes of one side to one
    /// section only the last can be in conflict.
    pub open spec fn decision(self, i: int) -> Decision {
        if last_with_key(self.local_keys, self.local_keys[i], self.locals.len() as int) == Some(i) {
            match last_with_key(self.remote_keys, self.local_keys[i], self.remotes.len() as int) {
                Some(j) => if conflicts(self.locals[i], self.remotes[j]) {
                    match resolution(self.local_instants[i], self.remote_instants[j]) {
                        Winner::Local => Decision::Override(j as usize),
                        Winner::Remote => Decision::Yield,
                        Winner::Unresolvable => Decision::Defer(j as usize),
                    }
                } else {
                    Decision::Apply
                },
                None => Decision::Apply,
            }
        } else {
            Decision::Apply
        }
    }

    /// The sections that leave on account of local change `i`: the remote
    /// side's version where the change replaces it, then the old version.
    pub open spec fn removals_at(self, i: int) -> Seq<StepView> {
        let c = self.locals[i];
        let own = if c.old_content is Some {
            seq![StepView::Remove { identity: c.word, timestamp: c.old_timestamp }]
        } else {
            Seq::empty()
        };
        match self.decision(i) {
            Decision::Apply => own,
            Decision::Override(j) => {
                let r = self.remotes[j as int];
                if r.new_content is Some {
                    seq![StepView::Remove { identity: r.word, timestamp: r.new_timestamp }] + own
                } else {
                    own
                }
            },
            _ => Seq::empty(),
        }
    }

    /// The section that comes on account of local change `i`.
    pub open spec fn insertions_at(self, i: int) -> Seq<StepView> {
        let c = self.locals[i];
        match (self.decision(i), c.new_content) {
            (Decision::Apply, Some(text)) | (Decision::Override(_), Some(text)) => seq![
                StepView::Insert { identity: c.word, content: text, timestamp: c.new_timestamp },
            ],
            _ => Seq::empty(),
        }
    }

    /// The conflict that local change `i` leaves open.
    pub open spec fn deferred_at(self, i: int) -> Seq<ConflictView> {
        match self.decision(i) {
            Decision::Defer(j) => seq![
                ConflictView { local: self.locals[i], remote: self.remotes[j as int] },
            ],
            _ => Seq::empty(),
        }
    }

    /// The removals of the local changes from `i` on, in their order.
    pub open spec fn removals_from(self, i: int) -> Seq<StepView>
        decreases self.locals.len() - i,
    {
        if i < 0 || i >= self.locals.len() {
            Seq::empty()
        } else {
            self.removals_at(i) + self.removals_from(i + 1)
        }
    }

    /// The insertions of the local changes from `i` on, the last change
    /// first: put on top one after the other, the sections come to stand in
    /// the order of the changes.
    pub open spec fn insertions_from(self, i: int) -> Seq<StepView>
        decreases self.locals.len() - i,
    {
        if i < 0 || i >= self.locals.len() {
            Seq::empty()
        } else {
            self.insertions_from(i + 1) + self.insertions_at(i)
        }
    }

    /// The open conflicts of the local changes from `i` on, in their order.
    pub open spec fn deferred_from(self, i: int) -> Seq<ConflictView>
        decreases self.locals.len() - i,
    {
        if i < 0 || i >= self.locals.len() {
            Seq::empty()
        } else {
            self.deferred_at(i) + self.deferred_from(i + 1)
        }
    }

    /// The steps of the merge: first what leaves, then what comes.
    pub open spec fn steps(self) -> Seq<StepView> {
        self.removals_from(0) + self.insertions_from(0)
    }
}

/// Only a conflict that cannot be decided is handed back: every conflict
/// that a merge leaves open is one between a local and a remote change to
/// the same section, of which neither bears an instant.
pub proof fn lemma_deferred_are_undecided(sides: Sides, i: int)
    requires
        sides.wf(),
        sides.remotes.len() <= usize::MAX,
        0 <= i,
    ensures
        forall|k: int|
            0 <= k < sides.deferred_from(i).len() ==> {
                let c = #[trigger] sides.deferred_from(i)[k];
                exists|a: int, b: int|
                    i <= a < sides.locals.len() && 0 <= b < sides.remotes.len() && c
                        == (ConflictView { local: sides.locals[a], remote: sides.remotes[b] })
                        && sides.local_keys[a] == sides.remote_keys[b] && conflicts(
                        sides.locals[a],
                        sides.remotes[b],
                    ) && sides.local_instants[a] is None && sides.remote_instants[b] is None
            },
    decreases sides.locals.len() - i,
{
    if i < sides.locals.len() {
        lemma_deferred_are_undecided(sides, i + 1);
        let here = sides.deferred_at(i);
        let rest = sides.deferred_from(i + 1);
        lemma_last_with_key(
            sides.remote_keys,
            sides.local_keys[i],
            sides.remotes.len() as int,
        );
        assert forall|k: int| 0 <= k < sides.deferred_from(i).len() implies {
            let c = #[trigger] sides.deferred_from(i)[k];
            exists|a: int, b: int|
                i <= a < sides.locals.len() && 0 <= b < sides.remotes.len() && c == (ConflictView {
                    local: sides.locals[a],
                    remote: sides.remotes[b],
                }) && sides.local_keys[a] == sides.remote_keys[b] && conflicts(
                    sides.locals[a],
                    sides.remotes[b],
                ) && sides.local_instants[a] is None && sides.remote_instants[b] is None
        } by {
            let c = sides.deferred_from(i)[k];
            if k < here.len() {
                match sides.decision(i) {
                    Decision::Defer(j) => {
                        let b = last_with_key(
                            sides.remote_keys,
                            sides.local_keys[i],
                            sides.remotes.len() as int,
                        )->0;
                        assert(j as int == b);
                        assert(c == (ConflictView {
                            local: sides.locals[i],
                            remote: sides.remotes[b],
                        }));
                    },
                    _ => {},
                }
            } else {
                assert(c == rest[k - here.len()]);
            }
        }
    }
}

/// Where no local change meets a remote change to the same section, every
/// local change is carried out and no conflict is left open.
pub proof fn lemma_apart_changes_all_apply(sides: Sides, i: int)
    requires
        sides.wf(),
        0 <= i,
        forall|a: int, b: int|
            0 <= a < sides.locals.len() && 0 <= b < sides.remotes.len()
                ==> #[trigger] sides.local_keys[a] != #[trigger] sides.remote_keys[b],
    ensures
        sides.deferred_from(i).len() == 0,
        forall|a: int| i <= a < sides.locals.len() ==> #[trigger] sides.decision(a) == Decision::Apply,
    decreases sides.locals.len() - i,
{
    if i < sides.locals.len() {
        lemma_apart_changes_all_apply(sides, i + 1);
        assert forall|a: int| i <= a < sides.locals.len() implies #[trigger] sides.decision(a)
            == Decision::Apply by {
            lemma_last_with_key(
                sides.remote_keys,
                sides.local_keys[a],
                sides.remotes.len() as int,
            );
        }
    }
}

/// A merge that was planned: the steps to carry out, and the conflicts that
/// are left to a person.
#[derive(Debug)]
pub struct MergePlan {
    pub steps: Vec<MergeStep>,
    pub unresolved: Vec<SectionConflict>,
}

/// Decides what becomes of local change `i`.
pub fn decide(
    locals: &Vec<SectionChange>,
    local_keys: &Vec<String>,
    local_instants: &Vec<Option<Instant>>,
    remotes: &Vec<SectionChange>,
    remote_keys: &Vec<String>,
    remote_instants: &Vec<Option<Instant>>,
    i: usize,
) -> (d: Decision)
    requires
        i < locals.len(),
        sides_of(
            locals,
            local_keys,
            local_instants,
            remotes,
            remote_keys,
            remote_instants,
        ).wf(),
    ensures
        d == sides_of(
            locals,
            local_keys,
            local_instants,
            remotes,
            remote_keys,
            remote_instants,
        ).decision(i as int),
        match d {
            Decision::Override(j) => j < remotes.len(),
            Decision::Defer(j) => j < remotes.len(),
            _ => true,
        },
{
    let key = local_keys[i].as_str();
    assert(string_views(local_keys@)[i as int] == key@);
    if find_last_with_key(local_keys, key, locals.len()) != Some(i) {
        return Decision::Apply;
    }
    match find_last_with_key(remote_keys, key, remotes.len()) {
        None => Decision::Apply,
        Some(j) => {
            assert(change_views(locals@)[i as int] == locals@[i as int]@);
            assert(change_views(remotes@)[j as int] == remotes@[j as int]@);
            if !is_conflict(&locals[i], &remotes[j]) {
                return Decision::Apply;
            }
            match resolve_instants(local_instants[i], remote_instants[j]) {
                Winner::Local => Decision::Override(j),
                Winner::Remote => Decision::Yield,
                Winner::Unresolvable => Decision::Defer(j),
            }
        },
    }
}

/// The two sides as a mathematical value.
pub open spec fn sides_of(
    locals: &Vec<SectionChange>,
    local_keys: &Vec<String>,
    local_instants: &Vec<Option<Instant>>,
    remotes: &Vec<SectionChange>,
    remote_keys: &Vec<String>,
    remote_instants: &Vec<Option<Instant>>,
) -> Sides {
    Sides {
        locals: change_views(locals@),
        local_keys: string_views(local_keys@),
        local_instants: local_instants@,
        remotes: change_views(remotes@),
        remote_keys: string_views(remote_keys@),
        remote_instants: remote_instants@,
    }
}

/// Plans the merge of the two sides, with the given keys and instants for
/// their changes.
pub fn plan_merge_keyed(
    locals: &Vec<SectionChange>,
    local_keys: &Vec<String>,
    local_instants: &Vec<Option<Instant>>,
    remotes: &Vec<SectionChange>,
    remote_keys: &Vec<String>,
    remote_instants: &Vec<Option<Instant>>,
) -> (plan: MergePlan)
    requires
        sides_of(
            locals,
            local_keys,
            local_instants,
            remotes,
            remote_keys,
            remote_instants,
        ).wf(),
    ensures
        step_views(plan.steps@) == sides_of(
            locals,
            local_keys,
            local_instants,
            remotes,
            remote_keys,
            remote_instants,
        ).steps(),
        conflict_views(plan.unresolved@) == sides_of(
            locals,
            local_keys,
            local_instants,
            remotes,
            remote_keys,
            remote_instants,
        ).deferred_from(0),
{
    let ghost sides = sides_of(
        locals,
        local_keys,
        local_instants,
        remotes,
        remote_keys,
        remote_instants,
    );
    let n: usize = locals.len();
    let mut steps: Vec<MergeStep> = Vec::new();
    let mut unresolved: Vec<SectionConflict> = Vec::new();
    let mut i: usize = 0;
    assert(step_views(steps@) + sides.removals_from(0) =~= sides.removals_from(0));
    assert(conflict_views(unresolved@) + sides.deferred_from(0) =~= sides.deferred_from(0));
    while i < n
        invariant
            i <= n,
            n == locals.len(),
            sides.wf(),
            sides == sides_of(
                locals,
                local_keys,
                local_instants,
                remotes,
                remote_keys,
                remote_instants,
            ),
            sides.removals_from(0) == step_views(steps@) + sides.removals_from(i as int),
            sides.deferred_from(0) == conflict_views(unresolved@) + sides.deferred_from(i as int),
        decreases n - i,
    {
        let ghost before = step_views(steps@);
        let ghost open = conflict_views(unresolved@);
        let d = decide(locals, local_keys, local_instants, remotes, remote_keys, remote_instants, i);
        let c = &locals[i];
        assert(sides.locals[i as int] == c@);
        match d {
            Decision::Override(j) => {
                let r = &remotes[j];
                assert(sides.remotes[j as int] == r@);
                if r.new_content.is_some() {
                    steps.push(
                        MergeStep::Remove {
                            identity: r.word.clone(),
                            timestamp: copy_text(&r.new_timestamp),
                        },
                    );
                }
            },
            Decision::Defer(j) => {
                assert(sides.remotes[j as int] == remotes@[j as int]@);
                let open_one = SectionConflict {
                    local: c.duplicate(),
                    remote: remotes[j].duplicate(),
                };
                unresolved.push(open_one);
            },
            _ => {},
        }
        match d {
            Decision::Apply | Decision::Override(_) => {
                if c.old_content.is_some() {
                    steps.push(
                        MergeStep::Remove {
                            identity: c.word.clone(),
                            timestamp: copy_text(&c.old_timestamp),
                        },
                    );
                }
            },
            _ => {},
        }
        assert(step_views(steps@) =~= before + sides.removals_at(i as int));
        assert(conflict_views(unresolved@) =~= open + sides.deferred_at(i as int));
        assert(before + (sides.removals_at(i as int) + sides.removals_from(i + 1)) =~= step_views(
            steps@,
        ) + sides.removals_from(i + 1));
        assert(open + (sides.deferred_at(i as int) + sides.deferred_from(i + 1))
            =~= conflict_views(unresolved@) + sides.deferred_from(i + 1));
        i += 1;
    }
    assert(step_views(steps@) =~= sides.removals_from(0));
    assert(conflict_views(unresolved@) =~= sides.deferred_from(0));
    assert(step_views(steps@) =~= sides.removals_from(0) + sides.insertions_from(n as int));
    while i > 0
        invariant
            i <= n,
            n == locals.len(),
            sides.wf(),
            sides == sides_of(
                locals,
                local_keys,
                local_instants,
                remotes,
                remote_keys,
                remote_instants,
            ),
            step_views(steps@) == sides.removals_from(0) + sides.insertions_from(i as int),
        decreases i,
    {
        let ghost before = step_views(steps@);
        i -= 1;
        let d = decide(locals, local_keys, local_instants, remotes, remote_keys, remote_instants, i);
        let c = &locals[i];
        assert(sides.locals[i as int] == c@);
        match d {
            Decision::Apply | Decision::Override(_) => {
                match &c.new_content {
                    Some(text) => {
                        steps.push(
                            MergeStep::Insert {
                                identity: c.word.clone(),
                                content: text.clone(),
                                timestamp: copy_text(&c.new_timestamp),
                            },
                        );
                    },
                    None => {},
                }
            },
            _ => {},
        }
        assert(step_views(steps@) =~= before + sides.insertions_at(i as int));
        assert(sides.removals_from(0) + sides.insertions_from(i + 1) + sides.insertions_at(i as int)
            =~= sides.removals_from(0) + (sides.insertions_from(i + 1) + sides.insertions_at(
            i as int,
        )));
    }
    MergePlan { steps, unresolved }
}

/// The instants of the changes.
pub fn instants_of(changes: &Vec<SectionChange>) -> (out: Vec<Option<Instant>>)
    ensures
        out@ == change_instants(change_views(changes@)),
{
    let mut out: Vec<Option<Instant>> = Vec::new();
    let mut i: usize = 0;
    while i < changes.len()
        invariant
            i <= changes.len(),
            out@ == change_instants(change_views(changes@)).take(i as int),
        decreases changes.len() - i,
    {
        let ghost before = out@;
        let at = instant_of_change(&changes[i]);
        out.push(at);
        assert(change_instants(change_views(changes@)).take(i + 1) =~= before.push(at));
        i += 1;
    }
    assert(change_instants(change_views(changes@)).take(changes.len() as int)
        =~= change_instants(change_views(changes@)));
    out
}

/// Plans the merge of the two sides. Sections are told apart by their
/// identities in lower case, and conflicts are decided by the timestamps of
/// the changes.
pub fn plan_merge(locals: &Vec<SectionChange>, remotes: &Vec<SectionChange>) -> (plan: MergePlan)
    ensures
        step_views(plan.steps@) == Sides::of(change_views(locals@), change_views(remotes@)).steps(),
        conflict_views(plan.unresolved@) == Sides::of(
            change_views(locals@),
            change_views(remotes@),
        ).deferred_from(0),
{
    let local_keys = keys_of(locals);
    let remote_keys = keys_of(remotes);
    let local_instants = instants_of(locals);
    let remote_instants = instants_of(remotes);
    plan_merge_keyed(locals, &local_keys, &local_instants, remotes, &remote_keys, &remote_instants)
}

/// Whether the content holds a section with the key, and with the timestamp
/// where one is given.
pub open spec fn content_holds(content: Seq<char>, key: Seq<char>, stamp: Option<Seq<char>>) -> bool {
    let nb = parse_text(content);
    hit_from(identity_keys(nb.sections), nb.sections, Some(key), stamp, 0) is Some
}

/// The content after one step, with `now` as the timestamp for an entry
/// that bears none. A removal that finds nothing leaves the content as it is.
pub open spec fn step_applied(content: Seq<char>, step: StepView, now: Seq<char>) -> Seq<char> {
    match step {
        StepView::Remove { identity, timestamp } => match content_deletion(
            content,
            Some(lowercase(identity)),
            timestamp,
        ) {
            Ok(left) => left,
            Err(_) => content,
        },
        StepView::Insert { identity, content: text, timestamp } => if content_holds(
            content,
            lowercase(identity),
            timestamp,
        ) {
            content
        } else {
            prepended(content, text, now)
        },
    }
}

/// The content after the first `k` steps.
pub open spec fn steps_applied(content: Seq<char>, steps: Seq<StepView>, now: Seq<char>, k: int) -> Seq<
    char,
>
    decreases k,
{
    if k <= 0 {
        content
    } else {
        step_applied(steps_applied(content, steps, now, k - 1), steps[k - 1], now)
    }
}

impl NotebookStore {
    /// Tests whether the store holds a section named `identity`, and with
    /// the timestamp where one is given.
    pub fn holds(&self, identity: &str, stamp: Option<&str>) -> (r: bool)
        ensures
            r == content_holds(self.content@, lowercase(identity@), key_view(stamp)),
    {
        let nb = self.notebook();
        let keys = nb.section_keys();
        let key = identity.to_lowercase();
        nb.select_from(&keys, Some(key.as_str()), stamp, 0).is_some()
    }

    /// Carries out one step of a merge.
    pub fn apply_step(&mut self, step: &MergeStep, now: &str)
        ensures
            final(self).content@ == step_applied(old(self).content@, step@, now@),
    {
        match step {
            MergeStep::Remove { identity, timestamp } => {
                let stamp: Option<&str> = match timestamp {
                    Some(t) => Some(t.as_str()),
                    None => None,
                };
                let _ = self.delete(identity.as_str(), stamp);
            },
            MergeStep::Insert { identity, content, timestamp } => {
                let stamp: Option<&str> = match timestamp {
                    Some(t) => Some(t.as_str()),
                    None => None,
                };
                if !self.holds(identity.as_str(), stamp) {
                    self.prepend_at(content.as_str(), now);
                }
            },
        }
    }

    /// Carries out the steps of a merge, one after the other.
    pub fn apply_steps(&mut self, steps: &Vec<MergeStep>, now: &str)
        ensures
            final(self).content@ == steps_applied(
                old(self).content@,
                step_views(steps@),
                now@,
                steps.len() as int,
            ),
    {
        let mut i: usize = 0;
        while i < steps.len()
            invariant
                i <= steps.len(),
                self.content@ == steps_applied(
                    old(self).content@,
                    step_views(steps@),
                    now@,
                    i as int,
                ),
            decreases steps.len() - i,
        {
            assert(step_views(steps@)[i as int] == steps@[i as int]@);
            self.apply_step(&steps[i], now);
            i += 1;
        }
    }
}

} // verus!
