use word4you::change::{ChangeType, SectionChange};
use word4you::instant::Instant;
use word4you::merge::{decide, plan_merge, plan_merge_keyed, Decision, MergeStep};
use word4you::notebook::Notebook;
use word4you::store::NotebookStore;

fn change(
    change_type: ChangeType,
    word: &str,
    old: Option<(&str, &str)>,
    new: Option<(&str, &str)>,
) -> SectionChange {
    SectionChange {
        change_type,
        word: word.to_string(),
        old_content: old.map(|(c, _)| c.to_string()),
        new_content: new.map(|(c, _)| c.to_string()),
        old_timestamp: old.map(|(_, t)| t.to_string()),
        new_timestamp: new.map(|(_, t)| t.to_string()),
    }
}

fn describe(steps: &[MergeStep]) -> Vec<String> {
    steps
        .iter()
        .map(|s| match s {
            MergeStep::Remove { identity, timestamp } => {
                format!("remove {} {:?}", identity, timestamp)
            }
            MergeStep::Insert { identity, content, timestamp } => {
                format!("insert {} {:?} {:?}", identity, content, timestamp)
            }
        })
        .collect()
}

const T0: &str = "2024-01-01T00:00:00Z";
const T1: &str = "2024-01-02T00:00:00Z";
const T2: &str = "2024-01-03T00:00:00Z";

#[test]
fn changes_without_a_conflict_are_carried_out() {
    let locals = vec![
        change(ChangeType::Added, "a", None, Some(("## a\n---", T1))),
        change(ChangeType::Deleted, "b", Some(("## b\n---", T0)), None),
        change(ChangeType::Modified, "c", Some(("## c\nold", T0)), Some(("## c\nnew", T2))),
    ];
    let remotes = vec![change(ChangeType::Added, "z", None, Some(("## z\n---", T1)))];
    let plan = plan_merge(&locals, &remotes);
    assert!(plan.unresolved.is_empty());
    assert_eq!(
        describe(&plan.steps),
        vec![
            format!("remove b {:?}", Some(T0)),
            format!("remove c {:?}", Some(T0)),
            format!("insert c {:?} {:?}", "## c\nnew", Some(T2)),
            format!("insert a {:?} {:?}", "## a\n---", Some(T1)),
        ]
    );
}

#[test]
fn the_winner_of_a_conflict_replaces_the_loser() {
    let locals = vec![change(ChangeType::Modified, "w", Some(("o", T0)), Some(("local", T2)))];
    let remotes = vec![change(ChangeType::Modified, "W", Some(("o", T0)), Some(("remote", T1)))];
    let plan = plan_merge(&locals, &remotes);
    assert!(plan.unresolved.is_empty());
    assert_eq!(
        describe(&plan.steps),
        vec![
            format!("remove W {:?}", Some(T1)),
            format!("remove w {:?}", Some(T0)),
            format!("insert w {:?} {:?}", "local", Some(T2)),
        ]
    );
    // the other way round nothing is done: the remote text stands
    let plan = plan_merge(&remotes, &locals);
    assert!(plan.unresolved.is_empty());
    assert!(plan.steps.is_empty());
}

#[test]
fn a_deletion_that_wins_removes_the_remote_text() {
    let locals = vec![change(ChangeType::Deleted, "w", Some(("o", T2)), None)];
    let remotes = vec![change(ChangeType::Modified, "w", Some(("o", T0)), Some(("remote", T1)))];
    let plan = plan_merge(&locals, &remotes);
    assert_eq!(
        describe(&plan.steps),
        vec![format!("remove w {:?}", Some(T1)), format!("remove w {:?}", Some(T2))]
    );
    // against a remote deletion there is nothing of the remote side to remove
    let locals = vec![change(ChangeType::Added, "w", None, Some(("new", T2)))];
    let remotes = vec![change(ChangeType::Deleted, "w", Some(("o", T1)), None)];
    let plan = plan_merge(&locals, &remotes);
    assert_eq!(describe(&plan.steps), vec![format!("insert w {:?} {:?}", "new", Some(T2))]);
}

#[test]
fn a_conflict_without_timestamps_is_left_open() {
    let locals = vec![
        change(ChangeType::Added, "x", None, Some(("lx", "never"))),
        change(ChangeType::Added, "y", None, Some(("ly", T1))),
    ];
    let remotes = vec![change(ChangeType::Added, "x", None, Some(("rx", "")))];
    let plan = plan_merge(&locals, &remotes);
    assert_eq!(plan.unresolved.len(), 1);
    assert_eq!(plan.unresolved[0].local.new_content.as_deref(), Some("lx"));
    assert_eq!(plan.unresolved[0].remote.new_content.as_deref(), Some("rx"));
    assert_eq!(describe(&plan.steps), vec![format!("insert y {:?} {:?}", "ly", Some(T1))]);
}

#[test]
fn decisions_go_by_the_keys_and_instants_that_are_given() {
    let locals = vec![change(ChangeType::Added, "l", None, Some(("a", "x")))];
    let remotes = vec![change(ChangeType::Added, "r", None, Some(("b", "y")))];
    let k = vec!["k".to_string()];
    let early = vec![Some(Instant { secs: 1, nanos: 0 })];
    let late = vec![Some(Instant { secs: 1, nanos: 1 })];
    let none = vec![None];
    assert_eq!(decide(&locals, &k, &late, &remotes, &k, &early, 0), Decision::Override(0));
    assert_eq!(decide(&locals, &k, &early, &remotes, &k, &late, 0), Decision::Yield);
    assert_eq!(decide(&locals, &k, &early, &remotes, &k, &early, 0), Decision::Override(0));
    assert_eq!(decide(&locals, &k, &none, &remotes, &k, &none, 0), Decision::Defer(0));
    assert_eq!(decide(&locals, &k, &none, &remotes, &k, &late, 0), Decision::Yield);
    let other = vec!["other".to_string()];
    assert_eq!(decide(&locals, &k, &none, &remotes, &other, &none, 0), Decision::Apply);
    let plan = plan_merge_keyed(&locals, &k, &early, &remotes, &k, &late);
    assert!(plan.steps.is_empty() && plan.unresolved.is_empty());
}

#[test]
fn steps_are_carried_out_on_the_store() {
    let text = "## a\nremote a\n<!-- timestamp=T1 -->\n---\n## b\nb\n<!-- timestamp=T0 -->\n---";
    let mut store = NotebookStore::new(text.to_string());
    let steps = vec![
        MergeStep::Remove { identity: "A".to_string(), timestamp: Some("T1".to_string()) },
        MergeStep::Remove { identity: "nowhere".to_string(), timestamp: None },
        MergeStep::Insert {
            identity: "a".to_string(),
            content: "## a\nlocal a\n<!-- timestamp=T2 -->\n---".to_string(),
            timestamp: Some("T2".to_string()),
        },
        // the notebook holds it already
        MergeStep::Insert {
            identity: "B".to_string(),
            content: "## b\nb\n<!-- timestamp=T0 -->\n---".to_string(),
            timestamp: Some("T0".to_string()),
        },
        MergeStep::Insert { identity: "c".to_string(), content: "## c".to_string(), timestamp: None },
    ];
    store.apply_steps(&steps, "NOW");
    assert_eq!(
        store.content,
        "## c\n\n<!-- timestamp=NOW -->\n\n---\n## a\nlocal a\n<!-- timestamp=T2 -->\n---\n## b\nb\n<!-- timestamp=T0 -->\n---"
    );
    assert!(store.holds("C", None));
    assert!(store.holds("c", Some("NOW")));
    assert!(!store.holds("c", Some("T0")));
    assert!(!store.holds("d", None));
}

fn entry(word: &str, body: &str, stamp: &str) -> String {
    format!("## {}\n{}\n\n<!-- timestamp={} -->\n\n---", word, body, stamp)
}

fn carry_out(merged: &str, locals: &[SectionChange], remotes: &[SectionChange]) -> (String, usize) {
    let plan = plan_merge(&locals.to_vec_of_copies(), &remotes.to_vec_of_copies());
    let mut store = NotebookStore::new(merged.to_string());
    store.apply_steps(&plan.steps, "2024-06-01T00:00:00.000Z");
    (store.content, plan.unresolved.len())
}

trait Copies {
    fn to_vec_of_copies(&self) -> Vec<SectionChange>;
}

impl Copies for [SectionChange] {
    fn to_vec_of_copies(&self) -> Vec<SectionChange> {
        self.iter().map(|c| c.duplicate()).collect()
    }
}

fn names(text: &str) -> Vec<String> {
    Notebook::parse(text).sections.into_iter().map(|s| s.identity).collect()
}

#[test]
fn additions_to_different_sections_are_both_in_the_notebook() {
    let old = entry("old", "Old.", T0);
    let mine = entry("serendipity", "A happy accident.", T1);
    let theirs = entry("ephemeral", "Short-lived.", T2);
    let merged = format!("{}\n{}", theirs, old);
    let locals = [change(ChangeType::Added, "serendipity", None, Some((&mine, T1)))];
    let remotes = [change(ChangeType::Added, "ephemeral", None, Some((&theirs, T2)))];
    let (out, open) = carry_out(&merged, &locals, &remotes);
    assert_eq!(open, 0);
    assert_eq!(out, format!("{}\n{}", mine, merged));
    assert_eq!(names(&out), vec!["serendipity", "ephemeral", "old"]);
    // where the merge brought the local section already, nothing is added
    let both = format!("{}\n{}\n{}", theirs, mine, old);
    let (out, _) = carry_out(&both, &locals, &remotes);
    assert_eq!(out, both);
}

#[test]
fn a_winning_change_replaces_the_text_of_the_other_side() {
    let other = entry("other", "Untouched.", T0);
    let base = entry("resilience", "Base.", T0);
    let mine = entry("resilience", "Local.", T2);
    let theirs = entry("Resilience", "Remote.", T1);
    let merged = format!("{}\n{}", theirs, other);
    let locals = [change(ChangeType::Modified, "resilience", Some((&base, T0)), Some((&mine, T2)))];
    let remotes = [change(ChangeType::Modified, "Resilience", Some((&base, T0)), Some((&theirs, T1)))];
    let (out, open) = carry_out(&merged, &locals, &remotes);
    assert_eq!(open, 0);
    assert_eq!(out, format!("{}\n{}", mine, other));
    assert_eq!(names(&out), vec!["resilience", "other"]);
    assert!(!out.contains("Remote."));
    // a notebook that held nothing else holds the local text alone
    let (out, _) = carry_out(&theirs, &locals, &remotes);
    assert_eq!(out, mine);
    // the other way round the remote text stands
    let (out, open) = carry_out(&merged, &remotes, &locals);
    assert_eq!(open, 0);
    assert_eq!(out, merged);
}

#[test]
fn deletions_on_both_sides_leave_the_notebook_alone() {
    let kept = entry("kept", "Stays.", T1);
    let gone = entry("obsolete", "Goes.", T0);
    let locals = [change(ChangeType::Deleted, "obsolete", Some((&gone, T0)), None)];
    let remotes = [change(ChangeType::Deleted, "Obsolete", Some((&gone, T0)), None)];
    let (out, open) = carry_out(&kept, &locals, &remotes);
    assert_eq!(open, 0);
    assert_eq!(out, kept);
    assert_eq!(names(&out), vec!["kept"]);
}
