use word4you::notebook::Notebook;
use word4you::sync::{
    positive_count, text_has_conflict_markers, Action, CommitMessage, Event, MergeMode, Notice,
    Phase, Stage, SyncResult, SyncState,
};

const NOW: &str = "2024-06-01T00:00:00.000+00:00";

/// A repository in memory that answers the actions of the machine.
struct Repo {
    notebook: String,
    remote_notebook: Option<String>,
    dirty: bool,
    has_head: bool,
    base: Option<String>,
    unpushed: u32,
    incoming: u32,
    conflicting: bool,
    conflicted_notebook: Option<String>,
    before_merge: Option<String>,
    merged_notebook: String,
    local_diff: String,
    remote_diff: String,
    fetch_ok: bool,
    push_ok: bool,
    theirs_ok: bool,
    log: Vec<String>,
    notices: Vec<Notice>,
}

fn repo(notebook: &str) -> Repo {
    Repo {
        notebook: notebook.to_string(),
        remote_notebook: Some(String::new()),
        dirty: false,
        has_head: true,
        base: Some("0123abc".to_string()),
        unpushed: 0,
        incoming: 0,
        conflicting: false,
        conflicted_notebook: None,
        before_merge: None,
        merged_notebook: String::new(),
        local_diff: String::new(),
        remote_diff: String::new(),
        fetch_ok: true,
        push_ok: true,
        theirs_ok: true,
        log: Vec::new(),
        notices: Vec::new(),
    }
}

fn done(s: &str) -> Event {
    Event::Done(s.to_string())
}

fn failed(s: &str) -> Event {
    Event::Failed(s.to_string())
}

fn perform(r: &mut Repo, action: &Action) -> Event {
    r.log.push(match action.git_args("vocabulary_notebook.md") {
        Some(args) => args.join(" "),
        None => match action {
            Action::ReadNotebook => "read".to_string(),
            Action::WriteNotebook(_) => "write".to_string(),
            _ => unreachable!(),
        },
    });
    match action {
        Action::StageAll => done(""),
        Action::ListChangedPaths => {
            if r.dirty {
                done(" M vocabulary_notebook.md\n")
            } else {
                done("")
            }
        }
        Action::Commit(_) => {
            if r.dirty {
                r.dirty = false;
                r.has_head = true;
                r.unpushed += 1;
                done("[main 1234567] committed")
            } else {
                failed("On branch main\nnothing to commit, working tree clean")
            }
        }
        Action::Fetch => {
            if r.fetch_ok {
                done("")
            } else {
                failed("fatal: unable to access remote")
            }
        }
        Action::VerifyRemoteBranch => match r.remote_notebook {
            Some(_) => done("89abcdef\n"),
            None => failed("fatal: Needed a single revision"),
        },
        Action::VerifyHead => {
            if r.has_head {
                done("01234567\n")
            } else {
                failed("fatal: Needed a single revision")
            }
        }
        Action::FindMergeBase => match &r.base {
            Some(b) => done(&format!("{}\n", b)),
            None => failed(""),
        },
        Action::CountUnpushed => done(&format!("{}\n", r.unpushed)),
        Action::CountIncoming => done(&format!("{}\n", r.incoming)),
        Action::Merge(MergeMode::NoCommit) => {
            if r.conflicting {
                if let Some(text) = r.conflicted_notebook.clone() {
                    r.before_merge = Some(r.notebook.clone());
                    r.notebook = text;
                }
                failed("Auto-merging vocabulary_notebook.md\nCONFLICT (content): Merge conflict in vocabulary_notebook.md\nAutomatic merge failed; fix conflicts and then commit the result.")
            } else if r.incoming == 0 {
                done("Already up to date.\n")
            } else {
                r.notebook = r.merged_notebook.clone();
                r.dirty = true;
                r.incoming = 0;
                done("Automatic merge went well; stopped before committing as requested\n")
            }
        }
        Action::Merge(MergeMode::PreferTheirs) => {
            if !r.theirs_ok {
                return failed("fatal: refusing to merge");
            }
            r.notebook = r.remote_notebook.clone().unwrap();
            r.incoming = 0;
            r.unpushed += 1;
            r.base = Some("merged".to_string());
            done("Merge made by the 'ort' strategy.\n")
        }
        Action::AbortMerge => {
            if let Some(text) = r.before_merge.take() {
                r.notebook = text;
            }
            done("")
        }
        Action::DiffLocal(base) => {
            assert_eq!(Some(base), r.base.as_ref());
            done(&r.local_diff)
        }
        Action::DiffRemote(base) => {
            assert_eq!(Some(base), r.base.as_ref());
            done(&r.remote_diff)
        }
        Action::ReadNotebook => done(&r.notebook),
        Action::WriteNotebook(text) => {
            if *text != r.notebook {
                r.dirty = true;
            }
            r.notebook = text.clone();
            done("")
        }
        Action::ShowRemoteNotebook => done(r.remote_notebook.as_deref().unwrap()),
        Action::Push => {
            if r.push_ok {
                r.unpushed = 0;
                r.remote_notebook = Some(r.notebook.clone());
                done("")
            } else {
                failed("! [rejected] main -> main (non-fast-forward)")
            }
        }
        Action::Finish(_) | Action::Fail(_) => unreachable!(),
    }
}

fn run(r: &mut Repo, has_remote: bool) -> Result<SyncResult, String> {
    let mut state = SyncState::new(has_remote, NOW);
    let mut event = done("");
    let mut steps = 0;
    loop {
        let t = state.step(event);
        if let Some(n) = t.notice {
            r.notices.push(n);
        }
        steps += 1;
        assert!(steps <= 41, "the machine does not come to an end");
        match t.action {
            Action::Finish(result) => {
                assert_eq!(t.state.phase, Phase::Done);
                return Ok(result);
            }
            Action::Fail(msg) => {
                assert_eq!(t.state.phase, Phase::Aborted);
                return Err(msg);
            }
            action => {
                event = perform(r, &action);
            }
        }
        state = t.state;
    }
}

fn entry(word: &str, body: &str, stamp: &str) -> String {
    format!("## {}\n{}\n\n<!-- timestamp={} -->\n\n---", word, body, stamp)
}

fn added(text: &str) -> String {
    let mut out = format!("@@ -0,0 +1,{} @@\n", text.lines().count());
    for l in text.lines() {
        out.push('+');
        out.push_str(l);
        out.push('\n');
    }
    out
}

fn removed(text: &str) -> String {
    let mut out = format!("@@ -1,{} +0,0 @@\n", text.lines().count());
    for l in text.lines() {
        out.push('-');
        out.push_str(l);
        out.push('\n');
    }
    out
}

fn replaced(old: &str, new: &str) -> String {
    let mut out = "@@ -1,6 +1,6 @@\n".to_string();
    for l in old.lines() {
        out.push('-');
        out.push_str(l);
        out.push('\n');
    }
    for l in new.lines() {
        out.push('+');
        out.push_str(l);
        out.push('\n');
    }
    out
}

fn identities(text: &str) -> Vec<String> {
    Notebook::parse(text).sections.into_iter().map(|s| s.identity).collect()
}

const T1: &str = "2024-03-01T10:00:00.000+00:00";
const T2: &str = "2024-03-02T10:00:00.000+00:00";

#[test]
fn a_local_addition_alone_is_pushed() {
    let mut r = repo(&entry("ubiquitous", "Found everywhere.", T1));
    r.dirty = true;
    let result = run(&mut r, true).unwrap();
    assert!(matches!(result, SyncResult::Success));
    assert_eq!(identities(&r.notebook), vec!["ubiquitous"]);
    assert_eq!(r.remote_notebook.as_deref(), Some(r.notebook.as_str()));
    assert_eq!(
        r.log,
        vec![
            "add .",
            "status --porcelain",
            "commit -m Update vocabulary",
            "fetch origin",
            "rev-parse --verify origin/main",
            "rev-parse --verify HEAD",
            "merge-base HEAD origin/main",
            "rev-list --count origin/main..HEAD",
            "rev-list --count HEAD..origin/main",
            "push -u origin main",
        ]
    );
    assert_eq!(r.notices, vec![Notice::SkippingMerge]);
}

#[test]
fn a_second_run_finds_nothing_to_do() {
    let mut r = repo(&entry("ubiquitous", "Found everywhere.", T1));
    r.dirty = true;
    assert!(matches!(run(&mut r, true), Ok(SyncResult::Success)));
    let before = r.notebook.clone();
    r.log.clear();
    assert!(matches!(run(&mut r, true), Ok(SyncResult::NoChanges)));
    assert_eq!(r.notebook, before);
    assert_eq!(
        r.log,
        vec![
            "add .",
            "status --porcelain",
            "fetch origin",
            "rev-parse --verify origin/main",
            "rev-parse --verify HEAD",
            "merge-base HEAD origin/main",
            "rev-list --count origin/main..HEAD",
            "rev-list --count HEAD..origin/main",
        ]
    );
    // whether the fetch goes through does not matter
    r.fetch_ok = false;
    assert!(matches!(run(&mut r, true), Ok(SyncResult::NoChanges)));
}

#[test]
fn additions_on_both_sides_are_both_kept() {
    let old = entry("old", "Old body.", "2024-01-01T00:00:00.000+00:00");
    let mine = entry("serendipity", "A happy accident.", T1);
    let theirs = entry("ephemeral", "Short-lived.", T2);
    let mut r = repo(&format!("{}\n{}", mine, old));
    r.remote_notebook = Some(format!("{}\n{}", theirs, old));
    r.unpushed = 1;
    r.incoming = 1;
    r.conflicting = true;
    r.local_diff = added(&mine);
    r.remote_diff = added(&theirs);
    let result = run(&mut r, true).unwrap();
    assert!(matches!(result, SyncResult::Success));
    assert_eq!(identities(&r.notebook), vec!["serendipity", "ephemeral", "old"]);
    assert_eq!(r.notebook, format!("{}\n{}\n{}", mine, theirs, old));
    assert_eq!(r.notices, vec![Notice::ConflictsDetected]);
    assert_eq!(
        r.log,
        vec![
            "add .",
            "status --porcelain",
            "fetch origin",
            "rev-parse --verify origin/main",
            "rev-parse --verify HEAD",
            "merge-base HEAD origin/main",
            "rev-list --count origin/main..HEAD",
            "rev-list --count HEAD..origin/main",
            "merge --no-commit --no-ff origin/main",
            "read",
            "merge --abort",
            "diff 0123abc HEAD -- vocabulary_notebook.md",
            "diff 0123abc origin/main -- vocabulary_notebook.md",
            "merge --allow-unrelated-histories -X theirs origin/main",
            "read",
            "write",
            "add .",
            "status --porcelain",
            "commit -m Merge origin/main (resolved conflicts by preserving local changes)",
            "push -u origin main",
        ]
    );
}

#[test]
fn of_two_modifications_the_later_wins() {
    let base = entry("resilience", "Base body.", "2024-01-01T00:00:00.000+00:00");
    let mine = entry("resilience", "Local body.", T2);
    let theirs = entry("resilience", "Remote body.", T1);
    let mut r = repo(&mine);
    r.remote_notebook = Some(theirs.clone());
    r.unpushed = 1;
    r.incoming = 1;
    r.conflicting = true;
    r.local_diff = replaced(&base, &mine);
    r.remote_diff = replaced(&base, &theirs);
    let result = run(&mut r, true).unwrap();
    assert!(matches!(result, SyncResult::Success));
    assert_eq!(r.notebook, mine);

    // and the other way round the remote side wins
    let mine = entry("resilience", "Local body.", T1);
    let theirs = entry("resilience", "Remote body.", T2);
    let mut r = repo(&mine);
    r.remote_notebook = Some(theirs.clone());
    r.unpushed = 1;
    r.incoming = 1;
    r.conflicting = true;
    r.local_diff = replaced(&base, &mine);
    r.remote_diff = replaced(&base, &theirs);
    let result = run(&mut r, true).unwrap();
    assert!(matches!(result, SyncResult::Success));
    assert_eq!(r.notebook, theirs);
}

fn region(ours: &str, theirs: &str) -> String {
    format!("<<<<<<< HEAD\n{}\n=======\n{}\n>>>>>>> origin/main", ours, theirs)
}

#[test]
fn additions_on_both_sides_in_an_open_region() {
    let old = entry("old", "Old body.", "2024-01-01T00:00:00.000+00:00");
    let mine = entry("serendipity", "A happy accident.", T1);
    let theirs = entry("ephemeral", "Short-lived.", T2);
    let mut r = repo(&format!("{}\n{}", mine, old));
    r.remote_notebook = Some(format!("{}\n{}", theirs, old));
    r.unpushed = 1;
    r.incoming = 1;
    r.conflicting = true;
    r.conflicted_notebook = Some(format!("{}\n{}", region(&mine, &theirs), old));
    r.local_diff = added(&mine);
    r.remote_diff = added(&theirs);
    let result = run(&mut r, true).unwrap();
    assert!(matches!(result, SyncResult::Success));
    assert_eq!(r.notebook, format!("{}\n{}\n{}", mine, theirs, old));
    assert_eq!(
        r.log[8..],
        [
            "merge --no-commit --no-ff origin/main",
            "read",
            "merge --abort",
            "diff 0123abc HEAD -- vocabulary_notebook.md",
            "diff 0123abc origin/main -- vocabulary_notebook.md",
            "merge --allow-unrelated-histories -X theirs origin/main",
            "write",
            "add .",
            "status --porcelain",
            "commit -m Merge origin/main (resolved conflicts by preserving local changes)",
            "push -u origin main",
        ]
    );
}

#[test]
fn two_modifications_in_an_open_region() {
    let base = entry("resilience", "Base body.", "2024-01-01T00:00:00.000+00:00");
    let other = entry("other", "Untouched.", "2024-01-01T00:00:00.000+00:00");
    for (local_stamp, remote_stamp, local_wins) in [(T2, T1, true), (T1, T2, false)] {
        let mine = entry("resilience", "Local body.", local_stamp);
        let theirs = entry("Resilience", "Remote body.", remote_stamp);
        let mut r = repo(&format!("{}\n{}", mine, other));
        r.remote_notebook = Some(format!("{}\n{}", theirs, other));
        r.unpushed = 1;
        r.incoming = 1;
        r.conflicting = true;
        r.conflicted_notebook = Some(format!("{}\n{}", region(&mine, &theirs), other));
        r.local_diff = replaced(&base, &mine);
        r.remote_diff = replaced(&base, &theirs);
        let result = run(&mut r, true).unwrap();
        assert!(matches!(result, SyncResult::Success));
        let winner = if local_wins { &mine } else { &theirs };
        assert_eq!(r.notebook, format!("{}\n{}", winner, other));
    }
}

#[test]
fn a_region_that_does_not_close_gives_the_remote_notebook() {
    let mine = entry("w", "Local.", T2);
    let theirs = entry("w", "Remote.", T1);
    let mut r = repo(&mine);
    r.remote_notebook = Some(theirs.clone());
    r.unpushed = 1;
    r.incoming = 1;
    r.conflicting = true;
    r.conflicted_notebook = Some(format!("<<<<<<< HEAD\n{}\n=======\n{}", mine, theirs));
    r.local_diff = added(&mine);
    r.remote_diff = added(&theirs);
    let result = run(&mut r, true).unwrap();
    assert!(matches!(result, SyncResult::Success));
    assert_eq!(r.notebook, theirs);
    assert_eq!(r.notices, vec![Notice::ConflictsDetected, Notice::Degraded]);
    assert_eq!(
        r.log[13..],
        [
            "merge --allow-unrelated-histories -X theirs origin/main",
            "show origin/main:vocabulary_notebook.md",
            "write",
            "add .",
            "status --porcelain",
            "push -u origin main",
        ]
    );
}

#[test]
fn deletions_on_both_sides_are_no_conflict() {
    let kept = entry("kept", "Stays.", T1);
    let gone = entry("obsolete", "Goes.", "2024-02-02T02:02:02.222+00:00");
    let other = entry("other", "Remote news.", T2);
    // the remote side also adds a section, or there would be nothing to merge
    let mut r = repo(&kept);
    r.remote_notebook = Some(format!("{}\n{}", other, kept));
    r.unpushed = 1;
    r.incoming = 1;
    r.conflicting = true;
    r.local_diff = removed(&gone);
    r.remote_diff = format!("{}{}", added(&other), removed(&gone));
    let result = run(&mut r, true).unwrap();
    assert!(matches!(result, SyncResult::Success));
    assert_eq!(identities(&r.notebook), vec!["other", "kept"]);
    assert!(!r.notebook.contains("obsolete"));
}

#[test]
fn a_first_synchronisation_puts_local_sections_on_top() {
    let mine = format!("{}\n{}", entry("a", "A.", T2), entry("b", "B.", T1));
    let theirs = format!(
        "{}\n{}\n{}",
        entry("c", "C.", "2023-03-03T00:00:00.000+00:00"),
        entry("d", "D.", "2023-02-02T00:00:00.000+00:00"),
        entry("e", "E.", "2023-01-01T00:00:00.000+00:00")
    );
    let mut r = repo(&mine);
    r.remote_notebook = Some(theirs.clone());
    r.base = None;
    r.unpushed = 1;
    let result = run(&mut r, true).unwrap();
    assert!(matches!(result, SyncResult::Success));
    assert_eq!(identities(&r.notebook), vec!["a", "b", "c", "d", "e"]);
    assert_eq!(r.notebook, format!("{}\n{}", mine, theirs));
    assert_eq!(r.notices, vec![Notice::FirstTimeSync]);
    assert_eq!(
        r.log,
        vec![
            "add .",
            "status --porcelain",
            "fetch origin",
            "rev-parse --verify origin/main",
            "rev-parse --verify HEAD",
            "merge-base HEAD origin/main",
            "read",
            "merge --allow-unrelated-histories -X theirs origin/main",
            "read",
            "write",
            "add .",
            "status --porcelain",
            "commit -m Prepend local content after initial sync",
            "push -u origin main",
        ]
    );
}

#[test]
fn a_first_synchronisation_without_a_remote_branch_pushes_what_is_there() {
    let mut r = repo(&entry("a", "A.", T1));
    r.remote_notebook = None;
    r.dirty = true;
    let result = run(&mut r, true).unwrap();
    assert!(matches!(result, SyncResult::Success));
    assert_eq!(
        r.log,
        vec![
            "add .",
            "status --porcelain",
            "commit -m Update vocabulary",
            "fetch origin",
            "rev-parse --verify origin/main",
            "read",
            "add .",
            "status --porcelain",
            "push -u origin main",
        ]
    );
    assert_eq!(r.remote_notebook.as_deref(), Some(r.notebook.as_str()));
}

#[test]
fn without_a_remote_the_run_ends_behind_the_commit() {
    let mut r = repo("## a\n---");
    r.dirty = true;
    assert!(matches!(run(&mut r, false), Ok(SyncResult::Success)));
    assert_eq!(r.log, vec!["add .", "status --porcelain", "commit -m Update vocabulary"]);
    r.log.clear();
    assert!(matches!(run(&mut r, false), Ok(SyncResult::NoChanges)));
    assert_eq!(r.log, vec!["add .", "status --porcelain"]);
}

#[test]
fn a_clean_merge_is_committed() {
    let mut r = repo("## a\n---");
    r.incoming = 2;
    r.merged_notebook = "## b\n---\n## a\n---".to_string();
    assert!(matches!(run(&mut r, true), Ok(SyncResult::Success)));
    assert_eq!(r.notebook, "## b\n---\n## a\n---");
    assert_eq!(
        r.log[8..],
        [
            "merge --no-commit --no-ff origin/main",
            "status --porcelain",
            "commit -m Merge remote changes",
            "push -u origin main",
        ]
    );
}

#[test]
fn an_undecided_conflict_is_handed_back() {
    let base = "## w\nbase\n---";
    let mine = "## w\nlocal\n---";
    let theirs = "## w\nremote\n---";
    let mut r = repo(mine);
    r.remote_notebook = Some(theirs.to_string());
    r.unpushed = 1;
    r.incoming = 1;
    r.conflicting = true;
    r.local_diff = replaced(base, mine);
    r.remote_diff = replaced(base, theirs);
    match run(&mut r, true).unwrap() {
        SyncResult::Conflicts(list) => {
            assert_eq!(list.len(), 1);
            assert_eq!(list[0].local.new_content.as_deref(), Some(mine));
            assert_eq!(list[0].remote.new_content.as_deref(), Some(theirs));
        }
        other => panic!("{:?}", other),
    }
    // the remote side's text stands until a person decides
    assert_eq!(r.notebook, theirs);
}

#[test]
fn a_failed_push_does_not_fail_the_run() {
    let mut r = repo("## a\n---");
    r.dirty = true;
    r.push_ok = false;
    assert!(matches!(run(&mut r, true), Ok(SyncResult::Success)));
    assert_eq!(r.notices, vec![Notice::SkippingMerge, Notice::PushFailed]);
    // the next run pushes again
    r.push_ok = true;
    r.notices.clear();
    assert!(matches!(run(&mut r, true), Ok(SyncResult::Success)));
    assert!(matches!(run(&mut r, true), Ok(SyncResult::NoChanges)));
}

#[test]
fn a_failed_fetch_does_not_fail_the_run() {
    let mut r = repo("## a\n---");
    r.dirty = true;
    r.fetch_ok = false;
    assert!(matches!(run(&mut r, true), Ok(SyncResult::Success)));
    assert_eq!(r.notices, vec![Notice::FetchFailed, Notice::SkippingMerge]);
}

#[test]
fn a_merge_that_cannot_be_redone_is_rolled_back() {
    let mut r = repo("## a\n---");
    r.unpushed = 1;
    r.incoming = 1;
    r.conflicting = true;
    r.theirs_ok = false;
    assert!(matches!(run(&mut r, true), Ok(SyncResult::Success)));
    assert_eq!(r.notebook, "## a\n---");
    assert_eq!(r.notices, vec![Notice::ConflictsDetected, Notice::RolledBack]);
    assert_eq!(
        r.log[13..],
        ["merge --allow-unrelated-histories -X theirs origin/main", "merge --abort", "push -u origin main"]
    );
}

fn at(phase: Phase) -> SyncState {
    let mut s = SyncState::new(true, NOW);
    s.phase = phase;
    s
}

#[test]
fn unexpected_failures_end_the_run() {
    for phase in [
        Phase::Staging(Stage::LocalEdits),
        Phase::CheckingTree(Stage::Resolved),
        Phase::Committing(Stage::LocalEdits),
        Phase::CommittingFallback,
        Phase::CapturingLocal,
        Phase::MergingUnrelated,
        Phase::ReadingUnrelated,
        Phase::WritingPrepended,
        Phase::Merging,
        Phase::CheckingMerged,
        Phase::CommittingMerge,
        Phase::DiffingLocal,
        Phase::DiffingRemote,
        Phase::ReadingMerged,
        Phase::TakingRemote,
        Phase::WritingResolved,
    ] {
        let t = at(phase).step(failed("fatal: disk full"));
        assert_eq!(t.state.phase, Phase::Aborted, "{:?}", phase);
        match t.action {
            Action::Fail(msg) => assert_eq!(msg, "fatal: disk full"),
            other => panic!("{:?}", other),
        }
    }
}

#[test]
fn expected_failures_do_not_end_the_run() {
    let t = at(Phase::Merging).step(failed("Already up to date."));
    assert!(matches!(t.action, Action::Push));
    assert_eq!(t.notice, Some(Notice::UpToDate));
    let t = at(Phase::Merging).step(failed("merge: origin/main - not something we can merge"));
    assert!(matches!(t.action, Action::Push));
    assert_eq!(t.notice, Some(Notice::RemoteBranchMissing));
    let t = at(Phase::Merging).step(failed("Automatic merge failed; fix conflicts"));
    assert!(matches!(t.action, Action::ReadNotebook));
    assert_eq!(t.state.phase, Phase::ReadingConflicted);
    let t = t.state.step(failed("cannot read"));
    assert!(matches!(t.action, Action::AbortMerge));
    assert_eq!(t.state.conflicted, "");
    let t = at(Phase::Committing(Stage::Prepended)).step(failed("nothing to commit, working tree clean"));
    assert!(matches!(t.action, Action::Push));
    assert_eq!(t.notice, Some(Notice::NothingToCommit));
    let t = at(Phase::Committing(Stage::LocalEdits)).step(failed("nothing to commit"));
    assert!(matches!(t.action, Action::Fetch));
    let t = at(Phase::Committing(Stage::Resolved)).step(failed("whatever"));
    assert!(matches!(t.action, Action::Commit(CommitMessage::Fallback)));
    let t = at(Phase::AbortingMerge).step(failed("fatal: There is no merge to abort"));
    assert!(matches!(t.action, Action::DiffLocal(_)));
    let t = at(Phase::Pushing).step(failed("rejected"));
    assert!(matches!(t.action, Action::Finish(SyncResult::Success)));
}

#[test]
fn a_merge_without_file_changes_says_so_in_its_commit() {
    let t = at(Phase::CheckingMerged).step(done("  \n"));
    assert!(matches!(t.action, Action::Commit(CommitMessage::MergeRemoteNoFileChanges)));
    let t = at(Phase::CheckingMerged).step(done("M  vocabulary_notebook.md\n"));
    assert!(matches!(t.action, Action::Commit(CommitMessage::MergeRemote)));
}

#[test]
fn counts_that_cannot_be_read_lead_to_the_merge() {
    let t = at(Phase::CountingUnpushed).step(failed("fatal"));
    assert_eq!(t.state.unpushed, None);
    let t = t.state.step(done("0"));
    assert!(matches!(t.action, Action::Merge(MergeMode::NoCommit)));
    let t = at(Phase::CountingUnpushed).step(done("0\n"));
    assert_eq!(t.state.unpushed, Some(false));
    let t = t.state.step(done("three"));
    assert!(matches!(t.action, Action::Merge(MergeMode::NoCommit)));
    let t = at(Phase::CountingUnpushed).step(done("2\n"));
    let t = t.state.step(failed("fatal"));
    assert!(matches!(t.action, Action::Push));
    let t = at(Phase::CountingUnpushed).step(done("2\n"));
    let t = t.state.step(done("1\n"));
    assert!(matches!(t.action, Action::Merge(MergeMode::NoCommit)));
}

#[test]
fn a_notebook_with_open_regions_is_replaced_by_the_remote_one() {
    let t = at(Phase::ReadingMerged).step(done("## a\n<<<<<<< HEAD\nx\n=======\ny\n>>>>>>> origin/main\n---"));
    assert!(matches!(t.action, Action::ShowRemoteNotebook));
    assert_eq!(t.notice, Some(Notice::Degraded));
    let t = t.state.step(done("## a\ny\n---"));
    match t.action {
        Action::WriteNotebook(text) => assert_eq!(text, "## a\ny\n---"),
        other => panic!("{:?}", other),
    }
    let t = t.state.step(done(""));
    assert!(matches!(t.action, Action::StageAll));
    assert_eq!(t.state.phase, Phase::Staging(Stage::Resolved));
}

#[test]
fn a_finished_machine_asks_for_nothing_more() {
    let t = at(Phase::Done).step(done(""));
    assert_eq!(t.state.phase, Phase::Done);
    assert!(matches!(t.action, Action::Fail(_)));
    let t = at(Phase::Aborted).step(done(""));
    assert_eq!(t.state.phase, Phase::Aborted);
    assert!(matches!(t.action, Action::Fail(_)));
}

#[test]
fn counts_are_read_as_decimal_numbers() {
    assert_eq!(positive_count("0"), Some(false));
    assert_eq!(positive_count(" 000\n"), Some(false));
    assert_eq!(positive_count("7\n"), Some(true));
    assert_eq!(positive_count("010"), Some(true));
    assert_eq!(positive_count(""), None);
    assert_eq!(positive_count("\n"), None);
    assert_eq!(positive_count("-1"), None);
    assert_eq!(positive_count("1 2"), None);
    assert_eq!(positive_count("१"), None);
}

#[test]
fn open_regions_are_known_by_their_first_line() {
    assert!(text_has_conflict_markers("a\n<<<<<<< HEAD\nb"));
    assert!(!text_has_conflict_markers("a\n <<<<<<< HEAD\nb"));
    assert!(!text_has_conflict_markers("a\n<<<<<< HEAD\n=======\n>>>>>>> x"));
    assert!(!text_has_conflict_markers(""));
}

#[test]
fn start_takes_the_local_time() {
    let s = SyncState::start(true);
    assert_eq!(s.phase, Phase::Start);
    assert!(s.has_remote);
    assert!(s.now.len() >= 20);
    assert_eq!(&s.now[4..5], "-");
}

#[test]
fn commit_messages() {
    assert_eq!(CommitMessage::For(Stage::LocalEdits).text(), "Update vocabulary");
    assert_eq!(CommitMessage::For(Stage::InitialLocal).text(), "Initial sync: local content only");
    assert_eq!(
        CommitMessage::For(Stage::Prepended).text(),
        "Prepend local content after initial sync"
    );
    assert_eq!(
        CommitMessage::For(Stage::Resolved).text(),
        "Merge origin/main (resolved conflicts by preserving local changes)"
    );
    assert_eq!(CommitMessage::MergeRemote.text(), "Merge remote changes");
    assert_eq!(
        CommitMessage::MergeRemoteNoFileChanges.text(),
        "Merge remote changes (no file changes)"
    );
    assert_eq!(
        CommitMessage::Fallback.text(),
        "Apply local changes to remote base (fallback commit)"
    );
}
