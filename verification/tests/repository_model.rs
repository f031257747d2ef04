use word4you::repository_model::Repository;
use word4you::sync::{Action, Event, Notice, Phase, SyncResult, SyncState};

fn run(r: &mut Repository, has_remote: bool) -> (Result<SyncResult, String>, Vec<Notice>, usize) {
    let mut state = SyncState::new(has_remote, "2024-06-01T00:00:00.000+00:00");
    let mut event = Event::Done(String::new());
    let mut notices = Vec::new();
    let mut changes = 0;
    loop {
        let t = state.step(event);
        if let Some(n) = t.notice {
            notices.push(n);
        }
        match t.action {
            Action::Finish(result) => {
                assert_eq!(t.state.phase, Phase::Done);
                return (Ok(result), notices, changes);
            }
            Action::Fail(msg) => return (Err(msg), notices, changes),
            action => {
                if matches!(
                    action,
                    Action::Commit(_)
                        | Action::Merge(_)
                        | Action::AbortMerge
                        | Action::WriteNotebook(_)
                        | Action::Push
                ) {
                    changes += 1;
                }
                event = r.perform(&action);
            }
        }
        state = t.state;
    }
}

fn level(r: &Repository) -> bool {
    !r.dirty && !r.merging && r.has_head && r.remote_branch && r.related && !r.ahead && !r.behind
}

#[test]
fn a_run_that_pushed_leaves_nothing_for_the_next_run() {
    let mut r = Repository::new("## ubiquitous\nFound everywhere.\n---", true);
    assert!(r.dirty);
    let (result, notices, changes) = run(&mut r, true);
    assert!(matches!(result, Ok(SyncResult::Success)));
    assert_eq!(notices, vec![Notice::FirstTimeSync]);
    assert!(changes >= 2);
    assert!(level(&r));
    assert_eq!(r.remote_notebook, r.notebook);
    let before = r.notebook.clone();
    let (result, notices, changes) = run(&mut r, true);
    assert!(matches!(result, Ok(SyncResult::NoChanges)));
    assert!(notices.is_empty());
    assert_eq!(changes, 0);
    assert_eq!(r.notebook, before);
    assert!(level(&r));
}

#[test]
fn a_run_that_could_not_push_leaves_the_push_for_the_next_run() {
    let mut r = Repository::new("## a\n---", false);
    let (result, notices, _) = run(&mut r, true);
    assert!(matches!(result, Ok(SyncResult::Success)));
    assert_eq!(notices, vec![Notice::FetchFailed, Notice::FirstTimeSync, Notice::PushFailed]);
    assert!(!level(&r));
    let (result, _, _) = run(&mut r, true);
    assert!(matches!(result, Ok(SyncResult::Success)));
    r.online = true;
    let (result, _, _) = run(&mut r, true);
    assert!(matches!(result, Ok(SyncResult::Success)));
    assert!(level(&r));
    let (result, _, changes) = run(&mut r, true);
    assert!(matches!(result, Ok(SyncResult::NoChanges)));
    assert_eq!(changes, 0);
}

#[test]
fn remote_commits_are_merged_and_then_there_is_nothing_to_do() {
    let mut r = Repository::new("## mine\n---", true);
    run(&mut r, true).0.unwrap();
    // the remote side moves on, the local side adds an entry
    r.behind = true;
    r.merged = "## mine too\n---\n## theirs\n---\n## mine\n---".to_string();
    r.notebook = "## mine too\n---\n## mine\n---".to_string();
    r.dirty = true;
    let (result, notices, _) = run(&mut r, true);
    assert!(matches!(result, Ok(SyncResult::Success)));
    assert!(notices.is_empty());
    assert_eq!(r.notebook, "## mine too\n---\n## theirs\n---\n## mine\n---");
    assert!(level(&r));
    let (result, _, changes) = run(&mut r, true);
    assert!(matches!(result, Ok(SyncResult::NoChanges)));
    assert_eq!(changes, 0);
}

#[test]
fn a_conflict_is_settled_and_then_there_is_nothing_to_do() {
    let mine = "## w\nlocal\n<!-- timestamp=2024-02-02T00:00:00Z -->\n---";
    let theirs = "## w\nremote\n<!-- timestamp=2024-01-01T00:00:00Z -->\n---";
    let mut r = Repository::new(mine, true);
    r.dirty = false;
    r.has_head = true;
    r.remote_branch = true;
    r.related = true;
    r.ahead = true;
    r.behind = true;
    r.conflicting = true;
    r.conflicted = format!("<<<<<<< HEAD\n{}\n=======\n{}\n>>>>>>> origin/main", mine, theirs);
    r.preferred = theirs.to_string();
    r.local_diff = "@@ -1,3 +1,4 @@\n-## w\n-base\n----\n+## w\n+local\n+<!-- timestamp=2024-02-02T00:00:00Z -->\n+---\n".to_string();
    r.remote_diff = "@@ -1,3 +1,4 @@\n-## w\n-base\n----\n+## w\n+remote\n+<!-- timestamp=2024-01-01T00:00:00Z -->\n+---\n".to_string();
    let (result, notices, _) = run(&mut r, true);
    assert!(matches!(result, Ok(SyncResult::Success)));
    assert_eq!(notices, vec![Notice::ConflictsDetected]);
    assert_eq!(r.notebook, mine);
    assert!(level(&r));
    let (result, _, changes) = run(&mut r, true);
    assert!(matches!(result, Ok(SyncResult::NoChanges)));
    assert_eq!(changes, 0);
}

#[test]
fn without_a_remote_the_second_run_finds_nothing_to_do() {
    let mut r = Repository::new("## a\n---", false);
    let (result, _, changes) = run(&mut r, false);
    assert!(matches!(result, Ok(SyncResult::Success)));
    assert_eq!(changes, 1);
    let (result, _, changes) = run(&mut r, false);
    assert!(matches!(result, Ok(SyncResult::NoChanges)));
    assert_eq!(changes, 0);
}

#[test]
fn the_repository_answers_as_the_tool_does() {
    let mut r = Repository::new("", true);
    assert!(!r.dirty);
    assert!(matches!(r.perform(&Action::ListChangedPaths), Event::Done(s) if s.is_empty()));
    assert!(matches!(r.perform(&Action::Commit(word4you::sync::CommitMessage::MergeRemote)), Event::Failed(s) if s.contains("nothing to commit")));
    assert!(matches!(r.perform(&Action::VerifyHead), Event::Failed(_)));
    assert!(matches!(r.perform(&Action::Push), Event::Failed(_)));
    assert!(matches!(r.perform(&Action::WriteNotebook("x".to_string())), Event::Done(_)));
    assert!(r.dirty);
    assert!(matches!(r.perform(&Action::ListChangedPaths), Event::Done(s) if !s.trim().is_empty()));
    assert!(matches!(r.perform(&Action::Commit(word4you::sync::CommitMessage::MergeRemote)), Event::Done(_)));
    assert!(r.has_head && r.ahead && !r.dirty);
    assert!(matches!(r.perform(&Action::CountUnpushed), Event::Done(s) if s == "1"));
    assert!(matches!(r.perform(&Action::CountIncoming), Event::Done(s) if s == "0"));
    assert!(matches!(r.perform(&Action::Merge(word4you::sync::MergeMode::NoCommit)), Event::Failed(s) if s.contains("not something we can merge")));
    assert!(matches!(r.perform(&Action::Push), Event::Done(_)));
    assert!(level(&r));
    assert_eq!(r.remote_notebook, "x");
    assert!(matches!(r.perform(&Action::Merge(word4you::sync::MergeMode::NoCommit)), Event::Done(s) if s.contains("Already up to date")));
    assert!(matches!(r.perform(&Action::ShowRemoteNotebook), Event::Done(s) if s == "x"));
    assert!(matches!(r.perform(&Action::AbortMerge), Event::Failed(_)));
    assert!(matches!(r.perform(&Action::FindMergeBase), Event::Done(s) if s == "base"));
}
