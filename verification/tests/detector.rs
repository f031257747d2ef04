use word4you::change::ChangeType;
use word4you::git_commands::{
    command_outcome, decimal_text, failure_message, init_plan, remote_plan, remote_probe,
};
use word4you::git_section_detector::{sections_as_added, GitSectionDetector};
use word4you::paths::{get_work_dir, relative_path_from, work_dir_from, PathError};
use word4you::sync::{Action, Event, MergeMode, SyncResult};

const TWO: &str = "# Notebook\n## hello\nHello content\n\n<!-- timestamp=2023-01-01T12:00:00.123+00:00 -->\n\n---\n\n## world \nWorld content\n";

fn detector() -> GitSectionDetector {
    GitSectionDetector::new("/home/user/word4you/vocabulary_notebook.md").unwrap()
}

#[test]
fn the_detector_works_in_the_directory_of_the_notebook() {
    let d = detector();
    assert_eq!(d.vocabulary_file, "/home/user/word4you/vocabulary_notebook.md");
    assert_eq!(d.work_dir, "/home/user/word4you");
    assert_eq!(d.get_relative_vocabulary_path(), Ok("vocabulary_notebook.md".to_string()));
    assert!(matches!(GitSectionDetector::new("/"), Err(PathError::NoParent)));
    assert!(matches!(GitSectionDetector::new(""), Err(PathError::NoParent)));
    let d = GitSectionDetector {
        work_dir: "/elsewhere".to_string(),
        vocabulary_file: "/home/user/notebook.md".to_string(),
    };
    assert_eq!(d.get_relative_vocabulary_path(), Err(PathError::NotWithin));
    assert!(matches!(
        GitSectionDetector::with_parent("x", None),
        Err(PathError::NoParent)
    ));
    assert_eq!(GitSectionDetector::with_parent("x", Some("dir".to_string())).unwrap().work_dir, "dir");
}

#[test]
fn the_work_directory_is_the_parent_of_the_notebook() {
    assert_eq!(get_work_dir("/home/user/word4you/vocabulary_notebook.md"), Ok("/home/user/word4you".to_string()));
    assert_eq!(get_work_dir("notebook.md"), Ok(String::new()));
    assert_eq!(get_work_dir("/"), Err(PathError::NoParent));
    assert_eq!(work_dir_from(None), Err(PathError::NoParent));
    assert_eq!(work_dir_from(Some("d".to_string())), Ok("d".to_string()));
    assert_eq!(PathError::NoParent.message(), "Invalid vocabulary notebook file path");
    assert_eq!(PathError::NotWithin.message(), "Vocabulary file is not within work directory");
}

#[test]
fn the_relative_path_is_what_the_stripping_gave() {
    assert_eq!(relative_path_from(Some("notes/vocabulary.md".to_string())), Ok("notes/vocabulary.md".to_string()));
    assert_eq!(relative_path_from(Some(String::new())), Ok(String::new()));
    assert_eq!(relative_path_from(None), Err(PathError::NotWithin));
    let d = GitSectionDetector {
        work_dir: "/home/user".to_string(),
        vocabulary_file: "/home/user/word4you/vocabulary_notebook.md".to_string(),
    };
    assert_eq!(d.get_relative_vocabulary_path(), Ok("word4you/vocabulary_notebook.md".to_string()));
}

#[test]
fn every_section_counts_as_added_without_a_common_parent() {
    let got = sections_as_added(TWO);
    assert_eq!(got.len(), 2);
    assert_eq!(got[0].change_type, ChangeType::Added);
    assert_eq!(got[0].word, "hello");
    assert_eq!(
        got[0].new_content.as_deref(),
        Some("## hello\nHello content\n\n<!-- timestamp=2023-01-01T12:00:00.123+00:00 -->\n\n---")
    );
    assert_eq!(got[0].new_timestamp.as_deref(), Some("2023-01-01T12:00:00.123+00:00"));
    assert_eq!(got[0].old_content, None);
    assert_eq!(got[0].old_timestamp, None);
    assert_eq!(got[1].word, "world");
    assert_eq!(got[1].new_content.as_deref(), Some("## world \nWorld content"));
    assert_eq!(got[1].new_timestamp, None);
}

#[test]
fn the_common_parent_is_what_the_search_printed() {
    let d = detector();
    assert_eq!(d.find_common_parent(&Event::Done("abc123\n".to_string())).as_deref(), Some("abc123"));
    assert_eq!(d.find_common_parent(&Event::Done(" \n".to_string())), None);
    assert_eq!(d.find_common_parent(&Event::Failed("abc123".to_string())), None);
}

#[test]
fn local_changes_come_from_the_diff_or_from_the_notebook() {
    let d = detector();
    let diff = "@@ -1 +1,2 @@\n+## new\n+body\n";
    let r = d.detect_section_changes(Some("abc".to_string()), diff);
    assert!(r.has_common_parent);
    assert_eq!(r.common_parent_hash.as_deref(), Some("abc"));
    assert_eq!(r.local_changes.len(), 1);
    assert_eq!(r.local_changes[0].word, "new");
    let r = d.detect_section_changes(None, TWO);
    assert!(!r.has_common_parent);
    assert_eq!(r.common_parent_hash, None);
    assert_eq!(r.local_changes.len(), 2);
    assert_eq!(d.get_changes_since_commit(diff).len(), 1);
    assert_eq!(d.get_all_local_sections_as_new(TWO).len(), 2);
}

#[test]
fn remote_changes_come_from_the_diff_or_from_the_remote_notebook() {
    let d = detector();
    let diff = Event::Done("@@ -1 +1,2 @@\n-## gone\n-body\n".to_string());
    let got = d.detect_remote_changes(Some("abc"), &diff).unwrap();
    assert_eq!(got.len(), 1);
    assert_eq!(got[0].change_type, ChangeType::Deleted);
    let failed = Event::Failed("fatal: bad revision".to_string());
    assert_eq!(d.detect_remote_changes(Some("abc"), &failed).unwrap_err(), "fatal: bad revision");
    let got = d.detect_remote_changes(None, &Event::Done(TWO.to_string())).unwrap();
    assert_eq!(got.len(), 2);
    assert!(d.detect_remote_changes(None, &failed).unwrap().is_empty());
    assert!(d.get_all_remote_sections_as_new(&failed).is_empty());
}

#[test]
fn sections_are_listed_with_name_text_and_timestamp() {
    let d = detector();
    let got = d.parse_vocabulary_content(TWO);
    assert_eq!(
        got,
        vec![
            (
                "hello".to_string(),
                "## hello\nHello content\n\n<!-- timestamp=2023-01-01T12:00:00.123+00:00 -->\n\n---".to_string(),
                "2023-01-01T12:00:00.123+00:00".to_string()
            ),
            ("world".to_string(), "## world \nWorld content".to_string(), String::new()),
        ]
    );
    // a marker that is no instant counts as none, and the other sections stay
    let got = d.parse_vocabulary_content(
        "## a\nx\n<!-- timestamp=soon -->\n---\n## b\ny\n<!-- timestamp=2024-01-01T00:00:00Z -->\n---\n## c\nz",
    );
    assert_eq!(
        got,
        vec![
            ("a".to_string(), "## a\nx\n<!-- timestamp=soon -->\n---".to_string(), String::new()),
            (
                "b".to_string(),
                "## b\ny\n<!-- timestamp=2024-01-01T00:00:00Z -->\n---".to_string(),
                "2024-01-01T00:00:00Z".to_string()
            ),
            ("c".to_string(), "## c\nz".to_string(), String::new()),
        ]
    );
    let added = sections_as_added("## a\n<!-- timestamp=soon -->\n---");
    assert_eq!(added[0].new_timestamp, None);
    assert_eq!(d.extract_timestamp_from_line("<!-- timestamp=2023 -->"), "2023");
    assert_eq!(d.extract_timestamp_from_line("x timestamp=a -->b -->"), "a");
    assert_eq!(d.extract_timestamp_from_line("<!-- timestamp=2023"), "");
    assert_eq!(d.extract_timestamp_from_line(" --> timestamp=2023"), "");
}

fn line(action: &Action) -> Option<String> {
    action.git_args("vocabulary_notebook.md").map(|a| a.join(" "))
}

#[test]
fn actions_stand_for_commands() {
    assert_eq!(line(&Action::StageAll).as_deref(), Some("add ."));
    assert_eq!(
        line(&Action::Merge(MergeMode::NoCommit)).as_deref(),
        Some("merge --no-commit --no-ff origin/main")
    );
    assert_eq!(
        line(&Action::Merge(MergeMode::PreferTheirs)).as_deref(),
        Some("merge --allow-unrelated-histories -X theirs origin/main")
    );
    assert_eq!(line(&Action::AbortMerge).as_deref(), Some("merge --abort"));
    assert_eq!(
        line(&Action::DiffLocal("abc".to_string())).as_deref(),
        Some("diff abc HEAD -- vocabulary_notebook.md")
    );
    assert_eq!(
        line(&Action::DiffRemote("abc".to_string())).as_deref(),
        Some("diff abc origin/main -- vocabulary_notebook.md")
    );
    assert_eq!(
        line(&Action::ShowRemoteNotebook).as_deref(),
        Some("show origin/main:vocabulary_notebook.md")
    );
    assert_eq!(line(&Action::Push).as_deref(), Some("push -u origin main"));
    assert_eq!(line(&Action::ReadNotebook), None);
    assert_eq!(line(&Action::WriteNotebook("x".to_string())), None);
    assert_eq!(line(&Action::Finish(SyncResult::Success)), None);
    assert_eq!(line(&Action::Fail("x".to_string())), None);
}

#[test]
fn a_repository_is_set_up_once() {
    assert!(init_plan(true).is_empty());
    assert_eq!(
        init_plan(false),
        vec![
            vec!["init"],
            vec!["config", "init.defaultBranch", "main"],
            vec!["config", "user.name", "word4you"],
            vec!["config", "user.email", "word4you@example.com"],
        ]
    );
    assert_eq!(remote_probe(), vec!["remote", "get-url", "origin"]);
    assert_eq!(
        remote_plan("git@host:me/notes.git", false),
        vec![
            vec!["remote", "add", "origin", "git@host:me/notes.git"],
            vec!["branch", "--set-upstream-to=origin/main", "main"],
        ]
    );
    assert_eq!(
        remote_plan("git@host:me/notes.git", true),
        vec![vec!["branch", "--set-upstream-to=origin/main", "main"]]
    );
}

#[test]
fn a_failed_command_is_reported_with_what_it_printed() {
    assert_eq!(
        failure_message("[\"commit\"]", "1", "/w", " \n", ""),
        "Git command failed: [\"commit\"]\nExit code: 1\nWorking directory: /w\nLikely cause: Nothing to commit or repository state issue"
    );
    assert_eq!(
        failure_message("[\"merge\"]", "1", "/w", "", "CONFLICT (content)\n"),
        "Git command failed: [\"merge\"]\nExit code: 1\nWorking directory: /w\nStderr: \nStdout: CONFLICT (content)\n"
    );
}

#[test]
fn numbers_are_written_in_decimal_digits() {
    for n in [0, 1, 9, 10, 11, 99, 100, 128, 1000, 65535, i32::MAX, -1, -9, -10, -128, i32::MIN] {
        assert_eq!(decimal_text(n), n.to_string());
    }
}

#[test]
fn a_command_gives_its_output_or_the_report_of_its_failure() {
    assert_eq!(
        command_outcome(true, "[\"status\"]", Some(0), "/w", " M a.md\n".to_string(), "warning"),
        Ok(" M a.md\n".to_string())
    );
    assert_eq!(
        command_outcome(false, "[\"merge\"]", Some(128), "/w", "CONFLICT\n".to_string(), "fatal"),
        Err("Git command failed: [\"merge\"]\nExit code: 128\nWorking directory: /w\nStderr: fatal\nStdout: CONFLICT\n".to_string())
    );
    assert_eq!(
        command_outcome(false, "[\"commit\"]", None, "/w", String::new(), " "),
        Err("Git command failed: [\"commit\"]\nExit code: -1\nWorking directory: /w\nLikely cause: Nothing to commit or repository state issue".to_string())
    );
}
