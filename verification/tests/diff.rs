use word4you::change::{ChangeType, SectionChange};
use word4you::diff::{parse_diff_for_sections, parse_hunk_content, scan_hunk, SectionBuilder};
use word4you::lines::split_lines;
use word4you::pairing::{fuse, keys_of, pair_changes};
use word4you::text::to_chars;

fn change(
    change_type: ChangeType,
    word: &str,
    old_content: Option<&str>,
    new_content: Option<&str>,
    old_timestamp: Option<&str>,
    new_timestamp: Option<&str>,
) -> SectionChange {
    SectionChange {
        change_type,
        word: word.to_string(),
        old_content: old_content.map(String::from),
        new_content: new_content.map(String::from),
        old_timestamp: old_timestamp.map(String::from),
        new_timestamp: new_timestamp.map(String::from),
    }
}

fn same(a: &SectionChange, b: &SectionChange) -> bool {
    a.change_type == b.change_type
        && a.word == b.word
        && a.old_content == b.old_content
        && a.new_content == b.new_content
        && a.old_timestamp == b.old_timestamp
        && a.new_timestamp == b.new_timestamp
}

fn assert_changes(got: &[SectionChange], want: &[SectionChange]) {
    assert_eq!(got.len(), want.len(), "{:?}", got);
    for (g, w) in got.iter().zip(want) {
        assert!(same(g, w), "got {:?}\nwant {:?}", g, w);
    }
}

const ADDED: &str = "diff --git a/vocabulary_notebook.md b/vocabulary_notebook.md\nindex 1111111..2222222 100644\n--- a/vocabulary_notebook.md\n+++ b/vocabulary_notebook.md\n@@ -1,3 +1,9 @@\n+## serendipity\n+A happy accident.\n+\n+<!-- timestamp=2024-03-01T10:00:00.000+00:00 -->\n+\n+---\n ## old\n Old body\n \n";

#[test]
fn an_added_section_is_read_with_its_text_and_timestamp() {
    let got = parse_diff_for_sections(ADDED);
    assert_changes(
        &got,
        &[change(
            ChangeType::Added,
            "serendipity",
            None,
            Some("## serendipity\nA happy accident.\n\n<!-- timestamp=2024-03-01T10:00:00.000+00:00 -->\n\n---"),
            None,
            Some("2024-03-01T10:00:00.000+00:00"),
        )],
    );
}

#[test]
fn a_deleted_section_is_read_with_its_old_text() {
    let diff = "@@ -1,6 +0,0 @@\n-## obsolete\n-Gone.\n-\n-<!-- timestamp=TX -->\n-\n----\n";
    let got = parse_diff_for_sections(diff);
    assert_changes(
        &got,
        &[change(
            ChangeType::Deleted,
            "obsolete",
            Some("## obsolete\nGone.\n\n<!-- timestamp=TX -->\n\n---"),
            None,
            Some("TX"),
            None,
        )],
    );
}

#[test]
fn lines_of_both_kinds_under_one_heading_make_a_modification() {
    let diff = "@@ -1,4 +1,4 @@\n-## word\n-old\n+new\n+<!-- timestamp=T2 -->\n";
    let got = parse_diff_for_sections(diff);
    assert_changes(
        &got,
        &[change(
            ChangeType::Modified,
            "word",
            Some("## word\nold"),
            Some("new\n<!-- timestamp=T2 -->"),
            None,
            Some("T2"),
        )],
    );
}

#[test]
fn removal_and_return_in_one_hunk_make_a_modification() {
    let diff = "@@ -1,5 +1,5 @@\n+## Resilience\n+new body\n+<!-- timestamp=T2 -->\n+---\n-## resilience\n-old body\n-<!-- timestamp=T1 -->\n----\n";
    let got = parse_diff_for_sections(diff);
    assert_changes(
        &got,
        &[change(
            ChangeType::Modified,
            "Resilience",
            Some("## resilience\nold body\n<!-- timestamp=T1 -->\n---"),
            Some("## Resilience\nnew body\n<!-- timestamp=T2 -->\n---"),
            Some("T1"),
            Some("T2"),
        )],
    );
}

#[test]
fn removal_and_return_in_two_hunks_stay_two_changes() {
    let diff = "@@ -1,0 +1,2 @@\n+## w\n+new\n@@ -9,2 +11,0 @@\n-## w\n-old\n";
    let got = parse_diff_for_sections(diff);
    assert_changes(
        &got,
        &[
            change(ChangeType::Added, "w", None, Some("## w\nnew"), None, None),
            change(ChangeType::Deleted, "w", Some("## w\nold"), None, None, None),
        ],
    );
}

#[test]
fn context_and_lines_without_a_section_are_passed_over() {
    let diff = "+## before any hunk\n@@ -1,3 +1,3 @@\n ## kept\n-old line\n+new line\n\n+## a\n context\n+x\n\\ No newline at end of file\n";
    let got = parse_diff_for_sections(diff);
    assert_changes(&got, &[change(ChangeType::Added, "a", None, Some("## a\nx"), None, None)]);
    assert!(parse_diff_for_sections("").is_empty());
    assert!(parse_diff_for_sections("no hunk at all\n+## x\n").is_empty());
}

#[test]
fn a_hunk_ends_at_the_next_header() {
    let text = "@@ -1 +1 @@\n+## a\n+1\n@@ -5 +5 @@ ## b\n+2\n";
    let ls = split_lines(&to_chars(text));
    let mut i = 0usize;
    let first = parse_hunk_content(&ls, &mut i);
    assert_eq!(i, 3);
    assert_changes(&first, &[change(ChangeType::Added, "a", None, Some("## a\n1"), None, None)]);
    let second = parse_hunk_content(&ls, &mut i);
    assert_eq!(i, 5);
    assert!(second.is_empty());
}

#[test]
fn a_hunk_makes_one_modification_of_a_removal_and_a_return() {
    let text = "@@ -1,4 +1,4 @@\n-## w\n-old body\n-<!-- timestamp=T1 -->\n+## w\n+new body\n+<!-- timestamp=T2 -->\n context\n+## other\n";
    let ls = split_lines(&to_chars(text));
    let mut i = 0usize;
    let got = parse_hunk_content(&ls, &mut i);
    assert_eq!(i, 9);
    assert_changes(
        &got,
        &[
            change(
                ChangeType::Modified,
                "w",
                Some("## w\nold body\n<!-- timestamp=T1 -->"),
                Some("## w\nnew body\n<!-- timestamp=T2 -->"),
                Some("T1"),
                Some("T2"),
            ),
            change(ChangeType::Added, "other", None, Some("## other"), None, None),
        ],
    );
    // as they stand in the hunk they are two changes
    let mut i = 0usize;
    let raw = scan_hunk(&ls, &mut i);
    assert_eq!(i, 9);
    assert_changes(
        &raw,
        &[
            change(ChangeType::Deleted, "w", Some("## w\nold body\n<!-- timestamp=T1 -->"), None, Some("T1"), None),
            change(ChangeType::Added, "w", None, Some("## w\nnew body\n<!-- timestamp=T2 -->"), None, Some("T2")),
            change(ChangeType::Added, "other", None, Some("## other"), None, None),
        ],
    );
}

#[test]
fn the_builder_collects_lines_and_the_last_good_timestamp() {
    let mut b = SectionBuilder::new_added(" spaced word ");
    assert_eq!(b.word, "spaced word");
    assert_eq!(b.new_content, vec!["##  spaced word ".to_string()]);
    b.add_new_content_line("<!-- timestamp=T1 -->");
    b.add_new_content_line("<!-- timestamp=broken");
    b.add_new_content_line("not a marker timestamp=T3 -->");
    let c = b.build().unwrap();
    assert!(same(
        &c,
        &change(
            ChangeType::Added,
            "spaced word",
            None,
            Some("##  spaced word \n<!-- timestamp=T1 -->\n<!-- timestamp=broken\nnot a marker timestamp=T3 -->"),
            None,
            Some("T1"),
        )
    ));
    let mut b = SectionBuilder::new_deleted("w");
    b.add_old_content_line("<!-- timestamp=T0 -->");
    b.add_new_content_line("came back");
    let c = b.build().unwrap();
    assert_eq!(c.change_type, ChangeType::Modified);
    assert_eq!(c.old_timestamp.as_deref(), Some("T0"));
    assert_eq!(c.new_content.as_deref(), Some("came back"));
    let b = SectionBuilder {
        word: "w".to_string(),
        change_type: ChangeType::Added,
        old_content: vec![],
        new_content: vec![],
        old_timestamp: None,
        new_timestamp: None,
    };
    assert!(b.build().is_none());
}

#[test]
fn pairing_takes_the_first_partner_behind() {
    let changes = vec![
        change(ChangeType::Deleted, "a", Some("old a"), None, Some("T1"), None),
        change(ChangeType::Deleted, "b", Some("old b"), None, None, None),
        change(ChangeType::Added, "A", None, Some("new a 1"), None, Some("T2")),
        change(ChangeType::Added, "a", None, Some("new a 2"), None, Some("T3")),
        change(ChangeType::Modified, "b", Some("x"), Some("y"), None, None),
    ];
    let keys = keys_of(&changes);
    assert_eq!(keys, vec!["a", "b", "a", "a", "b"]);
    let got = pair_changes(changes, keys);
    assert_changes(
        &got,
        &[
            change(ChangeType::Modified, "a", Some("old a"), Some("new a 1"), Some("T1"), Some("T2")),
            change(ChangeType::Deleted, "b", Some("old b"), None, None, None),
            change(ChangeType::Added, "a", None, Some("new a 2"), None, Some("T3")),
            change(ChangeType::Modified, "b", Some("x"), Some("y"), None, None),
        ],
    );
}

#[test]
fn pairing_goes_by_the_keys_it_is_given() {
    let changes = vec![
        change(ChangeType::Added, "x", None, Some("n"), None, None),
        change(ChangeType::Deleted, "y", Some("o"), None, None, None),
    ];
    let got = pair_changes(changes, vec!["k".to_string(), "k".to_string()]);
    assert_changes(&got, &[change(ChangeType::Modified, "x", Some("o"), Some("n"), None, None)]);
    let changes = vec![
        change(ChangeType::Added, "x", None, Some("n"), None, None),
        change(ChangeType::Deleted, "x", Some("o"), None, None, None),
    ];
    let got = pair_changes(changes, vec!["k1".to_string(), "k2".to_string()]);
    assert_eq!(got.len(), 2);
}

#[test]
fn fuse_takes_the_old_from_the_removal_and_the_new_from_the_return() {
    let gone = change(ChangeType::Deleted, "W", Some("old"), None, Some("T1"), None);
    let come = change(ChangeType::Added, "w", None, Some("new"), None, Some("T2"));
    assert!(same(
        &fuse(gone.duplicate(), come.duplicate()),
        &change(ChangeType::Modified, "W", Some("old"), Some("new"), Some("T1"), Some("T2"))
    ));
    assert!(same(
        &fuse(come, gone),
        &change(ChangeType::Modified, "w", Some("old"), Some("new"), Some("T1"), Some("T2"))
    ));
}
