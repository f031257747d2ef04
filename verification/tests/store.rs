use word4you::notebook::Notebook;
use word4you::store::{format_entry, prepend_entry, NotebookStore, StoreError};

const TWO: &str = "## hello\nHello content\n\n<!-- timestamp=2023-01-01T12:00:00.123+00:00 -->\n\n---\n## world\nWorld content\n\n<!-- timestamp=2023-01-02T12:00:00.456+00:00 -->\n\n---";

#[test]
fn an_entry_gets_its_marker_and_separator() {
    assert_eq!(
        format_entry("  ## word\nbody \n", "2024-05-06T07:08:09.123+02:00"),
        "## word\nbody\n\n<!-- timestamp=2024-05-06T07:08:09.123+02:00 -->\n\n---"
    );
}

#[test]
fn a_formatted_entry_is_stored_as_it_stands() {
    let entry = "\n## word\nbody\n\n<!-- timestamp=T -->\n\n---\n";
    assert_eq!(format_entry(entry, "other"), entry.trim());
    // marker and separator are both needed
    assert_eq!(
        format_entry("## w\n<!-- timestamp=T -->", "N"),
        "## w\n<!-- timestamp=T -->\n\n<!-- timestamp=N -->\n\n---"
    );
    assert_eq!(format_entry("## w\n---", "N"), "## w\n---\n\n<!-- timestamp=N -->\n\n---");
}

#[test]
fn new_entries_go_on_top() {
    let mut store = NotebookStore::new(String::new());
    store.prepend_at("## first\none", "T1");
    assert_eq!(store.content, "## first\none\n\n<!-- timestamp=T1 -->\n\n---");
    store.prepend_at("## second\ntwo", "T2");
    assert_eq!(
        store.content,
        "## second\ntwo\n\n<!-- timestamp=T2 -->\n\n---\n## first\none\n\n<!-- timestamp=T1 -->\n\n---"
    );
    let nb = store.notebook();
    assert_eq!(nb.sections.len(), 2);
    assert_eq!(nb.sections[0].identity, "second");
    assert_eq!(nb.sections[1].identity, "first");
}

#[test]
fn a_blank_notebook_is_replaced_by_the_entry() {
    assert_eq!(prepend_entry(" \n\n", "## a", "T"), "## a\n\n<!-- timestamp=T -->\n\n---");
}

#[test]
fn what_was_prepended_reads_back_as_it_was_written() {
    let mut store = NotebookStore::new(String::new());
    store.prepend_at("## one\nfirst body", "2024-01-01T00:00:00.000Z");
    store.prepend_at("  ## two\n\nsecond body\n", "2024-01-02T00:00:00.000Z");
    store.prepend_at("## three\nx\n\n<!-- timestamp=2024-01-03T00:00:00.000Z -->\n\n---", "unused");
    assert_eq!(Notebook::parse(&store.content).to_text(), store.content);
    assert_eq!(store.notebook().sections.len(), 3);
}

#[test]
fn prepend_stamps_with_the_local_time() {
    let mut store = NotebookStore::new(String::new());
    store.prepend("Test word content");
    let text = store.content.clone();
    assert!(text.starts_with("Test word content\n\n<!-- timestamp="));
    assert!(text.ends_with(" -->\n\n---"));
    let stamp = &text["Test word content\n\n<!-- timestamp=".len()..text.len() - " -->\n\n---".len()];
    assert!(stamp.chars().all(|c| c.is_ascii_digit() || "-T:.+Z".contains(c)), "{}", stamp);
    // 2024-05-06T07:08:09.123+02:00, or with Z for the offset
    let b = stamp.as_bytes();
    assert!(stamp.len() == 29 || stamp.len() == 24, "{}", stamp);
    assert_eq!(b[4], b'-');
    assert_eq!(b[7], b'-');
    assert_eq!(b[10], b'T');
    assert_eq!(b[13], b':');
    assert_eq!(b[16], b':');
    assert_eq!(b[19], b'.');
    assert!(b[20..23].iter().all(|c| c.is_ascii_digit()));
}

#[test]
fn delete_by_timestamp_removes_the_section_that_bears_it() {
    let mut store = NotebookStore::new(TWO.to_string());
    store.delete_by_timestamp("2023-01-01T12:00:00.123+00:00").unwrap();
    assert_eq!(
        store.content,
        "## world\nWorld content\n\n<!-- timestamp=2023-01-02T12:00:00.456+00:00 -->\n\n---"
    );
}

#[test]
fn delete_keeps_the_order_and_what_is_no_section() {
    let text = "# Title\n\n## a\n<!-- timestamp=T1 -->\n---\n\n## b\n<!-- timestamp=T2 -->\n---\n\n## c\n<!-- timestamp=T3 -->\n---\n";
    let mut store = NotebookStore::new(text.to_string());
    store.delete_by_timestamp("T2").unwrap();
    assert_eq!(
        store.content,
        "# Title\n\n## a\n<!-- timestamp=T1 -->\n---\n\n\n## c\n<!-- timestamp=T3 -->\n---"
    );
    assert!(store.content.contains("# Title"));
}

#[test]
fn delete_of_an_absent_timestamp_fails_and_keeps_the_content() {
    let mut store = NotebookStore::new(TWO.to_string());
    let r = store.delete_by_timestamp("2023-01-01T12:00:00.999+00:00");
    assert_eq!(r, Err(StoreError::NotFound));
    assert_eq!(store.content, TWO);
    // also where the content would not be written back as it is
    let crlf = "## a\r\n<!-- timestamp=T -->\r\n---\r\n";
    let mut store = NotebookStore::new(crlf.to_string());
    assert_eq!(store.delete("b", Some("T")), Err(StoreError::NotFound));
    assert_eq!(store.delete("a", Some("U")), Err(StoreError::NotFound));
    assert_eq!(store.delete_by_timestamp("U"), Err(StoreError::NotFound));
    assert_eq!(store.content, crlf);
}

#[test]
fn delete_by_identity_ignores_the_case_of_letters() {
    let mut store = NotebookStore::new(TWO.to_string());
    store.delete("WORLD", None).unwrap();
    assert_eq!(
        store.content,
        "## hello\nHello content\n\n<!-- timestamp=2023-01-01T12:00:00.123+00:00 -->\n\n---"
    );
    let mut store = NotebookStore::new("## Élan\n---\n## x\n---".to_string());
    store.delete("éLAN", None).unwrap();
    assert_eq!(store.content, "## x\n---");
}

#[test]
fn delete_asks_for_a_timestamp_where_an_identity_recurs() {
    let text = "## word\nnew\n<!-- timestamp=T2 -->\n---\n## word\nold\n<!-- timestamp=T1 -->\n---";
    let mut store = NotebookStore::new(text.to_string());
    assert_eq!(store.delete("word", None), Err(StoreError::Ambiguous));
    assert_eq!(store.content, text);
    store.delete("word", Some("T1")).unwrap();
    assert_eq!(store.content, "## word\nnew\n<!-- timestamp=T2 -->\n---");
    store.delete("word", None).unwrap();
    assert_eq!(store.content, "");
}

#[test]
fn delete_needs_identity_and_timestamp_in_one_section() {
    let mut store = NotebookStore::new(TWO.to_string());
    assert_eq!(
        store.delete("hello", Some("2023-01-02T12:00:00.456+00:00")),
        Err(StoreError::NotFound)
    );
    assert_eq!(store.content, TWO);
}

#[test]
fn errors_say_what_went_wrong() {
    assert_eq!(StoreError::NotFound.message(), "Entry not found in vocabulary notebook");
    assert_eq!(
        StoreError::Ambiguous.message(),
        "Several entries match: a timestamp is required"
    );
}

#[test]
fn test_delete_with_timestamp() {
    let mut store = NotebookStore::new("## hello\nHello content\n\n<!-- timestamp=2023-01-01T12:00:00.123+00:00 -->\n\n---\n## world\nWorld content\n\n<!-- timestamp=2023-01-02T12:00:00.456+00:00 -->\n\n---".to_string());

    store.delete_by_timestamp("2023-01-01T12:00:00.123+00:00").unwrap();

    let result = store.content;
    println!("Result after deletion:\n{}", result);

    assert!(result.contains("## world"));
    assert!(!result.contains("## hello"));
}

#[test]
fn test_delete_by_timestamp() {
    let mut store = NotebookStore::new("## hello\nHello content 1\n\n<!-- timestamp=2023-01-01T12:00:00.123+00:00 -->\n---\n\n## word\nHello content 2\n\n<!-- timestamp=2023-01-02T12:00:00.456+00:00 -->\n---\n".to_string());

    store.delete_by_timestamp("2023-01-01T12:00:00.123+00:00").unwrap();

    let result = store.content;

    assert!(!result.contains("## hello"));
    assert!(result.contains("## word"));
}

#[test]
fn test_delete_nonexistent_timestamp() {
    let mut store = NotebookStore::new(
        "## hello\nHello content\n\n<!-- timestamp=2023-01-01T12:00:00.123+00:00 -->\n---\n"
            .to_string(),
    );

    let result = store.delete_by_timestamp("2023-01-01T12:00:00.999+00:00");

    assert!(result.is_err());

    let result_content = store.content;
    assert!(result_content.contains("## hello"));
}

/// Whether the text holds a marker with a timestamp of the shape
/// `2024-05-06T07:08:09.123+02:00`, or with `Z` for the offset.
fn holds_stamped_marker(text: &str) -> bool {
    let shape = "dddd-dd-ddTdd:dd:dd.ddd";
    let open = "<!-- timestamp=";
    let mut from = 0;
    while let Some(at) = text[from..].find(open) {
        let rest = &text[from + at + open.len()..];
        let b = rest.as_bytes();
        let stamped = b.len() >= shape.len()
            && shape.bytes().zip(b.iter()).all(|(s, c)| {
                if s == b'd' {
                    c.is_ascii_digit()
                } else {
                    s == *c
                }
            });
        if stamped {
            let tail = &rest[shape.len()..];
            let t = tail.as_bytes();
            let offset = t.len() >= 6
                && (t[0] == b'+' || t[0] == b'-')
                && t[1].is_ascii_digit()
                && t[2].is_ascii_digit()
                && t[3] == b':'
                && t[4].is_ascii_digit()
                && t[5].is_ascii_digit()
                && tail[6..].starts_with(" -->");
            if offset || tail.starts_with("Z -->") {
                return true;
            }
        }
        from += at + open.len();
    }
    false
}

#[test]
fn test_prepend_to_vocabulary_notebook() {
    let mut store = NotebookStore::new(String::new());

    store.prepend("Test word content");

    let result = store.content;

    assert!(holds_stamped_marker(&result));
    assert!(result.contains("Test word content"));
    assert!(result.contains("---"));
}

#[test]
fn the_shape_of_a_stamped_marker() {
    assert!(holds_stamped_marker("x\n<!-- timestamp=2024-05-06T07:08:09.123+02:00 -->\n"));
    assert!(holds_stamped_marker("<!-- timestamp=2024-05-06T07:08:09.123Z -->"));
    assert!(holds_stamped_marker("<!-- timestamp=soon -->\n<!-- timestamp=2024-05-06T07:08:09.123-11:30 -->"));
    assert!(!holds_stamped_marker("<!-- timestamp=2024-05-06T07:08:09+02:00 -->"));
    assert!(!holds_stamped_marker("<!-- timestamp=2024-05-06T07:08:09.123 -->"));
    assert!(!holds_stamped_marker("timestamp=2024-05-06T07:08:09.123Z -->"));
}

#[test]
fn a_notebook_on_top_of_another_keeps_every_section_of_both() {
    let mine = "## a\nA.\n<!-- timestamp=2024-02-02T00:00:00Z -->\n---\n\n## b\nB.\n<!-- timestamp=2024-01-01T00:00:00Z -->\n---";
    let theirs = "# Remote\n## c\nC.\n---\n## d\nD.\n---\n## e\nE.";
    let out = prepend_entry(theirs, &format!("\n{}\n\n", mine), "unused");
    assert_eq!(out, format!("{}\n{}", mine, theirs));
    let all = Notebook::parse(&out);
    let first = Notebook::parse(mine);
    let second = Notebook::parse(theirs);
    assert!(all.preamble.is_empty());
    assert_eq!(all.sections.len(), 5);
    for (i, s) in first.sections.iter().enumerate() {
        assert_eq!(all.sections[i].identity, s.identity);
        assert_eq!(all.sections[i].body, s.body);
        assert_eq!(all.sections[i].timestamp, s.timestamp);
    }
    // what stood before the first remote section stands behind the last local one
    assert_eq!(all.sections[1].trailer, vec!["# Remote".to_string()]);
    for (j, s) in second.sections.iter().enumerate() {
        assert_eq!(all.sections[2 + j].identity, s.identity);
        assert_eq!(all.sections[2 + j].body, s.body);
        assert_eq!(all.sections[2 + j].trailer, s.trailer);
    }
}
