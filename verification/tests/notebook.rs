use word4you::notebook::{Notebook, Section};

const TWO: &str = "## hello\nHello content\n\n<!-- timestamp=2023-01-01T12:00:00.123+00:00 -->\n\n---\n## world\nWorld content\n\n<!-- timestamp=2023-01-02T12:00:00.456+00:00 -->\n\n---";

fn strings(v: &[&str]) -> Vec<String> {
    v.iter().map(|s| s.to_string()).collect()
}

#[test]
fn parse_gives_the_sections_in_file_order() {
    let nb = Notebook::parse(TWO);
    assert!(nb.preamble.is_empty());
    assert_eq!(nb.sections.len(), 2);
    let s: &Section = &nb.sections[0];
    assert_eq!(s.identity, "hello");
    assert_eq!(s.heading, "hello");
    assert_eq!(
        s.body,
        strings(&[
            "Hello content",
            "",
            "<!-- timestamp=2023-01-01T12:00:00.123+00:00 -->",
            "",
            "---"
        ])
    );
    assert_eq!(s.timestamp.as_deref(), Some("2023-01-01T12:00:00.123+00:00"));
    assert!(s.trailer.is_empty());
    assert_eq!(nb.sections[1].identity, "world");
    assert_eq!(nb.sections[1].timestamp.as_deref(), Some("2023-01-02T12:00:00.456+00:00"));
    assert_eq!(
        s.content(),
        "## hello\nHello content\n\n<!-- timestamp=2023-01-01T12:00:00.123+00:00 -->\n\n---"
    );
    assert_eq!(
        s.body_text(),
        "Hello content\n\n<!-- timestamp=2023-01-01T12:00:00.123+00:00 -->\n\n---"
    );
}

#[test]
fn parse_keeps_what_is_no_section() {
    let text = "# My notebook\n\n## a \nx\n --- \n\nbetween\n## b\ny";
    let nb = Notebook::parse(text);
    assert_eq!(nb.preamble, strings(&["# My notebook", ""]));
    assert_eq!(nb.sections.len(), 2);
    assert_eq!(nb.sections[0].identity, "a");
    assert_eq!(nb.sections[0].heading, "a ");
    assert_eq!(nb.sections[0].body, strings(&["x", " --- "]));
    assert_eq!(nb.sections[0].trailer, strings(&["", "between"]));
    assert_eq!(nb.sections[0].timestamp, None);
    assert_eq!(nb.sections[1].identity, "b");
    assert_eq!(nb.sections[1].body, strings(&["y"]));
    assert_eq!(nb.to_text(), text);
}

#[test]
fn a_heading_before_the_separator_belongs_to_the_section() {
    let nb = Notebook::parse("## a\n## b\n---\n## c");
    assert_eq!(nb.sections.len(), 2);
    assert_eq!(nb.sections[0].identity, "a");
    assert_eq!(nb.sections[0].body, strings(&["## b", "---"]));
    assert_eq!(nb.sections[1].identity, "c");
    assert!(nb.sections[1].body.is_empty());
}

#[test]
fn the_last_marker_of_a_section_gives_its_timestamp() {
    let nb = Notebook::parse(
        "## a\n<!-- timestamp=2024-01-01T00:00:00Z -->\n<!-- timestamp=2024-02-02T00:00:00.500+01:00 -->\n---",
    );
    assert_eq!(nb.sections[0].timestamp.as_deref(), Some("2024-02-02T00:00:00.500+01:00"));
    // a marker without its end gives none, and the one before does not count
    let nb = Notebook::parse(
        "## a\n<!-- timestamp=2024-01-01T00:00:00Z -->\n<!-- timestamp=2024-02-02T00:00:00Z\n---",
    );
    assert_eq!(nb.sections[0].timestamp, None);
    // a marker has to start its line
    let nb = Notebook::parse("## a\n <!-- timestamp=2024-01-01T00:00:00Z -->\n---");
    assert_eq!(nb.sections[0].timestamp, None);
}

#[test]
fn a_marker_that_is_no_instant_gives_no_timestamp() {
    for stamp in ["", "T2", "yesterday", "2024-01-01", "2024-13-01T00:00:00Z", " 2024-01-01T00:00:00Z"] {
        let text = format!("## a\nbody\n<!-- timestamp={} -->\n---\n## b\n<!-- timestamp=2024-01-01T00:00:00Z -->\n---", stamp);
        let nb = Notebook::parse(&text);
        assert_eq!(nb.sections.len(), 2);
        assert_eq!(nb.sections[0].identity, "a");
        assert_eq!(nb.sections[0].timestamp, None, "{:?}", stamp);
        assert_eq!(nb.sections[0].instant(), None);
        // the lines of the section are kept as they stand
        assert_eq!(nb.sections[0].body[1], format!("<!-- timestamp={} -->", stamp));
        // and the other section is read as before
        assert_eq!(nb.sections[1].timestamp.as_deref(), Some("2024-01-01T00:00:00Z"));
        assert_eq!(nb.to_text(), text);
    }
    // the marker before a marker that cannot be read does not count
    let nb = Notebook::parse("## a\n<!-- timestamp=2024-01-01T00:00:00Z -->\n<!-- timestamp=soon -->\n---");
    assert_eq!(nb.sections[0].timestamp, None);
}

#[test]
fn empty_and_headless_texts() {
    let nb = Notebook::parse("");
    assert!(nb.preamble.is_empty() && nb.sections.is_empty());
    assert_eq!(nb.to_text(), "");
    let nb = Notebook::parse("just\ntext\n---");
    assert_eq!(nb.preamble, strings(&["just", "text", "---"]));
    assert!(nb.sections.is_empty());
    let nb = Notebook::parse("##no blank");
    assert!(nb.sections.is_empty());
}

#[test]
fn writing_out_what_was_read_gives_the_text() {
    for text in [
        TWO,
        "",
        "x",
        "## a",
        "## a\n---",
        "title\n\n## a\nb\n---\n\n\n## c\n\n---\ntail",
        "##  spaced  \n<!-- timestamp=x -->\n---",
    ] {
        assert_eq!(Notebook::parse(text).to_text(), text, "{:?}", text);
    }
}

#[test]
fn writing_out_makes_line_ends_plain() {
    assert_eq!(Notebook::parse("## a\r\nb\r\n---\r\n").to_text(), "## a\nb\n---");
    assert_eq!(Notebook::parse("## a\n---\n").to_text(), "## a\n---");
}

#[test]
fn remove_takes_heading_and_body_and_leaves_the_trailer() {
    let mut nb = Notebook::parse("top\n## a\nx\n---\nafter a\n## b\ny\n---\nafter b\n## c\nz\n---");
    nb.remove(1);
    assert_eq!(nb.to_text(), "top\n## a\nx\n---\nafter a\nafter b\n## c\nz\n---");
    nb.remove(0);
    assert_eq!(nb.to_text(), "top\nafter a\nafter b\n## c\nz\n---");
    assert_eq!(nb.preamble, strings(&["top", "after a", "after b"]));
    nb.remove(0);
    assert_eq!(nb.to_text(), "top\nafter a\nafter b");
}
