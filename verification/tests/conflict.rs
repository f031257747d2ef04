use word4you::change::{ChangeType, SectionChange};
use word4you::conflict::{
    classify, classify_keyed, instant_of_change, is_conflict, resolve, resolve_instants,
    SectionConflict, Winner,
};
use word4you::instant::{read_instant, Instant};

fn change(change_type: ChangeType, word: &str, text: &str, stamp: Option<&str>) -> SectionChange {
    let text = Some(text.to_string());
    let stamp = stamp.map(String::from);
    match change_type {
        ChangeType::Added => SectionChange {
            change_type,
            word: word.to_string(),
            old_content: None,
            new_content: text,
            old_timestamp: None,
            new_timestamp: stamp,
        },
        ChangeType::Deleted => SectionChange {
            change_type,
            word: word.to_string(),
            old_content: text,
            new_content: None,
            old_timestamp: stamp,
            new_timestamp: None,
        },
        ChangeType::Modified => SectionChange {
            change_type,
            word: word.to_string(),
            old_content: Some("before".to_string()),
            new_content: text,
            old_timestamp: None,
            new_timestamp: stamp,
        },
    }
}

#[test]
fn the_table_of_conflicts() {
    let table = [
        (ChangeType::Added, ChangeType::Added, true),
        (ChangeType::Added, ChangeType::Modified, true),
        (ChangeType::Added, ChangeType::Deleted, true),
        (ChangeType::Modified, ChangeType::Added, true),
        (ChangeType::Modified, ChangeType::Modified, true),
        (ChangeType::Modified, ChangeType::Deleted, true),
        (ChangeType::Deleted, ChangeType::Added, true),
        (ChangeType::Deleted, ChangeType::Modified, true),
        (ChangeType::Deleted, ChangeType::Deleted, false),
    ];
    for (l, r, want) in table {
        let local = change(l, "w", "local text", None);
        let remote = change(r, "w", "remote text", None);
        assert_eq!(is_conflict(&local, &remote), want, "{:?} {:?}", l, r);
        let found = classify(&vec![local], &vec![remote]);
        assert_eq!(found.len(), if want { 1 } else { 0 }, "{:?} {:?}", l, r);
    }
}

#[test]
fn two_additions_of_the_same_text_are_no_conflict() {
    let local = change(ChangeType::Added, "w", "same", Some("T1"));
    let remote = change(ChangeType::Added, "w", "same", Some("T2"));
    assert!(!is_conflict(&local, &remote));
    // modifications conflict even where their texts agree
    let local = change(ChangeType::Modified, "w", "same", None);
    let remote = change(ChangeType::Modified, "w", "same", None);
    assert!(is_conflict(&local, &remote));
    // deletions of different texts do not
    let local = change(ChangeType::Deleted, "w", "one", None);
    let remote = change(ChangeType::Deleted, "w", "two", None);
    assert!(!is_conflict(&local, &remote));
}

#[test]
fn changes_meet_where_their_identities_agree_but_for_case() {
    let locals = vec![
        change(ChangeType::Added, "Alpha", "l1", None),
        change(ChangeType::Modified, "beta", "l2", None),
        change(ChangeType::Deleted, "gamma", "l3", None),
    ];
    let remotes = vec![
        change(ChangeType::Deleted, "GAMMA", "r3", None),
        change(ChangeType::Added, "delta", "r4", None),
        change(ChangeType::Modified, "alpha", "r1", None),
    ];
    let found = classify(&locals, &remotes);
    assert_eq!(found.len(), 1);
    assert_eq!(found[0].local.word, "Alpha");
    assert_eq!(found[0].remote.word, "alpha");
    assert_eq!(found[0].remote.new_content.as_deref(), Some("r1"));
}

#[test]
fn of_the_changes_to_one_section_the_last_counts() {
    let locals = vec![
        change(ChangeType::Added, "w", "first", None),
        change(ChangeType::Modified, "w", "second", None),
    ];
    let remotes = vec![
        change(ChangeType::Added, "w", "first", None),
        change(ChangeType::Deleted, "w", "gone", None),
    ];
    let found = classify(&locals, &remotes);
    assert_eq!(found.len(), 1);
    assert_eq!(found[0].local.new_content.as_deref(), Some("second"));
    assert_eq!(found[0].remote.change_type, ChangeType::Deleted);
}

#[test]
fn classify_goes_by_the_keys_it_is_given() {
    let locals = vec![change(ChangeType::Added, "a", "x", None)];
    let remotes = vec![change(ChangeType::Added, "b", "y", None)];
    let k = vec!["same".to_string()];
    assert_eq!(classify_keyed(&locals, &k, &remotes, &k).len(), 1);
    assert_eq!(classify_keyed(&locals, &k, &remotes, &vec!["other".to_string()]).len(), 0);
}

#[test]
fn the_later_instant_wins_on_either_side() {
    let t1 = Instant { secs: 100, nanos: 5 };
    let t2 = Instant { secs: 100, nanos: 6 };
    let t3 = Instant { secs: 101, nanos: 0 };
    assert_eq!(resolve_instants(Some(t1), Some(t2)), Winner::Remote);
    assert_eq!(resolve_instants(Some(t2), Some(t1)), Winner::Local);
    assert_eq!(resolve_instants(Some(t2), Some(t3)), Winner::Remote);
    assert_eq!(resolve_instants(Some(t3), Some(t2)), Winner::Local);
    assert_eq!(resolve_instants(Some(Instant { secs: -5, nanos: 0 }), Some(t1)), Winner::Remote);
}

#[test]
fn a_tie_goes_to_the_local_side_and_a_missing_instant_loses() {
    let t = Instant { secs: 7, nanos: 7 };
    assert_eq!(resolve_instants(Some(t), Some(t)), Winner::Local);
    assert_eq!(resolve_instants(Some(t), None), Winner::Local);
    assert_eq!(resolve_instants(None, Some(t)), Winner::Remote);
    assert_eq!(resolve_instants(None, None), Winner::Unresolvable);
}

#[test]
fn timestamps_are_read_as_instants() {
    assert_eq!(
        read_instant("2023-01-01T12:00:00.123+00:00"),
        Some(Instant { secs: 1672574400, nanos: 123_000_000 })
    );
    // the same instant in another zone
    assert_eq!(
        read_instant("2023-01-01T14:00:00.123+02:00"),
        Some(Instant { secs: 1672574400, nanos: 123_000_000 })
    );
    assert_eq!(read_instant("1970-01-01T00:00:00Z"), Some(Instant { secs: 0, nanos: 0 }));
    assert_eq!(read_instant("1969-12-31T23:59:59.5Z"), Some(Instant { secs: -1, nanos: 500_000_000 }));
    assert_eq!(read_instant(""), None);
    assert_eq!(read_instant("yesterday"), None);
    assert_eq!(read_instant("2023-01-01"), None);
    assert_eq!(read_instant("2023-13-01T00:00:00Z"), None);
}

#[test]
fn a_conflict_is_decided_by_the_timestamps_of_its_changes() {
    let earlier = "2024-01-01T10:00:00.000+00:00";
    let later = "2024-01-01T11:00:00.000+01:00 -- no";
    let later_ok = "2024-01-01T12:00:00.000+01:00";
    let c = SectionConflict {
        local: change(ChangeType::Modified, "w", "l", Some(later_ok)),
        remote: change(ChangeType::Modified, "w", "r", Some(earlier)),
    };
    assert_eq!(resolve(&c), Winner::Local);
    let c = SectionConflict {
        local: change(ChangeType::Modified, "w", "l", Some(earlier)),
        remote: change(ChangeType::Modified, "w", "r", Some(later_ok)),
    };
    assert_eq!(resolve(&c), Winner::Remote);
    // text order is not time order: 12:00+01:00 is 11:00 in UTC, 10:30Z is earlier
    let c = SectionConflict {
        local: change(ChangeType::Modified, "w", "l", Some("2024-01-01T10:30:00Z")),
        remote: change(ChangeType::Modified, "w", "r", Some(later_ok)),
    };
    assert_eq!(resolve(&c), Winner::Remote);
    let c = SectionConflict {
        local: change(ChangeType::Modified, "w", "l", Some(later)),
        remote: change(ChangeType::Deleted, "w", "r", Some(earlier)),
    };
    assert_eq!(resolve(&c), Winner::Remote);
    let c = SectionConflict {
        local: change(ChangeType::Modified, "w", "l", Some(later)),
        remote: change(ChangeType::Modified, "w", "r", None),
    };
    assert_eq!(resolve(&c), Winner::Unresolvable);
}

#[test]
fn the_instant_of_a_change_is_its_newest_that_can_be_read() {
    let mut c = change(ChangeType::Modified, "w", "x", Some("2024-01-01T00:00:01Z"));
    c.old_timestamp = Some("2024-01-01T00:00:00Z".to_string());
    assert_eq!(instant_of_change(&c), Some(Instant { secs: 1704067201, nanos: 0 }));
    c.new_timestamp = Some("garbage".to_string());
    assert_eq!(instant_of_change(&c), Some(Instant { secs: 1704067200, nanos: 0 }));
    c.new_timestamp = None;
    assert_eq!(instant_of_change(&c), Some(Instant { secs: 1704067200, nanos: 0 }));
    c.old_timestamp = None;
    assert_eq!(instant_of_change(&c), None);
}
