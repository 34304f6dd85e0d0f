use rex_cli::commands::{build_entry, insert_entry, remove_entry, History, HistoryError};

fn entry(id: &str) -> rex_cli::commands::HistoryEntry {
    build_entry(id, "2024-05-01T10:00:00Z", "did things", vec!["t1".into()], vec!["src/a.rs".into()], None)
}

#[test]
fn history_insert_rejects_duplicates_per_section() {
    let mut h = History::default();
    insert_entry(&mut h, entry("e1"), false).unwrap();
    insert_entry(&mut h, entry("e1"), true).unwrap();
    assert_eq!(h.recent.len(), 1);
    assert_eq!(h.archived.len(), 1);
    match insert_entry(&mut h, entry("e1"), false).unwrap_err() {
        HistoryError::AlreadyExists(m) => assert_eq!(m, "Recent entry \"e1\" already exists."),
        other => panic!("unexpected {other:?}"),
    }
    match insert_entry(&mut h, entry("e1"), true).unwrap_err() {
        HistoryError::AlreadyExists(m) => assert_eq!(m, "Archived entry \"e1\" already exists."),
        other => panic!("unexpected {other:?}"),
    }
    assert_eq!(h.recent.len(), 1);
}

#[test]
fn history_remove_entries() {
    let mut h = History::default();
    insert_entry(&mut h, entry("e1"), false).unwrap();
    insert_entry(&mut h, entry("e2"), false).unwrap();
    remove_entry(&mut h, "e1", false).unwrap();
    assert_eq!(h.recent.len(), 1);
    assert_eq!(h.recent[0].id, "e2");
    match remove_entry(&mut h, "e1", false).unwrap_err() {
        HistoryError::NotFound(m) => assert_eq!(m, "Recent entry \"e1\" not found."),
        other => panic!("unexpected {other:?}"),
    }
    match remove_entry(&mut h, "e2", true).unwrap_err() {
        HistoryError::NotFound(m) => assert_eq!(m, "Archived entry \"e2\" not found."),
        other => panic!("unexpected {other:?}"),
    }
}
