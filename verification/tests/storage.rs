use twatch::model::display_name;
use twatch::storage::{StorageError, StorageState};

fn empty_storage() -> StorageState {
    StorageState::with_history("history.json".into(), Vec::new())
}

#[test]
fn add_and_list_entries() {
    let mut s = empty_storage();
    s.add_entry("magnet:?xt=urn:btih:abc", "Test Torrent");
    let history = s.history();
    assert_eq!(history.len(), 1);
    assert_eq!(history[0].url, "magnet:?xt=urn:btih:abc");
    assert_eq!(history[0].torrent_name, "Test Torrent");
}

#[test]
fn duplicate_url_moves_to_front() {
    let mut s = empty_storage();
    s.add_entry("magnet:a", "First");
    s.add_entry("magnet:b", "Second");
    s.add_entry("magnet:a", "First Again");
    let history = s.history();
    assert_eq!(history.len(), 2);
    assert_eq!(history[1].url, "magnet:a");
}

#[test]
fn rename_persists() {
    let mut s = empty_storage();
    s.add_entry("magnet:a", "Original");
    s.rename_entry(0, "Custom Name").unwrap();
    let history = s.history();
    assert_eq!(display_name(&history[0]), "Custom Name");
}

#[test]
fn remove_entry_shrinks_list() {
    let mut s = empty_storage();
    s.add_entry("magnet:a", "A");
    s.add_entry("magnet:b", "B");
    s.remove_entry(0).unwrap();
    assert_eq!(s.history().len(), 1);
    assert_eq!(s.history()[0].url, "magnet:b");
}

#[test]
fn mock_storage_crud() {
    let mut s = empty_storage();
    assert!(s.history().is_empty());

    s.add_entry("magnet:a", "Alpha");
    s.add_entry("magnet:b", "Beta");
    assert_eq!(s.history().len(), 2);

    s.rename_entry(0, "Renamed").unwrap();
    assert_eq!(display_name(&s.history()[0]), "Renamed");

    s.remove_entry(1).unwrap();
    assert_eq!(s.history().len(), 1);
}

#[test]
fn missing_entries_are_reported() {
    let mut s = empty_storage();
    assert_eq!(s.rename_entry(3, "x"), Err(StorageError::NotFound));
    assert_eq!(s.remove_entry(0), Err(StorageError::NotFound));
    assert_eq!(StorageError::NotFound.message(), "History entry not found");
}

#[test]
fn readding_keeps_records_and_custom_name() {
    let mut s = empty_storage();
    s.add_entry_at("magnet:a", "A", 10);
    s.rename_entry(0, "Mine").unwrap();
    s.mark_watched("magnet:a", "one.mkv");
    s.add_entry_at("magnet:b", "B", 11);
    s.add_entry_at("magnet:a", "A2", 12);
    let h = s.history();
    assert_eq!(h.len(), 2);
    assert_eq!(h[1].url, "magnet:a");
    assert_eq!(h[1].torrent_name, "A2");
    assert_eq!(h[1].added_at, 12);
    assert_eq!(h[1].custom_name.as_deref(), Some("Mine"));
    assert!(h[1].watched);
    assert_eq!(h[1].watched_files, vec!["one.mkv".to_string()]);
}

#[test]
fn marks_record_files_once_and_deletion_clears_flags() {
    let mut s = empty_storage();
    s.add_entry_at("magnet:d", "D", 1);
    s.mark_watched("magnet:d", "a.mkv");
    s.mark_watched("magnet:d", "a.mkv");
    s.mark_downloaded("magnet:d", "a.mkv");
    s.mark_downloaded("magnet:d", "b.mkv");
    let h = s.history();
    assert_eq!(h[0].watched_files, vec!["a.mkv".to_string()]);
    assert_eq!(h[0].downloaded_files, vec!["a.mkv".to_string(), "b.mkv".to_string()]);
    s.mark_deleted("magnet:d", "a.mkv");
    let h = s.history();
    assert!(!h[0].watched);
    assert!(h[0].watched_files.is_empty());
    assert!(h[0].downloaded);
    assert_eq!(h[0].downloaded_files, vec!["b.mkv".to_string()]);
    s.mark_deleted("magnet:d", "b.mkv");
    assert!(!s.history()[0].downloaded);
}

#[test]
fn persisted_history_keeps_the_newest_thousand() {
    let mut s = empty_storage();
    for i in 0..1005u64 {
        s.add_entry_at(&format!("magnet:{i}"), "t", i);
    }
    assert_eq!(s.history().len(), 1005);
    let kept = s.persisted_history();
    assert_eq!(kept.len(), 1000);
    assert_eq!(kept[0].url, "magnet:5");
    assert_eq!(kept[999].url, "magnet:1004");
}

#[test]
fn storage_keeps_its_path() {
    let s = StorageState::with_history("/tmp/h.json".into(), Vec::new());
    assert_eq!(s.path(), b"/tmp/h.json");
}
