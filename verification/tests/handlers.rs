use twatch::config::{Config, SearchConfig};
use twatch::handlers::common::{Action, KeyCode, KeyPress};
use twatch::handlers::handle_key;
use twatch::model::{DisplayEntry, HistoryEntry, Screen, TorrentFile};
use twatch::state::AppState;
use twatch::storage::StorageState;

fn mock_app() -> AppState {
    AppState::new(Config::default(), SearchConfig::default())
}

fn key(code: KeyCode) -> KeyPress {
    KeyPress { code, ctrl: false }
}

fn press(app: &mut AppState, code: KeyCode) -> Option<Action> {
    press_with(app, code, &Vec::new())
}

fn press_with(app: &mut AppState, code: KeyCode, history: &Vec<HistoryEntry>) -> Option<Action> {
    assert!(!twatch::handlers::key_would_panic(app, key(code)));
    handle_key(app, key(code), history)
}

fn file(index: usize, name: &str, size: u64) -> TorrentFile {
    TorrentFile { index, name: name.to_string(), size }
}

fn browse(app: &mut AppState, files: Vec<TorrentFile>, selected: Vec<bool>) {
    app.screen = Screen::Browser;
    app.browser.files = files;
    app.browser.selected_files = selected;
    app.rebuild_entries();
}

fn storage() -> StorageState {
    StorageState::with_history("history.json".into(), Vec::new())
}

#[test]
fn welcome_enter_on_add_navigates_to_input() {
    let mut app = mock_app();
    assert_eq!(app.screen, Screen::Welcome);
    press(&mut app, KeyCode::Enter);
    assert_eq!(app.screen, Screen::Input);
}

#[test]
fn welcome_enter_on_quit_stops_running() {
    let mut app = mock_app();
    press(&mut app, KeyCode::Down);
    press(&mut app, KeyCode::Down);
    press(&mut app, KeyCode::Down);
    press(&mut app, KeyCode::Enter);
    assert!(!app.running);
}

#[test]
fn welcome_q_stops_running() {
    let mut app = mock_app();
    press(&mut app, KeyCode::Char('q'));
    assert!(!app.running);
}

#[test]
fn input_esc_returns_to_welcome() {
    let mut app = mock_app();
    app.screen = Screen::Input;
    press(&mut app, KeyCode::Esc);
    assert_eq!(app.screen, Screen::Welcome);
}

#[test]
fn input_typing_builds_value() {
    let mut app = mock_app();
    app.screen = Screen::Input;
    press(&mut app, KeyCode::Char('h'));
    press(&mut app, KeyCode::Char('i'));
    assert_eq!(app.input.value, "hi");
}

#[test]
fn input_enter_on_non_empty_url_starts_loading() {
    let mut app = mock_app();
    app.screen = Screen::Input;
    app.input.value = "magnet:?xt=urn:btih:abc".into();
    app.input.cursor = app.input.value.len();
    let act = press(&mut app, KeyCode::Enter);
    assert_eq!(app.screen, Screen::Loading);
    match act {
        Some(Action::Preview { url }) => assert_eq!(url, "magnet:?xt=urn:btih:abc"),
        other => panic!("expected a preview, got {other:?}"),
    }
    assert!(app.task_busy);
}

#[test]
fn input_enter_on_empty_url_is_ignored() {
    let mut app = mock_app();
    app.screen = Screen::Input;
    app.input.value.clear();
    app.input.cursor = 0;
    let act = press(&mut app, KeyCode::Enter);
    assert_eq!(app.screen, Screen::Input);
    assert!(act.is_none());
}

#[test]
fn browser_toggle_selection() {
    let mut app = mock_app();
    browse(&mut app, vec![file(0, "a.mkv", 100)], vec![false]);
    press(&mut app, KeyCode::Char(' '));
    assert!(app.browser.selected_files[0]);
    press(&mut app, KeyCode::Char(' '));
    assert!(!app.browser.selected_files[0]);
}

#[test]
fn browser_esc_returns_to_welcome_and_clears_files() {
    let mut app = mock_app();
    browse(&mut app, vec![file(0, "a", 1)], vec![false]);
    press(&mut app, KeyCode::Esc);
    assert_eq!(app.screen, Screen::Welcome);
    assert!(app.browser.files.is_empty());
    assert!(app.browser.selected_files.is_empty());
    assert!(app.browser.display_entries.is_empty());
}

#[test]
fn browser_folder_expand_collapse() {
    let mut app = mock_app();
    browse(
        &mut app,
        vec![file(0, "dir/file1.mkv", 100), file(1, "dir/file2.mkv", 200), file(2, "README.txt", 50)],
        vec![false; 3],
    );
    assert_eq!(app.browser.display_entries.len(), 2);
    assert!(matches!(app.browser.display_entries[0], DisplayEntry::Folder { .. }));
    assert!(matches!(app.browser.display_entries[1], DisplayEntry::File { .. }));

    app.browser.selected_file = 0;
    press(&mut app, KeyCode::Enter);
    assert_eq!(app.browser.display_entries.len(), 4, "should show 2 files inside dir");
    assert!(!app.browser.expanded_paths.is_empty(), "dir/ should be in expanded_paths");

    press(&mut app, KeyCode::Enter);
    assert_eq!(app.browser.display_entries.len(), 2, "should be back to 2 entries");
    assert!(app.browser.expanded_paths.is_empty());
}

#[test]
fn browser_q_in_search_exits_to_welcome() {
    let mut app = mock_app();
    browse(&mut app, vec![file(0, "a.mkv", 100)], vec![false]);
    press(&mut app, KeyCode::Char('/'));
    assert!(app.is_searching);
    press(&mut app, KeyCode::Char('q'));
    assert_eq!(app.screen, Screen::Welcome);
    assert!(!app.is_searching);
    assert!(app.browser.display_entries.is_empty());
}

#[test]
fn browser_search_esc_cancels_search_only() {
    let mut app = mock_app();
    browse(&mut app, vec![file(0, "a.mkv", 100)], vec![false]);
    press(&mut app, KeyCode::Char('/'));
    assert!(app.is_searching);
    press(&mut app, KeyCode::Esc);
    assert!(!app.is_searching);
    assert_eq!(app.screen, Screen::Browser, "should stay on Browser");
    assert!(!app.browser.display_entries.is_empty());
}

#[test]
fn player_esc_kills_and_returns_to_browser() {
    let mut app = mock_app();
    app.screen = Screen::Player;
    let act = press(&mut app, KeyCode::Esc);
    assert_eq!(app.screen, Screen::Browser);
    assert!(app.status_message.contains("stopped"));
    assert!(matches!(act, Some(Action::KillPlayer)));
}

#[test]
fn history_esc_returns_to_welcome() {
    let mut app = mock_app();
    app.screen = Screen::History;
    press(&mut app, KeyCode::Esc);
    assert_eq!(app.screen, Screen::Welcome);
}

#[test]
fn history_down_moves_selection() {
    let mut app = mock_app();
    app.screen = Screen::History;
    let mut s = storage();
    s.add_entry("magnet:a", "A");
    s.add_entry("magnet:b", "B");
    let h = s.history();
    press_with(&mut app, KeyCode::Down, &h);
    assert_eq!(app.history.selected, 1);
    press_with(&mut app, KeyCode::Up, &h);
    assert_eq!(app.history.selected, 0);
}

#[test]
fn history_entries_show_watched_tag() {
    let mut s = storage();
    s.add_entry("magnet:a", "Torrent A");
    s.mark_watched("magnet:a", "file1.mkv");
    s.add_entry("magnet:b", "Torrent B");
    let entries = s.history();
    assert!(entries.iter().any(|e| e.url == "magnet:a" && e.watched));
    assert!(entries.iter().any(|e| e.url == "magnet:b" && !e.watched));
}

#[test]
fn browser_shows_watched_and_downloaded_tags() {
    let mut app = mock_app();
    app.set_pending_url("magnet:x".into());
    browse(&mut app, vec![file(0, "watched.mkv", 100), file(1, "downloaded.mkv", 200)], vec![false, false]);
    app.browser.watched_files = vec!["watched.mkv".into()];
    app.browser.downloaded_files = vec!["downloaded.mkv".into()];

    let mut s = storage();
    s.add_entry("magnet:x", "Torrent X");
    s.mark_watched("magnet:x", "watched.mkv");
    s.mark_downloaded("magnet:x", "downloaded.mkv");

    let entries = s.history();
    let entry = entries.iter().find(|e| e.url == "magnet:x").unwrap();
    assert!(entry.watched);
    assert!(entry.watched_files.contains(&"watched.mkv".to_string()));
    assert!(entry.downloaded);
    assert!(entry.downloaded_files.contains(&"downloaded.mkv".to_string()));

    let lines = twatch::panels::browser_lines(&app, false);
    assert_eq!(lines.len(), 2);
    assert!(lines[0].iter().any(|s| s.text == " [watched]"));
    assert!(lines[1].iter().any(|s| s.text == " [downloaded]"));
}

#[test]
fn t_key_opens_theme_picker() {
    let mut app = mock_app();
    press(&mut app, KeyCode::Char('t'));
    assert!(app.theme_state.picker);
}

#[test]
fn theme_picker_enter_selects_theme() {
    let mut app = mock_app();
    let original = app.theme_state.theme;
    press(&mut app, KeyCode::Char('t'));
    assert!(app.theme_state.picker);
    press(&mut app, KeyCode::Down);
    let act = press(&mut app, KeyCode::Enter);
    assert!(!app.theme_state.picker);
    assert_ne!(app.theme_state.theme, original);
    assert!(matches!(act, Some(Action::SaveConfig)));
    assert_eq!(app.config.theme, "tokyonight-light");
}

#[test]
fn theme_picker_esc_closes_without_change() {
    let mut app = mock_app();
    let original = app.theme_state.theme;
    press(&mut app, KeyCode::Char('t'));
    assert!(app.theme_state.picker);
    press(&mut app, KeyCode::Esc);
    assert!(!app.theme_state.picker);
    assert_eq!(app.theme_state.theme, original);
}

#[test]
fn theme_picker_filter_narrows_list() {
    let mut app = mock_app();
    press(&mut app, KeyCode::Char('t'));
    for c in "nord".chars() {
        press(&mut app, KeyCode::Char(c));
    }
    assert_eq!(app.theme_state.picker_filter, "nord");
    assert!(app.theme_state.picker);
    let view = twatch::panels::picker_list_view(&app, 20);
    assert_eq!(view.items.len(), 2);
    assert_eq!(view.items[0].text, "▶ Nord Dark  [Dark]");
    assert_eq!(view.items[1].text, "  Nord Light  [Light]");
    press(&mut app, KeyCode::Esc);
}

#[test]
fn theme_picker_backspace_clears_filter() {
    let mut app = mock_app();
    press(&mut app, KeyCode::Char('t'));
    press(&mut app, KeyCode::Char('x'));
    press(&mut app, KeyCode::Backspace);
    assert_eq!(app.theme_state.picker_filter, "");
    press(&mut app, KeyCode::Esc);
}

#[test]
fn delete_x_with_no_selection_shows_error() {
    let mut app = mock_app();
    browse(&mut app, vec![file(0, "a.mkv", 100)], vec![false]);
    press(&mut app, KeyCode::Char('x'));
    assert!(!app.browser.confirm_delete);
    assert_eq!(
        app.error_message.as_deref(),
        Some("No files selected. Press Space to toggle selection.")
    );
}

#[test]
fn delete_x_with_selection_shows_confirm() {
    let mut app = mock_app();
    browse(&mut app, vec![file(0, "a.mkv", 100)], vec![true]);
    press(&mut app, KeyCode::Char('x'));
    assert!(app.browser.confirm_delete);
    assert!(!app.browser.confirm_delete_yes);
}

#[test]
fn delete_confirm_esc_cancels() {
    let mut app = mock_app();
    browse(&mut app, vec![file(0, "a.mkv", 100)], vec![true]);
    press(&mut app, KeyCode::Char('x'));
    assert!(app.browser.confirm_delete);
    press(&mut app, KeyCode::Esc);
    assert!(!app.browser.confirm_delete);
}

#[test]
fn delete_confirm_toggle_yes_no() {
    let mut app = mock_app();
    browse(&mut app, vec![file(0, "a.mkv", 100)], vec![true]);
    press(&mut app, KeyCode::Char('x'));
    assert!(!app.browser.confirm_delete_yes);
    press(&mut app, KeyCode::Right);
    assert!(app.browser.confirm_delete_yes);
    press(&mut app, KeyCode::Left);
    assert!(!app.browser.confirm_delete_yes);
}

#[test]
fn delete_confirm_enter_on_yes_removes_files() {
    let mut app = mock_app();
    app.set_pending_url("magnet:d".into());
    browse(&mut app, vec![file(0, "a.mkv", 100), file(1, "b.mkv", 200)], vec![true, true]);
    app.browser.watched_files = vec!["a.mkv".into()];
    app.browser.downloaded_files = vec!["a.mkv".into(), "b.mkv".into()];

    let mut s = storage();
    s.add_entry("magnet:d", "Torrent D");
    s.mark_watched("magnet:d", "a.mkv");
    s.mark_downloaded("magnet:d", "a.mkv");
    s.mark_downloaded("magnet:d", "b.mkv");

    press(&mut app, KeyCode::Char('x'));
    assert!(app.browser.confirm_delete);
    press(&mut app, KeyCode::Right);
    assert!(app.browser.confirm_delete_yes);
    let act = press(&mut app, KeyCode::Enter);
    let (url, names) = match act {
        Some(Action::DeleteFiles { url, names }) => (url, names),
        other => panic!("expected a deletion, got {other:?}"),
    };
    assert_eq!(url, "magnet:d");
    assert_eq!(names, vec!["a.mkv".to_string(), "b.mkv".to_string()]);
    // Both removals succeed.
    app.finish_delete(&mut s, &url, &names, &vec![true, true]);

    assert!(!app.browser.confirm_delete);
    assert!(app.status_message.contains("Deleted"));
    assert_eq!(app.status_message, "Deleted 2 file(s)");
    assert!(app.browser.watched_files.is_empty());
    assert!(app.browser.downloaded_files.is_empty());

    let entry = s.history().into_iter().find(|e| e.url == "magnet:d").unwrap();
    assert!(!entry.watched);
    assert!(entry.watched_files.is_empty());
    assert!(!entry.downloaded);
    assert!(entry.downloaded_files.is_empty());
}

#[test]
fn expanding_again_keeps_one_path_per_folder() {
    let mut app = mock_app();
    browse(&mut app, vec![file(0, "dir/sub/a.mkv", 1), file(1, "dir/b.mkv", 2)], vec![false; 2]);
    app.browser.selected_file = 0;
    for _ in 0..3 {
        press(&mut app, KeyCode::Enter);
    }
    assert_eq!(app.browser.expanded_paths, vec!["dir/".to_string()]);
    app.browser.selected_file = 1;
    press(&mut app, KeyCode::Enter);
    press(&mut app, KeyCode::Enter);
    press(&mut app, KeyCode::Enter);
    assert_eq!(app.browser.expanded_paths, vec!["dir/".to_string(), "dir/sub/".to_string()]);
}
