use twatch::config::{join_path, BaseDirs, Config, FieldMap, SearchConfig};
use twatch::handlers::common::{Action, KeyCode, KeyPress};
use twatch::handlers::handle_key;
use twatch::handlers::search::{current_page_results, RESULTS_PER_PAGE};
use twatch::layout::{centered_rect, Rect};
use twatch::model::{
    DisplayEntry, HistoryEntry, InputState, MenuEntry, Screen, TorrentFile, TorrentId, TorrentInfo,
};
use twatch::tree::rebuild_level;
use twatch::panels;
use twatch::search::{
    search_response, urlencoding, FieldValue, SearchBody, SearchError, SearchItem, SearchResult,
    SearchServiceImpl,
};
use twatch::state::AppState;
use twatch::storage::StorageState;
use twatch::stream::{
    chunk_header, last_chunk, parse_stream_request, rejection, stream_head, stream_request,
    stream_url, torrent_info, MetaFile, StreamRequest,
};
use twatch::theme::{color_footer, format_size, format_speed, Theme};
use twatch::view::{
    can_truncate, format_seeders, sanitize, truncate, visible_filtered_count, SearchBody as Body,
};

fn app() -> AppState {
    AppState::new(Config::default(), SearchConfig::default())
}

fn key(code: KeyCode) -> KeyPress {
    KeyPress { code, ctrl: false }
}

fn ctrl(c: char) -> KeyPress {
    KeyPress { code: KeyCode::Char(c), ctrl: true }
}

fn hit(app: &mut AppState, k: KeyPress) -> Option<Action> {
    assert!(!twatch::handlers::key_would_panic(app, k));
    handle_key(app, k, &Vec::new())
}

fn result(name: &str, hash: &str, seeders: u64) -> SearchResult {
    SearchResult {
        name: name.to_string(),
        info_hash: hash.to_string(),
        seeders,
        leechers: 3,
        size: 2048,
        username: String::new(),
    }
}

// ── Sizes, speeds and seeder counts match what `{:.1}` prints ──────────

fn float_size(bytes: u64) -> String {
    let units = ["B", "KB", "MB", "GB", "TB"];
    let mut size = bytes as f64;
    let mut unit_idx = 0;
    while size >= 1024.0 && unit_idx < units.len() - 1 {
        size /= 1024.0;
        unit_idx += 1;
    }
    if unit_idx == 0 { format!("{bytes} B") } else { format!("{size:.1} {}", units[unit_idx]) }
}

fn float_seeders(n: u64) -> String {
    if n >= 1000 { format!("{:.1}k", n as f64 / 1000.0) } else { format!("{n}") }
}

#[test]
fn format_size_matches_float_formatting() {
    let samples = [
        0u64, 1, 512, 1023, 1024, 1536, 1_048_575, 1_048_576, 1_572_864, 5_000_000_000,
        1_099_511_627_776, 1_125_899_906_842_624, u64::MAX, u64::MAX - 1, 9_007_199_254_740_993,
        1126, 1177, 2_621_440, 10_737_418_240,
    ];
    for b in samples {
        assert_eq!(format_size(b), float_size(b), "bytes = {b}");
    }
    assert_eq!(format_size(512), "512 B");
    assert_eq!(format_size(1536), "1.5 KB");
    assert_eq!(format_speed(1536), "1.5 KB/s");
}

#[test]
fn format_seeders_matches_float_formatting() {
    let samples = [
        0u64, 7, 999, 1000, 1049, 1050, 1250, 1350, 12_345, 999_949, 999_950, 1_000_000,
        9_007_199_254_740_993, 18_014_398_509_481_985, u64::MAX, u64::MAX - 2000,
        9_999_999_999_999_999_999,
    ];
    for n in samples {
        assert_eq!(format_seeders(n), float_seeders(n), "n = {n}");
    }
    assert_eq!(format_seeders(999), "999");
    assert_eq!(format_seeders(1050), float_seeders(1050));
    assert_eq!(format_seeders(1500), "1.5k");
}

// ── Shortening and sanitising ────────────────────────────────────────

#[test]
fn truncate_cuts_long_text() {
    assert_eq!(truncate("short", 10), "short");
    assert_eq!(truncate("abcdefghijkl", 10), "abcdefg...");
    assert!(can_truncate("abcdefghijkl", 10));
    assert!(!can_truncate("abcdefghijkl", 2));
    // A two-byte character straddling the cut cannot be sliced.
    assert!(can_truncate("abcdeféghijkl", 9));
    assert!(!can_truncate("abcdeféghijkl", 10));
    assert!(can_truncate("abcdeféghijkl", 11));
    assert_eq!(truncate("abcdeféghijkl", 11), "abcdefé...");
}

#[test]
fn sanitize_strips_control_characters() {
    assert_eq!(sanitize("Big\u{1b}[31mBuck\n\tBunny\u{7f}"), "Big[31mBuckBunny");
    assert_eq!(sanitize("plain"), "plain");
}

// ── The stream server's protocol ─────────────────────────────────────

#[test]
fn stream_requests_are_parsed() {
    assert_eq!(
        parse_stream_request("GET /stream/3/7 HTTP/1.1\r\nHost: x\r\n\r\n"),
        StreamRequest::File { torrent_id: 3, file_index: 7 }
    );
    assert_eq!(
        parse_stream_request("GET //stream//12/+4/extra HTTP/1.1"),
        StreamRequest::File { torrent_id: 12, file_index: 4 }
    );
    assert_eq!(parse_stream_request("GET /other/1/2 HTTP/1.1"), StreamRequest::BadRequest);
    assert_eq!(parse_stream_request("GET /stream/1 HTTP/1.1"), StreamRequest::BadRequest);
    assert_eq!(parse_stream_request(""), StreamRequest::BadRequest);
    assert_eq!(parse_stream_request("GET"), StreamRequest::BadRequest);
    assert_eq!(parse_stream_request("GET /stream/x/2 HTTP/1.1"), StreamRequest::InvalidTorrentId);
    assert_eq!(parse_stream_request("GET /stream/1/-2 HTTP/1.1"), StreamRequest::InvalidFileIndex);
    let long = format!("GET /stream/1/{} HTTP/1.1", "9".repeat(260));
    assert_eq!(parse_stream_request(&long), StreamRequest::TooLong);
    assert_eq!(stream_request(b"GET /stream/5/0 HTTP/1.1\r\n"), StreamRequest::File {
        torrent_id: 5,
        file_index: 0
    });
}

#[test]
fn stream_replies_and_chunks() {
    assert_eq!(
        rejection(StreamRequest::TooLong),
        Some("HTTP/1.1 414 URI Too Long\r\nContent-Length: 0\r\n\r\n")
    );
    assert_eq!(
        rejection(StreamRequest::BadRequest),
        Some("HTTP/1.1 400 Bad Request\r\nContent-Length: 0\r\n\r\n")
    );
    assert_eq!(rejection(StreamRequest::InvalidTorrentId), None);
    assert_eq!(rejection(StreamRequest::File { torrent_id: 1, file_index: 1 }), None);
    assert!(stream_head().starts_with("HTTP/1.1 200 OK\r\n"));
    assert_eq!(last_chunk(), "0\r\n\r\n");
    assert_eq!(chunk_header(65536), "10000\r\n");
    assert_eq!(chunk_header(255), "FF\r\n");
    assert_eq!(chunk_header(0), "0\r\n");
    assert_eq!(chunk_header(4096 + 10), format!("{:X}\r\n", 4096 + 10));
}

#[test]
fn stream_urls_point_at_the_served_path() {
    let url = stream_url(8080, 2, 5);
    assert_eq!(url, "http://127.0.0.1:8080/stream/2/5");
    let path = url.trim_start_matches("http://127.0.0.1:8080");
    let request = format!("GET {path} HTTP/1.1\r\nHost: localhost\r\n\r\n");
    assert_eq!(parse_stream_request(&request), StreamRequest::File { torrent_id: 2, file_index: 5 });
}

#[test]
fn torrent_file_lists_join_paths() {
    let files = vec![
        MetaFile { path: vec!["Season 1".to_string(), "ep1.mkv".to_string()], length: 10 },
        MetaFile { path: vec!["notes.txt".to_string()], length: 2 },
    ];
    let info: TorrentInfo = torrent_info(None, &files);
    assert_eq!(info.name, "Unknown");
    assert_eq!(info.files.len(), 2);
    assert_eq!(info.files[0].name, "Season 1/ep1.mkv");
    assert_eq!(info.files[0].index, 0);
    assert_eq!(info.files[1].name, "notes.txt");
    assert_eq!(info.files[1].size, 2);
    assert_eq!(torrent_info(Some("T".to_string()), &Vec::new()).name, "T");
}

// ── The search API ───────────────────────────────────────────────────

#[test]
fn search_requests_are_encoded() {
    assert_eq!(urlencoding("big buck/bunny~é"), "big+buck%2Fbunny~%C3%A9");
    let mut config = SearchConfig::default();
    assert_eq!(SearchServiceImpl::request_url(&config, "x"), None);
    config.url = "https://api.example/s?q={query}&p={page}&again={query}".to_string();
    config.page = 3;
    assert_eq!(
        SearchServiceImpl::request_url(&config, "a b").as_deref(),
        Some("https://api.example/s?q=a+b&p=3&again=a+b")
    );
}

#[test]
fn search_results_follow_the_field_map() {
    let fm = FieldMap::default();
    let item = |fields: Vec<(&str, FieldValue)>| SearchItem {
        fields: Some(fields.into_iter().map(|(k, v)| (k.to_string(), v)).collect()),
    };
    let body = SearchBody::Array(vec![
        item(vec![
            ("name", FieldValue::Str("Big Buck Bunny".into())),
            ("info_hash", FieldValue::Str("abc".into())),
            ("seeders", FieldValue::Str("+12".into())),
            ("leechers", FieldValue::UInt(4)),
            ("size", FieldValue::Other),
        ]),
        item(vec![("name", FieldValue::Str("no hash".into()))]),
        SearchItem { fields: None },
    ]);
    let results = SearchServiceImpl::results(&body, &fm).unwrap();
    assert_eq!(results.len(), 1);
    assert_eq!(results[0].name, "Big Buck Bunny");
    assert_eq!(results[0].seeders, 12);
    assert_eq!(results[0].leechers, 4);
    assert_eq!(results[0].size, 0);
    assert_eq!(results[0].username, "");
    assert_eq!(
        SearchServiceImpl::results(&SearchBody::NotArray, &fm).err(),
        Some(SearchError::NotAnArray)
    );
}

#[test]
fn search_response_reads_the_json_text() {
    let fm = FieldMap::default();
    let text = r#"[
        {"name": "Big Buck Bunny", "info_hash": "abc", "seeders": "+12", "leechers": 4,
         "size": 1.5, "username": "bob"},
        {"name": "no hash"},
        7,
        {"name": "Sintel", "info_hash": "def", "seeders": -3, "size": 18446744073709551615}
    ]"#;
    let results = search_response(text, &fm).unwrap();
    assert_eq!(results.len(), 2);
    assert_eq!(results[0].name, "Big Buck Bunny");
    assert_eq!(results[0].info_hash, "abc");
    assert_eq!(results[0].seeders, 12);
    assert_eq!(results[0].leechers, 4);
    assert_eq!(results[0].size, 0);
    assert_eq!(results[0].username, "bob");
    assert_eq!(results[1].name, "Sintel");
    assert_eq!(results[1].seeders, 0);
    assert_eq!(results[1].size, u64::MAX);
    assert_eq!(search_response("[]", &fm).unwrap().len(), 0);
    assert_eq!(search_response("not json", &fm).err(), Some(SearchError::NotJson));
    assert_eq!(search_response("", &fm).err(), Some(SearchError::NotJson));
    assert_eq!(search_response(r#"{"name": "x"}"#, &fm).err(), Some(SearchError::NotAnArray));
    assert_eq!(search_response("3", &fm).err(), Some(SearchError::NotAnArray));
}

#[test]
fn hex_digits_go_on_past_f() {
    assert_eq!(twatch::search::hex(0), '0');
    assert_eq!(twatch::search::hex(9), '9');
    assert_eq!(twatch::search::hex(15), 'F');
    assert_eq!(twatch::search::hex(16), 'G');
    assert_eq!(twatch::search::hex(200), '\u{ff}');
}

// ── The search popup ─────────────────────────────────────────────────

#[test]
fn search_popup_fetches_then_picks_a_result() {
    let mut a = app();
    assert!(hit(&mut a, key(KeyCode::Char('s'))).is_none());
    assert!(a.search_popup.open);
    for c in "bunny".chars() {
        hit(&mut a, key(KeyCode::Char(c)));
    }
    match hit(&mut a, key(KeyCode::Enter)) {
        Some(Action::Search { query, page }) => {
            assert_eq!(query, "bunny");
            assert_eq!(page, 0);
        }
        other => panic!("expected a search, got {other:?}"),
    }
    assert!(a.search_popup.busy);
    // Enter again while busy does nothing.
    assert!(hit(&mut a, key(KeyCode::Enter)).is_none());
    a.apply_search_results(vec![result("Big Buck Bunny", "abc", 5), result("Bunny 2", "def", 1)]);
    assert_eq!(a.status_message, "2 result(s) found");
    assert!(!a.search_popup.busy);
    hit(&mut a, key(KeyCode::Down));
    assert_eq!(a.search_popup.selected, 1);
    hit(&mut a, key(KeyCode::Down));
    assert_eq!(a.search_popup.selected, 0, "down wraps to the first row");
    hit(&mut a, key(KeyCode::Up));
    assert_eq!(a.search_popup.selected, 1, "up wraps to the last row");
    hit(&mut a, ctrl('k'));
    assert_eq!(a.search_popup.selected, 0);
    hit(&mut a, key(KeyCode::Enter));
    assert!(!a.search_popup.open);
    assert_eq!(a.screen, Screen::Input);
    assert_eq!(a.input.value, "magnet:?xt=urn:btih:abc&dn=Big Buck Bunny");
    assert_eq!(a.input.cursor, a.input.value.len());
    assert_eq!(a.status_message, "Ready: Big Buck Bunny");
}

#[test]
fn search_popup_pages_and_clears() {
    let mut a = app();
    hit(&mut a, key(KeyCode::Char('s')));
    a.search_popup.query = "x".to_string();
    a.search_popup.fetched_query = "x".to_string();
    let many: Vec<SearchResult> = (0..50).map(|i| result(&format!("r{i}"), "h", i)).collect();
    a.search_popup.all_results = many;
    assert_eq!(current_page_results(&a).len(), RESULTS_PER_PAGE);
    hit(&mut a, key(KeyCode::Right));
    assert_eq!(a.search_popup.page, 1);
    hit(&mut a, key(KeyCode::Right));
    assert_eq!(a.search_popup.page, 2);
    assert_eq!(current_page_results(&a).len(), 50 - 42);
    assert_eq!(current_page_results(&a)[0].name, "r42");
    hit(&mut a, key(KeyCode::Right));
    assert_eq!(a.search_popup.page, 2, "no page after the last");
    hit(&mut a, key(KeyCode::Left));
    assert_eq!(a.search_popup.page, 1);
    // The table pages by twenty.
    assert_eq!(twatch::view::current_page(&a)[0].name, "r20");
    hit(&mut a, ctrl('u'));
    assert!(a.search_popup.query.is_empty());
    assert!(a.search_popup.all_results.is_empty());
    assert_eq!(a.search_popup.page, 0);
}

#[test]
fn search_config_is_edited_and_saved() {
    let mut a = app();
    hit(&mut a, key(KeyCode::Char('s')));
    hit(&mut a, ctrl('e'));
    assert!(a.search_popup.config_open);
    for c in "  https://x/{query}  ".chars() {
        hit(&mut a, key(KeyCode::Char(c)));
    }
    let act = hit(&mut a, key(KeyCode::Enter));
    assert!(matches!(act, Some(Action::SaveSearchConfig)));
    assert_eq!(a.search_popup.config.url, "https://x/{query}");
    assert!(!a.search_popup.config_open);
    assert_eq!(a.status_message, "Search API configured");
}

#[test]
fn search_popup_view_texts() {
    let mut a = app();
    let shown: Vec<SearchResult> = Vec::new();
    assert_eq!(twatch::view::search_title(&a, &shown), "Query: ");
    assert_eq!(twatch::view::search_body(&a, &shown), Body::NoApi);
    a.search_popup.config.url = "https://x".into();
    assert_eq!(twatch::view::search_body(&a, &shown), Body::Prompt);
    assert_eq!(twatch::view::search_footer(&a, &shown), "[Enter] fetch  [c] config  [Esc] close");
    a.search_popup.query = "bun".into();
    a.search_popup.fetched_query = "bunny".into();
    let shown = vec![result("Big Buck Bunny", "a", 1500), result("Other", "b", 2)];
    assert_eq!(twatch::view::search_title(&a, &shown), "Filter: bun  (1/2)");
    assert_eq!(visible_filtered_count(&shown, "bun", "bunny"), 1);
    assert_eq!(twatch::view::search_body(&a, &shown), Body::Results);
    let rows = twatch::view::result_rows(&a, &shown, 10);
    assert_eq!(rows.len(), 1);
    assert_eq!(rows[0].number, " 1");
    assert_eq!(rows[0].name, "▶ Big Buck Bunny");
    assert_eq!(rows[0].seeders, "1.5k");
    assert_eq!(rows[0].size, "2.0 KB");
    a.search_popup.query = "bunny".into();
    a.search_popup.page = 2;
    assert_eq!(twatch::view::search_title(&a, &shown), "Query: bunny  (Page 3)");
    assert_eq!(twatch::view::result_rows(&a, &shown, 3).len(), 1);
}

// ── Events from background work ──────────────────────────────────────

#[test]
fn preview_ready_lists_the_files() {
    let mut a = app();
    a.task_busy = true;
    let info = TorrentInfo {
        name: "T".into(),
        files: vec![
            TorrentFile { index: 0, name: "d/a.mkv".into(), size: 1 },
            TorrentFile { index: 1, name: "b.mkv".into(), size: 2 },
        ],
    };
    a.apply_preview_ready("magnet:t".into(), info, vec!["b.mkv".into()], Vec::new());
    assert_eq!(a.screen, Screen::Browser);
    assert!(!a.task_busy);
    assert_eq!(a.pending_url(), Some("magnet:t"));
    assert_eq!(a.browser.torrent_name.as_deref(), Some("T"));
    assert_eq!(a.browser.selected_files, vec![false, false]);
    assert_eq!(a.browser.display_entries.len(), 2);
    assert_eq!(a.status_message, "2 file(s) found — w: watch, d: download");
    assert_eq!(a.browser.watched_files, vec!["b.mkv".to_string()]);
}

#[test]
fn recorded_files_come_from_the_history() {
    let mut s = StorageState::with_history("h".into(), Vec::new());
    s.add_entry("magnet:a", "A");
    s.mark_watched("magnet:a", "x.mkv");
    s.mark_downloaded("magnet:a", "y.mkv");
    let (w, d) = twatch::events::recorded_files(&s.history(), "magnet:a");
    assert_eq!(w, vec!["x.mkv".to_string()]);
    assert_eq!(d, vec!["y.mkv".to_string()]);
    let (w, d) = twatch::events::recorded_files(&s.history(), "magnet:none");
    assert!(w.is_empty() && d.is_empty());
}

#[test]
fn download_ready_watches_or_downloads() {
    let mut a = app();
    let mut s = StorageState::with_history("h".into(), Vec::new());
    s.add_entry("magnet:w", "W");
    a.set_pending_url("magnet:w".into());
    let act = a.apply_download_ready(&mut s, TorrentId(4), "http://s".into(), "f.mkv".into(), true);
    match act {
        Some(Action::Play { url, title }) => {
            assert_eq!(url, "http://s");
            assert_eq!(title, "f.mkv");
        }
        other => panic!("expected play, got {other:?}"),
    }
    assert_eq!(a.screen, Screen::Player);
    assert_eq!(a.status_message, "Watching: f.mkv");
    assert_eq!(a.torrent_id, Some(TorrentId(4)));
    assert!(s.history()[0].watched);
    assert_eq!(a.browser.watched_files, vec!["f.mkv".to_string()]);

    a.config.download_dir = "/dl".into();
    let act = a.apply_download_ready(&mut s, TorrentId(5), String::new(), "g.mkv".into(), false);
    assert!(act.is_none());
    assert_eq!(a.screen, Screen::Browser);
    assert_eq!(a.status_message, "Downloading to: /dl");
    assert_eq!(a.browser.downloading_files, vec!["g.mkv".to_string()]);
    a.apply_download_complete("g.mkv");
    assert!(a.browser.downloading_files.is_empty());
    assert_eq!(a.browser.downloaded_files, vec!["g.mkv".to_string()]);
    assert_eq!(a.status_message, "Download complete: g.mkv");
}

#[test]
fn failures_are_shown_at_the_end_of_the_turn() {
    let mut a = app();
    a.task_busy = true;
    a.apply_preview_failed("Failed: no peers");
    assert_eq!(a.screen, Screen::Input);
    assert!(!a.task_busy);
    a.torrent_id = Some(TorrentId(1));
    a.finish_turn(0);
    assert_eq!(a.status_message, "Failed: no peers");
    assert!(a.error_message.is_none());
    assert!(a.torrent_id.is_none());
    a.apply_download_failed("Failed: disk");
    assert_eq!(a.screen, Screen::Browser);
    a.finish_turn(1);
    assert_eq!(a.status_message, "Failed: disk");
}

#[test]
fn partial_deletion_reports_failures() {
    let mut a = app();
    let mut s = StorageState::with_history("h".into(), Vec::new());
    a.browser.confirm_delete = true;
    a.browser.downloaded_files = vec!["a".into(), "b".into(), "c".into()];
    let names = vec!["a".to_string(), "b".to_string(), "c".to_string()];
    a.finish_delete(&mut s, "magnet:z", &names, &vec![true, false, false]);
    assert_eq!(a.status_message, "Deleted 1 file(s), 2 failed: b, c");
    assert_eq!(a.browser.downloaded_files, vec!["b".to_string(), "c".to_string()]);
    assert!(!a.browser.confirm_delete);
}

// ── History keys ─────────────────────────────────────────────────────

#[test]
fn history_keys_rename_remove_and_filter() {
    let mut a = app();
    let mut s = StorageState::with_history("h".into(), Vec::new());
    s.add_entry("magnet:a", "Alpha");
    s.add_entry("magnet:b", "Beta");
    let h = s.history();
    assert!(handle_key(&mut a, key(KeyCode::Char('h')), &h).is_none());
    assert_eq!(a.screen, Screen::History);
    handle_key(&mut a, key(KeyCode::Down), &h);
    match handle_key(&mut a, key(KeyCode::Char('d')), &h) {
        Some(Action::RemoveHistoryEntry { index }) => assert_eq!(index, 1),
        other => panic!("expected removal, got {other:?}"),
    }
    s.remove_entry(1).unwrap();
    a.after_history_removal(None, s.history().len());
    assert_eq!(a.history.selected, 0);
    let h = s.history();
    handle_key(&mut a, key(KeyCode::Char('r')), &h);
    assert!(a.renaming);
    assert_eq!(a.rename_input.value, "Alpha");
    assert_eq!(a.status_message, "Renaming: Alpha (Enter to confirm, Esc to cancel)");
    for _ in 0..5 {
        handle_key(&mut a, key(KeyCode::Backspace), &h);
    }
    for c in "Mine".chars() {
        handle_key(&mut a, key(KeyCode::Char(c)), &h);
    }
    match handle_key(&mut a, key(KeyCode::Enter), &h) {
        Some(Action::RenameHistoryEntry { index, name }) => {
            assert_eq!(index, 0);
            assert_eq!(name, "Mine");
        }
        other => panic!("expected rename, got {other:?}"),
    }
    assert!(!a.renaming);
    assert_eq!(a.status_message, "Renamed to: Mine");
    // Filtering by typing after '/'.
    handle_key(&mut a, key(KeyCode::Char('/')), &h);
    assert!(a.is_searching);
    handle_key(&mut a, key(KeyCode::Char('z')), &h);
    assert_eq!(a.search_query, "z");
    handle_key(&mut a, key(KeyCode::Enter), &h);
    assert!(!a.is_searching);
    assert!(handle_key(&mut a, key(KeyCode::Enter), &h).is_none(), "nothing matches z");
}

#[test]
fn busy_state_ignores_other_keys() {
    let mut a = app();
    a.screen = Screen::Loading;
    a.task_busy = true;
    assert!(hit(&mut a, key(KeyCode::Char('t'))).is_none());
    assert!(!a.theme_state.picker);
    hit(&mut a, key(KeyCode::Esc));
    assert_eq!(a.screen, Screen::Welcome);
}

#[test]
fn typing_then_backspace_restores_the_field() {
    let mut a = app();
    a.screen = Screen::Input;
    for c in "héllo".chars() {
        hit(&mut a, key(KeyCode::Char(c)));
    }
    // The cursor counts characters typed, not bytes.
    assert_eq!(a.input.cursor, 5);
    a.input = InputState { value: "abc".into(), cursor: 3 };
    hit(&mut a, key(KeyCode::Char('é')));
    assert_eq!(a.input.value, "abcé");
    hit(&mut a, key(KeyCode::Backspace));
    assert_eq!(a.input.value, "abc");
    assert_eq!(a.input.cursor, 3);
    // A backspace inside a character would panic in std: it is refused.
    a.input = InputState { value: "é".into(), cursor: 2 };
    assert!(twatch::handlers::key_would_panic(&a, key(KeyCode::Backspace)));
}

// ── Panels ───────────────────────────────────────────────────────────

#[test]
fn panels_texts() {
    let mut a = app();
    assert_eq!(panels::search_bar("", 3, 40), "Search: ");
    let bar = panels::search_bar("ab", 3, 20);
    assert_eq!(bar, format!("Search: ab{}| 3", " ".repeat(18 - 10 - 3)));
    assert_eq!(panels::search_bar("abcdefghijklmnop", 3, 10), "Search: abcdefghijklmnop| 3");
    assert_eq!(panels::history_header(2), " 2 entries in history");
    assert_eq!(panels::browser_title(&a), " Torrent");
    a.browser.torrent_name = Some("Movie".into());
    a.browser.selected_files = vec![true, false, true];
    assert_eq!(panels::browser_title(&a), " Movie — 2 selected for download");
    assert_eq!(panels::downloads_title(3), " Downloads (3) ");
    assert_eq!(panels::downloads_capacity(12), 2);
    assert_eq!(panels::downloads_capacity(1), 0);
    assert_eq!(panels::cursor_hint(&a), None);
    a.input = InputState { value: "x".into(), cursor: 1 };
    assert_eq!(panels::cursor_hint(&a).as_deref(), Some("cursor at position 1"));
    let menu = panels::menu_lines(&a);
    assert_eq!(menu.len(), MenuEntry::COUNT);
    assert_eq!(menu[0].text, "  > [a] Add a torrent");
    assert_eq!(menu[2].text, "    [q] Quit");
    assert_eq!(panels::picker_filter_text(&a), "Filter: ");
}

#[test]
fn delete_dialog_lists_at_most_eight_names() {
    let mut a = app();
    let files: Vec<TorrentFile> = (0..10)
        .map(|i| TorrentFile { index: i, name: format!("{}{i}.mkv", "n".repeat(if i == 0 { 60 } else { 1 })), size: 1 })
        .collect();
    a.browser.files = files;
    a.browser.selected_files = vec![true; 10];
    let d = panels::delete_dialog(&a);
    assert_eq!(d.height, 16);
    assert_eq!(d.header, " You are deleting 10 file(s):");
    assert_eq!(d.names.len(), 8);
    assert_eq!(d.names[0], format!("   {}...", "n".repeat(47)));
    assert_eq!(d.names[1], "   n1.mkv");
    assert_eq!(d.more.as_deref(), Some("   ... and 2 more"));
    assert_eq!(d.no_style, a.theme_state.theme.accent_style());
}

#[test]
fn history_lines_show_names_and_short_urls() {
    let a = app();
    let mut s = StorageState::with_history("h".into(), Vec::new());
    s.add_entry(&format!("magnet:{}", "x".repeat(70)), "Long");
    s.add_entry("magnet:b", "B");
    s.rename_entry(1, "Bee").unwrap();
    let lines = panels::history_lines(&a, &s.history());
    assert_eq!(lines.len(), 2);
    assert_eq!(lines[0].marker.text, "▶ ");
    assert_eq!(lines[0].name.text, "Long");
    assert_eq!(lines[0].url.text, format!("    magnet:{}...", "x".repeat(50)));
    assert_eq!(lines[1].name.text, "Bee");
    assert_eq!(lines[1].url.text, "    magnet:b");
}

#[test]
fn footers_mark_keys() {
    let t = Theme::default();
    let spans = color_footer("[q] quit  [Esc] back", &t);
    let texts: Vec<&str> = spans.iter().map(|s| s.text.as_str()).collect();
    assert_eq!(texts, vec!["[q]", " quit  ", "[Esc]", " back"]);
    assert_eq!(spans[0].style, t.accent_style());
    assert_eq!(spans[1].style, t.dimmed_style());
    let broken: Vec<String> = color_footer("a [b", &t).into_iter().map(|s| s.text).collect();
    assert_eq!(broken, vec!["a ".to_string(), "[b".to_string()]);
    let lone: Vec<String> = color_footer("[", &t).into_iter().map(|s| s.text).collect();
    assert_eq!(lone, vec!["[".to_string()]);
    assert_eq!(color_footer("a [b", &t)[1].style, t.dimmed_style());
}

#[test]
fn centered_rect_is_inside_the_area() {
    let area = Rect { x: 0, y: 0, width: 100, height: 50 };
    let r = centered_rect(60, 20, area);
    assert_eq!(r, Rect { x: 20, y: 20, width: 60, height: 10 });
}

// ── Configuration ────────────────────────────────────────────────────

#[test]
fn config_paths_follow_the_base_dirs() {
    let dirs = BaseDirs {
        config: Some("/home/u/.config".into()),
        download: Some("/home/u/Downloads/".into()),
        state: None,
        cache: Some("/c".into()),
    };
    let c = Config::from_base_dirs(&dirs);
    assert_eq!(c.config_dir, b"/home/u/.config/twatch");
    assert_eq!(c.download_dir, b"/home/u/Downloads/twatch");
    assert_eq!(c.log_path, b"twatch/twatch.log");
    assert_eq!(c.session_path, b"/c/twatch/session");
    assert_eq!(c.history_filename, "history.json");
    assert_eq!(c.log_level, "info");
    let mut user = Config::from_base_dirs(&dirs);
    user.theme = "nord-dark".into();
    user.log_level = "debug".into();
    user.config_dir = "/elsewhere".into();
    let merged = c.merged(user);
    assert_eq!(merged.theme, "nord-dark");
    assert_eq!(merged.log_level, "debug");
    assert_eq!(merged.config_dir, b"/home/u/.config/twatch");
    assert_eq!(join_path(&b"/a/".to_vec(), "b"), b"/a/b");
    assert_eq!(join_path(&Vec::new(), "b"), b"b");
    assert_eq!(join_path(&b"/a".to_vec(), "\u{e9}"), b"/a/\xc3\xa9");
}

#[test]
fn config_paths_keep_bytes_that_are_not_utf8() {
    let dirs = BaseDirs {
        config: Some(b"/home/\xff".to_vec()),
        download: Some(b"/d\xfe".to_vec()),
        state: Some(b"/s".to_vec()),
        cache: None,
    };
    let c = Config::from_base_dirs(&dirs);
    assert_eq!(c.config_dir, b"/home/\xff/twatch");
    assert_eq!(c.download_dir, b"/d\xfe/twatch");
    assert_eq!(c.log_path, b"/s/twatch/twatch.log");
    assert_eq!(c.session_path, b"twatch/session");
    let mut a = AppState::new(c, SearchConfig::default());
    let mut s = StorageState::with_history("h".into(), Vec::new());
    a.apply_download_ready(&mut s, TorrentId(1), String::new(), "g.mkv".into(), false);
    assert_eq!(a.status_message, "Downloading to: /d\u{fffd}/twatch");
}

#[test]
fn app_state_starts_from_the_configured_theme() {
    let mut c = Config::default();
    c.theme = "nord-light".into();
    let a = AppState::new(c, SearchConfig::default());
    assert_eq!(a.theme_state.theme.name, "Nord Light");
    let mut c = Config::default();
    c.theme = "nope".into();
    assert_eq!(AppState::new(c, SearchConfig::default()).theme_state.theme, Theme::default());
}

#[test]
fn history_entries_clone() {
    let e = HistoryEntry {
        url: "u".into(),
        custom_name: None,
        torrent_name: "t".into(),
        added_at: 1,
        watched: false,
        watched_files: vec!["w".into()],
        downloaded: true,
        downloaded_files: Vec::new(),
    };
    assert_eq!(twatch::model::display_name(&e.clone()), "t");
}

#[test]
fn rebuild_level_takes_any_prefix_and_depth() {
    let files = vec![
        TorrentFile { index: 0, name: "d/a.mkv".into(), size: 1 },
        TorrentFile { index: 1, name: "b.mkv".into(), size: 2 },
    ];
    let mut entries: Vec<DisplayEntry> = Vec::new();
    rebuild_level(&files, &"zzz/".chars().collect(), 7, &Vec::new(), &mut entries);
    assert!(entries.is_empty());
    rebuild_level(&files, &"d/".chars().collect(), 40, &Vec::new(), &mut entries);
    assert_eq!(entries.len(), 1);
    assert!(matches!(&entries[0], DisplayEntry::File { file, depth: 40 } if file.name == "d/a.mkv"));
    let mut top: Vec<DisplayEntry> = Vec::new();
    rebuild_level(&files, &Vec::new(), 3, &vec!["d/".to_string()], &mut top);
    assert_eq!(top.len(), 3);
    assert!(matches!(&top[0], DisplayEntry::Folder { name, depth: 3, expanded: true } if name == "d"));
    assert!(matches!(&top[1], DisplayEntry::File { depth: 4, .. }));
    assert!(matches!(&top[2], DisplayEntry::File { file, depth: 3 } if file.name == "b.mkv"));
}

#[test]
fn search_title_overflow_is_told_in_advance() {
    let mut a = app();
    a.search_popup.query = "x".into();
    a.search_popup.fetched_query = "x".into();
    a.search_popup.page = u32::MAX;
    assert!(twatch::view::search_title_would_panic(&a, 0));
    a.search_popup.fetched_query = "y".into();
    assert!(!twatch::view::search_title_would_panic(&a, 3));
    assert!(twatch::view::search_title_would_panic(&a, 0));
    a.search_popup.page = 4;
    assert!(!twatch::view::search_title_would_panic(&a, 0));
    a.search_popup.query = String::new();
    a.search_popup.page = u32::MAX;
    assert!(!twatch::view::search_title_would_panic(&a, 0));
}
