//! Key presses, the actions that handlers ask for, and the small state
//! changes that several handlers share.
use crate::state::{AppState, BrowserState};
use crate::model::{InputState, Screen};
use crate::text::{chars_of, push_str_chars, str_len, string_from_chars, to_owned_string};
use vstd::prelude::*;

verus! {

/// The key of a key press.
#[derive(Debug, Clone, Copy, PartialEq, Eq, Structural)]
pub enum KeyCode {
    Char(char),
    Enter,
    Esc,
    Backspace,
    Left,
    Right,
    Up,
    Down,
    Tab,
    /// Any other key.
    Other,
}

/// A key press: the key and whether Control was held.
#[derive(Debug, Clone, Copy, PartialEq, Eq, Structural)]
pub struct KeyPress {
    pub code: KeyCode,
    pub ctrl: bool,
}

/// Work that a handler asks the caller to do outside of the state.
#[derive(Debug)]
pub enum Action {
    /// Fetch the metadata of the torrent at `url`.
    Preview { url: String },
    /// Download one file of the torrent for streaming and play it.
    Watch { url: String, file_index: usize, file_name: String },
    /// Download the given files of the torrent into `output_dir`.
    DownloadBatch { url: String, indices: Vec<usize>, label: String, output_dir: Vec<u8> },
    /// Run a search query.
    Search { query: String, page: u32 },
    /// Stop the media player.
    KillPlayer,
    /// Remove the history entry at `index`, then report through
    /// `AppState::after_history_removal`.
    RemoveHistoryEntry { index: usize },
    /// Give the history entry at `index` a custom name; on failure report
    /// through `AppState::set_error` with the prefix `Failed to rename: `.
    RenameHistoryEntry { index: usize, name: String },
    /// Write the configuration to disk.
    SaveConfig,
    /// Write the search configuration to disk.
    SaveSearchConfig,
    /// Delete these downloaded files, then report through
    /// `AppState::finish_delete`.
    DeleteFiles { url: String, names: Vec<String> },
    /// Start the media player on `url`.
    Play { url: String, title: String },
}

pub open spec fn is_char(key: KeyPress, c: char) -> bool {
    key.code == KeyCode::Char(c)
}

/// The state with a new status text and otherwise unchanged.
pub open spec fn status_set(o: AppState, n: AppState, msg: Seq<char>) -> bool {
    &&& n.status_message@ == msg
    &&& n == AppState { status_message: n.status_message, ..o }
}

/// The state with an error queued and otherwise unchanged.
pub open spec fn error_set(o: AppState, n: AppState, msg: Seq<char>) -> bool {
    &&& n.error_message matches Some(m) && m@ == msg
    &&& n == AppState { error_message: n.error_message, ..o }
}

pub fn clear_string(s: &mut String)
    ensures
        final(s)@.len() == 0,
{
    *s = String::new();
}

pub fn set_status(app: &mut AppState, msg: &str)
    ensures
        status_set(*old(app), *final(app), msg@),
{
    app.status_message = to_owned_string(msg);
}

/// Concatenates two strings.
pub fn cat(a: &str, b: &str) -> (r: String)
    ensures
        r@ == a@ + b@,
{
    crate::text::concat2(a, b)
}

/// Concatenates three strings.
pub fn cat3(a: &str, b: &str, c: &str) -> (r: String)
    ensures
        r@ == a@ + b@ + c@,
{
    let mut v = chars_of(a);
    push_str_chars(&mut v, b);
    push_str_chars(&mut v, c);
    string_from_chars(&v)
}

// ── Leaving and entering screens ─────────────────────────────────────

/// Going back from the browser to the welcome screen: the browsed torrent
/// is forgotten and the status line cleared.
pub open spec fn left_browser(o: AppState, n: AppState) -> bool {
    &&& n.browser.files@.len() == 0
    &&& n.browser.selected_files@.len() == 0
    &&& n.browser.display_entries@.len() == 0
    &&& n.browser.expanded_paths@.len() == 0
    &&& n.status_message@.len() == 0
    &&& n == AppState {
        screen: Screen::Welcome,
        browser: BrowserState {
            files: n.browser.files,
            selected_files: n.browser.selected_files,
            display_entries: n.browser.display_entries,
            expanded_paths: n.browser.expanded_paths,
            selected_file: 0,
            ..o.browser
        },
        torrent_id: None,
        pending_url: None,
        status_message: n.status_message,
        ..o
    }
}

pub fn leave_browser(app: &mut AppState)
    ensures
        left_browser(*old(app), *final(app)),
{
    app.screen = Screen::Welcome;
    app.browser.files.clear();
    app.browser.selected_files.clear();
    app.browser.display_entries.clear();
    app.browser.expanded_paths.clear();
    app.browser.selected_file = 0;
    app.torrent_id = None;
    app.pending_url = None;
    clear_string(&mut app.status_message);
}

/// Starting to add a torrent: the input screen with an empty field, the
/// previous torrent forgotten.
pub open spec fn went_to_input(o: AppState, n: AppState) -> bool {
    &&& n.input.value@.len() == 0
    &&& n.input.cursor == 0
    &&& n.browser.files@.len() == 0
    &&& n.browser.selected_files@.len() == 0
    &&& n.browser.display_entries@.len() == 0
    &&& n.browser.expanded_paths@.len() == 0
    &&& n.status_message@ == "Enter a magnet link or torrent URL"@
    &&& n == AppState {
        screen: Screen::Input,
        input: n.input,
        browser: BrowserState {
            files: n.browser.files,
            selected_files: n.browser.selected_files,
            display_entries: n.browser.display_entries,
            expanded_paths: n.browser.expanded_paths,
            ..o.browser
        },
        torrent_id: None,
        pending_url: None,
        status_message: n.status_message,
        ..o
    }
}

pub fn go_to_input(app: &mut AppState)
    ensures
        went_to_input(*old(app), *final(app)),
{
    app.screen = Screen::Input;
    app.input = InputState::default();
    app.browser.files.clear();
    app.browser.selected_files.clear();
    app.browser.display_entries.clear();
    app.browser.expanded_paths.clear();
    app.torrent_id = None;
    app.pending_url = None;
    app.status_message = to_owned_string("Enter a magnet link or torrent URL");
}

/// Opening the history list, unfiltered, on its first row.
pub open spec fn went_to_history(o: AppState, n: AppState) -> bool {
    &&& n.search_query@.len() == 0
    &&& n.status_message@ == "History — Enter: re-add, r: rename, d: delete"@
    &&& n == AppState {
        screen: Screen::History,
        history: crate::state::HistoryState { selected: 0, ..o.history },
        is_searching: false,
        search_query: n.search_query,
        status_message: n.status_message,
        ..o
    }
}

pub fn go_to_history(app: &mut AppState)
    ensures
        went_to_history(*old(app), *final(app)),
{
    app.screen = Screen::History;
    app.history.selected = 0;
    app.is_searching = false;
    clear_string(&mut app.search_query);
    app.status_message = to_owned_string("History — Enter: re-add, r: rename, d: delete");
}

/// Starts fetching the metadata of `url`: the loading screen, busy.
pub open spec fn started_preview(o: AppState, n: AppState, act: Option<Action>, url: Seq<char>) -> bool {
    &&& act matches Some(Action::Preview { url: u }) && u@ == url
    &&& n.status_message@ == "Fetching metadata..."@
    &&& n == AppState {
        screen: Screen::Loading,
        status_message: n.status_message,
        task_busy: true,
        ..o
    }
}

pub fn start_preview(app: &mut AppState, url: String) -> (act: Option<Action>)
    ensures
        started_preview(*old(app), *final(app), act, url@),
{
    app.screen = Screen::Loading;
    app.status_message = to_owned_string("Fetching metadata...");
    app.task_busy = true;
    Some(Action::Preview { url })
}

/// Text that a text field still accepts another character onto, in bytes.
pub open spec fn shorter_than(s: Seq<char>, n: usize) -> bool {
    str_len(s) < n
}

} // verus!
