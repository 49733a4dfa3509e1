//! The application's navigation state and the queries and updates made on
//! it outside of key handling.
use crate::config::{Config, SearchConfig};
use crate::model::{
    entries_view, files_view, is_subsequence, DisplayEntry, DisplayEntryView, InputState, Screen,
    TorrentFile, TorrentId,
};
use crate::search::SearchResult;
use crate::text::{chars_equal, chars_of, lower_text, to_owned_string};
use crate::theme::Theme;
use crate::tree::{level_entries, rebuild_tree};
use vstd::prelude::*;

verus! {

/// The file browser of a previewed torrent.
#[derive(Debug)]
pub struct BrowserState {
    pub files: Vec<TorrentFile>,
    pub selected_files: Vec<bool>,
    pub selected_file: usize,
    pub torrent_name: Option<String>,
    /// Paths (`a/b/`) of the expanded folders; no key press lists one twice
    /// (see `keys_keep_paths_unique`).
    pub expanded_paths: Vec<String>,
    pub display_entries: Vec<DisplayEntry>,
    pub watched_files: Vec<String>,
    pub downloaded_files: Vec<String>,
    pub downloading_files: Vec<String>,
    pub confirm_delete: bool,
    pub confirm_delete_yes: bool,
}

impl Default for BrowserState {
    fn default() -> (r: Self)
        ensures
            r.files@.len() == 0,
            r.selected_files@.len() == 0,
            r.selected_file == 0,
            r.torrent_name is None,
            r.expanded_paths@.len() == 0,
            r.display_entries@.len() == 0,
            r.watched_files@.len() == 0,
            r.downloaded_files@.len() == 0,
            r.downloading_files@.len() == 0,
            !r.confirm_delete,
            !r.confirm_delete_yes,
    {
        BrowserState {
            files: Vec::new(),
            selected_files: Vec::new(),
            selected_file: 0,
            torrent_name: None,
            expanded_paths: Vec::new(),
            display_entries: Vec::new(),
            watched_files: Vec::new(),
            downloaded_files: Vec::new(),
            downloading_files: Vec::new(),
            confirm_delete: false,
            confirm_delete_yes: false,
        }
    }
}

/// The theme in use and the theme picker.
#[derive(Debug)]
pub struct ThemeState {
    pub theme: Theme,
    pub picker: bool,
    pub picker_filter: String,
    pub picker_selected: usize,
    pub picker_scroll: usize,
    pub picker_original: Theme,
}

impl Default for ThemeState {
    fn default() -> (r: Self)
        ensures
            r.theme@ == crate::theme::theme_table()[0],
            !r.picker,
            r.picker_filter@.len() == 0,
            r.picker_selected == 0,
            r.picker_scroll == 0,
            r.picker_original@ == crate::theme::theme_table()[0],
    {
        ThemeState {
            theme: Theme::default(),
            picker: false,
            picker_filter: String::new(),
            picker_selected: 0,
            picker_scroll: 0,
            picker_original: Theme::default(),
        }
    }
}

/// The torrent search popup.
#[derive(Debug)]
pub struct SearchPopupState {
    pub open: bool,
    pub query: String,
    pub selected: usize,
    pub busy: bool,
    pub page: u32,
    pub all_results: Vec<SearchResult>,
    pub fetched_query: String,
    pub config: SearchConfig,
    pub config_open: bool,
    pub config_input: String,
}

impl Default for SearchPopupState {
    fn default() -> (r: Self)
        ensures
            !r.open,
            r.query@.len() == 0,
            r.selected == 0,
            !r.busy,
            r.page == 0,
            r.all_results@.len() == 0,
            r.fetched_query@.len() == 0,
            r.config.url@.len() == 0,
            !r.config_open,
            r.config_input@.len() == 0,
    {
        SearchPopupState {
            open: false,
            query: String::new(),
            selected: 0,
            busy: false,
            page: 0,
            all_results: Vec::new(),
            fetched_query: String::new(),
            config: SearchConfig::default(),
            config_open: false,
            config_input: String::new(),
        }
    }
}

/// The history list: the selected row and, while renaming, the position
/// of the renamed entry in the full history.
#[derive(Debug, Clone, Copy, PartialEq, Eq, Structural)]
pub struct HistoryState {
    pub selected: usize,
    pub orig_index: usize,
}

impl Default for HistoryState {
    fn default() -> (r: Self)
        ensures
            r.selected == 0,
            r.orig_index == 0,
    {
        HistoryState { selected: 0, orig_index: 0 }
    }
}

/// The welcome menu's selected row.
#[derive(Debug, Clone, Copy, PartialEq, Eq, Structural)]
pub struct WelcomeState {
    pub menu_selected: usize,
}

impl Default for WelcomeState {
    fn default() -> (r: Self)
        ensures
            r.menu_selected == 0,
    {
        WelcomeState { menu_selected: 0 }
    }
}

/// The state that key presses and background results act on.
#[derive(Debug)]
pub struct AppState {
    pub config: Config,
    pub screen: Screen,
    pub input: InputState,
    pub browser: BrowserState,
    pub torrent_id: Option<TorrentId>,
    /// The filter typed in the browser or history search bar.
    pub search_query: String,
    pub is_searching: bool,
    pub status_message: String,
    pub running: bool,
    pub history: HistoryState,
    pub welcome: WelcomeState,
    pub renaming: bool,
    pub rename_input: InputState,
    pub theme_state: ThemeState,
    pub search_popup: SearchPopupState,
    /// The URL of the torrent being browsed.
    pub pending_url: Option<String>,
    /// An error to show in the status line on the next frame.
    pub error_message: Option<String>,
    /// A background task is running.
    pub task_busy: bool,
}

// ── Filtering the browser list ───────────────────────────────────────

/// `query` fuzzy-matches the text shown for an entry.
pub open spec fn entry_matches_spec(query: Seq<char>, e: DisplayEntryView) -> bool {
    is_subsequence(lower_text(query), lower_text(e.shown_name()))
}

/// Positions of the entries that pass the filter `query` (all of them when
/// it is empty).
pub open spec fn visible_of(entries: Seq<DisplayEntryView>, query: Seq<char>) -> Seq<int>
    decreases entries.len(),
{
    if entries.len() == 0 {
        Seq::empty()
    } else {
        let acc = visible_of(entries.drop_last(), query);
        if query.len() == 0 || entry_matches_spec(query, entries.last()) {
            acc.push(entries.len() - 1)
        } else {
            acc
        }
    }
}

pub proof fn lemma_visible_bounds(entries: Seq<DisplayEntryView>, query: Seq<char>)
    ensures
        forall|k: int|
            0 <= k < visible_of(entries, query).len() ==> 0 <= #[trigger] visible_of(
                entries,
                query,
            )[k] < entries.len(),
        visible_of(entries, query).len() <= entries.len(),
    decreases entries.len(),
{
    if entries.len() > 0 {
        lemma_visible_bounds(entries.drop_last(), query);
    }
}

/// Positions where `s` holds `true`.
pub open spec fn true_positions(s: Seq<bool>) -> Seq<int>
    decreases s.len(),
{
    if s.len() == 0 {
        Seq::empty()
    } else {
        let acc = true_positions(s.drop_last());
        if s.last() {
            acc.push(s.len() - 1)
        } else {
            acc
        }
    }
}

pub proof fn lemma_true_positions_bounds(s: Seq<bool>)
    ensures
        forall|k: int|
            0 <= k < true_positions(s).len() ==> 0 <= #[trigger] true_positions(s)[k] < s.len(),
        true_positions(s).len() <= s.len(),
    decreases s.len(),
{
    if s.len() > 0 {
        lemma_true_positions_bounds(s.drop_last());
    }
}

pub open spec fn usizes_view(v: Seq<usize>) -> Seq<int> {
    v.map_values(|i: usize| i as int)
}

/// The visible positions of the browser list.
pub open spec fn visible_entries_of(app: AppState) -> Seq<int> {
    visible_of(entries_view(app.browser.display_entries@), app.search_query@)
}

/// The selection moved onto the visible list: kept when in range, else the
/// last visible row, or 0 when nothing is visible.
pub open spec fn clamped(selected: usize, visible_len: int) -> usize {
    if visible_len == 0 {
        0
    } else if selected >= visible_len {
        (visible_len - 1) as usize
    } else {
        selected
    }
}

/// The set of expanded folder paths.
pub open spec fn expanded_set(v: Vec<String>) -> Set<Seq<char>> {
    v.deep_view().to_set()
}

/// The tree of the browsed files under the current expansions.
pub open spec fn tree_of(app: AppState) -> Seq<DisplayEntryView> {
    level_entries(files_view(app.browser.files@), Seq::empty(), 0, expanded_set(app.browser.expanded_paths))
}

/// True when `query` fuzzy-matches a display entry's visible text.
pub fn entry_matches(query: &str, entry: &DisplayEntry) -> (r: bool)
    ensures
        r == entry_matches_spec(query@, entry@),
{
    match entry {
        DisplayEntry::Folder { name, .. } => crate::model::fuzzy_match(query, name.as_str()),
        DisplayEntry::File { file, .. } => crate::model::fuzzy_match(query, file.name.as_str()),
    }
}

impl AppState {
    /// A fresh state on the welcome screen; the theme is the one named in
    /// the configuration, or the default one.
    pub fn new(config: Config, search_config: SearchConfig) -> (r: Self)
        ensures
            r.config@ == config@,
            r.screen == Screen::Welcome,
            r.running,
            !r.task_busy,
            r.pending_url is None,
            r.error_message is None,
            match crate::theme::find_named(crate::theme::theme_table(), config.theme@) {
                Some(t) => r.theme_state.theme@ == t,
                None => r.theme_state.theme@ == crate::theme::theme_table()[0],
            },
            r.search_popup.config == search_config,
            r.input.value@.len() == 0 && r.input.cursor == 0,
            r.browser.files@.len() == 0 && r.browser.selected_files@.len() == 0,
            r.browser.display_entries@.len() == 0 && r.browser.expanded_paths@.len() == 0,
            r.browser.watched_files@.len() == 0 && r.browser.downloaded_files@.len() == 0,
            r.browser.downloading_files@.len() == 0,
            r.browser.selected_file == 0 && r.browser.torrent_name is None,
            !r.browser.confirm_delete && !r.browser.confirm_delete_yes,
            r.torrent_id is None,
            r.search_query@.len() == 0 && !r.is_searching,
            r.status_message@.len() == 0,
            r.history.selected == 0 && r.history.orig_index == 0,
            r.welcome.menu_selected == 0,
            !r.renaming && r.rename_input.value@.len() == 0 && r.rename_input.cursor == 0,
            !r.theme_state.picker && r.theme_state.picker_filter@.len() == 0,
            r.theme_state.picker_selected == 0 && r.theme_state.picker_scroll == 0,
            r.theme_state.picker_original@ == crate::theme::theme_table()[0],
            !r.search_popup.open && r.search_popup.query@.len() == 0,
            r.search_popup.selected == 0 && !r.search_popup.busy && r.search_popup.page == 0,
            r.search_popup.all_results@.len() == 0 && r.search_popup.fetched_query@.len() == 0,
            !r.search_popup.config_open && r.search_popup.config_input@.len() == 0,
    {
        let theme = match Theme::from_name(config.theme.as_str()) {
            Some(t) => t,
            None => Theme::default(),
        };
        let mut theme_state = ThemeState::default();
        theme_state.theme = theme;
        let mut search_popup = SearchPopupState::default();
        search_popup.config = search_config;
        AppState {
            config,
            screen: Screen::Welcome,
            input: InputState::default(),
            browser: BrowserState::default(),
            torrent_id: None,
            search_query: String::new(),
            is_searching: false,
            status_message: String::new(),
            running: true,
            history: HistoryState::default(),
            welcome: WelcomeState::default(),
            renaming: false,
            rename_input: InputState::default(),
            theme_state,
            search_popup,
            pending_url: None,
            error_message: None,
            task_busy: false,
        }
    }

    /// Queue an error that will be shown on the next frame.
    pub fn set_error(&mut self, msg: &str)
        ensures
            final(self).error_message matches Some(m) && m@ == msg@,
            *final(self) == (AppState { error_message: final(self).error_message, ..*old(self) }),
    {
        self.error_message = Some(to_owned_string(msg));
    }

    /// The currently previewed URL, if any.
    pub fn pending_url(&self) -> (r: Option<&str>)
        ensures
            match self.pending_url {
                Some(u) => r matches Some(s) && s@ == u@,
                None => r is None,
            },
    {
        match &self.pending_url {
            Some(u) => Some(u.as_str()),
            None => None,
        }
    }

    pub fn set_pending_url(&mut self, url: String)
        ensures
            *final(self) == (AppState { pending_url: Some(url), ..*old(self) }),
    {
        self.pending_url = Some(url);
    }

    pub fn clear_pending_url(&mut self)
        ensures
            *final(self) == (AppState { pending_url: None, ..*old(self) }),
    {
        self.pending_url = None;
    }

    /// Indices of currently toggled files.
    pub fn selected_indices(&self) -> (r: Vec<usize>)
        ensures
            usizes_view(r@) == true_positions(self.browser.selected_files@),
    {
        let s = &self.browser.selected_files;
        let mut out: Vec<usize> = Vec::new();
        let mut i: usize = 0;
        while i < s.len()
            invariant
                i <= s.len(),
                usizes_view(out@) == true_positions(s@.take(i as int)),
            decreases s.len() - i,
        {
            assert(s@.take(i + 1).drop_last() =~= s@.take(i as int));
            if s[i] {
                let ghost before = out@;
                out.push(i);
                assert(usizes_view(out@) =~= usizes_view(before).push(i as int));
            }
            i += 1;
        }
        assert(s@.take(s.len() as int) =~= s@);
        out
    }

    /// Number of currently toggled files.
    pub fn selected_count(&self) -> (r: usize)
        ensures
            r == true_positions(self.browser.selected_files@).len(),
    {
        let v = self.selected_indices();
        v.len()
    }

    /// The positions in `display_entries` of the entries that pass the
    /// current search filter.
    pub fn visible_entries(&self) -> (r: Vec<usize>)
        ensures
            usizes_view(r@) == visible_entries_of(*self),
    {
        let entries = &self.browser.display_entries;
        let q = chars_of(self.search_query.as_str());
        let empty = q.len() == 0;
        let mut out: Vec<usize> = Vec::new();
        let mut i: usize = 0;
        while i < entries.len()
            invariant
                i <= entries.len(),
                empty == (self.search_query@.len() == 0),
                usizes_view(out@) == visible_of(entries_view(entries@).take(i as int), self.search_query@),
            decreases entries.len() - i,
        {
            let ghost ev = entries_view(entries@);
            assert(ev.take(i + 1).drop_last() =~= ev.take(i as int));
            assert(ev.take(i + 1).last() == entries@[i as int]@);
            if empty || entry_matches(self.search_query.as_str(), &entries[i]) {
                let ghost before = out@;
                out.push(i);
                assert(usizes_view(out@) =~= usizes_view(before).push(i as int));
            }
            i += 1;
        }
        assert(entries_view(entries@).take(entries.len() as int) =~= entries_view(entries@));
        out
    }

    /// Keeps the browser selection on a visible row.
    pub fn clamp_selection(&mut self)
        ensures
            *final(self) == (AppState {
                browser: BrowserState {
                    selected_file: clamped(
                        old(self).browser.selected_file,
                        visible_entries_of(*old(self)).len() as int,
                    ),
                    ..old(self).browser
                },
                ..*old(self)
            }),
    {
        let n = self.visible_entries().len();
        if n == 0 {
            self.browser.selected_file = 0;
            return;
        }
        if self.browser.selected_file >= n {
            self.browser.selected_file = n - 1;
        }
    }

    /// Rebuild `display_entries` as the folder tree of the files, where only
    /// expanded folders show their contents; then keep the selection on a
    /// visible row.
    pub fn rebuild_entries(&mut self)
        ensures
            entries_view(final(self).browser.display_entries@) == tree_of(*old(self)),
            final(self).browser.selected_file == clamped(
                old(self).browser.selected_file,
                visible_of(tree_of(*old(self)), old(self).search_query@).len() as int,
            ),
            *final(self) == (AppState {
                browser: BrowserState {
                    display_entries: final(self).browser.display_entries,
                    selected_file: final(self).browser.selected_file,
                    ..old(self).browser
                },
                ..*old(self)
            }),
    {
        let mut entries: Vec<DisplayEntry> = Vec::new();
        rebuild_tree(&self.browser.files, &self.browser.expanded_paths, &mut entries);
        assert(entries_view(entries@) =~= Seq::<DisplayEntryView>::empty() + tree_of(*old(self)));
        self.browser.display_entries = entries;
        self.clamp_selection();
    }

    /// Cycle through the built-in themes and record the choice in the
    /// configuration (which the caller then saves).
    pub fn cycle_theme(&mut self)
        ensures
            final(self).theme_state.theme@ == crate::theme::next_theme(old(self).theme_state.theme@),
            final(self).config.theme@ == crate::theme::config_name(
                final(self).theme_state.theme@.name,
            ),
            *final(self) == (AppState {
                theme_state: ThemeState { theme: final(self).theme_state.theme, ..old(self).theme_state },
                config: Config { theme: final(self).config.theme, ..old(self).config },
                ..*old(self)
            }),
    {
        self.theme_state.theme = self.theme_state.theme.next();
        self.config.theme = Theme::to_config_name(self.theme_state.theme.name);
    }
}

} // verus!
