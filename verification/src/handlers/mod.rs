//! What each key press does, screen by screen.
pub mod common;
pub mod screens;
pub mod browser;
pub mod history;
pub mod search;
pub mod theme;

use self::browser::{
    browser, browser_confirm_delete, browser_effect, browser_search, browser_search_effect,
    browser_search_panics, confirm_effect,
};
use self::common::{is_char, Action, KeyCode, KeyPress};
use self::history::{history_effect, history_search, history_search_effect};
use self::screens::{
    edit_panics, input, input_effect, loading, loading_effect, player, player_effect,
    rename_effect, rename_input, welcome, welcome_effect,
};
use self::search::{opened_search, open_search, search_effect, search_input, search_panics};
use self::theme::{open_theme_picker, opened_picker, picker_effect, theme_picker_input};
use crate::edit::can_backspace;
use crate::model::{HistoryEntry, Screen};
use crate::state::AppState;
use crate::storage::entries_of;
use vstd::prelude::*;

verus! {

/// Which handler a key press goes to.
#[derive(Debug, Clone, Copy, PartialEq, Eq, Structural)]
pub enum Route {
    Rename,
    ThemePicker,
    SearchPopup,
    /// A background task is running and the key is neither Esc nor `q`.
    Ignored,
    OpenThemePicker,
    OpenSearch,
    Welcome,
    Input,
    Loading,
    BrowserSearch,
    BrowserConfirm,
    Browser,
    Player,
    HistorySearch,
    History,
}

/// Open dialogs first, then the busy guard and the global keys `t` and
/// `s`, then the current screen.
pub open spec fn route(o: AppState, key: KeyPress) -> Route {
    if o.renaming {
        Route::Rename
    } else if o.theme_state.picker {
        Route::ThemePicker
    } else if o.search_popup.open {
        Route::SearchPopup
    } else if o.task_busy && !(key.code == KeyCode::Esc || is_char(key, 'q')) {
        Route::Ignored
    } else if is_char(key, 't') {
        Route::OpenThemePicker
    } else if is_char(key, 's') {
        Route::OpenSearch
    } else {
        match o.screen {
            Screen::Welcome => Route::Welcome,
            Screen::Input => Route::Input,
            Screen::Loading => Route::Loading,
            Screen::Browser => if o.is_searching {
                Route::BrowserSearch
            } else if o.browser.confirm_delete {
                Route::BrowserConfirm
            } else {
                Route::Browser
            },
            Screen::Player => Route::Player,
            Screen::History => if o.is_searching {
                Route::HistorySearch
            } else {
                Route::History
            },
        }
    }
}

/// The key press would make std panic in its handler.
pub open spec fn key_panics(o: AppState, key: KeyPress) -> bool {
    match route(o, key) {
        Route::Rename => edit_panics(o.rename_input, key),
        Route::SearchPopup => search_panics(o, key),
        Route::Welcome => key.code == KeyCode::Enter && o.welcome.menu_selected >= 3,
        Route::Input => edit_panics(o.input, key),
        Route::BrowserSearch => browser_search_panics(o, key),
        _ => false,
    }
}

/// What a key press does to the state, and the work it asks for; `h` is
/// the stored history.
pub open spec fn key_effect(
    o: AppState,
    n: AppState,
    key: KeyPress,
    act: Option<Action>,
    h: Seq<crate::model::HistoryEntryView>,
) -> bool {
    match route(o, key) {
        Route::Rename => rename_effect(o, n, key, act),
        Route::ThemePicker => picker_effect(o, n, key, act),
        Route::SearchPopup => search_effect(o, n, key, act),
        Route::Ignored => act is None && n == o,
        Route::OpenThemePicker => act is None && opened_picker(o, n),
        Route::OpenSearch => act is None && opened_search(o, n),
        Route::Welcome => act is None && welcome_effect(o, n, key),
        Route::Input => input_effect(o, n, key, act),
        Route::Loading => act is None && loading_effect(o, n, key),
        Route::BrowserSearch => act is None && browser_search_effect(o, n, key),
        Route::BrowserConfirm => confirm_effect(o, n, key, act),
        Route::Browser => browser_effect(o, n, key, act),
        Route::Player => player_effect(o, n, key, act),
        Route::HistorySearch => act is None && history_search_effect(o, n, key, h),
        Route::History => history_effect(o, n, key, act, h),
    }
}

/// While a background task runs, with no dialog open, every key but Esc
/// and `q` is refused: the state stays as it was and no work is asked for.
pub proof fn busy_refuses_keys(
    o: AppState,
    n: AppState,
    key: KeyPress,
    act: Option<Action>,
    h: Seq<crate::model::HistoryEntryView>,
)
    requires
        !o.renaming,
        !o.theme_state.picker,
        !o.search_popup.open,
        o.task_busy,
        key.code != KeyCode::Esc,
        !is_char(key, 'q'),
        key_effect(o, n, key, act, h),
    ensures
        n == o,
        act is None,
{
}

/// Which handler `key` goes to in the current state.
pub fn route_of(app: &AppState, key: KeyPress) -> (r: Route)
    ensures
        r == route(*app, key),
{
    if app.renaming {
        Route::Rename
    } else if app.theme_state.picker {
        Route::ThemePicker
    } else if app.search_popup.open {
        Route::SearchPopup
    } else if app.task_busy && !(key.code == KeyCode::Esc || key.code == KeyCode::Char('q')) {
        Route::Ignored
    } else if key.code == KeyCode::Char('t') {
        Route::OpenThemePicker
    } else if key.code == KeyCode::Char('s') {
        Route::OpenSearch
    } else {
        match app.screen {
            Screen::Welcome => Route::Welcome,
            Screen::Input => Route::Input,
            Screen::Loading => Route::Loading,
            Screen::Browser => if app.is_searching {
                Route::BrowserSearch
            } else if app.browser.confirm_delete {
                Route::BrowserConfirm
            } else {
                Route::Browser
            },
            Screen::Player => Route::Player,
            Screen::History => if app.is_searching {
                Route::HistorySearch
            } else {
                Route::History
            },
        }
    }
}

fn field_edit_panics(input: &crate::model::InputState, key: KeyPress) -> (r: bool)
    ensures
        r == edit_panics(*input, key),
{
    match key.code {
        KeyCode::Char(_) => input.value.as_str().len() < crate::edit::MAX_INPUT_LEN && input.cursor
            == usize::MAX,
        KeyCode::Backspace => !can_backspace(input),
        _ => false,
    }
}

/// Tells whether the key press would make std panic in its handler, so that
/// a caller can refuse it instead of calling [`handle_key`].
pub fn key_would_panic(app: &AppState, key: KeyPress) -> (r: bool)
    ensures
        r == key_panics(*app, key),
{
    match route_of(app, key) {
        Route::Rename => field_edit_panics(&app.rename_input, key),
        Route::SearchPopup => {
            if app.search_popup.config_open || key.code != KeyCode::Right || app.search_popup.page
                != u32::MAX {
                false
            } else {
                let len = app.search_popup.all_results.len();
                let padded = if len > usize::MAX - 20 {
                    usize::MAX
                } else {
                    len + 20
                };
                let total = padded / 21;
                let last = if total > 0 {
                    total - 1
                } else {
                    0
                };
                (app.search_popup.page as usize) < last
            }
        },
        Route::Welcome => key.code == KeyCode::Enter && app.welcome.menu_selected >= 3,
        Route::Input => field_edit_panics(&app.input, key),
        Route::BrowserSearch => {
            let len = app.visible_entries().len();
            key.code == KeyCode::Enter && len > 0 && app.browser.selected_file >= len
        },
        _ => false,
    }
}

/// Handles one key press; `history` is the stored history, which the
/// history screen lists. Returns the work the caller is asked to do.
pub fn handle_key(app: &mut AppState, key: KeyPress, history: &Vec<HistoryEntry>) -> (act: Option<
    Action,
>)
    requires
        !key_panics(*old(app), key),
    ensures
        key_effect(*old(app), *final(app), key, act, entries_of(history@)),
{
    match route_of(app, key) {
        Route::Rename => rename_input(app, key),
        Route::ThemePicker => theme_picker_input(app, key),
        Route::SearchPopup => search_input(app, key),
        Route::Ignored => None,
        Route::OpenThemePicker => {
            open_theme_picker(app);
            None
        },
        Route::OpenSearch => {
            open_search(app);
            None
        },
        Route::Welcome => {
            welcome(app, key);
            None
        },
        Route::Input => input(app, key),
        Route::Loading => {
            loading(app, key);
            None
        },
        Route::BrowserSearch => {
            browser_search(app, key);
            None
        },
        Route::BrowserConfirm => browser_confirm_delete(app, key),
        Route::Browser => browser(app, key),
        Route::Player => player(app, key),
        Route::HistorySearch => {
            history_search(app, key, history);
            None
        },
        Route::History => self::history::history(app, key, history),
    }
}

/// No key press lists an expanded folder twice: when every expanded path
/// appears once before the key, each still appears once after it.
#[verifier::rlimit(50)]
pub proof fn keys_keep_paths_unique(
    o: AppState,
    n: AppState,
    key: KeyPress,
    act: Option<Action>,
    h: Seq<crate::model::HistoryEntryView>,
)
    requires
        key_effect(o, n, key, act, h),
        o.browser.expanded_paths.deep_view().no_duplicates(),
    ensures
        n.browser.expanded_paths.deep_view().no_duplicates(),
{
    let sel = o.browser.selected_file as int;
    if route(o, key) == Route::Browser && key.code == KeyCode::Enter && !is_char(key, 'q')
        && sel < o.browser.display_entries@.len() {
        match crate::model::entries_view(o.browser.display_entries@)[sel] {
            crate::model::DisplayEntryView::Folder { name, depth, .. } => {
                self::browser::toggle_keeps_paths_unique(
                    o.browser.expanded_paths.deep_view(),
                    self::browser::folder_path_spec(o, depth, name),
                );
            },
            _ => {},
        }
    }
}

} // verus!
