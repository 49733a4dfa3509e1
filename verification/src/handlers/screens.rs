//! Keys on the welcome, input, loading and player screens, and while a
//! name is being edited.
use super::common::{
    cat, clear_string, go_to_history, go_to_input, is_char, set_status, start_preview, started_preview,
    status_set, went_to_history, went_to_input, Action, KeyCode, KeyPress,
};
use crate::edit::{backspace, backspace_ok, cursor_left, push_char, push_overflows, typed};
use crate::model::{
    entries_view, menu_order, validation_result, validate_torrent_input, DisplayEntry,
    DisplayEntryView, InputState, MenuEntry, Screen, TorrentFile,
};
use crate::state::{visible_entries_of, AppState, BrowserState, WelcomeState};
use crate::text::{str_len, trim, trim_string};
use vstd::prelude::*;

verus! {

// ── Welcome ──────────────────────────────────────────────────────────

pub open spec fn welcome_effect(o: AppState, n: AppState, key: KeyPress) -> bool {
    match key.code {
        KeyCode::Up | KeyCode::Char('k') => n == AppState {
            welcome: WelcomeState {
                menu_selected: if o.welcome.menu_selected > 0 {
                    (o.welcome.menu_selected - 1) as usize
                } else {
                    0
                },
            },
            ..o
        },
        KeyCode::Down | KeyCode::Char('j') => n == AppState {
            welcome: WelcomeState {
                menu_selected: if o.welcome.menu_selected < 2 {
                    (o.welcome.menu_selected + 1) as usize
                } else {
                    o.welcome.menu_selected
                },
            },
            ..o
        },
        KeyCode::Enter => match menu_order()[o.welcome.menu_selected as int] {
            MenuEntry::Add => went_to_input(o, n),
            MenuEntry::History => went_to_history(o, n),
            MenuEntry::Quit => n == AppState { running: false, ..o },
        },
        KeyCode::Char('q') => n == AppState { running: false, ..o },
        KeyCode::Char('a') => went_to_input(o, n),
        KeyCode::Char('h') => went_to_history(o, n),
        _ => n == o,
    }
}

pub fn welcome(app: &mut AppState, key: KeyPress)
    requires
        key.code == KeyCode::Enter ==> old(app).welcome.menu_selected < 3,
    ensures
        welcome_effect(*old(app), *final(app), key),
{
    match key.code {
        KeyCode::Up | KeyCode::Char('k') => {
            if app.welcome.menu_selected > 0 {
                app.welcome.menu_selected -= 1;
            }
        },
        KeyCode::Down | KeyCode::Char('j') => {
            let max = MenuEntry::COUNT - 1;
            if app.welcome.menu_selected < max {
                app.welcome.menu_selected += 1;
            }
        },
        KeyCode::Enter => match MenuEntry::at(app.welcome.menu_selected) {
            MenuEntry::Add => go_to_input(app),
            MenuEntry::History => go_to_history(app),
            MenuEntry::Quit => app.running = false,
        },
        KeyCode::Char('q') => app.running = false,
        KeyCode::Char('a') => go_to_input(app),
        KeyCode::Char('h') => go_to_history(app),
        _ => {},
    }
}

// ── Text fields ──────────────────────────────────────────────────────

/// The keys that edit a text field: typing, backspace, left and right.
pub open spec fn field_edited(o: InputState, n: InputState, key: KeyPress) -> bool {
    match key.code {
        KeyCode::Char(c) => (n.value@, n.cursor as int) == typed(o, c),
        KeyCode::Backspace => o.cursor == 0 && n == o || o.cursor > 0 && n.cursor == o.cursor - 1
            && n.value@ == o.value@.remove(crate::edit::backspace_target(o)),
        KeyCode::Left => n.value@ == o.value@ && n.cursor == if o.cursor > 0 {
            (o.cursor - 1) as usize
        } else {
            0
        },
        KeyCode::Right => n.value@ == o.value@ && n.cursor == if o.cursor < str_len(o.value@) {
            (o.cursor + 1) as usize
        } else {
            o.cursor
        },
        _ => n == o,
    }
}

/// Editing the field panics in std: a character typed at a cursor that
/// cannot move further right, or a backspace that does not fall on the
/// start of a character.
pub open spec fn edit_panics(i: InputState, key: KeyPress) -> bool {
    match key.code {
        KeyCode::Char(_) => push_overflows(i),
        KeyCode::Backspace => !backspace_ok(i),
        _ => false,
    }
}

pub fn edit_field(input: &mut InputState, key: KeyPress)
    requires
        !edit_panics(*old(input), key),
        key.code is Char || key.code is Backspace || key.code is Left || key.code is Right,
    ensures
        field_edited(*old(input), *final(input), key),
{
    match key.code {
        KeyCode::Char(c) => push_char(input, c),
        KeyCode::Backspace => backspace(input),
        KeyCode::Left => cursor_left(input),
        KeyCode::Right => {
            if input.cursor < input.value.as_str().len() {
                input.cursor += 1;
            }
        },
        _ => {},
    }
}

// ── Input ────────────────────────────────────────────────────────────

pub open spec fn input_effect(o: AppState, n: AppState, key: KeyPress, act: Option<Action>) -> bool {
    match key.code {
        KeyCode::Esc => act is None && n.status_message@.len() == 0 && n == AppState {
            screen: Screen::Welcome,
            status_message: n.status_message,
            ..o
        },
        KeyCode::Enter => {
            let url = trim(o.input.value@);
            if o.task_busy {
                act is None && n == o
            } else {
                match validation_result(url) {
                    Err(msg) => act is None && status_set(o, n, msg),
                    Ok(()) => started_preview(o, n, act, url),
                }
            }
        },
        KeyCode::Char(_) | KeyCode::Backspace | KeyCode::Left | KeyCode::Right => act is None
            && field_edited(o.input, n.input, key) && n == AppState { input: n.input, ..o },
        _ => act is None && n == o,
    }
}

pub fn input(app: &mut AppState, key: KeyPress) -> (act: Option<Action>)
    requires
        !edit_panics(old(app).input, key),
    ensures
        input_effect(*old(app), *final(app), key, act),
{
    match key.code {
        KeyCode::Esc => {
            app.screen = Screen::Welcome;
            clear_string(&mut app.status_message);
            None
        },
        KeyCode::Enter => {
            let url = trim_string(app.input.value.as_str());
            if app.task_busy {
                return None;
            }
            match validate_torrent_input(url.as_str()) {
                Err(msg) => {
                    set_status(app, msg);
                    None
                },
                Ok(()) => start_preview(app, url),
            }
        },
        KeyCode::Char(_) | KeyCode::Backspace | KeyCode::Left | KeyCode::Right => {
            edit_field(&mut app.input, key);
            None
        },
        _ => None,
    }
}

// ── Loading ──────────────────────────────────────────────────────────

pub open spec fn loading_effect(o: AppState, n: AppState, key: KeyPress) -> bool {
    if key.code == KeyCode::Esc || is_char(key, 'q') {
        n.status_message@.len() == 0 && n == AppState {
            screen: Screen::Welcome,
            status_message: n.status_message,
            ..o
        }
    } else {
        n == o
    }
}

pub fn loading(app: &mut AppState, key: KeyPress)
    ensures
        loading_effect(*old(app), *final(app), key),
{
    match key.code {
        KeyCode::Esc | KeyCode::Char('q') => {
            app.screen = Screen::Welcome;
            clear_string(&mut app.status_message);
        },
        _ => {},
    }
}

// ── Player ───────────────────────────────────────────────────────────

pub open spec fn player_effect(o: AppState, n: AppState, key: KeyPress, act: Option<Action>) -> bool {
    if key.code == KeyCode::Esc || is_char(key, 'q') {
        &&& act matches Some(Action::KillPlayer)
        &&& n.status_message@ == "Playback stopped"@
        &&& n == AppState { screen: Screen::Browser, status_message: n.status_message, ..o }
    } else {
        act is None && n == o
    }
}

pub fn player(app: &mut AppState, key: KeyPress) -> (act: Option<Action>)
    ensures
        player_effect(*old(app), *final(app), key, act),
{
    match key.code {
        KeyCode::Esc | KeyCode::Char('q') => {
            app.screen = Screen::Browser;
            set_status(app, "Playback stopped");
            Some(Action::KillPlayer)
        },
        _ => None,
    }
}

// ── Renaming ─────────────────────────────────────────────────────────

/// The file that the browser cursor is on, as a position in
/// `display_entries` whose entry is a file.
pub open spec fn cursor_file(o: AppState) -> Option<int> {
    let v = visible_entries_of(o);
    if o.browser.selected_file < v.len() {
        match entries_view(o.browser.display_entries@)[v[o.browser.selected_file as int]] {
            DisplayEntryView::File { .. } => Some(v[o.browser.selected_file as int]),
            _ => None,
        }
    } else {
        None
    }
}

/// The file index (into `files`) of the file entry at display position `d`.
pub open spec fn file_index_at(o: AppState, d: int) -> int {
    match entries_view(o.browser.display_entries@)[d] {
        DisplayEntryView::File { file, .. } => file.index as int,
        _ => -1,
    }
}

/// The name of the file entry at display position `d`.
pub open spec fn file_name_at(o: AppState, d: int) -> Seq<char> {
    match entries_view(o.browser.display_entries@)[d] {
        DisplayEntryView::File { file, .. } => file.name,
        _ => Seq::empty(),
    }
}

/// A confirmed new name: trimmed, non-empty and at most 256 bytes.
pub open spec fn acceptable_name(name: Seq<char>) -> bool {
    name.len() > 0 && str_len(name) <= 256
}

pub open spec fn rename_effect(o: AppState, n: AppState, key: KeyPress, act: Option<Action>) -> bool {
    match key.code {
        KeyCode::Esc => act is None && (if o.screen == Screen::Browser {
            n.status_message@ == "Rename cancelled"@
        } else {
            n.status_message@.len() == 0
        }) && n == AppState { renaming: false, status_message: n.status_message, ..o },
        KeyCode::Enter => {
            let name = trim(o.rename_input.value@);
            if !acceptable_name(name) {
                act is None && n == o
            } else if o.screen == Screen::History {
                &&& act matches Some(Action::RenameHistoryEntry { index, name: m }) && index
                    == o.history.orig_index && m@ == name
                &&& n.status_message@ == "Renamed to: "@ + name
                &&& n == AppState { renaming: false, status_message: n.status_message, ..o }
            } else if o.screen == Screen::Browser {
                &&& act is None
                &&& n.status_message@ == "Renamed to: "@ + name
                &&& match cursor_file(o) {
                    Some(d) if 0 <= file_index_at(o, d) < o.browser.files@.len() => {
                        let k = file_index_at(o, d);
                        &&& n.browser.files@.len() == o.browser.files@.len()
                        &&& forall|j: int|
                            0 <= j < o.browser.files@.len() && j != k ==> n.browser.files@[j]
                                == o.browser.files@[j]
                        &&& n.browser.files@[k].name@ == name
                        &&& n.browser.files@[k].index == o.browser.files@[k].index
                        &&& n.browser.files@[k].size == o.browser.files@[k].size
                    },
                    _ => n.browser.files == o.browser.files,
                }
                &&& n == AppState {
                    renaming: false,
                    status_message: n.status_message,
                    browser: BrowserState { files: n.browser.files, ..o.browser },
                    ..o
                }
            } else {
                act is None && n == AppState { renaming: false, ..o }
            }
        },
        KeyCode::Char(_) | KeyCode::Backspace | KeyCode::Left | KeyCode::Right => act is None
            && field_edited(o.rename_input, n.rename_input, key) && n == AppState {
            rename_input: n.rename_input,
            ..o
        },
        _ => act is None && n == o,
    }
}

/// The display position of the file under the browser cursor, if the
/// cursor is on a visible file.
pub fn file_under_cursor(app: &AppState) -> (r: Option<usize>)
    ensures
        match r {
            Some(d) => cursor_file(*app) == Some(d as int) && d < app.browser.display_entries@.len(),
            None => cursor_file(*app) is None,
        },
{
    let visible = app.visible_entries();
    proof {
        crate::state::lemma_visible_bounds(
            entries_view(app.browser.display_entries@),
            app.search_query@,
        );
    }
    if app.browser.selected_file < visible.len() {
        let d = visible[app.browser.selected_file];
        assert(crate::state::usizes_view(visible@)[app.browser.selected_file as int] == d as int);
        match &app.browser.display_entries[d] {
            DisplayEntry::File { .. } => Some(d),
            _ => None,
        }
    } else {
        None
    }
}

fn rename_file(app: &mut AppState, name: &String)
    ensures
        match cursor_file(*old(app)) {
            Some(d) if 0 <= file_index_at(*old(app), d) < old(app).browser.files@.len() => {
                let k = file_index_at(*old(app), d);
                &&& final(app).browser.files@.len() == old(app).browser.files@.len()
                &&& forall|j: int|
                    0 <= j < old(app).browser.files@.len() && j != k ==> final(app).browser.files@[j]
                        == old(app).browser.files@[j]
                &&& final(app).browser.files@[k].name@ == name@
                &&& final(app).browser.files@[k].index == old(app).browser.files@[k].index
                &&& final(app).browser.files@[k].size == old(app).browser.files@[k].size
            },
            _ => final(app).browser.files == old(app).browser.files,
        },
        *final(app) == (AppState {
            browser: BrowserState { files: final(app).browser.files, ..old(app).browser },
            ..*old(app)
        }),
{
    match file_under_cursor(app) {
        Some(d) => {
            let idx = match &app.browser.display_entries[d] {
                DisplayEntry::File { file, .. } => file.index,
                _ => usize::MAX,
            };
            assert(entries_view(app.browser.display_entries@)[d as int] == app.browser.display_entries@[d as int]@);
            if idx < app.browser.files.len() {
                let old_file = &app.browser.files[idx];
                let f = TorrentFile { index: old_file.index, name: name.clone(), size: old_file.size };
                app.browser.files.set(idx, f);
            }
        },
        None => {},
    }
}

pub fn rename_input(app: &mut AppState, key: KeyPress) -> (act: Option<Action>)
    requires
        !edit_panics(old(app).rename_input, key),
    ensures
        rename_effect(*old(app), *final(app), key, act),
{
    match key.code {
        KeyCode::Esc => {
            app.renaming = false;
            if app.screen == Screen::Browser {
                set_status(app, "Rename cancelled");
            } else {
                clear_string(&mut app.status_message);
            }
            None
        },
        KeyCode::Enter => {
            let new_name = trim_string(app.rename_input.value.as_str());
            if new_name.as_str().is_empty() || new_name.as_str().len() > 256 {
                return None;
            }
            let mut act = None;
            if app.screen == Screen::History {
                let msg = cat("Renamed to: ", new_name.as_str());
                app.status_message = msg;
                act = Some(Action::RenameHistoryEntry { index: app.history.orig_index, name: new_name });
            } else if app.screen == Screen::Browser {
                rename_file(app, &new_name);
                let msg = cat("Renamed to: ", new_name.as_str());
                app.status_message = msg;
            }
            app.renaming = false;
            act
        },
        KeyCode::Char(_) | KeyCode::Backspace | KeyCode::Left | KeyCode::Right => {
            edit_field(&mut app.rename_input, key);
            None
        },
        _ => None,
    }
}

} // verus!
