//! Keys on the history list: moving, re-adding, renaming, deleting, and
//! filtering entries.
use super::browser::{is_move_key, popped};
use super::common::{
    cat, cat3, clear_string, error_set, is_char, start_preview, started_preview, Action, KeyCode,
    KeyPress,
};
use crate::model::{
    display_name, display_name_of, fuzzy, is_subsequence, HistoryEntry, HistoryEntryView,
    InputState, Screen,
};
use crate::state::{usizes_view, AppState, HistoryState};
use crate::storage::entries_of;
use crate::text::{chars_of, lower_text, str_len, string_pop, string_push, to_owned_string};
use vstd::prelude::*;

verus! {

/// Positions of the history entries whose name or URL match `query` (all
/// of them when it is empty).
pub open spec fn history_visible(h: Seq<HistoryEntryView>, query: Seq<char>) -> Seq<int>
    decreases h.len(),
{
    if h.len() == 0 {
        Seq::empty()
    } else {
        let acc = history_visible(h.drop_last(), query);
        let e = h.last();
        if query.len() == 0 || fuzzy(query, display_name_of(e)) || fuzzy(query, e.url) {
            acc.push(h.len() - 1)
        } else {
            acc
        }
    }
}

pub proof fn lemma_history_visible_bounds(h: Seq<HistoryEntryView>, query: Seq<char>)
    ensures
        forall|k: int|
            0 <= k < history_visible(h, query).len() ==> 0 <= #[trigger] history_visible(h, query)[k]
                < h.len(),
        history_visible(h, query).len() <= h.len(),
    decreases h.len(),
{
    if h.len() > 0 {
        lemma_history_visible_bounds(h.drop_last(), query);
    }
}

/// The filter of the history list keeps exactly the entries whose display
/// name or link holds the query's characters in order, ignoring case (all
/// of them for an empty query), in their stored order.
pub proof fn history_filter_keeps_matches(h: Seq<HistoryEntryView>, query: Seq<char>)
    ensures
        forall|i: int|
            0 <= i < h.len() ==> (history_visible(h, query).contains(i) <==> (query.len() == 0
                || is_subsequence(lower_text(query), lower_text(display_name_of(h[i])))
                || is_subsequence(lower_text(query), lower_text(h[i].url)))),
        forall|a: int, b: int|
            0 <= a < b < history_visible(h, query).len() ==> history_visible(h, query)[a]
                < history_visible(h, query)[b],
    decreases h.len(),
{
    lemma_history_visible_bounds(h, query);
    if h.len() > 0 {
        let t = h.drop_last();
        history_filter_keeps_matches(t, query);
        lemma_history_visible_bounds(t, query);
        let acc = history_visible(t, query);
        let v = history_visible(h, query);
        assert forall|i: int| 0 <= i < h.len() implies (v.contains(i) <==> (query.len() == 0
            || is_subsequence(lower_text(query), lower_text(display_name_of(h[i])))
            || is_subsequence(lower_text(query), lower_text(h[i].url)))) by {
            if i < h.len() - 1 {
                assert(t[i] == h[i]);
                if v.contains(i) {
                    let k = choose|k: int| 0 <= k < v.len() && v[k] == i;
                    if k < acc.len() {
                        assert(acc[k] == i);
                        assert(acc.contains(i));
                    }
                }
                if acc.contains(i) {
                    let k = choose|k: int| 0 <= k < acc.len() && acc[k] == i;
                    assert(v[k] == i);
                }
            } else {
                if v.contains(i) {
                    let k = choose|k: int| 0 <= k < v.len() && v[k] == i;
                    if k < acc.len() {
                        assert(acc[k] < t.len());
                    }
                }
                if v.len() > acc.len() {
                    assert(v[acc.len() as int] == i);
                }
            }
        }
    }
}

/// The positions of the history entries that pass the filter `query`.
pub fn history_visible_rows(history: &Vec<HistoryEntry>, query: &str) -> (r: Vec<usize>)
    ensures
        usizes_view(r@) == history_visible(entries_of(history@), query@),
{
    let empty = query.is_empty();
    let mut out: Vec<usize> = Vec::new();
    let mut i: usize = 0;
    let ghost h = entries_of(history@);
    while i < history.len()
        invariant
            i <= history.len(),
            h == entries_of(history@),
            empty == (query@.len() == 0),
            usizes_view(out@) == history_visible(h.take(i as int), query@),
        decreases history.len() - i,
    {
        assert(h.take(i + 1).drop_last() =~= h.take(i as int));
        assert(h.take(i + 1).last() == history@[i as int]@);
        let e = &history[i];
        if empty || crate::model::fuzzy_match(query, display_name(e)) || crate::model::fuzzy_match(
            query,
            e.url.as_str(),
        ) {
            let ghost before = out@;
            out.push(i);
            assert(usizes_view(out@) =~= usizes_view(before).push(i as int));
        }
        i += 1;
    }
    assert(h.take(history.len() as int) =~= h);
    out
}

/// The history selection moved up or down within the visible rows.
pub open spec fn history_moved(o: AppState, n: AppState, key: KeyPress, len: int) -> bool {
    let sel = o.history.selected;
    let new_sel = if key.code == KeyCode::Up || is_char(key, 'k') {
        if sel > 0 {
            (sel - 1) as usize
        } else {
            sel
        }
    } else if sel < (if len > 0 {
        len - 1
    } else {
        0
    }) {
        (sel + 1) as usize
    } else {
        sel
    };
    n == AppState { history: HistoryState { selected: new_sel, ..o.history }, ..o }
}

fn move_history(app: &mut AppState, key: KeyPress, len: usize)
    requires
        is_move_key(key),
    ensures
        history_moved(*old(app), *final(app), key, len as int),
{
    if key.code == KeyCode::Up || key.code == KeyCode::Char('k') {
        if app.history.selected > 0 {
            app.history.selected -= 1;
        }
    } else {
        let last = if len > 0 {
            len - 1
        } else {
            0
        };
        if app.history.selected < last {
            app.history.selected += 1;
        }
    }
}

/// Keys on the history list when not filtering.
pub open spec fn history_effect(
    o: AppState,
    n: AppState,
    key: KeyPress,
    act: Option<Action>,
    h: Seq<HistoryEntryView>,
) -> bool {
    let v = history_visible(h, o.search_query@);
    let sel = o.history.selected as int;
    if is_char(key, 'q') || key.code == KeyCode::Esc {
        &&& act is None
        &&& n.search_query@.len() == 0
        &&& n.status_message@.len() == 0
        &&& n == AppState {
            screen: Screen::Welcome,
            is_searching: false,
            search_query: n.search_query,
            status_message: n.status_message,
            ..o
        }
    } else if is_move_key(key) {
        act is None && history_moved(o, n, key, v.len() as int)
    } else if key.code == KeyCode::Enter {
        if sel < v.len() {
            started_preview(o, n, act, h[v[sel]].url)
        } else {
            act is None && n == o
        }
    } else if is_char(key, 'r') {
        act is None && if sel < v.len() {
            let name = display_name_of(h[v[sel]]);
            &&& n.rename_input.value@ == name
            &&& n.rename_input.cursor == str_len(name)
            &&& n.status_message@ == "Renaming: "@ + name + " (Enter to confirm, Esc to cancel)"@
            &&& n == AppState {
                history: HistoryState { orig_index: v[sel] as usize, ..o.history },
                renaming: true,
                rename_input: n.rename_input,
                status_message: n.status_message,
                ..o
            }
        } else {
            n == o
        }
    } else if is_char(key, 'd') {
        n == o && if sel < v.len() {
            act matches Some(Action::RemoveHistoryEntry { index }) && index == v[sel]
        } else {
            act is None
        }
    } else if is_char(key, '/') {
        &&& act is None
        &&& n.search_query@.len() == 0
        &&& n == AppState {
            is_searching: true,
            history: HistoryState { selected: 0, ..o.history },
            search_query: n.search_query,
            ..o
        }
    } else {
        act is None && n == o
    }
}

pub fn history(app: &mut AppState, key: KeyPress, entries: &Vec<HistoryEntry>) -> (act: Option<Action>)
    ensures
        history_effect(*old(app), *final(app), key, act, entries_of(entries@)),
{
    let visible = history_visible_rows(entries, app.search_query.as_str());
    proof {
        lemma_history_visible_bounds(entries_of(entries@), app.search_query@);
    }
    let sel = app.history.selected;
    match key.code {
        KeyCode::Char('q') | KeyCode::Esc => {
            app.screen = Screen::Welcome;
            app.is_searching = false;
            clear_string(&mut app.search_query);
            clear_string(&mut app.status_message);
            None
        },
        KeyCode::Up | KeyCode::Char('k') | KeyCode::Down | KeyCode::Char('j') => {
            move_history(app, key, visible.len());
            None
        },
        KeyCode::Enter => {
            if sel < visible.len() {
                let i = visible[sel];
                assert(usizes_view(visible@)[sel as int] == i as int);
                assert(entries_of(entries@)[i as int] == entries@[i as int]@);
                let url = entries[i].url.clone();
                start_preview(app, url)
            } else {
                None
            }
        },
        KeyCode::Char('r') => {
            if sel < visible.len() {
                let i = visible[sel];
                assert(usizes_view(visible@)[sel as int] == i as int);
                assert(entries_of(entries@)[i as int] == entries@[i as int]@);
                app.history.orig_index = i;
                let name = display_name(&entries[i]);
                app.renaming = true;
                app.rename_input = InputState { value: to_owned_string(name), cursor: name.len() };
                app.status_message = cat3("Renaming: ", name, " (Enter to confirm, Esc to cancel)");
            }
            None
        },
        KeyCode::Char('d') => {
            if sel < visible.len() {
                let i = visible[sel];
                assert(usizes_view(visible@)[sel as int] == i as int);
                Some(Action::RemoveHistoryEntry { index: i })
            } else {
                None
            }
        },
        KeyCode::Char('/') => {
            app.is_searching = true;
            app.history.selected = 0;
            clear_string(&mut app.search_query);
            None
        },
        _ => None,
    }
}

/// Keys while filtering the history list.
pub open spec fn history_search_effect(
    o: AppState,
    n: AppState,
    key: KeyPress,
    h: Seq<HistoryEntryView>,
) -> bool {
    let v = history_visible(h, o.search_query@);
    if key.code == KeyCode::Esc {
        &&& n.search_query@.len() == 0
        &&& n == AppState {
            is_searching: false,
            search_query: n.search_query,
            history: HistoryState { selected: 0, ..o.history },
            ..o
        }
    } else if is_char(key, 'q') {
        &&& n.search_query@.len() == 0
        &&& n.status_message@.len() == 0
        &&& n == AppState {
            is_searching: false,
            search_query: n.search_query,
            screen: Screen::Welcome,
            status_message: n.status_message,
            ..o
        }
    } else if key.code == KeyCode::Enter {
        n == AppState { is_searching: false, ..o }
    } else if is_move_key(key) {
        history_moved(o, n, key, v.len() as int)
    } else if key.code == KeyCode::Backspace {
        &&& n.search_query@ == popped(o.search_query@)
        &&& n == AppState {
            search_query: n.search_query,
            history: HistoryState { selected: 0, ..o.history },
            ..o
        }
    } else if key.code is Char && str_len(o.search_query@) < 256 {
        &&& n.search_query@ == o.search_query@.push(key.code->Char_0)
        &&& n == AppState {
            search_query: n.search_query,
            history: HistoryState { selected: 0, ..o.history },
            ..o
        }
    } else {
        n == o
    }
}

pub fn history_search(app: &mut AppState, key: KeyPress, entries: &Vec<HistoryEntry>)
    ensures
        history_search_effect(*old(app), *final(app), key, entries_of(entries@)),
{
    match key.code {
        KeyCode::Esc => {
            app.is_searching = false;
            clear_string(&mut app.search_query);
            app.history.selected = 0;
        },
        KeyCode::Char('q') => {
            app.is_searching = false;
            clear_string(&mut app.search_query);
            app.screen = Screen::Welcome;
            clear_string(&mut app.status_message);
        },
        KeyCode::Enter => {
            app.is_searching = false;
        },
        KeyCode::Up | KeyCode::Char('k') | KeyCode::Down | KeyCode::Char('j') => {
            let visible = history_visible_rows(entries, app.search_query.as_str());
            move_history(app, key, visible.len());
        },
        KeyCode::Backspace => {
            string_pop(&mut app.search_query);
            app.history.selected = 0;
        },
        KeyCode::Char(c) => {
            if app.search_query.as_str().len() < 256 {
                string_push(&mut app.search_query, c);
                app.history.selected = 0;
            }
        },
        _ => {},
    }
}

impl AppState {
    /// After a history entry was removed (or its removal failed with
    /// `error`), with `remaining` entries left: the error is queued as
    /// `Failed to delete: …` and the selection moves up when it was on or
    /// past the last row.
    pub fn after_history_removal(&mut self, error: Option<&str>, remaining: usize)
        ensures
            match error {
                Some(e) => final(self).error_message matches Some(m) && m@ == "Failed to delete: "@
                    + e@,
                None => final(self).error_message == old(self).error_message,
            },
            *final(self) == (AppState {
                error_message: final(self).error_message,
                history: HistoryState {
                    selected: if old(self).history.selected >= (if remaining > 0 {
                        remaining - 1
                    } else {
                        0
                    }) {
                        if old(self).history.selected > 0 {
                            (old(self).history.selected - 1) as usize
                        } else {
                            0
                        }
                    } else {
                        old(self).history.selected
                    },
                    ..old(self).history
                },
                ..*old(self)
            }),
    {
        match error {
            Some(e) => {
                let msg = cat("Failed to delete: ", e);
                self.error_message = Some(msg);
            },
            None => {},
        }
        let last = if remaining > 0 {
            remaining - 1
        } else {
            0
        };
        if self.history.selected >= last {
            self.history.selected = if self.history.selected > 0 {
                self.history.selected - 1
            } else {
                0
            };
        }
    }

    /// Queues the error `prefix` followed by `detail`.
    pub fn set_error_with(&mut self, prefix: &str, detail: &str)
        ensures
            error_set(*old(self), *final(self), prefix@ + detail@),
    {
        let msg = cat(prefix, detail);
        self.error_message = Some(msg);
    }
}

} // verus!
