//! The torrent search popup: typing a query, paging through results,
//! picking one, and editing the search API address.
use super::browser::popped;
use super::common::{clear_string, is_char, Action, KeyCode, KeyPress};
use crate::model::{InputState, Screen};
use crate::search::{results_view, SearchResult, SearchResultView};
use crate::state::{AppState, SearchPopupState};
use crate::text::{
    chars_of, push_str_chars, str_equal, str_len, string_from_chars, string_pop, string_push,
    to_owned_string, trim, trim_string,
};
use vstd::prelude::*;

verus! {

/// Results shown on one page of the popup.
pub const RESULTS_PER_PAGE: usize = 21;

/// The results on page `page` (counted from 0) of pages of `per` results.
pub open spec fn page_of(all: Seq<SearchResultView>, page: u32, per: int) -> Seq<SearchResultView> {
    let start = page as int * per;
    if start >= all.len() {
        Seq::empty()
    } else if start + per <= all.len() {
        all.subrange(start, start + per)
    } else {
        all.subrange(start, all.len() as int)
    }
}

/// The results on page `page` of the popup's pages.
pub open spec fn page_results(all: Seq<SearchResultView>, page: u32) -> Seq<SearchResultView> {
    page_of(all, page, RESULTS_PER_PAGE as int)
}

/// The results on the popup's current page.
pub open spec fn shown_results(o: AppState) -> Seq<SearchResultView> {
    page_results(results_view(o.search_popup.all_results@), o.search_popup.page)
}

/// The popup's state replaced by `p`.
pub open spec fn with_popup(o: AppState, p: SearchPopupState) -> AppState {
    AppState { search_popup: p, ..o }
}

/// Opening the popup: an empty query and no results.
pub open spec fn opened_search(o: AppState, n: AppState) -> bool {
    let p = n.search_popup;
    &&& p.query@.len() == 0
    &&& p.fetched_query@.len() == 0
    &&& p.all_results@.len() == 0
    &&& n == with_popup(
        o,
        SearchPopupState {
            open: true,
            query: p.query,
            fetched_query: p.fetched_query,
            all_results: p.all_results,
            selected: 0,
            page: 0,
            busy: false,
            ..o.search_popup
        },
    )
}

pub fn open_search(app: &mut AppState)
    ensures
        opened_search(*old(app), *final(app)),
{
    app.search_popup.open = true;
    clear_string(&mut app.search_popup.query);
    clear_string(&mut app.search_popup.fetched_query);
    app.search_popup.all_results.clear();
    app.search_popup.selected = 0;
    app.search_popup.page = 0;
    app.search_popup.busy = false;
}

/// Number of results on the current page.
fn current_page_len(app: &AppState) -> (r: usize)
    ensures
        r == shown_results(*app).len(),
{
    let len = app.search_popup.all_results.len();
    let start: u64 = app.search_popup.page as u64 * 21;
    if start >= len as u64 {
        0
    } else {
        let s = start as usize;
        if len - s >= RESULTS_PER_PAGE {
            RESULTS_PER_PAGE
        } else {
            len - s
        }
    }
}

/// The results on page `page` of pages of `per` results, in order.
pub(crate) fn page_slice(all: &Vec<SearchResult>, page: u32, per: usize) -> (r: Vec<SearchResult>)
    requires
        1 <= per <= 1000,
    ensures
        results_view(r@) == page_of(results_view(all@), page, per as int),
{
    assert(page as u64 * per as u64 <= 0xFFFF_FFFF * 1000) by (nonlinear_arith)
        requires
            page <= 0xFFFF_FFFF,
            per <= 1000,;
    let start: u64 = page as u64 * per as u64;
    let mut out: Vec<SearchResult> = Vec::new();
    if start >= all.len() as u64 {
        assert(results_view(out@) =~= page_of(results_view(all@), page, per as int));
        return out;
    }
    let s = start as usize;
    let end = if all.len() - s >= per {
        s + per
    } else {
        all.len()
    };
    let ghost rv = results_view(all@);
    let mut i = s;
    while i < end
        invariant
            s <= i <= end <= all.len(),
            rv == results_view(all@),
            results_view(out@) == rv.subrange(s as int, i as int),
        decreases end - i,
    {
        let r = all[i].clone();
        assert(r@ == rv[i as int]);
        let ghost before = out@;
        out.push(r);
        assert(results_view(out@) =~= results_view(before).push(rv[i as int]));
        assert(rv.subrange(s as int, i + 1) =~= rv.subrange(s as int, i as int).push(rv[i as int]));
        i += 1;
    }
    out
}

/// The results on the current page, in order.
pub fn current_page_results(app: &AppState) -> (r: Vec<SearchResult>)
    ensures
        results_view(r@) == shown_results(*app),
{
    page_slice(&app.search_popup.all_results, app.search_popup.page, RESULTS_PER_PAGE)
}

/// The selection when it was past the last row of the page: the last row
/// (or `0` on an empty page).
pub open spec fn clamped_to_page(sel: usize, len: int) -> usize {
    let max = if len > 0 {
        len - 1
    } else {
        0
    };
    if sel > max {
        max as usize
    } else {
        sel
    }
}

pub fn clamp_search_selection(app: &mut AppState)
    ensures
        *final(app) == with_popup(
            *old(app),
            SearchPopupState {
                selected: clamped_to_page(old(app).search_popup.selected, shown_results(*old(app)).len() as int),
                ..old(app).search_popup
            },
        ),
{
    let len = current_page_len(app);
    let max = if len > 0 {
        len - 1
    } else {
        0
    };
    if app.search_popup.selected > max {
        app.search_popup.selected = max;
    }
}

/// Keys while editing the search API address.
pub open spec fn search_config_effect(o: AppState, n: AppState, key: KeyPress, act: Option<Action>) -> bool {
    let p = o.search_popup;
    if key.code == KeyCode::Esc {
        act is None && n == with_popup(o, SearchPopupState { config_open: false, ..p })
    } else if key.code == KeyCode::Enter {
        &&& act matches Some(Action::SaveSearchConfig)
        &&& n.search_popup.config.url@ == trim(p.config_input@)
        &&& n.status_message@ == "Search API configured"@
        &&& n == AppState {
            search_popup: SearchPopupState {
                config: crate::config::SearchConfig { url: n.search_popup.config.url, ..p.config },
                config_open: false,
                ..p
            },
            status_message: n.status_message,
            ..o
        }
    } else if key.code == KeyCode::Backspace {
        &&& act is None
        &&& n.search_popup.config_input@ == popped(p.config_input@)
        &&& n == with_popup(o, SearchPopupState { config_input: n.search_popup.config_input, ..p })
    } else if key.code is Char && str_len(p.config_input@) < 2048 {
        &&& act is None
        &&& n.search_popup.config_input@ == p.config_input@.push(key.code->Char_0)
        &&& n == with_popup(o, SearchPopupState { config_input: n.search_popup.config_input, ..p })
    } else {
        act is None && n == o
    }
}

pub fn search_config_input(app: &mut AppState, key: KeyPress) -> (act: Option<Action>)
    ensures
        search_config_effect(*old(app), *final(app), key, act),
{
    match key.code {
        KeyCode::Esc => {
            app.search_popup.config_open = false;
            None
        },
        KeyCode::Enter => {
            let url = trim_string(app.search_popup.config_input.as_str());
            app.search_popup.config.url = url;
            app.search_popup.config_open = false;
            app.status_message = to_owned_string("Search API configured");
            Some(Action::SaveSearchConfig)
        },
        KeyCode::Backspace => {
            string_pop(&mut app.search_popup.config_input);
            None
        },
        KeyCode::Char(c) => {
            if app.search_popup.config_input.as_str().len() < 2048 {
                string_push(&mut app.search_popup.config_input, c);
            }
            None
        },
        _ => None,
    }
}

/// The magnet link of a search result.
pub open spec fn magnet_of(r: SearchResultView) -> Seq<char> {
    "magnet:?xt=urn:btih:"@ + r.info_hash + "&dn="@ + r.name
}

/// Number of result pages, as the popup counts them.
pub open spec fn page_total(len: int) -> int {
    let padded = if len + 20 > usize::MAX {
        usize::MAX as int
    } else {
        len + 20
    };
    padded / 21
}

/// The last page the Right key can reach.
pub open spec fn last_page(o: AppState) -> int {
    let t = page_total(o.search_popup.all_results@.len() as int);
    if t > 0 {
        t - 1
    } else {
        0
    }
}

/// Right on the last representable page would overflow the page counter
/// (std panics on that).
pub open spec fn search_panics(o: AppState, key: KeyPress) -> bool {
    &&& !o.search_popup.config_open
    &&& key.code == KeyCode::Right
    &&& o.search_popup.page == u32::MAX
    &&& (o.search_popup.page as int) < last_page(o)
}

/// Up (or Ctrl-k): one row up, wrapping to the last row.
pub open spec fn row_up(sel: usize, len: int) -> usize {
    if sel > 0 {
        (sel - 1) as usize
    } else {
        (len - 1) as usize
    }
}

/// Down (or Ctrl-j): one row down, wrapping to the first row.
pub open spec fn row_down(sel: usize, len: int) -> usize {
    if sel < len - 1 {
        (sel + 1) as usize
    } else {
        0
    }
}

/// Keys in the search popup.
pub open spec fn search_effect(o: AppState, n: AppState, key: KeyPress, act: Option<Action>) -> bool {
    let p = o.search_popup;
    let shown = shown_results(o);
    let len = shown.len();
    let sel = p.selected;
    if p.config_open {
        search_config_effect(o, n, key, act)
    } else if key.code == KeyCode::Esc {
        act is None && n == with_popup(o, SearchPopupState { open: false, ..p })
    } else if key.code == KeyCode::Enter {
        if len > 0 && p.query@ == p.fetched_query@ {
            act is None && if sel < len {
                let r = shown[sel as int];
                &&& n.input.value@ == magnet_of(r)
                &&& n.input.cursor == str_len(magnet_of(r))
                &&& n.status_message@ == "Ready: "@ + r.name
                &&& n == AppState {
                    search_popup: SearchPopupState { open: false, ..p },
                    input: n.input,
                    screen: Screen::Input,
                    status_message: n.status_message,
                    ..o
                }
            } else {
                n == o
            }
        } else if p.query@.len() > 0 && !p.busy {
            &&& act matches Some(Action::Search { query, page }) && query@ == p.query@ && page == 0
            &&& n.search_popup.fetched_query@ == p.query@
            &&& n.search_popup.all_results@.len() == 0
            &&& n == with_popup(
                o,
                SearchPopupState {
                    busy: true,
                    page: 0,
                    fetched_query: n.search_popup.fetched_query,
                    all_results: n.search_popup.all_results,
                    selected: 0,
                    ..p
                },
            )
        } else {
            act is None && n == o
        }
    } else if key.code == KeyCode::Up || (is_char(key, 'k') && key.ctrl) {
        act is None && if len == 0 {
            n == o
        } else {
            n == with_popup(o, SearchPopupState { selected: row_up(sel, len as int), ..p })
        }
    } else if key.code == KeyCode::Down || (is_char(key, 'j') && key.ctrl) {
        act is None && if len == 0 {
            n == o
        } else {
            n == with_popup(o, SearchPopupState { selected: row_down(sel, len as int), ..p })
        }
    } else if key.code == KeyCode::Left {
        act is None && if p.page > 0 {
            n == with_popup(o, SearchPopupState { page: (p.page - 1) as u32, selected: 0, ..p })
        } else {
            n == o
        }
    } else if key.code == KeyCode::Right {
        act is None && if (p.page as int) < last_page(o) {
            n == with_popup(o, SearchPopupState { page: (p.page + 1) as u32, selected: 0, ..p })
        } else {
            n == o
        }
    } else if is_char(key, 'u') && key.ctrl {
        &&& act is None
        &&& n.search_popup.query@.len() == 0
        &&& n.search_popup.fetched_query@.len() == 0
        &&& n.search_popup.all_results@.len() == 0
        &&& n == with_popup(
            o,
            SearchPopupState {
                query: n.search_popup.query,
                fetched_query: n.search_popup.fetched_query,
                all_results: n.search_popup.all_results,
                selected: 0,
                page: 0,
                ..p
            },
        )
    } else if is_char(key, 'e') && key.ctrl {
        &&& act is None
        &&& n.search_popup.config_input@ == p.config.url@
        &&& n == with_popup(
            o,
            SearchPopupState { config_open: true, config_input: n.search_popup.config_input, ..p },
        )
    } else if key.code == KeyCode::Backspace {
        &&& act is None
        &&& n.search_popup.query@ == popped(p.query@)
        &&& n == with_popup(
            o,
            SearchPopupState {
                query: n.search_popup.query,
                selected: clamped_to_page(sel, len as int),
                ..p
            },
        )
    } else if key.code is Char && str_len(p.query@) < 256 {
        &&& act is None
        &&& n.search_popup.query@ == p.query@.push(key.code->Char_0)
        &&& n == with_popup(
            o,
            SearchPopupState {
                query: n.search_popup.query,
                selected: clamped_to_page(sel, len as int),
                ..p
            },
        )
    } else {
        act is None && n == o
    }
}

/// Turning to the next page and back returns to the page one started on,
/// with the first row selected.
pub proof fn page_forward_then_back(o: AppState, m: AppState, n: AppState, a1: Option<Action>, a2: Option<
    Action,
>)
    requires
        !o.search_popup.config_open,
        (o.search_popup.page as int) < last_page(o),
        !search_panics(o, KeyPress { code: KeyCode::Right, ctrl: false }),
        search_effect(o, m, KeyPress { code: KeyCode::Right, ctrl: false }, a1),
        search_effect(m, n, KeyPress { code: KeyCode::Left, ctrl: false }, a2),
    ensures
        n == with_popup(o, SearchPopupState { selected: 0, ..o.search_popup }),
        a1 is None && a2 is None,
{
}

/// Builds the magnet link of `r`.
fn magnet_link(r: &SearchResult) -> (m: String)
    ensures
        m@ == magnet_of(r@),
{
    let mut v = chars_of("magnet:?xt=urn:btih:");
    push_str_chars(&mut v, r.info_hash.as_str());
    push_str_chars(&mut v, "&dn=");
    push_str_chars(&mut v, r.name.as_str());
    string_from_chars(&v)
}

fn search_enter(app: &mut AppState) -> (act: Option<Action>)
    requires
        !old(app).search_popup.config_open,
    ensures
        search_effect(*old(app), *final(app), KeyPress { code: KeyCode::Enter, ctrl: false }, act),
{
    let len = current_page_len(app);
    let same = str_equal(app.search_popup.query.as_str(), app.search_popup.fetched_query.as_str());
    if len > 0 && same {
        let sel = app.search_popup.selected;
        if sel < len {
            let shown = current_page_results(app);
            assert(results_view(shown@)[sel as int] == shown@[sel as int]@);
            let r = &shown[sel];
            let magnet = magnet_link(r);
            let cursor = magnet.as_str().len();
            let status = crate::handlers::common::cat("Ready: ", r.name.as_str());
            app.search_popup.open = false;
            app.input = InputState { value: magnet, cursor };
            app.screen = Screen::Input;
            app.status_message = status;
        }
        None
    } else if !app.search_popup.query.as_str().is_empty() && !app.search_popup.busy {
        let query = app.search_popup.query.clone();
        app.search_popup.busy = true;
        app.search_popup.page = 0;
        app.search_popup.fetched_query = query.clone();
        app.search_popup.all_results.clear();
        app.search_popup.selected = 0;
        Some(Action::Search { query, page: 0 })
    } else {
        None
    }
}

/// Up/Down and Ctrl-k/Ctrl-j: moving through the page, wrapping around.
fn search_move(app: &mut AppState, key: KeyPress) -> (act: Option<Action>)
    requires
        !old(app).search_popup.config_open,
        key.code == KeyCode::Up || key.code == KeyCode::Down || (key.ctrl && (is_char(key, 'k')
            || is_char(key, 'j'))),
    ensures
        search_effect(*old(app), *final(app), key, act),
{
    let up = key.code == KeyCode::Up || key.code == KeyCode::Char('k');
    let len = current_page_len(app);
    if len > 0 {
        app.search_popup.selected = if up {
            if app.search_popup.selected > 0 {
                app.search_popup.selected - 1
            } else {
                len - 1
            }
        } else if app.search_popup.selected < len - 1 {
            app.search_popup.selected + 1
        } else {
            0
        };
    }
    None
}

/// Left/Right: the previous or next page.
fn search_turn_page(app: &mut AppState, key: KeyPress) -> (act: Option<Action>)
    requires
        !old(app).search_popup.config_open,
        key.code == KeyCode::Left || key.code == KeyCode::Right,
        !search_panics(*old(app), key),
    ensures
        search_effect(*old(app), *final(app), key, act),
{
    if key.code == KeyCode::Left {
        if app.search_popup.page > 0 {
            app.search_popup.page -= 1;
            app.search_popup.selected = 0;
        }
    } else {
        let len = app.search_popup.all_results.len();
        let padded = if len > usize::MAX - 20 {
            usize::MAX
        } else {
            len + 20
        };
        let total = padded / 21;
        let last = if total > 0 {
            total - 1
        } else {
            0
        };
        if (app.search_popup.page as usize) < last {
            app.search_popup.page += 1;
            app.search_popup.selected = 0;
        }
    }
    None
}

/// Backspace and typed characters: editing the query.
fn search_edit(app: &mut AppState, key: KeyPress) -> (act: Option<Action>)
    requires
        !old(app).search_popup.config_open,
        key.code == KeyCode::Backspace || (key.code is Char && !(key.ctrl && (is_char(key, 'k')
            || is_char(key, 'j') || is_char(key, 'u') || is_char(key, 'e')))),
    ensures
        search_effect(*old(app), *final(app), key, act),
{
    match key.code {
        KeyCode::Char(c) => {
            if app.search_popup.query.as_str().len() < 256 {
                string_push(&mut app.search_popup.query, c);
                clamp_search_selection(app);
            }
        },
        _ => {
            string_pop(&mut app.search_popup.query);
            clamp_search_selection(app);
        },
    }
    None
}

pub fn search_input(app: &mut AppState, key: KeyPress) -> (act: Option<Action>)
    requires
        !search_panics(*old(app), key),
    ensures
        search_effect(*old(app), *final(app), key, act),
{
    if app.search_popup.config_open {
        return search_config_input(app, key);
    }
    match key.code {
        KeyCode::Esc => {
            app.search_popup.open = false;
            None
        },
        KeyCode::Enter => search_enter(app),
        KeyCode::Up | KeyCode::Down => search_move(app, key),
        KeyCode::Left | KeyCode::Right => search_turn_page(app, key),
        KeyCode::Char(c) => {
            if key.ctrl && (c == 'k' || c == 'j') {
                search_move(app, key)
            } else if key.ctrl && c == 'u' {
                clear_string(&mut app.search_popup.query);
                clear_string(&mut app.search_popup.fetched_query);
                app.search_popup.all_results.clear();
                app.search_popup.selected = 0;
                app.search_popup.page = 0;
                None
            } else if key.ctrl && c == 'e' {
                app.search_popup.config_open = true;
                app.search_popup.config_input = app.search_popup.config.url.clone();
                None
            } else {
                search_edit(app, key)
            }
        },
        KeyCode::Backspace => search_edit(app, key),
        _ => None,
    }
}

} // verus!
