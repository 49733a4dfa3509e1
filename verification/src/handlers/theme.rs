//! The theme picker: filtering the built-in themes by name, previewing the
//! highlighted one, and choosing or cancelling.
use super::browser::popped;
use super::common::{clear_string, is_char, Action, KeyCode, KeyPress};
use crate::state::{usizes_view, AppState, ThemeState};
use crate::text::{
    chars_of, contains_chars, contains_seq, is_control, is_control_char, lower_text, occurs_at,
    str_len,
    string_pop, string_push, to_lowercase,
};
use crate::theme::{
    config_name, theme_position, theme_table, themes_view, Theme, ThemeView, THEME_COUNT,
};
use vstd::prelude::*;

verus! {

/// A theme passes the (already lowercased) filter when the filter is empty
/// or occurs in its lowercased name.
pub open spec fn theme_passes(filter: Seq<char>, t: ThemeView) -> bool {
    filter.len() == 0 || contains_seq(lower_text(t.name), filter)
}

/// Positions in `table` of the themes that pass `filter`.
pub open spec fn picker_rows(table: Seq<ThemeView>, filter: Seq<char>) -> Seq<int>
    decreases table.len(),
{
    if table.len() == 0 {
        Seq::empty()
    } else {
        let acc = picker_rows(table.drop_last(), filter);
        if theme_passes(filter, table.last()) {
            acc.push(table.len() - 1)
        } else {
            acc
        }
    }
}

pub proof fn lemma_picker_rows_bounds(table: Seq<ThemeView>, filter: Seq<char>)
    ensures
        forall|k: int|
            0 <= k < picker_rows(table, filter).len() ==> 0 <= #[trigger] picker_rows(table, filter)[k]
                < table.len(),
        picker_rows(table, filter).len() <= table.len(),
    decreases table.len(),
{
    if table.len() > 0 {
        lemma_picker_rows_bounds(table.drop_last(), filter);
    }
}

/// The rows the picker lists for the filter text `filter`.
pub open spec fn picker_list(filter: Seq<char>) -> Seq<int> {
    picker_rows(theme_table(), lower_text(filter))
}

/// The picker lists exactly the built-in themes whose lowercased name holds
/// the lowercased filter somewhere as a run of characters (all of them for
/// an empty filter), in table order.
pub proof fn picker_lists_names_containing_filter(filter: Seq<char>)
    ensures
        forall|i: int|
            0 <= i < THEME_COUNT ==> (picker_list(filter).contains(i) <==> (lower_text(filter).len()
                == 0 || exists|k: int|
                0 <= k && k + lower_text(filter).len() <= lower_text(theme_table()[i].name).len()
                    && #[trigger] lower_text(theme_table()[i].name).subrange(
                    k,
                    k + lower_text(filter).len(),
                ) == lower_text(filter))),
        forall|a: int, b: int|
            0 <= a < b < picker_list(filter).len() ==> picker_list(filter)[a]
                < picker_list(filter)[b],
{
    lemma_picker_rows_members(theme_table(), lower_text(filter));
    assert forall|i: int| 0 <= i < THEME_COUNT implies (picker_list(filter).contains(i) <==> (
    lower_text(filter).len() == 0 || exists|k: int|
        0 <= k && k + lower_text(filter).len() <= lower_text(theme_table()[i].name).len()
            && #[trigger] lower_text(theme_table()[i].name).subrange(
            k,
            k + lower_text(filter).len(),
        ) == lower_text(filter))) by {
        let f = lower_text(filter);
        let n = lower_text(theme_table()[i].name);
        if contains_seq(n, f) {
            let k = choose|k: int| occurs_at(n, f, k);
            assert(n.subrange(k, k + f.len()) == f);
        }
        if exists|k: int| 0 <= k && k + f.len() <= n.len() && #[trigger] n.subrange(k, k + f.len()) == f {
            let k = choose|k: int| 0 <= k && k + f.len() <= n.len() && #[trigger] n.subrange(k, k + f.len()) == f;
            assert(occurs_at(n, f, k));
        }
    }
}

proof fn lemma_picker_rows_members(table: Seq<ThemeView>, filter: Seq<char>)
    ensures
        forall|i: int|
            0 <= i < table.len() ==> (picker_rows(table, filter).contains(i) <==> theme_passes(
                filter,
                table[i],
            )),
        forall|a: int, b: int|
            0 <= a < b < picker_rows(table, filter).len() ==> picker_rows(table, filter)[a]
                < picker_rows(table, filter)[b],
    decreases table.len(),
{
    lemma_picker_rows_bounds(table, filter);
    if table.len() > 0 {
        let t = table.drop_last();
        lemma_picker_rows_members(t, filter);
        lemma_picker_rows_bounds(t, filter);
        let acc = picker_rows(t, filter);
        let v = picker_rows(table, filter);
        assert forall|i: int| 0 <= i < table.len() implies (v.contains(i) <==> theme_passes(
            filter,
            table[i],
        )) by {
            if i < table.len() - 1 {
                assert(t[i] == table[i]);
                if v.contains(i) {
                    let k = choose|k: int| 0 <= k < v.len() && v[k] == i;
                    if k < acc.len() {
                        assert(acc[k] == i);
                        assert(acc.contains(i));
                    }
                }
                if acc.contains(i) {
                    let k = choose|k: int| 0 <= k < acc.len() && acc[k] == i;
                    assert(v[k] == i);
                }
            } else {
                if v.contains(i) {
                    let k = choose|k: int| 0 <= k < v.len() && v[k] == i;
                    if k < acc.len() {
                        assert(acc[k] < t.len());
                    }
                }
                if v.len() > acc.len() {
                    assert(v[acc.len() as int] == i);
                }
            }
        }
    }
}

/// Positions of the built-in themes that pass the lowercased filter.
pub(crate) fn picker_rows_of(filter: &str) -> (r: Vec<usize>)
    ensures
        usizes_view(r@) == picker_list(filter@),
{
    let lower = to_lowercase(filter);
    let f = chars_of(lower.as_str());
    let all = Theme::all();
    let ghost table = theme_table();
    let mut out: Vec<usize> = Vec::new();
    let mut i: usize = 0;
    while i < all.len()
        invariant
            i <= all.len(),
            themes_view(all@) == table,
            table == theme_table(),
            f@ == lower_text(filter@),
            usizes_view(out@) == picker_rows(table.take(i as int), f@),
        decreases all.len() - i,
    {
        assert(table.take(i + 1).drop_last() =~= table.take(i as int));
        assert(table.take(i + 1).last() == all@[i as int]@);
        let name = chars_of(to_lowercase(all[i].name).as_str());
        if f.len() == 0 || contains_chars(&name, &f) {
            let ghost before = out@;
            out.push(i);
            assert(usizes_view(out@) =~= usizes_view(before).push(i as int));
        }
        i += 1;
    }
    assert(table.take(all.len() as int) =~= table);
    out
}

/// Opening the picker on the theme in use, with an empty filter.
pub open spec fn opened_picker(o: AppState, n: AppState) -> bool {
    &&& n.theme_state.picker_filter@.len() == 0
    &&& n == AppState {
        theme_state: ThemeState {
            picker_original: o.theme_state.theme,
            picker: true,
            picker_filter: n.theme_state.picker_filter,
            picker_selected: theme_position(o.theme_state.theme@) as usize,
            picker_scroll: 0,
            ..o.theme_state
        },
        ..o
    }
}

pub fn open_theme_picker(app: &mut AppState)
    ensures
        opened_picker(*old(app), *final(app)),
{
    app.theme_state.picker_original = app.theme_state.theme;
    app.theme_state.picker = true;
    clear_string(&mut app.theme_state.picker_filter);
    app.theme_state.picker_selected = app.theme_state.theme.position();
    app.theme_state.picker_scroll = 0;
}

/// A character that the filter takes.
pub open spec fn filter_takes(ts: ThemeState, key: KeyPress) -> bool {
    &&& key.code is Char
    &&& !is_char(key, 'k')
    &&& !is_char(key, 'j')
    &&& !is_control_char(key.code->Char_0)
    &&& str_len(ts.picker_filter@) < 64
}

/// Keys in the theme picker. The rows are those of the filter as it was
/// before the key; after the key the highlighted row is previewed while
/// the picker stays open.
pub open spec fn picker_effect(o: AppState, n: AppState, key: KeyPress, act: Option<Action>) -> bool {
    let ts = o.theme_state;
    let nt = n.theme_state;
    let rows = picker_list(ts.picker_filter@);
    let sel = ts.picker_selected;
    let chosen = key.code == KeyCode::Enter && sel < rows.len();
    let closes = key.code == KeyCode::Esc || key.code == KeyCode::Enter;
    let up = key.code == KeyCode::Up || is_char(key, 'k');
    let down = key.code == KeyCode::Down || is_char(key, 'j');
    let last_row = if rows.len() > 0 {
        rows.len() - 1
    } else {
        0
    };
    let base: ThemeView = if key.code == KeyCode::Esc {
        ts.picker_original@
    } else if chosen {
        theme_table()[rows[sel as int]]
    } else {
        ts.theme@
    };
    &&& n == AppState {
        theme_state: ThemeState {
            theme: nt.theme,
            picker: nt.picker,
            picker_filter: nt.picker_filter,
            picker_selected: nt.picker_selected,
            ..ts
        },
        config: n.config,
        ..o
    }
    &&& nt.picker == (ts.picker && !closes)
    &&& nt.picker_filter@ == if key.code == KeyCode::Backspace {
        popped(ts.picker_filter@)
    } else if filter_takes(ts, key) {
        ts.picker_filter@.push(key.code->Char_0)
    } else {
        ts.picker_filter@
    }
    &&& nt.picker_selected == if up {
        if sel > 0 {
            (sel - 1) as usize
        } else {
            sel
        }
    } else if down {
        if sel < last_row {
            (sel + 1) as usize
        } else {
            sel
        }
    } else if key.code == KeyCode::Backspace || filter_takes(ts, key) {
        0
    } else {
        sel
    }
    &&& nt.theme@ == if nt.picker && nt.picker_selected < rows.len() {
        theme_table()[rows[nt.picker_selected as int]]
    } else {
        base
    }
    &&& if chosen {
        &&& act matches Some(Action::SaveConfig)
        &&& n.config.theme@ == config_name(base.name)
        &&& n.config == crate::config::Config { theme: n.config.theme, ..o.config }
    } else {
        act is None && n.config == o.config
    }
}

pub fn theme_picker_input(app: &mut AppState, key: KeyPress) -> (act: Option<Action>)
    ensures
        picker_effect(*old(app), *final(app), key, act),
{
    let all = Theme::all();
    let rows = picker_rows_of(app.theme_state.picker_filter.as_str());
    proof {
        lemma_picker_rows_bounds(theme_table(), lower_text(app.theme_state.picker_filter@));
    }
    let mut act: Option<Action> = None;
    match key.code {
        KeyCode::Esc => {
            app.theme_state.theme = app.theme_state.picker_original;
            app.theme_state.picker = false;
        },
        KeyCode::Enter => {
            let sel = app.theme_state.picker_selected;
            if sel < rows.len() {
                let idx = rows[sel];
                assert(usizes_view(rows@)[sel as int] == idx as int);
                assert(themes_view(all@)[idx as int] == all@[idx as int]@);
                app.theme_state.theme = all[idx];
                app.config.theme = Theme::to_config_name(app.theme_state.theme.name);
                act = Some(Action::SaveConfig);
            }
            app.theme_state.picker = false;
        },
        KeyCode::Up | KeyCode::Char('k') => {
            if app.theme_state.picker_selected > 0 {
                app.theme_state.picker_selected -= 1;
            }
        },
        KeyCode::Down | KeyCode::Char('j') => {
            let last = if rows.len() > 0 {
                rows.len() - 1
            } else {
                0
            };
            if app.theme_state.picker_selected < last {
                app.theme_state.picker_selected += 1;
            }
        },
        KeyCode::Backspace => {
            string_pop(&mut app.theme_state.picker_filter);
            app.theme_state.picker_selected = 0;
        },
        KeyCode::Char(c) => {
            if !is_control(c) && app.theme_state.picker_filter.as_str().len() < 64 {
                string_push(&mut app.theme_state.picker_filter, c);
                app.theme_state.picker_selected = 0;
            }
        },
        _ => {},
    }
    if app.theme_state.picker {
        let sel = app.theme_state.picker_selected;
        if sel < rows.len() {
            let idx = rows[sel];
            assert(usizes_view(rows@)[sel as int] == idx as int);
            assert(themes_view(all@)[idx as int] == all@[idx as int]@);
            app.theme_state.theme = all[idx];
        }
    }
    act
}

/// No key in the picker changes the theme that was in use when it opened.
pub proof fn picker_keeps_original(o: AppState, n: AppState, key: KeyPress, act: Option<Action>)
    requires
        picker_effect(o, n, key, act),
    ensures
        n.theme_state.picker_original == o.theme_state.picker_original,
{
}

/// Esc leaves the picker with the theme that was in use when it opened,
/// whatever was previewed meanwhile, and saves nothing.
pub proof fn picker_escape_restores(o: AppState, n: AppState, act: Option<Action>)
    requires
        picker_effect(o, n, KeyPress { code: KeyCode::Esc, ctrl: false }, act),
    ensures
        !n.theme_state.picker,
        n.theme_state.theme@ == o.theme_state.picker_original@,
        act is None,
        n.config == o.config,
{
}

/// Opening the picker and pressing Esc right away changes nothing but the
/// picker's own fields: the theme in use stays.
pub proof fn picker_open_then_escape(o: AppState, m: AppState, n: AppState, act: Option<Action>)
    requires
        opened_picker(o, m),
        picker_effect(m, n, KeyPress { code: KeyCode::Esc, ctrl: false }, act),
    ensures
        n.theme_state.theme@ == o.theme_state.theme@,
        !n.theme_state.picker,
        n.config == o.config,
{
}

} // verus!
