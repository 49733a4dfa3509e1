//! The lines of the screens' panels: the browser and history lists, their
//! search bars and headers, the delete dialog, the theme picker, the
//! welcome menu and the downloads sidebar.
use crate::handlers::browser::names_at;
use crate::handlers::history::history_visible;
use crate::handlers::theme::{picker_list, picker_rows_of};
use crate::model::{
    display_name, display_name_of, entries_view, menu_label, menu_order, DisplayEntry,
    DisplayEntryView, HistoryEntry, HistoryEntryView, MenuEntry,
};
use crate::state::{true_positions, usizes_view, visible_entries_of, AppState};
use crate::storage::{contains_string, entries_of};
use crate::text::{
    chars_of, contains_seq, decimal, push_chars, push_decimal, push_str_chars, str_len,
    string_from_chars, to_owned_string,
};
use crate::theme::{
    fg_bg, size_text, spans_view, theme_table, themes_view, StyleSpec, StyledText, Theme, ThemeView,
};
use crate::view::{truncate, truncated, truncation_panics};
use vstd::prelude::*;

verus! {

/// `n` spaces.
pub open spec fn spaces(n: nat) -> Seq<char> {
    Seq::new(n, |i: int| ' ')
}

fn push_spaces(out: &mut Vec<char>, n: usize)
    ensures
        final(out)@ == old(out)@ + spaces(n as nat),
{
    let mut i: usize = 0;
    while i < n
        invariant
            i <= n,
            out@ == old(out)@ + spaces(i as nat),
        decreases n - i,
    {
        out.push(' ');
        i += 1;
        assert(out@ =~= old(out)@ + spaces(i as nat));
    }
}

/// `a - b`, or 0 when `b` is larger.
pub open spec fn minus(a: int, b: int) -> int {
    if a > b {
        a - b
    } else {
        0
    }
}

// ── Search bars and headers ──────────────────────────────────────────

/// The search bar of a list `width` columns wide: the query on the left and
/// the number of matches on the right, padded with spaces in between.
pub open spec fn search_bar_text(query: Seq<char>, count: nat, width: u16) -> Seq<char> {
    let left = "Search: "@ + query;
    let right = "| "@ + decimal(count);
    if query.len() == 0 {
        "Search: "@
    } else {
        left + spaces(minus(minus(minus(width as int, 2), str_len(left) as int), str_len(right) as int) as nat)
            + right
    }
}

pub fn search_bar(query: &str, count: usize, width: u16) -> (r: String)
    ensures
        r@ == search_bar_text(query@, count as nat, width),
{
    if query.is_empty() {
        return to_owned_string("Search: ");
    }
    let mut left = chars_of("Search: ");
    push_str_chars(&mut left, query);
    let left_s = string_from_chars(&left);
    let mut right = chars_of("| ");
    push_decimal(&mut right, count as u64);
    let right_s = string_from_chars(&right);
    let inner: usize = if width >= 2 {
        (width - 2) as usize
    } else {
        0
    };
    let ll = left_s.as_str().len();
    let rl = right_s.as_str().len();
    let a: usize = if inner > ll {
        inner - ll
    } else {
        0
    };
    let pad: usize = if a > rl {
        a - rl
    } else {
        0
    };
    push_spaces(&mut left, pad);
    push_chars(&mut left, &right);
    string_from_chars(&left)
}

/// The header of the history list.
pub fn history_header(count: usize) -> (r: String)
    ensures
        r@ == " "@ + decimal(count as nat) + " entries in history"@,
{
    let mut v = chars_of(" ");
    push_decimal(&mut v, count as u64);
    push_str_chars(&mut v, " entries in history");
    string_from_chars(&v)
}

/// The title of the browser: the torrent's name (`Torrent` before it is
/// known) and, outside a search, how many files are selected.
pub open spec fn browser_title_text(name: Option<Seq<char>>, selected: nat, searching: bool) -> Seq<
    char,
> {
    let torrent = match name {
        Some(n) => n,
        None => "Torrent"@,
    };
    if !searching && selected > 0 {
        " "@ + torrent + " — "@ + decimal(selected) + " selected for download"@
    } else {
        " "@ + torrent
    }
}

pub fn browser_title(app: &AppState) -> (r: String)
    ensures
        r@ == browser_title_text(
            match app.browser.torrent_name {
                Some(n) => Some(n@),
                None => None,
            },
            true_positions(app.browser.selected_files@).len(),
            app.is_searching,
        ),
{
    let mut v = chars_of(" ");
    match &app.browser.torrent_name {
        Some(n) => push_str_chars(&mut v, n.as_str()),
        None => push_str_chars(&mut v, "Torrent"),
    }
    let selected = app.selected_count();
    if !app.is_searching && selected > 0 {
        push_str_chars(&mut v, " — ");
        push_decimal(&mut v, selected as u64);
        push_str_chars(&mut v, " selected for download");
    }
    string_from_chars(&v)
}

/// Number of entries that `query` matches.
pub open spec fn match_count(entries: Seq<DisplayEntryView>, query: Seq<char>) -> nat
    decreases entries.len(),
{
    if entries.len() == 0 {
        0
    } else {
        match_count(entries.drop_last(), query) + if crate::state::entry_matches_spec(
            query,
            entries.last(),
        ) {
            1nat
        } else {
            0nat
        }
    }
}

/// How many of the browser's entries the search query matches.
pub fn browser_matches(app: &AppState) -> (r: usize)
    ensures
        r == match_count(entries_view(app.browser.display_entries@), app.search_query@),
{
    let entries = &app.browser.display_entries;
    let ghost ev = entries_view(entries@);
    let mut n: usize = 0;
    let mut i: usize = 0;
    while i < entries.len()
        invariant
            i <= entries.len(),
            ev == entries_view(entries@),
            n == match_count(ev.take(i as int), app.search_query@),
            n <= i,
        decreases entries.len() - i,
    {
        assert(ev.take(i + 1).drop_last() =~= ev.take(i as int));
        assert(ev.take(i + 1).last() == entries@[i as int]@);
        if crate::state::entry_matches(app.search_query.as_str(), &entries[i]) {
            n += 1;
        }
        i += 1;
    }
    assert(ev.take(entries.len() as int) =~= ev);
    n
}

// ── The browser list ─────────────────────────────────────────────────

/// Plain text: no colours of its own.
pub open spec fn plain() -> StyleSpec {
    StyleSpec { fg: None, bg: None }
}

/// The badge after a file name: watched, else downloading, else downloaded.
pub open spec fn badge_of(o: AppState, name: Seq<char>) -> Seq<(Seq<char>, StyleSpec)> {
    let t = o.theme_state.theme.palette;
    if o.browser.watched_files.deep_view().contains(name) {
        seq![(" [watched]"@, fg_bg(t.badge_stream, t.bg))]
    } else if o.browser.downloading_files.deep_view().contains(name) {
        seq![(" [downloading]"@, fg_bg(t.warning, t.bg))]
    } else if o.browser.downloaded_files.deep_view().contains(name) {
        seq![(" [downloaded]"@, fg_bg(t.badge_dl, t.bg))]
    } else {
        Seq::empty()
    }
}

/// The pieces of the line of a browser entry.
pub open spec fn browser_line(o: AppState, e: DisplayEntryView, hovered: bool) -> Seq<
    (Seq<char>, StyleSpec),
> {
    let t = o.theme_state.theme.palette;
    let accent = fg_bg(t.accent, t.bg);
    match e {
        DisplayEntryView::Folder { name, depth, expanded } => {
            let icon = if expanded {
                "▹"@
            } else {
                "▸"@
            };
            seq![
                (spaces(depth as nat * 2), plain()),
                (if hovered {
                    "▶ "@
                } else {
                    "  "@
                }, accent),
                (icon + " "@ + name + "/"@, if hovered {
                    accent
                } else {
                    fg_bg(t.folder, t.bg)
                }),
            ]
        },
        DisplayEntryView::File { file, depth } => {
            let checked = 0 <= file.index < o.browser.selected_files@.len()
                && o.browser.selected_files@[file.index as int];
            let prefix = if hovered {
                "▶ "@
            } else if checked {
                " ✓ "@
            } else {
                "   "@
            };
            let style = if hovered {
                accent
            } else if checked {
                fg_bg(t.success, t.bg)
            } else {
                fg_bg(t.text_primary, t.bg)
            };
            seq![(spaces(depth as nat * 2), plain()), (prefix, accent), (file.name, style)]
                + badge_of(o, file.name) + seq![
                ("  ("@ + size_text(file.size as nat) + ")"@, fg_bg(t.text_dimmed, t.bg)),
            ]
        },
    }
}

fn span(text: &str, style: StyleSpec) -> (r: StyledText)
    ensures
        r.text@ == text@,
        r.style == style,
{
    StyledText { text: to_owned_string(text), style }
}

fn span_of(cs: &Vec<char>, style: StyleSpec) -> (r: StyledText)
    ensures
        r.text@ == cs@,
        r.style == style,
{
    StyledText { text: string_from_chars(cs), style }
}

fn indent(depth: usize) -> (r: StyledText)
    ensures
        r.text@ == spaces(depth as nat * 2),
        r.style == plain(),
{
    let mut v: Vec<char> = Vec::new();
    let mut i: usize = 0;
    while i < depth
        invariant
            i <= depth,
            v@ == spaces(i as nat * 2),
        decreases depth - i,
    {
        v.push(' ');
        v.push(' ');
        i += 1;
        assert(v@ =~= spaces(i as nat * 2));
    }
    span_of(&v, StyleSpec { fg: None, bg: None })
}

/// The line of one browser entry.
pub fn browser_entry_line(app: &AppState, entry: &DisplayEntry, hovered: bool) -> (r: Vec<StyledText>)
    ensures
        spans_view(r@) == browser_line(*app, entry@, hovered),
{
    let theme = &app.theme_state.theme;
    let accent = theme.accent_style();
    let mut out: Vec<StyledText> = Vec::new();
    match entry {
        DisplayEntry::Folder { name, depth, expanded } => {
            out.push(indent(*depth));
            out.push(span(if hovered {
                "▶ "
            } else {
                "  "
            }, accent));
            let mut t = chars_of(if *expanded {
                "▹"
            } else {
                "▸"
            });
            push_str_chars(&mut t, " ");
            push_str_chars(&mut t, name.as_str());
            push_str_chars(&mut t, "/");
            out.push(span_of(&t, if hovered {
                accent
            } else {
                theme.folder_style()
            }));
        },
        DisplayEntry::File { file, depth } => {
            let checked = file.index < app.browser.selected_files.len()
                && app.browser.selected_files[file.index];
            out.push(indent(*depth));
            out.push(span(if hovered {
                "▶ "
            } else if checked {
                " ✓ "
            } else {
                "   "
            }, accent));
            out.push(span(file.name.as_str(), if hovered {
                accent
            } else if checked {
                theme.success_style()
            } else {
                theme.text_style()
            }));
            let name = file.name.as_str();
            if contains_string(&app.browser.watched_files, name) {
                out.push(span(" [watched]", theme.badge_stream_style()));
            } else if contains_string(&app.browser.downloading_files, name) {
                out.push(span(" [downloading]", theme.warning_style()));
            } else if contains_string(&app.browser.downloaded_files, name) {
                out.push(span(" [downloaded]", theme.badge_dl_style()));
            }
            let mut sz = chars_of("  (");
            let st = crate::theme::format_size(file.size);
            push_str_chars(&mut sz, st.as_str());
            push_str_chars(&mut sz, ")");
            out.push(span_of(&sz, theme.dimmed_style()));
        },
    }
    assert(spans_view(out@) =~= browser_line(*app, entry@, hovered));
    out
}

/// The positions that the browser lists: the filtered ones while searching,
/// else all.
pub open spec fn listed_positions(o: AppState, filtered: bool) -> Seq<int> {
    if filtered {
        visible_entries_of(o)
    } else {
        Seq::new(o.browser.display_entries@.len(), |i: int| i)
    }
}

/// The lines of the browser list.
pub fn browser_lines(app: &AppState, filtered: bool) -> (r: Vec<Vec<StyledText>>)
    ensures
        r@.len() == listed_positions(*app, filtered).len(),
        forall|k: int|
            0 <= k < r@.len() ==> spans_view(#[trigger] r@[k]@) == browser_line(
                *app,
                entries_view(app.browser.display_entries@)[listed_positions(*app, filtered)[k]],
                listed_positions(*app, filtered)[k] == app.browser.selected_file,
            ),
{
    let entries = &app.browser.display_entries;
    let positions: Vec<usize> = if filtered {
        app.visible_entries()
    } else {
        let mut all: Vec<usize> = Vec::new();
        let mut i: usize = 0;
        while i < entries.len()
            invariant
                i <= entries.len(),
                usizes_view(all@) == Seq::new(i as nat, |k: int| k),
            decreases entries.len() - i,
        {
            let ghost before = all@;
            all.push(i);
            assert(usizes_view(all@) =~= usizes_view(before).push(i as int));
            i += 1;
            assert(usizes_view(all@) =~= Seq::new(i as nat, |k: int| k));
        }
        all
    };
    proof {
        crate::state::lemma_visible_bounds(entries_view(entries@), app.search_query@);
    }
    let ghost pos = listed_positions(*app, filtered);
    assert(usizes_view(positions@) =~= pos);
    let mut out: Vec<Vec<StyledText>> = Vec::new();
    let mut k: usize = 0;
    while k < positions.len()
        invariant
            k <= positions.len(),
            usizes_view(positions@) == pos,
            pos == listed_positions(*app, filtered),
            forall|j: int| 0 <= j < pos.len() ==> 0 <= #[trigger] pos[j] < entries@.len(),
            entries == &app.browser.display_entries,
            out@.len() == k,
            forall|j: int|
                0 <= j < k ==> spans_view(#[trigger] out@[j]@) == browser_line(
                    *app,
                    entries_view(entries@)[pos[j]],
                    pos[j] == app.browser.selected_file,
                ),
        decreases positions.len() - k,
    {
        let p = positions[k];
        assert(pos[k as int] == p as int);
        assert(entries_view(entries@)[p as int] == entries@[p as int]@);
        let line = browser_entry_line(app, &entries[p], p == app.browser.selected_file);
        out.push(line);
        k += 1;
    }
    out
}

// ── The history list ─────────────────────────────────────────────────

/// One entry of the history list: the marker and name line, then the URL.
#[derive(Debug)]
pub struct HistoryLine {
    pub marker: StyledText,
    pub name: StyledText,
    pub url: StyledText,
}

/// The URLs of the listed entries can be shortened to 60 bytes without
/// slicing a character (std panics otherwise).
pub open spec fn urls_fit(h: Seq<HistoryEntryView>, rows: Seq<int>) -> bool {
    forall|k: int| 0 <= k < rows.len() ==> !truncation_panics(h[#[trigger] rows[k]].url, 60)
}

/// The history entries listed under the current filter.
pub open spec fn history_rows_of(o: AppState, h: Seq<HistoryEntryView>) -> Seq<int> {
    history_visible(h, o.search_query@)
}

pub fn history_lines(app: &AppState, history: &Vec<HistoryEntry>) -> (r: Vec<HistoryLine>)
    requires
        urls_fit(entries_of(history@), history_rows_of(*app, entries_of(history@))),
    ensures
        ({
            let h = entries_of(history@);
            let rows = history_rows_of(*app, h);
            let t = app.theme_state.theme.palette;
            &&& r@.len() == rows.len()
            &&& forall|k: int|
                0 <= k < rows.len() ==> {
                    let sel = k == app.history.selected;
                    let e = h[rows[k]];
                    &&& (#[trigger] r@[k]).marker.text@ == (if sel {
                        "▶ "@
                    } else {
                        "  "@
                    })
                    &&& r@[k].marker.style == fg_bg(t.accent, t.bg)
                    &&& r@[k].name.text@ == display_name_of(e)
                    &&& r@[k].name.style == (if sel {
                        fg_bg(t.accent, t.bg)
                    } else {
                        fg_bg(t.text_primary, t.bg)
                    })
                    &&& r@[k].url.text@ == "    "@ + truncated(e.url, 60)
                    &&& r@[k].url.style == fg_bg(t.text_dimmed, t.bg)
                }
        }),
{
    let ghost h = entries_of(history@);
    let rows = crate::handlers::history::history_visible_rows(history, app.search_query.as_str());
    proof {
        crate::handlers::history::lemma_history_visible_bounds(h, app.search_query@);
    }
    let ghost rv = usizes_view(rows@);
    let theme = &app.theme_state.theme;
    let mut out: Vec<HistoryLine> = Vec::new();
    let mut k: usize = 0;
    while k < rows.len()
        invariant
            k <= rows.len(),
            h == entries_of(history@),
            rv == usizes_view(rows@),
            rv == history_rows_of(*app, h),
            forall|j: int| 0 <= j < rv.len() ==> 0 <= #[trigger] rv[j] < h.len(),
            urls_fit(h, rv),
            theme == &app.theme_state.theme,
            out@.len() == k,
            forall|j: int|
                0 <= j < k ==> {
                    let sel = j == app.history.selected;
                    let e = h[rv[j]];
                    let t = app.theme_state.theme.palette;
                    &&& (#[trigger] out@[j]).marker.text@ == (if sel {
                        "▶ "@
                    } else {
                        "  "@
                    })
                    &&& out@[j].marker.style == fg_bg(t.accent, t.bg)
                    &&& out@[j].name.text@ == display_name_of(e)
                    &&& out@[j].name.style == (if sel {
                        fg_bg(t.accent, t.bg)
                    } else {
                        fg_bg(t.text_primary, t.bg)
                    })
                    &&& out@[j].url.text@ == "    "@ + truncated(e.url, 60)
                    &&& out@[j].url.style == fg_bg(t.text_dimmed, t.bg)
                },
        decreases rows.len() - k,
    {
        let i = rows[k];
        assert(rv[k as int] == i as int);
        assert(h[i as int] == history@[i as int]@);
        let e = &history[i];
        let sel = k == app.history.selected;
        assert(!truncation_panics(h[rv[k as int]].url, 60));
        let short = truncate(e.url.as_str(), 60);
        let mut u = chars_of("    ");
        push_str_chars(&mut u, short.as_str());
        out.push(
            HistoryLine {
                marker: span(if sel {
                    "▶ "
                } else {
                    "  "
                }, theme.accent_style()),
                name: span(display_name(e), if sel {
                    theme.accent_style()
                } else {
                    theme.text_style()
                }),
                url: span_of(&u, theme.dimmed_style()),
            },
        );
        k += 1;
    }
    out
}

// ── The delete dialog ────────────────────────────────────────────────

/// The names shown in the delete dialog, at most eight.
pub const DIALOG_NAMES: usize = 8;

/// The delete dialog's text.
#[derive(Debug)]
pub struct DeleteDialog {
    /// Height of the dialog in lines.
    pub height: u16,
    pub header: String,
    /// The first names, each indented and shortened to 50 bytes.
    pub names: Vec<String>,
    /// How many more files are selected, when there are more than shown.
    pub more: Option<String>,
    pub yes_style: StyleSpec,
    pub no_style: StyleSpec,
}

/// The selected names that the dialog shows can be shortened to 50 bytes
/// without slicing a character (std panics otherwise).
pub open spec fn dialog_names_fit(names: Seq<Seq<char>>) -> bool {
    forall|k: int| 0 <= k < names.len() && k < 8 ==> !truncation_panics(#[trigger] names[k], 50)
}

pub open spec fn selected_names_of(o: AppState) -> Seq<Seq<char>> {
    names_at(o.browser.files@, true_positions(o.browser.selected_files@))
}

pub fn delete_dialog(app: &AppState) -> (r: DeleteDialog)
    requires
        dialog_names_fit(selected_names_of(*app)),
    ensures
        ({
            let names = selected_names_of(*app);
            let n = names.len();
            let shown = if n < 8 {
                n
            } else {
                8
            };
            let t = app.theme_state.theme.palette;
            &&& r.height == shown + 8
            &&& r.header@ == " You are deleting "@ + decimal(n) + " file(s):"@
            &&& r.names@.len() == shown
            &&& forall|k: int|
                0 <= k < shown ==> (#[trigger] r.names@[k])@ == "   "@ + truncated(names[k], 50)
            &&& match r.more {
                Some(m) => n > 8 && m@ == "   ... and "@ + decimal((n - 8) as nat) + " more"@,
                None => n <= 8,
            }
            &&& r.yes_style == if app.browser.confirm_delete_yes {
                fg_bg(t.accent, t.bg)
            } else {
                fg_bg(t.text_primary, t.bg)
            }
            &&& r.no_style == if !app.browser.confirm_delete_yes {
                fg_bg(t.accent, t.bg)
            } else {
                fg_bg(t.text_primary, t.bg)
            }
        }),
{
    let names = crate::handlers::browser::selected_names(app);
    let ghost nv = names.deep_view();
    let n = names.len();
    let shown = if n < DIALOG_NAMES {
        n
    } else {
        DIALOG_NAMES
    };
    let mut header = chars_of(" You are deleting ");
    push_decimal(&mut header, n as u64);
    push_str_chars(&mut header, " file(s):");
    let mut lines: Vec<String> = Vec::new();
    let mut k: usize = 0;
    while k < shown
        invariant
            k <= shown <= n == names@.len(),
            shown <= 8,
            nv == names.deep_view(),
            dialog_names_fit(nv),
            lines@.len() == k,
            forall|j: int| 0 <= j < k ==> (#[trigger] lines@[j])@ == "   "@ + truncated(nv[j], 50),
        decreases shown - k,
    {
        assert(nv[k as int] == names@[k as int]@);
        assert(!truncation_panics(nv[k as int], 50));
        let short = truncate(names[k].as_str(), 50);
        let mut l = chars_of("   ");
        push_str_chars(&mut l, short.as_str());
        lines.push(string_from_chars(&l));
        k += 1;
    }
    let more = if n > DIALOG_NAMES {
        let mut m = chars_of("   ... and ");
        push_decimal(&mut m, (n - DIALOG_NAMES) as u64);
        push_str_chars(&mut m, " more");
        Some(string_from_chars(&m))
    } else {
        None
    };
    let theme = &app.theme_state.theme;
    let yes = app.browser.confirm_delete_yes;
    DeleteDialog {
        height: (shown + 8) as u16,
        header: string_from_chars(&header),
        names: lines,
        more,
        yes_style: if yes {
            theme.accent_style()
        } else {
            theme.text_style()
        },
        no_style: if !yes {
            theme.accent_style()
        } else {
            theme.text_style()
        },
    }
}

// ── The theme picker ─────────────────────────────────────────────────

/// The first listed row shown when `len` rows are listed in a window of
/// `visible` rows that last started at `scroll`, so that the selected row
/// stays in view.
pub open spec fn picker_scroll_of(selected: usize, scroll: usize, len: int, visible: int) -> int {
    if len == 0 {
        0
    } else {
        let sel = if selected < len - 1 {
            selected as int
        } else {
            len - 1
        };
        let s = if sel < scroll {
            sel
        } else if sel >= scroll + visible {
            sel - visible + 1
        } else {
            scroll as int
        };
        if s < len - visible {
            s
        } else {
            len - visible
        }
    }
}

/// A theme is listed as light when its name says so.
pub open spec fn light_name(name: Seq<char>) -> bool {
    contains_seq(name, "Light"@) || contains_seq(name, "Latte"@)
}

/// The theme picker's list.
#[derive(Debug)]
pub struct PickerList {
    /// The first listed row in view.
    pub scroll: usize,
    /// The rows in view.
    pub items: Vec<StyledText>,
}

/// The line of theme `t` in the picker.
pub open spec fn picker_line(o: AppState, t: ThemeView, selected: bool) -> (Seq<char>, StyleSpec) {
    let p = o.theme_state.theme.palette;
    (
        (if selected {
            "▶ "@
        } else {
            "  "@
        }) + t.name + if light_name(t.name) {
            "  [Light]"@
        } else {
            "  [Dark]"@
        },
        if selected {
            fg_bg(p.accent, p.bg)
        } else if t == o.theme_state.theme@ {
            fg_bg(p.success, p.bg)
        } else {
            fg_bg(p.text_primary, p.bg)
        },
    )
}

/// The picker's rows in a window `height` rows high.
pub fn picker_list_view(app: &AppState, height: u16) -> (r: PickerList)
    ensures
        ({
            let rows = picker_list(app.theme_state.picker_filter@);
            let visible = if (height as int) < rows.len() {
                height as int
            } else {
                rows.len() as int
            };
            let s = picker_scroll_of(
                app.theme_state.picker_selected,
                app.theme_state.picker_scroll,
                rows.len() as int,
                visible,
            );
            &&& r.scroll == s
            &&& r.items@.len() == visible
            &&& forall|k: int|
                0 <= k < visible ==> ((#[trigger] r.items@[k]).text@, r.items@[k].style)
                    == picker_line(
                    *app,
                    theme_table()[rows[s + k]],
                    s + k == app.theme_state.picker_selected,
                )
        }),
{
    let rows = picker_rows_of(app.theme_state.picker_filter.as_str());
    proof {
        crate::handlers::theme::lemma_picker_rows_bounds(
            theme_table(),
            crate::text::lower_text(app.theme_state.picker_filter@),
        );
    }
    let ghost rv = usizes_view(rows@);
    let len = rows.len();
    let visible: usize = if (height as usize) < len {
        height as usize
    } else {
        len
    };
    let selected = app.theme_state.picker_selected;
    let scroll0 = app.theme_state.picker_scroll;
    let scroll: usize = if len == 0 {
        0
    } else {
        let sel = if selected < len - 1 {
            selected
        } else {
            len - 1
        };
        let s = if sel < scroll0 {
            sel
        } else if sel - scroll0 >= visible {
            sel - visible + 1
        } else {
            scroll0
        };
        if s < len - visible {
            s
        } else {
            len - visible
        }
    };
    let all = Theme::all();
    let current = &app.theme_state.theme;
    let mut items: Vec<StyledText> = Vec::new();
    let mut k: usize = 0;
    while k < visible
        invariant
            k <= visible <= len == rows@.len(),
            scroll + visible <= len,
            rv == usizes_view(rows@),
            rv == picker_list(app.theme_state.picker_filter@),
            forall|j: int| 0 <= j < rv.len() ==> 0 <= #[trigger] rv[j] < theme_table().len(),
            themes_view(all@) == theme_table(),
            current == &app.theme_state.theme,
            selected == app.theme_state.picker_selected,
            items@.len() == k,
            forall|j: int|
                0 <= j < k ==> ((#[trigger] items@[j]).text@, items@[j].style) == picker_line(
                    *app,
                    theme_table()[rv[scroll + j]],
                    scroll + j == app.theme_state.picker_selected,
                ),
        decreases visible - k,
    {
        let idx = rows[scroll + k];
        assert(rv[scroll + k] == idx as int);
        assert(themes_view(all@)[idx as int] == all@[idx as int]@);
        let t = &all[idx];
        let sel = scroll + k == selected;
        let name = chars_of(t.name);
        let light = crate::text::contains_chars(&name, &chars_of("Light"))
            || crate::text::contains_chars(&name, &chars_of("Latte"));
        let mut text = chars_of(if sel {
            "▶ "
        } else {
            "  "
        });
        push_str_chars(&mut text, t.name);
        push_str_chars(&mut text, if light {
            "  [Light]"
        } else {
            "  [Dark]"
        });
        let style = if sel {
            current.accent_style()
        } else if t.same(current) {
            current.success_style()
        } else {
            current.text_style()
        };
        let item = span_of(&text, style);
        assert(light == light_name(theme_table()[rv[scroll + k]].name));
        assert(t.name@ == theme_table()[rv[scroll + k]].name);
        items.push(item);
        k += 1;
    }
    PickerList { scroll, items }
}

/// The picker's filter bar.
pub fn picker_filter_text(app: &AppState) -> (r: String)
    ensures
        r@ == "Filter: "@ + app.theme_state.picker_filter@,
{
    let mut v = chars_of("Filter: ");
    push_str_chars(&mut v, app.theme_state.picker_filter.as_str());
    string_from_chars(&v)
}

// ── The welcome menu, the input hint, the sidebar ────────────────────

/// The line of menu entry `e` at row `i`.
pub open spec fn menu_line(o: AppState, i: int, e: MenuEntry) -> (Seq<char>, StyleSpec) {
    let p = o.theme_state.theme.palette;
    let sel = i == o.welcome.menu_selected;
    (
        (if sel {
            "  > "@
        } else {
            "    "@
        }) + menu_label(e),
        if sel {
            fg_bg(p.accent, p.bg)
        } else if i == 0 {
            fg_bg(p.success, p.bg)
        } else if i == 1 {
            fg_bg(p.badge_stream, p.bg)
        } else {
            fg_bg(p.warning, p.bg)
        },
    )
}

pub fn menu_lines(app: &AppState) -> (r: Vec<StyledText>)
    ensures
        r@.len() == 3,
        forall|i: int| 0 <= i < 3 ==> ((#[trigger] r@[i]).text@, r@[i].style) == menu_line(*app, i, menu_order()[i]),
{
    let theme = &app.theme_state.theme;
    let entries = MenuEntry::all();
    let mut out: Vec<StyledText> = Vec::new();
    let mut i: usize = 0;
    while i < 3
        invariant
            i <= 3,
            entries@ == menu_order(),
            theme == &app.theme_state.theme,
            out@.len() == i,
            forall|k: int| 0 <= k < i ==> ((#[trigger] out@[k]).text@, out@[k].style) == menu_line(*app, k, menu_order()[k]),
        decreases 3 - i,
    {
        let sel = i == app.welcome.menu_selected;
        let mut text = chars_of(if sel {
            "  > "
        } else {
            "    "
        });
        push_str_chars(&mut text, entries[i].label());
        let style = if sel {
            theme.accent_style()
        } else if i == 0 {
            theme.success_style()
        } else if i == 1 {
            theme.badge_stream_style()
        } else {
            theme.warning_style()
        };
        out.push(span_of(&text, style));
        i += 1;
    }
    out
}

/// The hint under the input field, shown once something is typed.
pub fn cursor_hint(app: &AppState) -> (r: Option<String>)
    ensures
        app.input.value@.len() == 0 ==> r is None,
        app.input.value@.len() > 0 ==> (r matches Some(h) && h@ == "cursor at position "@ + decimal(
            app.input.cursor as nat,
        )),
{
    if app.input.value.as_str().is_empty() {
        return None;
    }
    let mut v = chars_of("cursor at position ");
    push_decimal(&mut v, app.input.cursor as u64);
    Some(string_from_chars(&v))
}

/// The sidebar's title.
pub fn downloads_title(count: usize) -> (r: String)
    ensures
        r@ == " Downloads ("@ + decimal(count as nat) + ") "@,
{
    let mut v = chars_of(" Downloads (");
    push_decimal(&mut v, count as u64);
    push_str_chars(&mut v, ") ");
    string_from_chars(&v)
}

/// How many downloads fit in a sidebar `height` lines high, five lines each
/// inside its border.
pub fn downloads_capacity(height: u16) -> (r: u16)
    ensures
        r == minus(height as int, 2) / 5,
{
    if height >= 2 {
        (height - 2) / 5
    } else {
        0
    }
}

} // verus!
