//! Keys on the torrent file browser: moving, expanding folders, watching,
//! downloading, selecting, renaming and deleting files, and searching.
use super::common::{
    cat, cat3, clear_string, left_browser, leave_browser, set_status, status_set, error_set,
    Action, KeyCode, KeyPress, is_char,
};
use super::screens::{cursor_file, file_index_at, file_name_at, file_under_cursor};
use crate::model::{entries_view, DisplayEntry, DisplayEntryView, InputState, Screen};
use crate::state::{
    clamped, expanded_set, lemma_true_positions_bounds, lemma_visible_bounds, true_positions,
    tree_of, usizes_view, visible_entries_of, visible_of, AppState, BrowserState,
};
use crate::storage::{contains_string, remove_file, without_file};
use crate::text::{
    chars_of, decimal, push_chars, push_decimal, push_str_chars, str_len, string_from_chars,
    string_pop, string_push, to_owned_string,
};
use vstd::prelude::*;

verus! {

pub open spec fn visible_len(o: AppState) -> int {
    visible_entries_of(o).len() as int
}

/// The browser cursor moved up or down within the visible rows.
pub open spec fn moved(o: AppState, n: AppState, key: KeyPress) -> bool {
    let sel = o.browser.selected_file;
    let len = visible_len(o);
    let new_sel = if key.code == KeyCode::Up || is_char(key, 'k') {
        if len > 0 && sel > 0 {
            (sel - 1) as usize
        } else {
            sel
        }
    } else if sel < (if len > 0 {
        len - 1
    } else {
        0
    }) {
        (sel + 1) as usize
    } else {
        sel
    };
    n == AppState { browser: BrowserState { selected_file: new_sel, ..o.browser }, ..o }
}

fn move_cursor(app: &mut AppState, key: KeyPress)
    requires
        key.code == KeyCode::Up || is_char(key, 'k') || key.code == KeyCode::Down || is_char(
            key,
            'j',
        ),
    ensures
        moved(*old(app), *final(app), key),
{
    let len = app.visible_entries().len();
    if key.code == KeyCode::Up || key.code == KeyCode::Char('k') {
        if len > 0 && app.browser.selected_file > 0 {
            app.browser.selected_file -= 1;
        }
    } else {
        let last = if len > 0 {
            len - 1
        } else {
            0
        };
        if app.browser.selected_file < last {
            app.browser.selected_file += 1;
        }
    }
}

// ── Folder paths ─────────────────────────────────────────────────────

/// The folder names collected while scanning the `k` rows just above the
/// cursor row `sel`, nearest first: folders shallower than `depth`, at
/// most `depth` of them.
pub open spec fn ancestor_scan(entries: Seq<DisplayEntryView>, sel: int, depth: usize, k: int) -> Seq<
    Seq<char>,
>
    decreases k,
{
    if k <= 0 {
        Seq::empty()
    } else {
        let acc = ancestor_scan(entries, sel, depth, k - 1);
        let i = sel - k;
        if 0 <= i < entries.len() && acc.len() < depth {
            match entries[i] {
                DisplayEntryView::Folder { name, depth: d, .. } => if d < depth {
                    acc.push(name)
                } else {
                    acc
                },
                _ => acc,
            }
        } else {
            acc
        }
    }
}

/// The path made of the segments, each followed by `/`.
pub open spec fn path_of_segments(segs: Seq<Seq<char>>) -> Seq<char>
    decreases segs.len(),
{
    if segs.len() == 0 {
        Seq::empty()
    } else {
        path_of_segments(segs.drop_last()) + segs.last() + seq!['/']
    }
}

/// The path of the folder `name` at `depth` on the cursor row: the
/// shallower folders found above it, outermost first, then the folder.
pub open spec fn folder_path_spec(o: AppState, depth: usize, name: Seq<char>) -> Seq<char> {
    let sel = o.browser.selected_file as int;
    path_of_segments(
        ancestor_scan(entries_view(o.browser.display_entries@), sel, depth, sel).reverse().push(
            name,
        ),
    )
}

/// The name on a row, when it is a folder.
pub open spec fn row_folder_name(e: DisplayEntryView) -> Seq<char> {
    match e {
        DisplayEntryView::Folder { name, .. } => name,
        _ => Seq::empty(),
    }
}

/// Whether a row is a folder at a depth below `depth`.
pub open spec fn row_folder_above(e: DisplayEntryView, depth: usize) -> bool {
    e matches DisplayEntryView::Folder { depth: d, .. } && d < depth
}

/// The segments written outermost first, each followed by `/`.
pub open spec fn slash_path(segs: Seq<Seq<char>>) -> Seq<char>
    decreases segs.len(),
{
    if segs.len() == 0 {
        Seq::empty()
    } else {
        segs[0] + seq!['/'] + slash_path(segs.drop_first())
    }
}

proof fn lemma_slash_path_push(segs: Seq<Seq<char>>, x: Seq<char>)
    ensures
        slash_path(segs.push(x)) == slash_path(segs) + x + seq!['/'],
    decreases segs.len(),
{
    if segs.len() == 0 {
        reveal_with_fuel(slash_path, 2);
        assert(segs.push(x).drop_first() =~= Seq::<Seq<char>>::empty());
        assert(x + seq!['/'] + Seq::<char>::empty() =~= Seq::<char>::empty() + x + seq!['/']);
    } else {
        assert(segs.push(x).drop_first() =~= segs.drop_first().push(x));
        lemma_slash_path_push(segs.drop_first(), x);
        assert(segs[0] + seq!['/'] + (slash_path(segs.drop_first()) + x + seq!['/']) =~= (segs[0]
            + seq!['/'] + slash_path(segs.drop_first())) + x + seq!['/']);
    }
}

proof fn lemma_path_of_segments_slash(segs: Seq<Seq<char>>)
    ensures
        path_of_segments(segs) == slash_path(segs),
    decreases segs.len(),
{
    if segs.len() > 0 {
        lemma_path_of_segments_slash(segs.drop_last());
        lemma_slash_path_push(segs.drop_last(), segs.last());
        assert(segs.drop_last().push(segs.last()) =~= segs);
    }
}

/// The rows `rows` (nearest first) are the folders the cursor row sits in,
/// one at each depth below `depth`, and every folder row shallower than
/// `depth` between the outermost of them and the cursor is one of them.
pub open spec fn rows_are_ancestors(
    entries: Seq<DisplayEntryView>,
    sel: int,
    depth: usize,
    rows: Seq<int>,
) -> bool {
    &&& rows.len() == depth
    &&& forall|j: int|
        0 <= j < depth ==> 0 <= #[trigger] rows[j] < sel && rows[j] < entries.len() && (
        entries[rows[j]] matches DisplayEntryView::Folder { depth: d, .. } && d == depth - 1 - j)
    &&& forall|a: int, b: int| 0 <= a < b < depth ==> #[trigger] rows[a] > #[trigger] rows[b]
    &&& forall|i: int|
        depth > 0 && rows[depth - 1] <= i < sel && 0 <= i < entries.len() && #[trigger]
            row_folder_above(entries[i], depth) ==> exists|j: int| 0 <= j < depth && rows[j] == i
}

proof fn lemma_scan_finds_ancestors(
    entries: Seq<DisplayEntryView>,
    sel: int,
    depth: usize,
    rows: Seq<int>,
    kk: int,
    j: int,
)
    requires
        rows_are_ancestors(entries, sel, depth, rows),
        0 <= kk <= sel,
        0 <= j <= depth,
        forall|jj: int| 0 <= jj < j ==> #[trigger] rows[jj] >= sel - kk,
        j == depth || rows[j] < sel - kk,
    ensures
        ancestor_scan(entries, sel, depth, kk) == Seq::new(
            j as nat,
            |jj: int| row_folder_name(entries[rows[jj]]),
        ),
    decreases kk,
{
    let names = Seq::new(j as nat, |jj: int| row_folder_name(entries[rows[jj]]));
    if kk == 0 {
        if j > 0 {
            assert(rows[0] >= sel);
        }
        assert(names =~= Seq::<Seq<char>>::empty());
    } else {
        let i = sel - kk;
        if j > 0 && rows[j - 1] == i {
            assert forall|jj: int| 0 <= jj < j - 1 implies #[trigger] rows[jj] >= sel - (kk - 1) by {
                assert(rows[jj] > rows[j - 1]);
            }
            lemma_scan_finds_ancestors(entries, sel, depth, rows, kk - 1, j - 1);
            assert(names =~= Seq::new((j - 1) as nat, |jj: int| row_folder_name(entries[rows[jj]])).push(
                row_folder_name(entries[i]),
            ));
        } else {
            assert forall|jj: int| 0 <= jj < j implies #[trigger] rows[jj] >= sel - (kk - 1) by {
                if jj < j - 1 {
                    assert(rows[jj] > rows[j - 1]);
                }
            }
            lemma_scan_finds_ancestors(entries, sel, depth, rows, kk - 1, j);
            if j < depth && 0 <= i < entries.len() && row_folder_above(entries[i], depth) {
                assert(rows[depth - 1] <= rows[j]);
                let jj = choose|jj: int| 0 <= jj < depth && rows[jj] == i;
                if jj < j - 1 {
                    assert(rows[jj] > rows[j - 1]);
                } else if jj >= j {
                    if jj > j {
                        assert(rows[jj] < rows[j]);
                    }
                }
            }
        }
    }
}

/// Enter on a folder row toggles that folder's own path: when the folders
/// the row sits in are on the rows `rows` (nearest first, one per depth
/// below the row's), the path is their names outermost first, then the
/// folder's name, each followed by `/`.
pub proof fn folder_path_follows_ancestors(o: AppState, depth: usize, name: Seq<char>, rows: Seq<int>)
    requires
        rows_are_ancestors(
            entries_view(o.browser.display_entries@),
            o.browser.selected_file as int,
            depth,
            rows,
        ),
    ensures
        folder_path_spec(o, depth, name) == slash_path(
            Seq::new(
                depth as nat,
                |j: int|
                    row_folder_name(
                        entries_view(o.browser.display_entries@)[rows[depth - 1 - j]],
                    ),
            ).push(name),
        ),
{
    let e = entries_view(o.browser.display_entries@);
    let sel = o.browser.selected_file as int;
    lemma_scan_finds_ancestors(e, sel, depth, rows, sel, depth as int);
    let names = Seq::new(depth as nat, |jj: int| row_folder_name(e[rows[jj]]));
    let outer = Seq::new(depth as nat, |j: int| row_folder_name(e[rows[depth - 1 - j]]));
    assert(names.reverse() =~= outer);
    lemma_path_of_segments_slash(outer.push(name));
}

pub fn folder_path(app: &AppState, depth: usize, name: &str) -> (r: String)
    ensures
        r@ == folder_path_spec(*app, depth, name@),
{
    let entries = &app.browser.display_entries;
    let sel = app.browser.selected_file;
    let ghost ev = entries_view(entries@);
    let mut ancestors: Vec<Vec<char>> = Vec::new();
    let mut k: usize = 0;
    while k < sel
        invariant
            k <= sel == app.browser.selected_file,
            ev == entries_view(entries@),
            crate::tree::names_view(ancestors@) == ancestor_scan(ev, sel as int, depth, k as int),
        decreases sel - k,
    {
        let i = sel - (k + 1);
        let ghost acc = crate::tree::names_view(ancestors@);
        if i < entries.len() && ancestors.len() < depth {
            assert(ev[i as int] == entries@[i as int]@);
            match &entries[i] {
                DisplayEntry::Folder { name: n, depth: d, .. } => {
                    if *d < depth {
                        ancestors.push(chars_of(n.as_str()));
                        assert(crate::tree::names_view(ancestors@) =~= acc.push(n@));
                    }
                },
                _ => {},
            }
        }
        k += 1;
    }
    let ghost segs = crate::tree::names_view(ancestors@).reverse().push(name@);
    let mut full: Vec<char> = Vec::new();
    let mut j: usize = ancestors.len();
    let ghost rev = crate::tree::names_view(ancestors@).reverse();
    while j > 0
        invariant
            j <= ancestors.len(),
            rev == crate::tree::names_view(ancestors@).reverse(),
            full@ == path_of_segments(rev.take((ancestors.len() - j) as int)),
        decreases j,
    {
        let ghost before = full@;
        let seg = &ancestors[j - 1];
        push_chars(&mut full, seg);
        full.push('/');
        proof {
            let t = (ancestors.len() - j) as int;
            assert(rev.take(t + 1).drop_last() =~= rev.take(t));
            assert(rev[t] == ancestors@[j - 1]@);
            assert(rev.take(t + 1).last() == rev[t]);
        }
        j -= 1;
        assert(full@ =~= path_of_segments(rev.take((ancestors.len() - j) as int)));
    }
    assert(rev.take(rev.len() as int) =~= rev);
    push_str_chars(&mut full, name);
    full.push('/');
    assert(segs.drop_last() =~= rev);
    assert(full@ =~= path_of_segments(segs));
    string_from_chars(&full)
}

// ── Expanding folders ────────────────────────────────────────────────

/// The expanded paths with `full` toggled: taken out when present, else
/// added at the end.
pub open spec fn toggled(paths: Seq<Seq<char>>, full: Seq<char>) -> Seq<Seq<char>> {
    if paths.contains(full) {
        without_file(paths, full)
    } else {
        paths.push(full)
    }
}

/// Enter on the folder under the cursor (counted among all rows): its
/// expansion is toggled and the tree rebuilt.
pub open spec fn folder_toggled(o: AppState, n: AppState, name: Seq<char>, depth: usize) -> bool {
    let full = folder_path_spec(o, depth, name);
    let mid = AppState {
        browser: BrowserState { expanded_paths: n.browser.expanded_paths, ..o.browser },
        ..o
    };
    &&& n.browser.expanded_paths.deep_view() == toggled(o.browser.expanded_paths.deep_view(), full)
    &&& entries_view(n.browser.display_entries@) == tree_of(mid)
    &&& n.browser.selected_file == clamped(
        o.browser.selected_file,
        visible_of(tree_of(mid), o.search_query@).len() as int,
    )
    &&& n == AppState {
        browser: BrowserState {
            expanded_paths: n.browser.expanded_paths,
            display_entries: n.browser.display_entries,
            selected_file: n.browser.selected_file,
            ..o.browser
        },
        ..o
    }
}

fn toggle_expanded(app: &mut AppState, full: &String)
    ensures
        final(app).browser.expanded_paths.deep_view() == toggled(
            old(app).browser.expanded_paths.deep_view(),
            full@,
        ),
        old(app).browser.expanded_paths.deep_view().no_duplicates()
            ==> final(app).browser.expanded_paths.deep_view().no_duplicates(),
        *final(app) == (AppState {
            browser: BrowserState {
                expanded_paths: final(app).browser.expanded_paths,
                ..old(app).browser
            },
            ..*old(app)
        }),
{
    if contains_string(&app.browser.expanded_paths, full.as_str()) {
        app.browser.expanded_paths = remove_file(&app.browser.expanded_paths, full.as_str());
    } else {
        app.browser.expanded_paths.push(full.clone());
        assert(app.browser.expanded_paths.deep_view() =~= old(
            app,
        ).browser.expanded_paths.deep_view().push(full@));
    }
    proof {
        if old(app).browser.expanded_paths.deep_view().no_duplicates() {
            toggle_keeps_paths_unique(old(app).browser.expanded_paths.deep_view(), full@);
        }
    }
}

/// Enter in the browser: toggles the folder under the cursor, or watches
/// the file.
pub open spec fn enter_effect(o: AppState, n: AppState, act: Option<Action>) -> bool {
    let sel = o.browser.selected_file as int;
    if sel < o.browser.display_entries@.len() {
        match entries_view(o.browser.display_entries@)[sel] {
            DisplayEntryView::Folder { name, depth, .. } => act is None && folder_toggled(
                o,
                n,
                name,
                depth,
            ),
            DisplayEntryView::File { .. } => watch_effect(o, n, act),
        }
    } else {
        act is None && n == o
    }
}

pub fn browser_enter(app: &mut AppState) -> (act: Option<Action>)
    ensures
        enter_effect(*old(app), *final(app), act),
        old(app).browser.expanded_paths.deep_view().no_duplicates()
            ==> final(app).browser.expanded_paths.deep_view().no_duplicates(),
{
    let sel = app.browser.selected_file;
    if sel >= app.browser.display_entries.len() {
        return None;
    }
    assert(entries_view(app.browser.display_entries@)[sel as int]
        == app.browser.display_entries@[sel as int]@);
    let folder = match &app.browser.display_entries[sel] {
        DisplayEntry::Folder { name, depth, .. } => Some((name.clone(), *depth)),
        DisplayEntry::File { .. } => None,
    };
    match folder {
        Some((name, depth)) => {
            let full = folder_path(app, depth, name.as_str());
            toggle_expanded(app, &full);
            app.rebuild_entries();
            None
        },
        None => watch_file(app),
    }
}

/// Toggling a folder's expansion twice leaves the set of expanded paths,
/// and so the tree, as it was.
pub proof fn expand_collapse_restores(paths: Seq<Seq<char>>, full: Seq<char>)
    ensures
        toggled(toggled(paths, full), full).to_set() == paths.to_set(),
{
    if paths.contains(full) {
        lemma_without_file_not_contains(paths, full);
        lemma_without_file_then_push(paths, full);
    } else {
        assert(paths.push(full).contains(full)) by {
            assert(paths.push(full)[paths.len() as int] == full);
        }
        lemma_without_file_absent(paths.push(full).drop_last(), full);
        assert(paths.push(full).drop_last() =~= paths);
        assert(paths.push(full).last() == full);
    }
}

/// Toggling a folder keeps every expanded path listed once.
pub proof fn toggle_keeps_paths_unique(paths: Seq<Seq<char>>, full: Seq<char>)
    requires
        paths.no_duplicates(),
    ensures
        toggled(paths, full).no_duplicates(),
{
    if paths.contains(full) {
        lemma_without_file_unique(paths, full);
    } else {
        let q = paths.push(full);
        assert forall|i: int, j: int| 0 <= i < q.len() && 0 <= j < q.len() && i != j implies q[i]
            != q[j] by {
            if i < paths.len() && j < paths.len() {
                assert(q[i] == paths[i] && q[j] == paths[j]);
            } else if i < paths.len() {
                assert(q[i] == paths[i]);
            } else {
                assert(q[j] == paths[j]);
            }
        }
    }
}

proof fn lemma_without_file_unique(paths: Seq<Seq<char>>, full: Seq<char>)
    requires
        paths.no_duplicates(),
    ensures
        without_file(paths, full).no_duplicates(),
    decreases paths.len(),
{
    if paths.len() > 0 {
        let p = paths.drop_last();
        assert(p.no_duplicates()) by {
            assert forall|i: int, j: int| 0 <= i < p.len() && 0 <= j < p.len() && i != j implies p[i]
                != p[j] by {
                assert(p[i] == paths[i] && p[j] == paths[j]);
            }
        }
        lemma_without_file_unique(p, full);
        lemma_without_file_members(p, full);
        let acc = without_file(p, full);
        let last = paths.last();
        if last != full {
            assert(!acc.contains(last)) by {
                if acc.contains(last) {
                    assert(p.contains(last));
                    let j = choose|j: int| 0 <= j < p.len() && p[j] == last;
                    assert(paths[j] == paths[paths.len() - 1]);
                }
            }
            let q = acc.push(last);
            assert forall|i: int, j: int| 0 <= i < q.len() && 0 <= j < q.len() && i != j implies q[i]
                != q[j] by {
                if i < acc.len() && j < acc.len() {
                    assert(q[i] == acc[i] && q[j] == acc[j]);
                } else if i < acc.len() {
                    assert(q[i] == acc[i]);
                } else {
                    assert(q[j] == acc[j]);
                }
            }
        }
    }
}

proof fn lemma_without_file_absent(paths: Seq<Seq<char>>, full: Seq<char>)
    requires
        !paths.contains(full),
    ensures
        without_file(paths, full) == paths,
    decreases paths.len(),
{
    if paths.len() > 0 {
        assert(!paths.drop_last().contains(full)) by {
            if paths.drop_last().contains(full) {
                let i = choose|i: int| 0 <= i < paths.drop_last().len() && paths.drop_last()[i] == full;
                assert(paths[i] == full);
            }
        }
        lemma_without_file_absent(paths.drop_last(), full);
        assert(paths.last() != full) by {
            if paths.last() == full {
                assert(paths[paths.len() - 1] == full);
            }
        }
        assert(paths.drop_last().push(paths.last()) =~= paths);
    }
}

proof fn lemma_without_file_not_contains(paths: Seq<Seq<char>>, full: Seq<char>)
    ensures
        !without_file(paths, full).contains(full),
    decreases paths.len(),
{
    if paths.len() > 0 {
        lemma_without_file_not_contains(paths.drop_last(), full);
        let acc = without_file(paths.drop_last(), full);
        if paths.last() != full {
            assert(!acc.push(paths.last()).contains(full)) by {
                if acc.push(paths.last()).contains(full) {
                    let i = choose|i: int| 0 <= i < acc.push(paths.last()).len() && acc.push(
                        paths.last(),
                    )[i] == full;
                    if i < acc.len() {
                        assert(acc[i] == full);
                    }
                }
            }
        }
    }
}

/// Taking `full` out and putting it back at the end gives the same set
/// of paths.
proof fn lemma_without_file_then_push(paths: Seq<Seq<char>>, full: Seq<char>)
    requires
        paths.contains(full),
    ensures
        without_file(paths, full).push(full).to_set() == paths.to_set(),
{
    lemma_without_file_members(paths, full);
    let w = without_file(paths, full);
    let wp = w.push(full);
    assert forall|x: Seq<char>| paths.to_set().contains(x) <==> wp.to_set().contains(x) by {
        if paths.contains(x) {
            if x == full {
                assert(wp[w.len() as int] == full);
            } else {
                assert(w.contains(x));
                let i = choose|i: int| 0 <= i < w.len() && w[i] == x;
                assert(wp[i] == x);
            }
        }
        if wp.contains(x) {
            let i = choose|i: int| 0 <= i < wp.len() && wp[i] == x;
            if i < w.len() {
                assert(w[i] == x);
                assert(w.contains(x));
            }
        }
    }
    assert(wp.to_set() =~= paths.to_set());
}

/// What is left after taking out `full` is everything else in `paths`.
proof fn lemma_without_file_members(paths: Seq<Seq<char>>, full: Seq<char>)
    ensures
        forall|x: Seq<char>| #[trigger]
            without_file(paths, full).contains(x) <==> (paths.contains(x) && x != full),
    decreases paths.len(),
{
    if paths.len() > 0 {
        let p = paths.drop_last();
        lemma_without_file_members(p, full);
        let acc = without_file(p, full);
        assert forall|x: Seq<char>| #[trigger]
            without_file(paths, full).contains(x) <==> (paths.contains(x) && x != full) by {
            if without_file(paths, full).contains(x) {
                let w = without_file(paths, full);
                let i = choose|i: int| 0 <= i < w.len() && w[i] == x;
                if i < acc.len() {
                    assert(acc.contains(x));
                    let j = choose|j: int| 0 <= j < p.len() && p[j] == x;
                    assert(paths[j] == x);
                } else {
                    assert(paths[paths.len() - 1] == x);
                }
            }
            if paths.contains(x) && x != full {
                let j = choose|j: int| 0 <= j < paths.len() && paths[j] == x;
                if j < p.len() {
                    assert(p[j] == x);
                    assert(acc.contains(x));
                    let k = choose|k: int| 0 <= k < acc.len() && acc[k] == x;
                    assert(without_file(paths, full)[k] == x);
                } else {
                    assert(paths.last() == x);
                    assert(without_file(paths, full)[acc.len() as int] == x);
                }
            }
        }
    }
}

// ── Watching, selecting, downloading, renaming ───────────────────────

pub open spec fn watch_effect(o: AppState, n: AppState, act: Option<Action>) -> bool {
    match cursor_file(o) {
        None => act is None && error_set(o, n, "Select a file to watch, not a folder."@),
        Some(d) => match o.pending_url {
            None => act is None && error_set(o, n, "No pending URL"@),
            Some(u) => {
                &&& act matches Some(Action::Watch { url, file_index, file_name }) && url@ == u@
                    && file_index as int == file_index_at(o, d) && file_name@ == file_name_at(o, d)
                &&& n.status_message@ == "Streaming: "@ + file_name_at(o, d)
                &&& n == AppState {
                    screen: Screen::Loading,
                    status_message: n.status_message,
                    task_busy: true,
                    ..o
                }
            },
        },
    }
}

pub fn watch_file(app: &mut AppState) -> (act: Option<Action>)
    ensures
        watch_effect(*old(app), *final(app), act),
{
    let d = match file_under_cursor(app) {
        Some(d) => d,
        None => {
            app.set_error("Select a file to watch, not a folder.");
            return None;
        },
    };
    assert(entries_view(app.browser.display_entries@)[d as int] == app.browser.display_entries@[d as int]@);
    let (index, name) = match &app.browser.display_entries[d] {
        DisplayEntry::File { file, .. } => (file.index, file.name.clone()),
        DisplayEntry::Folder { .. } => (0, String::new()),
    };
    let url = match &app.pending_url {
        Some(u) => u.clone(),
        None => {
            app.set_error("No pending URL");
            return None;
        },
    };
    app.screen = Screen::Loading;
    app.status_message = cat("Streaming: ", name.as_str());
    app.task_busy = true;
    Some(Action::Watch { url, file_index: index, file_name: name })
}

pub open spec fn toggle_effect(o: AppState, n: AppState) -> bool {
    match cursor_file(o) {
        Some(d) if 0 <= file_index_at(o, d) < o.browser.selected_files@.len() => {
            let k = file_index_at(o, d);
            n == AppState {
                browser: BrowserState { selected_files: n.browser.selected_files, ..o.browser },
                ..o
            } && n.browser.selected_files@ == o.browser.selected_files@.update(
                k,
                !o.browser.selected_files@[k],
            )
        },
        _ => n == o,
    }
}

/// Toggling the file under the cursor twice leaves the selection as it was.
pub proof fn toggle_twice_restores(o: AppState, m: AppState, n: AppState)
    requires
        toggle_effect(o, m),
        toggle_effect(m, n),
    ensures
        n.browser.selected_files@ == o.browser.selected_files@,
        n == (AppState {
            browser: BrowserState { selected_files: n.browser.selected_files, ..o.browser },
            ..o
        }),
{
    assert(visible_entries_of(m) == visible_entries_of(o));
    assert(cursor_file(m) == cursor_file(o));
    match cursor_file(o) {
        Some(d) => {
            if 0 <= file_index_at(o, d) < o.browser.selected_files@.len() {
                let k = file_index_at(o, d);
                assert(file_index_at(m, d) == k);
                assert(m.browser.selected_files@.update(k, !m.browser.selected_files@[k])
                    =~= o.browser.selected_files@);
            }
        },
        None => {},
    }
}

pub fn toggle_selection(app: &mut AppState)
    ensures
        toggle_effect(*old(app), *final(app)),
{
    let d = match file_under_cursor(app) {
        Some(d) => d,
        None => return ,
    };
    assert(entries_view(app.browser.display_entries@)[d as int] == app.browser.display_entries@[d as int]@);
    let idx = match &app.browser.display_entries[d] {
        DisplayEntry::File { file, .. } => file.index,
        DisplayEntry::Folder { .. } => usize::MAX,
    };
    if idx < app.browser.selected_files.len() {
        let v = !app.browser.selected_files[idx];
        app.browser.selected_files.set(idx, v);
    }
}

/// The label of a batch download: the one file's name, or `N files`.
pub open spec fn batch_label(o: AppState, idx: Seq<int>) -> Seq<char> {
    if idx.len() == 1 {
        if idx[0] < o.browser.files@.len() {
            o.browser.files@[idx[0]].name@
        } else {
            Seq::empty()
        }
    } else {
        decimal(idx.len()) + " files"@
    }
}

pub open spec fn download_effect(o: AppState, n: AppState, act: Option<Action>) -> bool {
    let idx = true_positions(o.browser.selected_files@);
    if idx.len() == 0 {
        act is None && error_set(o, n, "No files selected. Press Space to toggle selection."@)
    } else {
        match o.pending_url {
            None => act is None && error_set(o, n, "No pending URL"@),
            Some(u) => {
                &&& act matches Some(Action::DownloadBatch { url, indices, label, output_dir })
                    && url@ == u@ && usizes_view(indices@) == idx && label@ == batch_label(o, idx)
                    && output_dir@ == o.config.download_dir@
                &&& n.status_message@ == "Downloading: "@ + batch_label(o, idx)
                &&& n == AppState {
                    screen: Screen::Loading,
                    status_message: n.status_message,
                    task_busy: true,
                    ..o
                }
            },
        }
    }
}

pub fn download_batch(app: &mut AppState) -> (act: Option<Action>)
    ensures
        download_effect(*old(app), *final(app), act),
{
    let indices = app.selected_indices();
    if indices.len() == 0 {
        app.set_error("No files selected. Press Space to toggle selection.");
        return None;
    }
    let url = match &app.pending_url {
        Some(u) => u.clone(),
        None => {
            app.set_error("No pending URL");
            return None;
        },
    };
    let label = if indices.len() == 1 {
        assert(usizes_view(indices@)[0] == indices@[0] as int);
        if indices[0] < app.browser.files.len() {
            app.browser.files[indices[0]].name.clone()
        } else {
            String::new()
        }
    } else {
        let mut v: Vec<char> = Vec::new();
        push_decimal(&mut v, indices.len() as u64);
        push_str_chars(&mut v, " files");
        assert(v@ =~= decimal(indices@.len()) + " files"@);
        string_from_chars(&v)
    };
    app.screen = Screen::Loading;
    app.status_message = cat("Downloading: ", label.as_str());
    app.task_busy = true;
    let output_dir = app.config.download_dir.clone();
    Some(Action::DownloadBatch { url, indices, label, output_dir })
}

pub open spec fn start_rename_effect(o: AppState, n: AppState) -> bool {
    match cursor_file(o) {
        Some(d) => {
            let name = file_name_at(o, d);
            &&& n.rename_input.value@ == name
            &&& n.rename_input.cursor == str_len(name)
            &&& n.status_message@ == "Renaming: "@ + name + " (Enter to confirm, Esc to cancel)"@
            &&& n == AppState {
                renaming: true,
                rename_input: n.rename_input,
                status_message: n.status_message,
                ..o
            }
        },
        None => n == o,
    }
}

pub fn start_rename(app: &mut AppState)
    ensures
        start_rename_effect(*old(app), *final(app)),
{
    let d = match file_under_cursor(app) {
        Some(d) => d,
        None => return ,
    };
    assert(entries_view(app.browser.display_entries@)[d as int] == app.browser.display_entries@[d as int]@);
    let name = match &app.browser.display_entries[d] {
        DisplayEntry::File { file, .. } => file.name.clone(),
        DisplayEntry::Folder { .. } => String::new(),
    };
    app.renaming = true;
    let cursor = name.as_str().len();
    app.status_message = cat3("Renaming: ", name.as_str(), " (Enter to confirm, Esc to cancel)");
    app.rename_input = InputState { value: name, cursor };
}

// ── Deleting files ───────────────────────────────────────────────────

/// The names of the files at the given positions (positions past the end
/// are skipped).
pub open spec fn names_at(files: Seq<crate::model::TorrentFile>, idx: Seq<int>) -> Seq<Seq<char>>
    decreases idx.len(),
{
    if idx.len() == 0 {
        Seq::empty()
    } else {
        let acc = names_at(files, idx.drop_last());
        if 0 <= idx.last() < files.len() {
            acc.push(files[idx.last()].name@)
        } else {
            acc
        }
    }
}

/// The browsed URL, or the empty text.
pub open spec fn url_or_empty(o: AppState) -> Seq<char> {
    match o.pending_url {
        Some(u) => u@,
        None => Seq::empty(),
    }
}

pub open spec fn confirm_effect(o: AppState, n: AppState, key: KeyPress, act: Option<Action>) -> bool {
    let b = o.browser;
    if key.code == KeyCode::Enter || is_char(key, 'y') {
        &&& act matches Some(Action::DeleteFiles { url, names }) && url@ == url_or_empty(o)
            && names.deep_view() == names_at(b.files@, true_positions(b.selected_files@))
        &&& n == AppState { browser: BrowserState { confirm_delete_yes: true, ..b }, ..o }
    } else if key.code == KeyCode::Esc || is_char(key, 'q') || is_char(key, 'n') {
        act is None && n == AppState {
            browser: BrowserState { confirm_delete: false, confirm_delete_yes: false, ..b },
            ..o
        }
    } else if key.code == KeyCode::Left || key.code == KeyCode::Right || key.code == KeyCode::Tab {
        act is None && n == AppState {
            browser: BrowserState { confirm_delete_yes: !b.confirm_delete_yes, ..b },
            ..o
        }
    } else if is_char(key, 'h') {
        act is None && n == AppState {
            browser: BrowserState { confirm_delete_yes: false, ..b },
            ..o
        }
    } else if is_char(key, 'l') {
        act is None && n == AppState {
            browser: BrowserState { confirm_delete_yes: true, ..b },
            ..o
        }
    } else {
        act is None && n == o
    }
}

/// The names of the selected files, in file order.
pub fn selected_names(app: &AppState) -> (names: Vec<String>)
    ensures
        names.deep_view() == names_at(app.browser.files@, true_positions(app.browser.selected_files@)),
{
    let indices = app.selected_indices();
    let mut names: Vec<String> = Vec::new();
    let mut k: usize = 0;
    while k < indices.len()
        invariant
            k <= indices.len(),
            usizes_view(indices@) == true_positions(app.browser.selected_files@),
            names.deep_view() == names_at(app.browser.files@, usizes_view(indices@).take(k as int)),
        decreases indices.len() - k,
    {
        let i = indices[k];
        let ghost before = names.deep_view();
        assert(usizes_view(indices@).take(k + 1).drop_last() =~= usizes_view(indices@).take(
            k as int,
        ));
        assert(usizes_view(indices@).take(k + 1).last() == i as int);
        if i < app.browser.files.len() {
            names.push(app.browser.files[i].name.clone());
            assert(names.deep_view() =~= before.push(app.browser.files@[i as int].name@));
        }
        k += 1;
    }
    assert(usizes_view(indices@).take(indices.len() as int) =~= usizes_view(indices@));
    names
}

pub fn browser_confirm_delete(app: &mut AppState, key: KeyPress) -> (act: Option<Action>)
    ensures
        confirm_effect(*old(app), *final(app), key, act),
{
    match key.code {
        KeyCode::Enter | KeyCode::Char('y') => {
            app.browser.confirm_delete_yes = true;
            let names = selected_names(app);
            let url = match &app.pending_url {
                Some(u) => u.clone(),
                None => String::new(),
            };
            Some(Action::DeleteFiles { url, names })
        },
        KeyCode::Esc | KeyCode::Char('q') | KeyCode::Char('n') => {
            app.browser.confirm_delete = false;
            app.browser.confirm_delete_yes = false;
            None
        },
        KeyCode::Left | KeyCode::Right | KeyCode::Tab => {
            app.browser.confirm_delete_yes = !app.browser.confirm_delete_yes;
            None
        },
        KeyCode::Char('h') => {
            app.browser.confirm_delete_yes = false;
            None
        },
        KeyCode::Char('l') => {
            app.browser.confirm_delete_yes = true;
            None
        },
        _ => None,
    }
}

// ── The browser's keys ───────────────────────────────────────────────

pub open spec fn is_move_key(key: KeyPress) -> bool {
    key.code == KeyCode::Up || is_char(key, 'k') || key.code == KeyCode::Down || is_char(key, 'j')
}

/// Keys on the browser when neither searching nor confirming a deletion.
pub open spec fn browser_effect(o: AppState, n: AppState, key: KeyPress, act: Option<Action>) -> bool {
    if is_char(key, 'q') || key.code == KeyCode::Esc {
        act is None && left_browser(o, n)
    } else if is_move_key(key) {
        act is None && moved(o, n, key)
    } else if key.code == KeyCode::Enter {
        enter_effect(o, n, act)
    } else if is_char(key, 'w') {
        watch_effect(o, n, act)
    } else if is_char(key, 'd') {
        download_effect(o, n, act)
    } else if is_char(key, 'x') {
        act is None && if true_positions(o.browser.selected_files@).len() == 0 {
            error_set(o, n, "No files selected. Press Space to toggle selection."@)
        } else {
            n == AppState {
                browser: BrowserState { confirm_delete: true, confirm_delete_yes: false, ..o.browser },
                ..o
            }
        }
    } else if is_char(key, ' ') {
        act is None && toggle_effect(o, n)
    } else if is_char(key, 'r') {
        act is None && start_rename_effect(o, n)
    } else if is_char(key, '/') {
        act is None && n.search_query@.len() == 0 && n == AppState {
            is_searching: true,
            search_query: n.search_query,
            ..o
        }
    } else {
        act is None && n == o
    }
}

pub fn browser(app: &mut AppState, key: KeyPress) -> (act: Option<Action>)
    ensures
        browser_effect(*old(app), *final(app), key, act),
{
    match key.code {
        KeyCode::Char('q') | KeyCode::Esc => {
            leave_browser(app);
            None
        },
        KeyCode::Up | KeyCode::Char('k') | KeyCode::Down | KeyCode::Char('j') => {
            move_cursor(app, key);
            None
        },
        KeyCode::Enter => browser_enter(app),
        KeyCode::Char('w') => watch_file(app),
        KeyCode::Char('d') => download_batch(app),
        KeyCode::Char('x') => {
            let indices = app.selected_indices();
            if indices.len() == 0 {
                app.set_error("No files selected. Press Space to toggle selection.");
            } else {
                app.browser.confirm_delete = true;
                app.browser.confirm_delete_yes = false;
            }
            None
        },
        KeyCode::Char(' ') => {
            toggle_selection(app);
            None
        },
        KeyCode::Char('r') => {
            start_rename(app);
            None
        },
        KeyCode::Char('/') => {
            app.is_searching = true;
            clear_string(&mut app.search_query);
            None
        },
        _ => None,
    }
}

/// The text with its last character removed, if any (`String::pop`).
pub open spec fn popped(s: Seq<char>) -> Seq<char> {
    if s.len() > 0 {
        s.drop_last()
    } else {
        s
    }
}

/// Enter in the browser search would index past the visible rows (std
/// panics on that).
pub open spec fn browser_search_panics(o: AppState, key: KeyPress) -> bool {
    key.code == KeyCode::Enter && visible_len(o) > 0 && o.browser.selected_file >= visible_len(o)
}

/// Keys while typing a filter in the browser.
pub open spec fn browser_search_effect(o: AppState, n: AppState, key: KeyPress) -> bool {
    if key.code == KeyCode::Esc {
        &&& n.search_query@.len() == 0
        &&& n == AppState {
            is_searching: false,
            search_query: n.search_query,
            browser: BrowserState {
                selected_file: clamped(
                    o.browser.selected_file,
                    visible_of(entries_view(o.browser.display_entries@), n.search_query@).len() as int,
                ),
                ..o.browser
            },
            ..o
        }
    } else if is_char(key, 'q') {
        &&& n.search_query@.len() == 0
        &&& left_browser(AppState { is_searching: false, search_query: n.search_query, ..o }, n)
    } else if key.code == KeyCode::Enter {
        let v = visible_entries_of(o);
        if v.len() > 0 {
            &&& n.search_query@ == entries_view(o.browser.display_entries@)[v[o.browser.selected_file as int]].shown_name()
            &&& n == AppState { is_searching: false, search_query: n.search_query, ..o }
        } else {
            n == AppState { is_searching: false, ..o }
        }
    } else if is_move_key(key) {
        moved(o, n, key)
    } else if key.code == KeyCode::Backspace {
        &&& n.search_query@ == popped(o.search_query@)
        &&& n == AppState {
            search_query: n.search_query,
            browser: BrowserState { selected_file: 0, ..o.browser },
            ..o
        }
    } else if key.code is Char && str_len(o.search_query@) < 256 {
        &&& n.search_query@ == o.search_query@.push(key.code->Char_0)
        &&& n == AppState {
            search_query: n.search_query,
            browser: BrowserState { selected_file: 0, ..o.browser },
            ..o
        }
    } else {
        n == o
    }
}

pub fn browser_search(app: &mut AppState, key: KeyPress)
    requires
        !browser_search_panics(*old(app), key),
    ensures
        browser_search_effect(*old(app), *final(app), key),
{
    match key.code {
        KeyCode::Esc => {
            app.is_searching = false;
            clear_string(&mut app.search_query);
            app.clamp_selection();
        },
        KeyCode::Char('q') => {
            app.is_searching = false;
            clear_string(&mut app.search_query);
            leave_browser(app);
        },
        KeyCode::Enter => {
            app.is_searching = false;
            let visible = app.visible_entries();
            if visible.len() > 0 {
                proof {
                    lemma_visible_bounds(entries_view(app.browser.display_entries@), app.search_query@);
                }
                let d = visible[app.browser.selected_file];
                assert(usizes_view(visible@)[app.browser.selected_file as int] == d as int);
                assert(entries_view(app.browser.display_entries@)[d as int] == app.browser.display_entries@[d as int]@);
                let name = match &app.browser.display_entries[d] {
                    DisplayEntry::Folder { name, .. } => name.clone(),
                    DisplayEntry::File { file, .. } => file.name.clone(),
                };
                app.search_query = name;
            }
        },
        KeyCode::Up | KeyCode::Char('k') | KeyCode::Down | KeyCode::Char('j') => {
            move_cursor(app, key);
        },
        KeyCode::Backspace => {
            string_pop(&mut app.search_query);
            app.browser.selected_file = 0;
        },
        KeyCode::Char(c) => {
            if app.search_query.as_str().len() < 256 {
                string_push(&mut app.search_query, c);
                app.browser.selected_file = 0;
            }
        },
        _ => {},
    }
}

} // verus!
