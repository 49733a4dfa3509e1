//! Domain data types: torrents, history entries, screens, menu, text input,
//! and the input validation and fuzzy matching used across the app.
use crate::text::{
    all_ws, chars_of, has_prefix, lemma_trim_idempotent, lemma_trim_surrounding_ws, lower_text,
    starts_with_chars, to_lowercase, trim, trim_chars,
};
use vstd::prelude::*;

verus! {

#[derive(Debug, Clone, Copy, PartialEq, Eq, Structural, Hash)]
pub struct TorrentId(pub usize);

#[derive(Debug)]
pub struct TorrentFile {
    pub index: usize,
    pub name: String,
    pub size: u64,
}

impl Clone for TorrentFile {
    fn clone(&self) -> (r: Self)
        ensures
            r == *self,
    {
        TorrentFile { index: self.index, name: self.name.clone(), size: self.size }
    }
}

/// The plain contents of a [`TorrentFile`].
pub struct TorrentFileView {
    pub index: usize,
    pub name: Seq<char>,
    pub size: u64,
}

impl View for TorrentFile {
    type V = TorrentFileView;

    open spec fn view(&self) -> TorrentFileView {
        TorrentFileView { index: self.index, name: self.name@, size: self.size }
    }
}

/// The plain contents of a list of files.
pub open spec fn files_view(files: Seq<TorrentFile>) -> Seq<TorrentFileView> {
    files.map_values(|f: TorrentFile| f@)
}

#[derive(Debug)]
pub struct TorrentInfo {
    pub name: String,
    pub files: Vec<TorrentFile>,
}

/// A single entry in the collapsible folder-tree browser list.
#[derive(Debug)]
pub enum DisplayEntry {
    /// A collapsible subfolder.
    Folder { name: String, depth: usize, expanded: bool },
    /// A regular file from the torrent.
    File { file: TorrentFile, depth: usize },
}

impl Clone for DisplayEntry {
    fn clone(&self) -> (r: Self)
        ensures
            r == *self,
    {
        match self {
            DisplayEntry::Folder { name, depth, expanded } => DisplayEntry::Folder {
                name: name.clone(),
                depth: *depth,
                expanded: *expanded,
            },
            DisplayEntry::File { file, depth } => DisplayEntry::File {
                file: file.clone(),
                depth: *depth,
            },
        }
    }
}

/// The plain contents of a [`DisplayEntry`].
pub enum DisplayEntryView {
    Folder { name: Seq<char>, depth: usize, expanded: bool },
    File { file: TorrentFileView, depth: usize },
}

impl View for DisplayEntry {
    type V = DisplayEntryView;

    open spec fn view(&self) -> DisplayEntryView {
        match self {
            DisplayEntry::Folder { name, depth, expanded } => DisplayEntryView::Folder {
                name: name@,
                depth: *depth,
                expanded: *expanded,
            },
            DisplayEntry::File { file, depth } => DisplayEntryView::File {
                file: file@,
                depth: *depth,
            },
        }
    }
}

impl DisplayEntryView {
    /// The text shown for the entry: the folder's name or the file's path.
    pub open spec fn shown_name(self) -> Seq<char> {
        match self {
            DisplayEntryView::Folder { name, .. } => name,
            DisplayEntryView::File { file, .. } => file.name,
        }
    }
}

/// The plain contents of a list of display entries.
pub open spec fn entries_view(v: Seq<DisplayEntry>) -> Seq<DisplayEntryView> {
    v.map_values(|e: DisplayEntry| e@)
}

/// A single entry in the torrent history list.
#[derive(Debug)]
pub struct HistoryEntry {
    pub url: String,
    pub custom_name: Option<String>,
    pub torrent_name: String,
    pub added_at: u64,
    pub watched: bool,
    pub watched_files: Vec<String>,
    pub downloaded: bool,
    pub downloaded_files: Vec<String>,
}

/// The plain contents of a [`HistoryEntry`].
pub struct HistoryEntryView {
    pub url: Seq<char>,
    pub custom_name: Option<Seq<char>>,
    pub torrent_name: Seq<char>,
    pub added_at: u64,
    pub watched: bool,
    pub watched_files: Seq<Seq<char>>,
    pub downloaded: bool,
    pub downloaded_files: Seq<Seq<char>>,
}

impl View for HistoryEntry {
    type V = HistoryEntryView;

    open spec fn view(&self) -> HistoryEntryView {
        HistoryEntryView {
            url: self.url@,
            custom_name: match self.custom_name {
                Some(n) => Some(n@),
                None => None,
            },
            torrent_name: self.torrent_name@,
            added_at: self.added_at,
            watched: self.watched,
            watched_files: self.watched_files.deep_view(),
            downloaded: self.downloaded,
            downloaded_files: self.downloaded_files.deep_view(),
        }
    }
}

/// A copy of a list of strings.
pub fn clone_strings(v: &Vec<String>) -> (r: Vec<String>)
    ensures
        r.deep_view() == v.deep_view(),
{
    let mut out: Vec<String> = Vec::new();
    let mut i: usize = 0;
    while i < v.len()
        invariant
            i <= v.len(),
            out@.len() == i,
            forall|k: int| 0 <= k < i ==> #[trigger] out@[k]@ == v@[k]@,
        decreases v.len() - i,
    {
        let c = v[i].clone();
        out.push(c);
        i += 1;
    }
    assert(out.deep_view() =~= v.deep_view());
    out
}

impl Clone for HistoryEntry {
    fn clone(&self) -> (r: Self)
        ensures
            r@ == self@,
    {
        HistoryEntry {
            url: self.url.clone(),
            custom_name: match &self.custom_name {
                Some(n) => Some(n.clone()),
                None => None,
            },
            torrent_name: self.torrent_name.clone(),
            added_at: self.added_at,
            watched: self.watched,
            watched_files: clone_strings(&self.watched_files),
            downloaded: self.downloaded,
            downloaded_files: clone_strings(&self.downloaded_files),
        }
    }
}

/// The name shown for a history entry: the custom name when set, else the
/// torrent's own name.
pub open spec fn display_name_of(e: HistoryEntryView) -> Seq<char> {
    match e.custom_name {
        Some(n) => n,
        None => e.torrent_name,
    }
}

/// Return the user-friendly name for a history entry.
///
/// Prefers `custom_name`; falls back to the torrent's own name.
pub fn display_name(entry: &HistoryEntry) -> (r: &str)
    ensures
        r@ == display_name_of(entry@),
{
    match &entry.custom_name {
        Some(n) => n.as_str(),
        None => entry.torrent_name.as_str(),
    }
}

#[derive(Debug, Clone, Copy, PartialEq, Eq, Structural)]
pub enum Screen {
    Welcome,
    Input,
    Loading,
    Browser,
    Player,
    History,
}

/// A single-line text field: its text and the cursor position.
#[derive(Debug)]
pub struct InputState {
    pub value: String,
    pub cursor: usize,
}

impl Default for InputState {
    fn default() -> (r: Self)
        ensures
            r.value@ == Seq::<char>::empty(),
            r.cursor == 0,
    {
        InputState { value: String::new(), cursor: 0 }
    }
}

impl Clone for InputState {
    fn clone(&self) -> (r: Self)
        ensures
            r == *self,
    {
        InputState { value: self.value.clone(), cursor: self.cursor }
    }
}

#[derive(Debug, Clone, Copy, PartialEq, Eq, Structural)]
pub enum MenuEntry {
    Add,
    History,
    Quit,
}

/// The welcome menu, in the order in which it is shown.
pub open spec fn menu_order() -> Seq<MenuEntry> {
    seq![MenuEntry::Add, MenuEntry::History, MenuEntry::Quit]
}

/// The label shown for a menu entry.
pub open spec fn menu_label(e: MenuEntry) -> Seq<char> {
    match e {
        MenuEntry::Add => "[a] Add a torrent"@,
        MenuEntry::History => "[h] History"@,
        MenuEntry::Quit => "[q] Quit"@,
    }
}

impl MenuEntry {
    /// Number of menu entries.
    pub const COUNT: usize = 3;

    /// Every menu entry, in display order.
    pub fn all() -> (r: Vec<MenuEntry>)
        ensures
            r@ == menu_order(),
    {
        let v = vec![MenuEntry::Add, MenuEntry::History, MenuEntry::Quit];
        assert(v@ =~= menu_order());
        v
    }

    /// The entry at position `i` of the menu.
    pub fn at(i: usize) -> (r: MenuEntry)
        requires
            i < 3,
        ensures
            r == menu_order()[i as int],
    {
        if i == 0 {
            MenuEntry::Add
        } else if i == 1 {
            MenuEntry::History
        } else {
            MenuEntry::Quit
        }
    }

    pub fn label(self) -> (r: &'static str)
        ensures
            r@ == menu_label(self),
    {
        match self {
            MenuEntry::Add => "[a] Add a torrent",
            MenuEntry::History => "[h] History",
            MenuEntry::Quit => "[q] Quit",
        }
    }
}

// ── Validation ───────────────────────────────────────────────────────

/// The error text for an empty torrent input.
pub open spec fn empty_url_message() -> Seq<char> {
    "URL cannot be empty"@
}

/// The error text for an input that is neither a magnet link nor an
/// http(s) URL.
pub open spec fn bad_url_message() -> Seq<char> {
    "Must be a magnet link or an http(s) URL"@
}

/// The trimmed input names a torrent: a magnet link or an http(s) URL.
pub open spec fn is_torrent_link(t: Seq<char>) -> bool {
    has_prefix(t, "magnet:"@) || has_prefix(t, "http://"@) || has_prefix(t, "https://"@)
}

/// `Ok` exactly when the trimmed input is a torrent link; else the message
/// that says what is wrong.
pub open spec fn validation_result(input: Seq<char>) -> Result<(), Seq<char>> {
    let t = trim(input);
    if t.len() == 0 {
        Err(empty_url_message())
    } else if is_torrent_link(t) {
        Ok(())
    } else {
        Err(bad_url_message())
    }
}

/// Whitespace around the input never changes whether it is accepted, nor
/// the message when it is not: the input, the input trimmed, and the input
/// with any whitespace added before and after are judged alike.
pub proof fn surrounding_whitespace_is_ignored(input: Seq<char>, before: Seq<char>, after: Seq<char>)
    requires
        all_ws(before),
        all_ws(after),
    ensures
        validation_result(before + input + after) == validation_result(input),
        validation_result(trim(input)) == validation_result(input),
{
    lemma_trim_surrounding_ws(before, input, after);
    lemma_trim_idempotent(input);
}

/// Validate a user-supplied torrent URL / magnet link.
///
/// Returns `Err(message)` if the input is empty or does not look like
/// a recognised torrent identifier.
pub fn validate_torrent_input(input: &str) -> (r: Result<(), &'static str>)
    ensures
        match r {
            Ok(()) => validation_result(input@) == Ok::<(), Seq<char>>(()),
            Err(m) => validation_result(input@) == Err::<(), Seq<char>>(m@),
        },
{
    let cs = chars_of(input);
    let trimmed = trim_chars(&cs);
    if trimmed.len() == 0 {
        return Err("URL cannot be empty");
    }
    let magnet = chars_of("magnet:");
    if starts_with_chars(&trimmed, &magnet) {
        return Ok(());
    }
    let http = chars_of("http://");
    let https = chars_of("https://");
    if starts_with_chars(&trimmed, &http) || starts_with_chars(&trimmed, &https) {
        return Ok(());
    }
    Err("Must be a magnet link or an http(s) URL")
}

// ── Fuzzy matching ───────────────────────────────────────────────────

/// `f` places the first `k` characters of `q`, in order, at matching
/// positions of `t`.
pub open spec fn embeds_with(q: Seq<char>, t: Seq<char>, k: int, f: spec_fn(int) -> int) -> bool {
    &&& 0 <= k <= q.len()
    &&& forall|i: int| 0 <= i < k ==> 0 <= #[trigger] f(i) < t.len() && t[f(i)] == q[i]
    &&& forall|i: int, j: int| 0 <= i < j < k ==> #[trigger] f(i) < #[trigger] f(j)
}

/// Every character of `q` appears in `t`, in the same order.
pub open spec fn is_subsequence(q: Seq<char>, t: Seq<char>) -> bool {
    exists|f: spec_fn(int) -> int| embeds_with(q, t, q.len() as int, f)
}

/// How many leading characters of `q` a left-to-right greedy scan of `t`
/// matches.
pub open spec fn greedy_matched(q: Seq<char>, t: Seq<char>) -> nat
    decreases t.len(),
{
    if t.len() == 0 {
        0
    } else {
        let m = greedy_matched(q, t.drop_last());
        if m < q.len() && q[m as int] == t.last() {
            m + 1
        } else {
            m
        }
    }
}

proof fn lemma_greedy_bounded(q: Seq<char>, t: Seq<char>)
    ensures
        greedy_matched(q, t) <= q.len(),
    decreases t.len(),
{
    if t.len() > 0 {
        lemma_greedy_bounded(q, t.drop_last());
    }
}

/// The greedy scan's matches form an embedding.
proof fn lemma_greedy_sound(q: Seq<char>, t: Seq<char>) -> (f: spec_fn(int) -> int)
    ensures
        embeds_with(q, t, greedy_matched(q, t) as int, f),
    decreases t.len(),
{
    lemma_greedy_bounded(q, t);
    if t.len() == 0 {
        |i: int| 0int
    } else {
        let t0 = t.drop_last();
        let g = lemma_greedy_sound(q, t0);
        let m = greedy_matched(q, t0);
        if m < q.len() && q[m as int] == t.last() {
            let last = t.len() - 1;
            let f = |i: int|
                if i == m {
                    last
                } else {
                    g(i)
                };
            assert forall|i: int| 0 <= i < m + 1 implies 0 <= #[trigger] f(i) < t.len() && t[f(
                i,
            )] == q[i] by {
                if i < m {
                    assert(t[g(i)] == t0[g(i)]);
                }
            }
            assert forall|i: int, j: int| 0 <= i < j < m + 1 implies #[trigger] f(i) < #[trigger] f(
                j,
            ) by {
                if j < m {
                    assert(g(i) < g(j));
                } else {
                    assert(0 <= g(i) < t0.len());
                }
            }
            f
        } else {
            assert forall|i: int| 0 <= i < m implies 0 <= #[trigger] g(i) < t.len() && t[g(i)]
                == q[i] by {
                assert(t[g(i)] == t0[g(i)]);
            }
            g
        }
    }
}

/// Whatever prefix of `q` embeds in `t`, the greedy scan matches at least
/// that much.
proof fn lemma_greedy_complete(q: Seq<char>, t: Seq<char>, k: int, f: spec_fn(int) -> int)
    requires
        embeds_with(q, t, k, f),
    ensures
        k <= greedy_matched(q, t),
    decreases t.len(),
{
    if k == 0 {
    } else if t.len() == 0 {
        assert(0 <= f(0) < t.len());
    } else {
        let t0 = t.drop_last();
        let last = t.len() - 1;
        if f(k - 1) == last {
            assert forall|i: int| 0 <= i < k - 1 implies 0 <= #[trigger] f(i) < t0.len() && t0[f(
                i,
            )] == q[i] by {
                assert(f(i) < f(k - 1));
            }
            lemma_greedy_complete(q, t0, k - 1, f);
        } else {
            assert forall|i: int| 0 <= i < k implies 0 <= #[trigger] f(i) < t0.len() && t0[f(i)]
                == q[i] by {
                if i < k - 1 {
                    assert(f(i) < f(k - 1));
                }
            }
            lemma_greedy_complete(q, t0, k, f);
        }
    }
}

/// The greedy scan decides subsequence membership.
pub proof fn lemma_greedy_iff_subsequence(q: Seq<char>, t: Seq<char>)
    ensures
        (greedy_matched(q, t) == q.len()) == is_subsequence(q, t),
{
    lemma_greedy_bounded(q, t);
    if greedy_matched(q, t) == q.len() {
        let f = lemma_greedy_sound(q, t);
        assert(embeds_with(q, t, q.len() as int, f));
    }
    if is_subsequence(q, t) {
        let f = choose|f: spec_fn(int) -> int| embeds_with(q, t, q.len() as int, f);
        lemma_greedy_complete(q, t, q.len() as int, f);
    }
}

/// Whether every character of `q` appears in `t` in order.
pub fn subsequence_match(q: &Vec<char>, t: &Vec<char>) -> (r: bool)
    ensures
        r == is_subsequence(q@, t@),
{
    let mut m: usize = 0;
    let mut i: usize = 0;
    while i < t.len()
        invariant
            i <= t.len(),
            m == greedy_matched(q@, t@.take(i as int)),
            m <= q.len(),
        decreases t.len() - i,
    {
        proof {
            assert(t@.take(i + 1).drop_last() =~= t@.take(i as int));
            lemma_greedy_bounded(q@, t@.take(i + 1));
        }
        if m < q.len() && q[m] == t[i] {
            m += 1;
        }
        i += 1;
    }
    proof {
        assert(t@.take(t@.len() as int) =~= t@);
        lemma_greedy_iff_subsequence(q@, t@);
    }
    m == q.len()
}

/// Case-insensitive subsequence match (what [`fuzzy_match`] computes).
pub open spec fn fuzzy(q: Seq<char>, t: Seq<char>) -> bool {
    is_subsequence(lower_text(q), lower_text(t))
}

/// Subsequence fuzzy match.  Returns `true` when every character in
/// `query` appears in `target` in order (case-insensitive).
pub fn fuzzy_match(query: &str, target: &str) -> (r: bool)
    ensures
        r == fuzzy(query@, target@),
{
    let q = to_lowercase(query);
    let t = to_lowercase(target);
    let qc = chars_of(q.as_str());
    let tc = chars_of(t.as_str());
    subsequence_match(&qc, &tc)
}

} // verus!
