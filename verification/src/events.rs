//! What the application does with the results of background work: fetched
//! metadata, started downloads, search results, finished downloads and
//! deleted files.
use crate::handlers::common::Action;
use crate::model::{entries_view, HistoryEntry, HistoryEntryView, Screen, TorrentId, TorrentInfo};
use crate::search::{results_view, SearchResult};
use crate::state::{AppState, BrowserState, SearchPopupState};
use crate::storage::{
    add_file, change_first, deleted_change, entries_of, position_of_url, remove_file, with_file,
    without_file, StorageState,
};
use crate::text::{decimal, join_strings, joined, push_decimal, push_str_chars, string_from_chars};
use crate::tree::level_entries;
use vstd::prelude::*;

verus! {

// ── Fetched metadata ─────────────────────────────────────────────────

/// The watched and downloaded files recorded for `url` in the history
/// (none when it has no entry).
pub open spec fn recorded_files_of(h: Seq<HistoryEntryView>, url: Seq<char>) -> (
    Seq<Seq<char>>,
    Seq<Seq<char>>,
) {
    match position_of_url(h, url) {
        Some(i) => (h[i].watched_files, h[i].downloaded_files),
        None => (Seq::empty(), Seq::empty()),
    }
}

proof fn lemma_position_of_url(h: Seq<HistoryEntryView>, url: Seq<char>, i: int)
    requires
        0 <= i <= h.len(),
        forall|k: int| 0 <= k < i ==> #[trigger] h[k].url != url,
        i < h.len() ==> h[i].url == url,
    ensures
        position_of_url(h, url) == if i < h.len() {
            Some(i)
        } else {
            None::<int>
        },
    decreases i,
{
    if i > 0 {
        let t = h.drop_first();
        assert forall|k: int| 0 <= k < i - 1 implies #[trigger] t[k].url != url by {
            assert(t[k] == h[k + 1]);
        }
        if i < h.len() {
            assert(t[i - 1] == h[i]);
        }
        lemma_position_of_url(t, url, i - 1);
        assert(h[0].url != url);
    }
}

/// The watched and downloaded files recorded for `url` in `history`.
pub fn recorded_files(history: &Vec<HistoryEntry>, url: &str) -> (r: (Vec<String>, Vec<String>))
    ensures
        (r.0.deep_view(), r.1.deep_view()) == recorded_files_of(entries_of(history@), url@),
{
    let ghost h = entries_of(history@);
    let mut i: usize = 0;
    while i < history.len()
        invariant
            i <= history.len(),
            h == entries_of(history@),
            forall|k: int| 0 <= k < i ==> #[trigger] h[k].url != url@,
        decreases history.len() - i,
    {
        assert(h[i as int] == history@[i as int]@);
        if crate::text::str_equal(history[i].url.as_str(), url) {
            proof {
                lemma_position_of_url(h, url@, i as int);
            }
            let w = crate::model::clone_strings(&history[i].watched_files);
            let d = crate::model::clone_strings(&history[i].downloaded_files);
            return (w, d);
        }
        i += 1;
    }
    proof {
        lemma_position_of_url(h, url@, i as int);
    }
    let w: Vec<String> = Vec::new();
    let d: Vec<String> = Vec::new();
    assert(w.deep_view() =~= Seq::<Seq<char>>::empty());
    assert(d.deep_view() =~= Seq::<Seq<char>>::empty());
    (w, d)
}

/// The status shown when a torrent's files are listed.
pub open spec fn files_found_text(n: nat) -> Seq<char> {
    decimal(n) + " file(s) found — w: watch, d: download"@
}

/// `n` copies of `false`.
fn all_false(n: usize) -> (r: Vec<bool>)
    ensures
        r@ == Seq::new(n as nat, |i: int| false),
{
    let mut v: Vec<bool> = Vec::new();
    let mut i: usize = 0;
    while i < n
        invariant
            i <= n,
            v@ == Seq::new(i as nat, |k: int| false),
        decreases n - i,
    {
        v.push(false);
        i += 1;
        assert(v@ =~= Seq::new(i as nat, |k: int| false));
    }
    v
}

/// The text of a count followed by `suffix`.
fn count_text(n: usize, suffix: &str) -> (r: String)
    ensures
        r@ == decimal(n as nat) + suffix@,
{
    let mut v: Vec<char> = Vec::new();
    push_decimal(&mut v, n as u64);
    push_str_chars(&mut v, suffix);
    string_from_chars(&v)
}

impl AppState {
    /// The metadata of `url` arrived: the browser lists its files, all
    /// folders collapsed and nothing selected; `watched` and `downloaded`
    /// are the recorded files of `url` that are still on disk.
    pub fn apply_preview_ready(
        &mut self,
        url: String,
        info: TorrentInfo,
        watched: Vec<String>,
        downloaded: Vec<String>,
    )
        ensures
            final(self).pending_url == Some(url),
            final(self).browser.torrent_name matches Some(t) && t@ == info.name@,
            final(self).browser.files@ == info.files@,
            final(self).browser.selected_files@ == Seq::new(info.files@.len(), |i: int| false),
            final(self).browser.expanded_paths@.len() == 0,
            final(self).browser.watched_files == watched,
            final(self).browser.downloaded_files == downloaded,
            entries_view(final(self).browser.display_entries@) == level_entries(
                crate::model::files_view(info.files@),
                Seq::empty(),
                0,
                Set::empty(),
            ),
            final(self).status_message@ == files_found_text(info.files@.len()),
            *final(self) == (AppState {
                screen: Screen::Browser,
                task_busy: false,
                pending_url: final(self).pending_url,
                status_message: final(self).status_message,
                browser: BrowserState {
                    files: final(self).browser.files,
                    selected_files: final(self).browser.selected_files,
                    torrent_name: final(self).browser.torrent_name,
                    expanded_paths: final(self).browser.expanded_paths,
                    display_entries: final(self).browser.display_entries,
                    watched_files: final(self).browser.watched_files,
                    downloaded_files: final(self).browser.downloaded_files,
                    selected_file: 0,
                    ..old(self).browser
                },
                ..*old(self)
            }),
    {
        self.task_busy = false;
        self.browser.watched_files = watched;
        self.browser.downloaded_files = downloaded;
        self.pending_url = Some(url);
        self.browser.torrent_name = Some(info.name);
        let n = info.files.len();
        self.browser.files = info.files;
        self.browser.selected_files = all_false(n);
        self.browser.selected_file = 0;
        self.browser.expanded_paths.clear();
        proof {
            assert(crate::state::expanded_set(self.browser.expanded_paths) =~= Set::empty());
        }
        self.rebuild_entries();
        self.screen = Screen::Browser;
        self.status_message = count_text(n, " file(s) found — w: watch, d: download");
    }

    /// Fetching the metadata failed with `msg`: back to the input screen.
    pub fn apply_preview_failed(&mut self, msg: &str)
        ensures
            final(self).error_message matches Some(m) && m@ == msg@,
            *final(self) == (AppState {
                error_message: final(self).error_message,
                screen: Screen::Input,
                task_busy: false,
                ..*old(self)
            }),
    {
        self.task_busy = false;
        self.set_error(msg);
        self.screen = Screen::Input;
    }

    /// Starting a download failed with `msg`: back to the browser.
    pub fn apply_download_failed(&mut self, msg: &str)
        ensures
            final(self).error_message matches Some(m) && m@ == msg@,
            *final(self) == (AppState {
                error_message: final(self).error_message,
                screen: Screen::Browser,
                task_busy: false,
                ..*old(self)
            }),
    {
        self.task_busy = false;
        self.set_error(msg);
        self.screen = Screen::Browser;
    }
}

// ── Started downloads ────────────────────────────────────────────────

/// The status shown while files are downloaded into `dir` (the path
/// shown as text, invalid UTF-8 replaced as `Path::display` does).
pub open spec fn downloading_text(dir: Seq<u8>) -> Seq<char> {
    "Downloading to: "@ + crate::stream::utf8_lossy(dir)
}

impl AppState {
    /// A download started (torrent `id`). When it is for watching and a
    /// stream is available, the file is recorded as watched, in the history
    /// too, and the player is asked to play the stream; otherwise the file is
    /// listed as downloading.
    pub fn apply_download_ready(
        &mut self,
        storage: &mut StorageState,
        id: TorrentId,
        stream_url: String,
        file_name: String,
        is_watch: bool,
    ) -> (act: Option<Action>)
        ensures
            final(self).torrent_id == Some(id),
            is_watch && stream_url@.len() > 0 ==> {
                &&& act matches Some(Action::Play { url, title }) && url@ == stream_url@ && title@
                    == file_name@
                &&& final(storage).entries() == match old(self).pending_url {
                    Some(u) => change_first(
                        old(storage).entries(),
                        u@,
                        crate::storage::watched_change(file_name@),
                    ),
                    None => old(storage).entries(),
                }
                &&& final(self).browser.watched_files.deep_view() == with_file(
                    old(self).browser.watched_files.deep_view(),
                    file_name@,
                )
                &&& final(self).status_message@ == "Watching: "@ + file_name@
                &&& *final(self) == (AppState {
                    torrent_id: Some(id),
                    task_busy: false,
                    screen: Screen::Player,
                    status_message: final(self).status_message,
                    browser: BrowserState {
                        watched_files: final(self).browser.watched_files,
                        ..old(self).browser
                    },
                    ..*old(self)
                })
            },
            !(is_watch && stream_url@.len() > 0) ==> {
                &&& act is None
                &&& final(storage).entries() == old(storage).entries()
                &&& final(self).browser.downloading_files.deep_view() == with_file(
                    old(self).browser.downloading_files.deep_view(),
                    file_name@,
                )
                &&& final(self).status_message@ == downloading_text(old(self).config.download_dir@)
                &&& *final(self) == (AppState {
                    torrent_id: Some(id),
                    task_busy: false,
                    screen: Screen::Browser,
                    status_message: final(self).status_message,
                    browser: BrowserState {
                        downloading_files: final(self).browser.downloading_files,
                        ..old(self).browser
                    },
                    ..*old(self)
                })
            },
            final(storage).path_view() == old(storage).path_view(),
    {
        self.task_busy = false;
        self.torrent_id = Some(id);
        if is_watch && !stream_url.as_str().is_empty() {
            match &self.pending_url {
                Some(u) => storage.mark_watched(u.as_str(), file_name.as_str()),
                None => {},
            }
            add_file(&mut self.browser.watched_files, file_name.as_str());
            self.status_message = crate::handlers::common::cat("Watching: ", file_name.as_str());
            self.screen = Screen::Player;
            Some(Action::Play { url: stream_url, title: file_name })
        } else {
            add_file(&mut self.browser.downloading_files, file_name.as_str());
            let shown = crate::stream::decode_lossy(self.config.download_dir.as_slice());
            self.status_message = crate::handlers::common::cat("Downloading to: ", shown.as_str());
            self.screen = Screen::Browser;
            None
        }
    }

    /// Search results arrived: they replace the previous ones, shown from
    /// the first page.
    pub fn apply_search_results(&mut self, results: Vec<SearchResult>)
        ensures
            final(self).search_popup.all_results == results,
            final(self).status_message@ == decimal(results@.len()) + " result(s) found"@,
            *final(self) == (AppState {
                search_popup: SearchPopupState {
                    busy: false,
                    all_results: final(self).search_popup.all_results,
                    selected: 0,
                    page: 0,
                    ..old(self).search_popup
                },
                status_message: final(self).status_message,
                task_busy: false,
                ..*old(self)
            }),
    {
        self.task_busy = false;
        let n = results.len();
        self.search_popup.busy = false;
        self.search_popup.all_results = results;
        self.search_popup.selected = 0;
        self.search_popup.page = 0;
        self.status_message = count_text(n, " result(s) found");
    }

    /// A download of `file_name` finished: it moves from the downloading to
    /// the downloaded files.
    pub fn apply_download_complete(&mut self, file_name: &str)
        ensures
            final(self).browser.downloading_files.deep_view() == without_file(
                old(self).browser.downloading_files.deep_view(),
                file_name@,
            ),
            final(self).browser.downloaded_files.deep_view() == with_file(
                old(self).browser.downloaded_files.deep_view(),
                file_name@,
            ),
            final(self).status_message@ == "Download complete: "@ + file_name@,
            *final(self) == (AppState {
                browser: BrowserState {
                    downloading_files: final(self).browser.downloading_files,
                    downloaded_files: final(self).browser.downloaded_files,
                    ..old(self).browser
                },
                status_message: final(self).status_message,
                ..*old(self)
            }),
    {
        self.browser.downloading_files = remove_file(&self.browser.downloading_files, file_name);
        add_file(&mut self.browser.downloaded_files, file_name);
        self.status_message = crate::handlers::common::cat("Download complete: ", file_name);
    }

    /// The end of a turn of the event loop: with no active download the
    /// torrent is forgotten, and a queued error replaces the status line.
    pub fn finish_turn(&mut self, active_downloads: usize)
        ensures
            final(self).torrent_id == if active_downloads == 0 {
                None
            } else {
                old(self).torrent_id
            },
            match old(self).error_message {
                Some(m) => final(self).status_message@ == m@,
                None => final(self).status_message == old(self).status_message,
            },
            *final(self) == (AppState {
                torrent_id: final(self).torrent_id,
                status_message: final(self).status_message,
                error_message: None,
                ..*old(self)
            }),
    {
        if active_downloads == 0 {
            self.torrent_id = None;
        }
        let err = self.error_message.take();
        match err {
            Some(m) => self.status_message = m,
            None => {},
        }
    }
}

// ── Deleted files ────────────────────────────────────────────────────

/// The names whose removal succeeded (`ok`) or failed (`!ok`), in order.
pub open spec fn names_where(names: Seq<Seq<char>>, removed: Seq<bool>, ok: bool) -> Seq<Seq<char>>
    decreases names.len(),
{
    if names.len() == 0 {
        Seq::empty()
    } else {
        let acc = names_where(names.drop_last(), removed.take(names.len() - 1), ok);
        if removed[names.len() - 1] == ok {
            acc.push(names.last())
        } else {
            acc
        }
    }
}

/// `files` without any of `gone`.
pub open spec fn without_files(files: Seq<Seq<char>>, gone: Seq<Seq<char>>) -> Seq<Seq<char>>
    decreases gone.len(),
{
    if gone.len() == 0 {
        files
    } else {
        without_file(without_files(files, gone.drop_last()), gone.last())
    }
}

/// The history after each of `gone` was marked deleted for `url`, in order.
pub open spec fn history_after_deletes(
    h: Seq<HistoryEntryView>,
    url: Seq<char>,
    gone: Seq<Seq<char>>,
) -> Seq<HistoryEntryView>
    decreases gone.len(),
{
    if gone.len() == 0 {
        h
    } else {
        change_first(history_after_deletes(h, url, gone.drop_last()), url, deleted_change(gone.last()))
    }
}

/// The status after a deletion: how many files went and which failed.
pub open spec fn deletion_text(deleted: nat, failed: Seq<Seq<char>>) -> Seq<char> {
    if failed.len() == 0 {
        "Deleted "@ + decimal(deleted) + " file(s)"@
    } else {
        "Deleted "@ + decimal(deleted) + " file(s), "@ + decimal(failed.len()) + " failed: "@
            + joined(failed, ", "@)
    }
}

impl AppState {
    /// The files `names` of the torrent at `url` were deleted from disk,
    /// `removed[k]` telling whether the `k`-th removal succeeded. The removed
    /// files are marked deleted in the history and dropped from the browser's
    /// lists; the status reports the outcome and the confirmation closes.
    pub fn finish_delete(
        &mut self,
        storage: &mut StorageState,
        url: &str,
        names: &Vec<String>,
        removed: &Vec<bool>,
    )
        requires
            names@.len() == removed@.len(),
        ensures
            ({
                let gone = names_where(names.deep_view(), removed@, true);
                let failed = names_where(names.deep_view(), removed@, false);
                &&& final(storage).entries() == history_after_deletes(
                    old(storage).entries(),
                    url@,
                    gone,
                )
                &&& final(storage).path_view() == old(storage).path_view()
                &&& final(self).browser.watched_files.deep_view() == without_files(
                    old(self).browser.watched_files.deep_view(),
                    gone,
                )
                &&& final(self).browser.downloaded_files.deep_view() == without_files(
                    old(self).browser.downloaded_files.deep_view(),
                    gone,
                )
                &&& final(self).browser.downloading_files.deep_view() == without_files(
                    old(self).browser.downloading_files.deep_view(),
                    gone,
                )
                &&& final(self).status_message@ == deletion_text(gone.len(), failed)
            }),
            *final(self) == (AppState {
                browser: BrowserState {
                    watched_files: final(self).browser.watched_files,
                    downloaded_files: final(self).browser.downloaded_files,
                    downloading_files: final(self).browser.downloading_files,
                    confirm_delete: false,
                    confirm_delete_yes: false,
                    ..old(self).browser
                },
                status_message: final(self).status_message,
                ..*old(self)
            }),
    {
        let ghost nv = names.deep_view();
        let mut deleted: usize = 0;
        let mut failed: Vec<String> = Vec::new();
        let mut i: usize = 0;
        while i < names.len()
            invariant
                i <= names.len() == removed.len(),
                nv == names.deep_view(),
                deleted as int == names_where(nv.take(i as int), removed@.take(i as int), true).len(),
                deleted <= i,
                failed.deep_view() == names_where(nv.take(i as int), removed@.take(i as int), false),
                storage.entries() == history_after_deletes(
                    old(storage).entries(),
                    url@,
                    names_where(nv.take(i as int), removed@.take(i as int), true),
                ),
                storage.path_view() == old(storage).path_view(),
                self.browser.watched_files.deep_view() == without_files(
                    old(self).browser.watched_files.deep_view(),
                    names_where(nv.take(i as int), removed@.take(i as int), true),
                ),
                self.browser.downloaded_files.deep_view() == without_files(
                    old(self).browser.downloaded_files.deep_view(),
                    names_where(nv.take(i as int), removed@.take(i as int), true),
                ),
                self.browser.downloading_files.deep_view() == without_files(
                    old(self).browser.downloading_files.deep_view(),
                    names_where(nv.take(i as int), removed@.take(i as int), true),
                ),
                *self == (AppState {
                    browser: BrowserState {
                        watched_files: self.browser.watched_files,
                        downloaded_files: self.browser.downloaded_files,
                        downloading_files: self.browser.downloading_files,
                        ..old(self).browser
                    },
                    ..*old(self)
                }),
            decreases names.len() - i,
        {
            let ghost prev_n = nv.take(i as int);
            let ghost prev_r = removed@.take(i as int);
            assert(nv.take(i + 1).drop_last() =~= prev_n);
            assert(removed@.take(i + 1).take(i as int) =~= prev_r);
            assert(nv.take(i + 1).last() == names@[i as int]@);
            assert(removed@.take(i + 1)[i as int] == removed@[i as int]);
            let ghost gone_prev = names_where(prev_n, prev_r, true);
            let name = names[i].as_str();
            if removed[i] {
                assert(names_where(nv.take(i + 1), removed@.take(i + 1), true) == gone_prev.push(
                    name@,
                ));
                assert(gone_prev.push(name@).drop_last() =~= gone_prev);
                deleted += 1;
                storage.mark_deleted(url, name);
                self.browser.watched_files = remove_file(&self.browser.watched_files, name);
                self.browser.downloaded_files = remove_file(&self.browser.downloaded_files, name);
                self.browser.downloading_files = remove_file(
                    &self.browser.downloading_files,
                    name,
                );
            } else {
                assert(names_where(nv.take(i + 1), removed@.take(i + 1), true) == gone_prev);
                let ghost before = failed.deep_view();
                failed.push(names[i].clone());
                assert(failed.deep_view() =~= before.push(name@));
            }
            i += 1;
        }
        assert(nv.take(names.len() as int) =~= nv);
        assert(removed@.take(names.len() as int) =~= removed@);
        self.status_message = deletion_status(deleted, &failed);
        self.browser.confirm_delete = false;
        self.browser.confirm_delete_yes = false;
    }
}

/// The status text after deleting `deleted` files, with `failed` left.
fn deletion_status(deleted: usize, failed: &Vec<String>) -> (r: String)
    ensures
        r@ == deletion_text(deleted as nat, failed.deep_view()),
{
    let mut v: Vec<char> = crate::text::chars_of("Deleted ");
    push_decimal(&mut v, deleted as u64);
    if failed.len() == 0 {
        push_str_chars(&mut v, " file(s)");
        return string_from_chars(&v);
    }
    push_str_chars(&mut v, " file(s), ");
    push_decimal(&mut v, failed.len() as u64);
    push_str_chars(&mut v, " failed: ");
    let list = join_strings(failed, ", ");
    push_str_chars(&mut v, list.as_str());
    string_from_chars(&v)
}

} // verus!
