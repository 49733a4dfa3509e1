//! The torrent history: its entries and the changes made to them.
//!
//! The history is kept in memory in the order entries were added (newest
//! last); every change is then written to disk by the caller, which writes
//! only the newest [`MAX_HISTORY`] entries.
use crate::model::{clone_strings, HistoryEntry, HistoryEntryView};
use crate::text::{str_equal, to_owned_string};
use vstd::prelude::*;

verus! {

/// Maximum number of history entries written to disk; older ones are
/// left out.
pub const MAX_HISTORY: usize = 1000;

/// Why a history change was refused.
#[derive(Debug, Clone, Copy, PartialEq, Eq, Structural)]
pub enum StorageError {
    /// No entry at the given position.
    NotFound,
}

impl StorageError {
    /// The message shown for the error.
    pub fn message(&self) -> (r: &'static str)
        ensures
            r@ == "History entry not found"@,
    {
        "History entry not found"
    }
}

pub open spec fn entries_of(v: Seq<HistoryEntry>) -> Seq<HistoryEntryView> {
    v.map_values(|e: HistoryEntry| e@)
}

/// Position of the first entry for `url`.
pub open spec fn position_of_url(h: Seq<HistoryEntryView>, url: Seq<char>) -> Option<int>
    decreases h.len(),
{
    if h.len() == 0 {
        None
    } else if h[0].url == url {
        Some(0)
    } else {
        match position_of_url(h.drop_first(), url) {
            Some(i) => Some(i + 1),
            None => None,
        }
    }
}

/// The entries whose URL is not `url`, in order.
pub open spec fn without_url(h: Seq<HistoryEntryView>, url: Seq<char>) -> Seq<HistoryEntryView>
    decreases h.len(),
{
    if h.len() == 0 {
        Seq::empty()
    } else {
        let acc = without_url(h.drop_last(), url);
        if h.last().url == url {
            acc
        } else {
            acc.push(h.last())
        }
    }
}

/// The history after `url` was (re-)added with `name` at time `now`: any
/// entry for the URL leaves its place and the new entry goes last, keeping
/// the custom name and the watched/downloaded records of the first old
/// entry for that URL.
pub open spec fn history_after_add(
    h: Seq<HistoryEntryView>,
    url: Seq<char>,
    name: Seq<char>,
    now: u64,
) -> Seq<HistoryEntryView> {
    let entry = match position_of_url(h, url) {
        Some(i) => HistoryEntryView { url, torrent_name: name, added_at: now, ..h[i] },
        None => HistoryEntryView {
            url,
            custom_name: None,
            torrent_name: name,
            added_at: now,
            watched: false,
            watched_files: Seq::empty(),
            downloaded: false,
            downloaded_files: Seq::empty(),
        },
    };
    without_url(h, url).push(entry)
}

/// `files` with `f` added at the end unless it is already there.
pub open spec fn with_file(files: Seq<Seq<char>>, f: Seq<char>) -> Seq<Seq<char>> {
    if files.contains(f) {
        files
    } else {
        files.push(f)
    }
}

/// `files` without any occurrence of `f`.
pub open spec fn without_file(files: Seq<Seq<char>>, f: Seq<char>) -> Seq<Seq<char>>
    decreases files.len(),
{
    if files.len() == 0 {
        Seq::empty()
    } else {
        let acc = without_file(files.drop_last(), f);
        if files.last() == f {
            acc
        } else {
            acc.push(files.last())
        }
    }
}

/// The first entry for `url` changed by `change`; the history unchanged
/// when there is no such entry.
pub open spec fn change_first(
    h: Seq<HistoryEntryView>,
    url: Seq<char>,
    change: spec_fn(HistoryEntryView) -> HistoryEntryView,
) -> Seq<HistoryEntryView> {
    match position_of_url(h, url) {
        Some(i) => h.update(i, change(h[i])),
        None => h,
    }
}

pub open spec fn watched_change(file: Seq<char>) -> spec_fn(HistoryEntryView) -> HistoryEntryView {
    |e: HistoryEntryView|
        HistoryEntryView { watched: true, watched_files: with_file(e.watched_files, file), ..e }
}

pub open spec fn downloaded_change(file: Seq<char>) -> spec_fn(HistoryEntryView) -> HistoryEntryView {
    |e: HistoryEntryView|
        HistoryEntryView {
            downloaded: true,
            downloaded_files: with_file(e.downloaded_files, file),
            ..e
        }
}

/// The file leaves both lists; a list left empty clears its flag.
pub open spec fn deleted_change(file: Seq<char>) -> spec_fn(HistoryEntryView) -> HistoryEntryView {
    |e: HistoryEntryView|
        {
            let w = without_file(e.watched_files, file);
            let d = without_file(e.downloaded_files, file);
            HistoryEntryView {
                watched: if w.len() == 0 {
                    false
                } else {
                    e.watched
                },
                watched_files: w,
                downloaded: if d.len() == 0 {
                    false
                } else {
                    e.downloaded
                },
                downloaded_files: d,
                ..e
            }
        }
}

/// The entries that are written to disk: the newest `MAX_HISTORY`.
pub open spec fn persisted(h: Seq<HistoryEntryView>) -> Seq<HistoryEntryView> {
    if h.len() > MAX_HISTORY {
        h.skip(h.len() - MAX_HISTORY)
    } else {
        h
    }
}

/// How many entries of `h` are for `url`.
pub open spec fn url_count(h: Seq<HistoryEntryView>, url: Seq<char>) -> nat
    decreases h.len(),
{
    if h.len() == 0 {
        0
    } else {
        url_count(h.drop_last(), url) + if h.last().url == url {
            1nat
        } else {
            0nat
        }
    }
}

proof fn lemma_without_url(h: Seq<HistoryEntryView>, url: Seq<char>, other: Seq<char>)
    ensures
        url_count(without_url(h, url), url) == 0,
        without_url(h, url).len() + url_count(h, url) == h.len(),
        other != url ==> url_count(without_url(h, url), other) == url_count(h, other),
    decreases h.len(),
{
    if h.len() > 0 {
        lemma_without_url(h.drop_last(), url, other);
        let acc = without_url(h.drop_last(), url);
        if h.last().url != url {
            assert(acc.push(h.last()).drop_last() =~= acc);
        }
    }
}

/// Adding a torrent: afterwards the history holds exactly one entry for its
/// URL, the newest, carrying the new name; the other entries keep their
/// order, so re-adding a URL moves its entry to the end instead of
/// duplicating it, and the count of every other URL is unchanged.
pub proof fn add_keeps_one_entry_per_url(
    h: Seq<HistoryEntryView>,
    url: Seq<char>,
    name: Seq<char>,
    now: u64,
    other: Seq<char>,
)
    ensures
        url_count(history_after_add(h, url, name, now), url) == 1,
        history_after_add(h, url, name, now).last().url == url,
        history_after_add(h, url, name, now).last().torrent_name == name,
        history_after_add(h, url, name, now).drop_last() == without_url(h, url),
        history_after_add(h, url, name, now).len() == h.len() - url_count(h, url) + 1,
        other != url ==> url_count(history_after_add(h, url, name, now), other) == url_count(
            h,
            other,
        ),
{
    lemma_without_url(h, url, other);
    let after = history_after_add(h, url, name, now);
    assert(after.drop_last() =~= without_url(h, url));
}

/// Renaming: the renamed entry is shown under its new name.
pub proof fn rename_sets_display_name(h: Seq<HistoryEntryView>, index: int, name: Seq<char>)
    requires
        0 <= index < h.len(),
    ensures
        crate::model::display_name_of(
            h.update(index, HistoryEntryView { custom_name: Some(name), ..h[index] })[index],
        ) == name,
{
}

/// Removing an entry shortens the history by one and keeps the other
/// entries in their order.
pub proof fn remove_shrinks_by_one(h: Seq<HistoryEntryView>, index: int)
    requires
        0 <= index < h.len(),
    ensures
        h.remove(index).len() == h.len() - 1,
        forall|j: int| 0 <= j < index ==> #[trigger] h.remove(index)[j] == h[j],
        forall|j: int| index <= j < h.len() - 1 ==> #[trigger] h.remove(index)[j] == h[j + 1],
{
}

/// What is written to disk is the newest part of the history, at most
/// [`MAX_HISTORY`] entries, and all of it while it is not longer.
pub proof fn persisted_is_newest_part(h: Seq<HistoryEntryView>)
    ensures
        persisted(h).len() <= MAX_HISTORY,
        persisted(h) == h.skip(h.len() - persisted(h).len()),
        h.len() <= MAX_HISTORY ==> persisted(h) == h,
{
    if h.len() <= MAX_HISTORY {
        assert(h.skip(0) =~= h);
    }
}

struct Store {
    history: Vec<HistoryEntry>,
}

/// The history file's location (the bytes of its path) and the entries it
/// holds.
pub struct StorageState {
    path: Vec<u8>,
    data: Store,
}

#[verifier::external_type_specification]
#[verifier::external_body]
pub struct ExSystemTime(std::time::SystemTime);

#[verifier::external_type_specification]
#[verifier::external_body]
pub struct ExSystemTimeError(std::time::SystemTimeError);

/// Calls std's `SystemTime::now`; nothing is stated of the result, which
/// is the time.
#[verifier::external_body]
fn system_now() -> std::time::SystemTime {
    std::time::SystemTime::now()
}

/// Calls std's `SystemTime::duration_since` with the Unix epoch: the time
/// since then, or an error for a time before it.  Nothing is stated of the
/// result, which depends on a clock reading that nothing here can see.
#[verifier::external_body]
fn since_unix_epoch(t: &std::time::SystemTime) -> Result<
    std::time::Duration,
    std::time::SystemTimeError,
> {
    t.duration_since(std::time::UNIX_EPOCH)
}

/// Calls std's `Duration::as_secs`: the whole seconds of a duration, which
/// nothing here can see.
#[verifier::external_body]
fn whole_seconds(d: &std::time::Duration) -> u64 {
    d.as_secs()
}

/// The whole seconds since the Unix epoch, 0 for a clock set before it.
fn unix_now() -> u64 {
    match since_unix_epoch(&system_now()) {
        Ok(d) => whole_seconds(&d),
        Err(_) => 0,
    }
}

pub fn contains_string(v: &Vec<String>, s: &str) -> (r: bool)
    ensures
        r == v.deep_view().contains(s@),
{
    let mut i: usize = 0;
    while i < v.len()
        invariant
            i <= v.len(),
            forall|k: int| 0 <= k < i ==> v.deep_view()[k] != s@,
        decreases v.len() - i,
    {
        if str_equal(v[i].as_str(), s) {
            assert(v.deep_view()[i as int] == s@);
            return true;
        }
        i += 1;
    }
    false
}

pub fn add_file(v: &mut Vec<String>, s: &str)
    ensures
        final(v).deep_view() == with_file(old(v).deep_view(), s@),
{
    if !contains_string(v, s) {
        v.push(to_owned_string(s));
        assert(v.deep_view() =~= old(v).deep_view().push(s@));
    }
}

pub fn remove_file(v: &Vec<String>, s: &str) -> (r: Vec<String>)
    ensures
        r.deep_view() == without_file(v.deep_view(), s@),
{
    let mut out: Vec<String> = Vec::new();
    let mut i: usize = 0;
    while i < v.len()
        invariant
            i <= v.len(),
            out.deep_view() == without_file(v.deep_view().take(i as int), s@),
        decreases v.len() - i,
    {
        assert(v.deep_view().take(i + 1).drop_last() =~= v.deep_view().take(i as int));
        if !str_equal(v[i].as_str(), s) {
            let ghost before = out.deep_view();
            out.push(v[i].clone());
            assert(out.deep_view() =~= before.push(v.deep_view()[i as int]));
        }
        i += 1;
    }
    assert(v.deep_view().take(v.len() as int) =~= v.deep_view());
    out
}

impl StorageState {
    pub closed spec fn entries(&self) -> Seq<HistoryEntryView> {
        entries_of(self.data.history@)
    }

    pub closed spec fn path_view(&self) -> Seq<u8> {
        self.path@
    }

    /// A history stored at `path`, holding `history` (oldest first).
    pub fn with_history(path: Vec<u8>, history: Vec<HistoryEntry>) -> (r: Self)
        ensures
            r.entries() == entries_of(history@),
            r.path_view() == path@,
    {
        StorageState { path, data: Store { history } }
    }

    /// Where the history file is.
    pub fn path(&self) -> (r: &[u8])
        ensures
            r@ == self.path_view(),
    {
        self.path.as_slice()
    }

    /// A snapshot of every history entry (newest last).
    pub fn history(&self) -> (r: Vec<HistoryEntry>)
        ensures
            entries_of(r@) == self.entries(),
    {
        let h = &self.data.history;
        let mut out: Vec<HistoryEntry> = Vec::new();
        let mut i: usize = 0;
        while i < h.len()
            invariant
                i <= h.len(),
                entries_of(out@) == entries_of(h@).take(i as int),
            decreases h.len() - i,
        {
            let e = h[i].clone();
            let ghost before = out@;
            let ghost ev = e@;
            out.push(e);
            assert(entries_of(out@) =~= entries_of(before).push(ev));
            assert(entries_of(out@) =~= entries_of(h@).take(i + 1));
            i += 1;
        }
        assert(entries_of(h@).take(h.len() as int) =~= entries_of(h@));
        out
    }

    /// The entries that are written to disk: the newest [`MAX_HISTORY`].
    pub fn persisted_history(&self) -> (r: Vec<HistoryEntry>)
        ensures
            entries_of(r@) == persisted(self.entries()),
            r@.len() <= MAX_HISTORY,
    {
        let h = &self.data.history;
        let start = if h.len() > MAX_HISTORY {
            h.len() - MAX_HISTORY
        } else {
            0
        };
        let mut out: Vec<HistoryEntry> = Vec::new();
        let mut i: usize = start;
        while i < h.len()
            invariant
                start <= i <= h.len(),
                start == if h.len() > MAX_HISTORY {
                    h.len() - MAX_HISTORY
                } else {
                    0
                },
                entries_of(out@) == entries_of(h@).subrange(start as int, i as int),
            decreases h.len() - i,
        {
            let e = h[i].clone();
            let ghost before = out@;
            let ghost ev = e@;
            out.push(e);
            assert(entries_of(out@) =~= entries_of(before).push(ev));
            assert(entries_of(out@) =~= entries_of(h@).subrange(start as int, i + 1));
            i += 1;
        }
        assert(entries_of(h@).subrange(start as int, h.len() as int) =~= persisted(self.entries()));
        out
    }

    fn find_url(&self, url: &str) -> (r: Option<usize>)
        ensures
            match r {
                Some(i) => position_of_url(self.entries(), url@) == Some(i as int),
                None => position_of_url(self.entries(), url@) is None,
            },
            r matches Some(i) ==> i < self.entries().len(),
    {
        let h = &self.data.history;
        let mut i: usize = 0;
        assert(self.entries().skip(0) =~= self.entries());
        while i < h.len()
            invariant
                i <= h.len(),
                entries_of(h@) == self.entries(),
                position_of_url(self.entries(), url@) == match position_of_url(
                    self.entries().skip(i as int),
                    url@,
                ) {
                    Some(k) => Some(k + i),
                    None => None,
                },
            decreases h.len() - i,
        {
            assert(self.entries().skip(i as int)[0] == h@[i as int]@);
            assert(self.entries().skip(i as int).drop_first() =~= self.entries().skip(i + 1));
            if str_equal(h[i].url.as_str(), url) {
                return Some(i);
            }
            i += 1;
        }
        None
    }

    /// Adds (or moves to the end) the entry for `url`, stamped with `now`
    /// (seconds since the Unix epoch).
    pub fn add_entry_at(&mut self, url: &str, torrent_name: &str, now: u64)
        ensures
            final(self).entries() == history_after_add(old(self).entries(), url@, torrent_name@, now),
            final(self).path_view() == old(self).path_view(),
    {
        let found = self.find_url(url);
        let entry = match found {
            Some(i) => {
                let old = &self.data.history[i];
                HistoryEntry {
                    url: to_owned_string(url),
                    custom_name: match &old.custom_name {
                        Some(n) => Some(n.clone()),
                        None => None,
                    },
                    torrent_name: to_owned_string(torrent_name),
                    added_at: now,
                    watched: old.watched,
                    watched_files: clone_strings(&old.watched_files),
                    downloaded: old.downloaded,
                    downloaded_files: clone_strings(&old.downloaded_files),
                }
            },
            None => HistoryEntry {
                url: to_owned_string(url),
                custom_name: None,
                torrent_name: to_owned_string(torrent_name),
                added_at: now,
                watched: false,
                watched_files: Vec::new(),
                downloaded: false,
                downloaded_files: Vec::new(),
            },
        };
        let ghost h0 = self.entries();
        proof {
            match found {
                Some(i) => {
                    assert(h0[i as int] == self.data.history@[i as int]@);
                    assert(entry@ == HistoryEntryView {
                        url: url@,
                        torrent_name: torrent_name@,
                        added_at: now,
                        ..h0[i as int]
                    });
                },
                None => {
                    assert(entry@.watched_files =~= Seq::<Seq<char>>::empty());
                    assert(entry@.downloaded_files =~= Seq::<Seq<char>>::empty());
                },
            }
        }
        let mut kept: Vec<HistoryEntry> = Vec::new();
        let mut i: usize = 0;
        while i < self.data.history.len()
            invariant
                i <= self.data.history.len(),
                entries_of(self.data.history@) == h0,
                entries_of(kept@) == without_url(h0.take(i as int), url@),
            decreases self.data.history.len() - i,
        {
            assert(h0.take(i + 1).drop_last() =~= h0.take(i as int));
            assert(h0[i as int] == self.data.history@[i as int]@);
            if !str_equal(self.data.history[i].url.as_str(), url) {
                let e = self.data.history[i].clone();
                let ghost before = entries_of(kept@);
                let ghost ev = e@;
                kept.push(e);
                assert(entries_of(kept@) =~= before.push(h0[i as int]));
            }
            i += 1;
        }
        assert(h0.take(h0.len() as int) =~= h0);
        let ghost kept_view = entries_of(kept@);
        let ghost entry_view = entry@;
        kept.push(entry);
        assert(entries_of(kept@) =~= kept_view.push(entry_view));
        self.data.history = kept;
    }

    /// Adds (or moves to the end) the entry for `url`, stamped with the
    /// current time.
    pub fn add_entry(&mut self, url: &str, torrent_name: &str)
        ensures
            exists|now: u64|
                final(self).entries() == history_after_add(
                    old(self).entries(),
                    url@,
                    torrent_name@,
                    now,
                ),
            final(self).path_view() == old(self).path_view(),
    {
        let now = unix_now();
        self.add_entry_at(url, torrent_name, now);
    }

    /// Sets a custom display name for the entry at `index`.
    pub fn rename_entry(&mut self, index: usize, new_name: &str) -> (r: Result<(), StorageError>)
        ensures
            index < old(self).entries().len() ==> r is Ok && final(self).entries() == old(
                self,
            ).entries().update(
                index as int,
                HistoryEntryView { custom_name: Some(new_name@), ..old(self).entries()[index as int] },
            ),
            index >= old(self).entries().len() ==> r == Err::<(), StorageError>(
                StorageError::NotFound,
            ) && final(self).entries() == old(self).entries(),
            final(self).path_view() == old(self).path_view(),
    {
        if index >= self.data.history.len() {
            return Err(StorageError::NotFound);
        }
        let mut e = self.data.history[index].clone();
        e.custom_name = Some(to_owned_string(new_name));
        let ghost ev = e@;
        self.data.history.set(index, e);
        assert(self.entries() =~= old(self).entries().update(index as int, ev));
        Ok(())
    }

    /// Marks the first entry for `url` as watched, recording the file name.
    pub fn mark_watched(&mut self, url: &str, file_name: &str)
        ensures
            final(self).entries() == change_first(
                old(self).entries(),
                url@,
                watched_change(file_name@),
            ),
            final(self).path_view() == old(self).path_view(),
    {
        if let Some(i) = self.find_url(url) {
            let mut e = self.data.history[i].clone();
            e.watched = true;
            add_file(&mut e.watched_files, file_name);
            let ghost ev = e@;
            self.data.history.set(i, e);
            assert(self.entries() =~= old(self).entries().update(i as int, ev));
        }
    }

    /// Marks the first entry for `url` as downloaded, recording the file
    /// name.
    pub fn mark_downloaded(&mut self, url: &str, file_name: &str)
        ensures
            final(self).entries() == change_first(
                old(self).entries(),
                url@,
                downloaded_change(file_name@),
            ),
            final(self).path_view() == old(self).path_view(),
    {
        if let Some(i) = self.find_url(url) {
            let mut e = self.data.history[i].clone();
            e.downloaded = true;
            add_file(&mut e.downloaded_files, file_name);
            let ghost ev = e@;
            self.data.history.set(i, e);
            assert(self.entries() =~= old(self).entries().update(i as int, ev));
        }
    }

    /// Removes `file_name` from the watched and downloaded files of the
    /// first entry for `url`.
    pub fn mark_deleted(&mut self, url: &str, file_name: &str)
        ensures
            final(self).entries() == change_first(
                old(self).entries(),
                url@,
                deleted_change(file_name@),
            ),
            final(self).path_view() == old(self).path_view(),
    {
        if let Some(i) = self.find_url(url) {
            let mut e = self.data.history[i].clone();
            e.watched_files = remove_file(&e.watched_files, file_name);
            e.downloaded_files = remove_file(&e.downloaded_files, file_name);
            if e.watched_files.len() == 0 {
                e.watched = false;
            }
            if e.downloaded_files.len() == 0 {
                e.downloaded = false;
            }
            let ghost ev = e@;
            self.data.history.set(i, e);
            assert(self.entries() =~= old(self).entries().update(i as int, ev));
        }
    }

    /// Removes the entry at `index`.
    pub fn remove_entry(&mut self, index: usize) -> (r: Result<(), StorageError>)
        ensures
            index < old(self).entries().len() ==> r is Ok && final(self).entries() == old(
                self,
            ).entries().remove(index as int),
            index >= old(self).entries().len() ==> r == Err::<(), StorageError>(
                StorageError::NotFound,
            ) && final(self).entries() == old(self).entries(),
            final(self).path_view() == old(self).path_view(),
    {
        if index >= self.data.history.len() {
            return Err(StorageError::NotFound);
        }
        self.data.history.remove(index);
        assert(self.entries() =~= old(self).entries().remove(index as int));
        Ok(())
    }
}

} // verus!
