//! The collapsible folder tree of a torrent's files.
//!
//! File names are paths whose parts are separated by `/`.  At each level
//! the tree lists the subfolders first, sorted by name and each followed by
//! its own level when it is expanded, then the files that sit directly at
//! that level, in the order of the file list.
use crate::model::{
    entries_view, files_view, DisplayEntry, DisplayEntryView, TorrentFile, TorrentFileView,
};
use crate::text::{chars_equal, chars_of, copy_range, has_prefix, push_chars, string_from_chars};
use vstd::prelude::*;

verus! {

// ── Ordering of names ────────────────────────────────────────────────

/// `a` sorts before `b` (character by character, a proper prefix first);
/// the order of `String`, since UTF-8 keeps the order of code points.
pub open spec fn seq_lt(a: Seq<char>, b: Seq<char>) -> bool {
    exists|k: int| #[trigger] lt_at(a, b, k)
}

/// `a` and `b` agree before `k`, and at `k` `a` ends first or has the
/// smaller character.
pub open spec fn lt_at(a: Seq<char>, b: Seq<char>, k: int) -> bool {
    &&& 0 <= k <= a.len()
    &&& k <= b.len()
    &&& a.take(k) == b.take(k)
    &&& ((k == a.len() && k < b.len()) || (k < a.len() && k < b.len() && (a[k] as u32) < (
    b[k] as u32)))
}

proof fn lemma_lt_first_difference(a: Seq<char>, b: Seq<char>, i: int)
    requires
        0 <= i <= a.len(),
        i <= b.len(),
        a.take(i) == b.take(i),
        i == a.len() || i == b.len() || a[i] != b[i],
    ensures
        seq_lt(a, b) == ((i == a.len() && i < b.len()) || (i < a.len() && i < b.len() && (a[i] as u32)
            < (b[i] as u32))),
{
    if seq_lt(a, b) {
        let k = choose|k: int| #[trigger] lt_at(a, b, k);
        if k < i {
            assert(a.take(i)[k] == a[k]);
            assert(b.take(i)[k] == b[k]);
        } else if k > i {
            assert(a.take(k)[i] == a[i]);
            assert(b.take(k)[i] == b[i]);
        }
    }
    if (i == a.len() && i < b.len()) || (i < a.len() && i < b.len() && (a[i] as u32) < (
    b[i] as u32)) {
        assert(lt_at(a, b, i));
    }
}

/// Whether `a` sorts before `b`.
pub fn chars_less(a: &Vec<char>, b: &Vec<char>) -> (r: bool)
    ensures
        r == seq_lt(a@, b@),
{
    let mut i: usize = 0;
    while i < a.len() && i < b.len() && a[i] == b[i]
        invariant
            i <= a.len(),
            i <= b.len(),
            a@.take(i as int) == b@.take(i as int),
        decreases a.len() - i,
    {
        assert(a@.take(i + 1) =~= a@.take(i as int).push(a@[i as int]));
        assert(b@.take(i + 1) =~= b@.take(i as int).push(b@[i as int]));
        i += 1;
    }
    proof {
        lemma_lt_first_difference(a@, b@, i as int);
    }
    if i == a.len() {
        i < b.len()
    } else if i == b.len() {
        false
    } else {
        (a[i] as u32) < (b[i] as u32)
    }
}

/// Adds `x` to a sorted list of names, keeping it sorted and free of
/// repeats.
pub open spec fn insert_sorted(s: Seq<Seq<char>>, x: Seq<char>) -> Seq<Seq<char>>
    decreases s.len(),
{
    if s.len() == 0 {
        seq![x]
    } else if s[0] == x {
        s
    } else if seq_lt(s[0], x) {
        seq![s[0]] + insert_sorted(s.drop_first(), x)
    } else {
        seq![x] + s
    }
}

proof fn lemma_seq_lt_irreflexive(a: Seq<char>)
    ensures
        !seq_lt(a, a),
{
    if seq_lt(a, a) {
        let k = choose|k: int| #[trigger] lt_at(a, a, k);
    }
}

proof fn lemma_insert_sorted_at(s: Seq<Seq<char>>, x: Seq<char>, j: int)
    requires
        0 <= j <= s.len(),
        forall|k: int| 0 <= k < j ==> seq_lt(#[trigger] s[k], x),
        j < s.len() ==> !seq_lt(s[j], x),
    ensures
        j < s.len() && s[j] == x ==> insert_sorted(s, x) == s,
        !(j < s.len() && s[j] == x) ==> insert_sorted(s, x) == s.insert(j, x),
    decreases j,
{
    if j == 0 {
        if s.len() > 0 && s[0] != x {
            assert(seq![x] + s =~= s.insert(0, x));
        }
    } else {
        let t = s.drop_first();
        assert forall|k: int| 0 <= k < j - 1 implies seq_lt(#[trigger] t[k], x) by {
            assert(t[k] == s[k + 1]);
        }
        if j < s.len() {
            assert(t[j - 1] == s[j]);
        }
        lemma_insert_sorted_at(t, x, j - 1);
        assert(seq_lt(s[0], x));
        lemma_seq_lt_irreflexive(x);
        assert(s[0] != x);
        if !(j < s.len() && s[j] == x) {
            assert(seq![s[0]] + t.insert(j - 1, x) =~= s.insert(j, x));
        } else {
            assert(seq![s[0]] + t =~= s);
        }
    }
}

/// The names held in a list of character vectors.
pub open spec fn names_view(v: Seq<Vec<char>>) -> Seq<Seq<char>> {
    v.map_values(|x: Vec<char>| x@)
}

/// Adds `x` to a sorted list of names (see [`insert_sorted`]).
pub fn insert_name(s: &mut Vec<Vec<char>>, x: Vec<char>)
    ensures
        names_view(final(s)@) == insert_sorted(names_view(old(s)@), x@),
{
    let ghost s0 = names_view(s@);
    let mut j: usize = 0;
    loop
        invariant
            j <= s.len(),
            names_view(s@) == s0,
            forall|k: int| 0 <= k < j ==> seq_lt(#[trigger] s0[k], x@),
        ensures
            j <= s.len(),
            names_view(s@) == s0,
            forall|k: int| 0 <= k < j ==> seq_lt(#[trigger] s0[k], x@),
            j < s.len() ==> !seq_lt(s0[j as int], x@),
        decreases s.len() - j,
    {
        if j == s.len() {
            break;
        }
        assert(s0[j as int] == s@[j as int]@);
        if !chars_less(&s[j], &x) {
            break;
        }
        j += 1;
    }
    proof {
        lemma_insert_sorted_at(s0, x@, j as int);
    }
    if j < s.len() {
        assert(s0[j as int] == s@[j as int]@);
        if chars_equal(&s[j], &x) {
            return;
        }
    }
    s.insert(j, x);
    assert(names_view(s@) =~= s0.insert(j as int, x@));
}

// ── Parts of a path ──────────────────────────────────────────────────

/// Index of the first `/` in `s`.
pub open spec fn slash_pos(s: Seq<char>) -> Option<int>
    decreases s.len(),
{
    if s.len() == 0 {
        None
    } else if s[0] == '/' {
        Some(0)
    } else {
        match slash_pos(s.drop_first()) {
            Some(i) => Some(i + 1),
            None => None,
        }
    }
}

proof fn lemma_slash_pos(s: Seq<char>, i: int)
    requires
        0 <= i <= s.len(),
        forall|k: int| 0 <= k < i ==> #[trigger] s[k] != '/',
        i < s.len() ==> s[i] == '/',
    ensures
        slash_pos(s) == if i < s.len() {
            Some(i)
        } else {
            None::<int>
        },
    decreases i,
{
    if i > 0 {
        let t = s.drop_first();
        assert forall|k: int| 0 <= k < i - 1 implies #[trigger] t[k] != '/' by {
            assert(t[k] == s[k + 1]);
        }
        if i < s.len() {
            assert(t[i - 1] == s[i]);
        }
        lemma_slash_pos(t, i - 1);
        assert(s[0] != '/');
    }
}

/// Index of the first `/` in `s`, or `s.len()` when there is none.
pub fn find_slash(s: &Vec<char>, from: usize) -> (r: usize)
    requires
        from <= s.len(),
    ensures
        from <= r <= s.len(),
        slash_pos(s@.subrange(from as int, s@.len() as int)) == if r < s.len() {
            Some(r - from)
        } else {
            None::<int>
        },
{
    let mut i = from;
    while i < s.len() && s[i] != '/'
        invariant
            from <= i <= s.len(),
            forall|k: int| from <= k < i ==> s@[k] != '/',
        decreases s.len() - i,
    {
        i += 1;
    }
    proof {
        let t = s@.subrange(from as int, s@.len() as int);
        assert forall|k: int| 0 <= k < i - from implies #[trigger] t[k] != '/' by {
            assert(t[k] == s@[k + from]);
        }
        if i < s.len() {
            assert(t[i - from] == s@[i as int]);
        }
        lemma_slash_pos(t, i - from);
    }
    i
}

/// What follows `prefix` in `name`.
pub open spec fn rest_after(name: Seq<char>, prefix: Seq<char>) -> Seq<char> {
    name.subrange(prefix.len() as int, name.len() as int)
}

/// The folder directly under `prefix` that holds the file `name`, if the
/// file lies deeper than `prefix`.
pub open spec fn folder_under(name: Seq<char>, prefix: Seq<char>) -> Option<Seq<char>> {
    if !has_prefix(name, prefix) {
        None
    } else {
        match slash_pos(rest_after(name, prefix)) {
            Some(i) => Some(rest_after(name, prefix).take(i)),
            None => None,
        }
    }
}

/// The file `name` sits directly at the level `prefix`.
pub open spec fn directly_under(name: Seq<char>, prefix: Seq<char>) -> bool {
    has_prefix(name, prefix) && slash_pos(rest_after(name, prefix)) is None
}

/// The path of folder `f` under `prefix`: `prefix + f + "/"`.
pub open spec fn folder_path_of(prefix: Seq<char>, f: Seq<char>) -> Seq<char> {
    prefix + f + seq!['/']
}

/// The sorted folders directly under `prefix` that hold some of the first
/// `n` files.
pub open spec fn folders_upto(files: Seq<TorrentFileView>, prefix: Seq<char>, n: int) -> Seq<
    Seq<char>,
>
    decreases n,
{
    if n <= 0 {
        Seq::empty()
    } else {
        let acc = folders_upto(files, prefix, n - 1);
        match folder_under(files[n - 1].name, prefix) {
            Some(f) => insert_sorted(acc, f),
            None => acc,
        }
    }
}

/// Positions, among the first `n`, of the files that sit directly at the
/// level `prefix`.
pub open spec fn direct_files_upto(files: Seq<TorrentFileView>, prefix: Seq<char>, n: int) -> Seq<
    int,
>
    decreases n,
{
    if n <= 0 {
        Seq::empty()
    } else {
        let acc = direct_files_upto(files, prefix, n - 1);
        if directly_under(files[n - 1].name, prefix) {
            acc.push(n - 1)
        } else {
            acc
        }
    }
}

/// Length of the longest file name.
pub open spec fn name_bound(files: Seq<TorrentFileView>) -> nat
    decreases files.len(),
{
    if files.len() == 0 {
        0
    } else {
        let b = name_bound(files.drop_last());
        if files.last().name.len() > b {
            files.last().name.len()
        } else {
            b
        }
    }
}

/// The entries of level `prefix` of the tree (see the module's doc).
pub open spec fn level_entries(
    files: Seq<TorrentFileView>,
    prefix: Seq<char>,
    depth: usize,
    expanded: Set<Seq<char>>,
) -> Seq<DisplayEntryView>
    decreases name_bound(files) - prefix.len(), 1int, 0int,
{
    folder_block(files, prefix, depth, expanded, folders_upto(files, prefix, files.len() as int))
        + file_block(files, direct_files_upto(files, prefix, files.len() as int), depth)
}

/// The entries of the given folders of level `prefix`, each followed by its
/// own level when expanded.
pub open spec fn folder_block(
    files: Seq<TorrentFileView>,
    prefix: Seq<char>,
    depth: usize,
    expanded: Set<Seq<char>>,
    folders: Seq<Seq<char>>,
) -> Seq<DisplayEntryView>
    decreases name_bound(files) - prefix.len(), 0int, folders.len(),
{
    if folders.len() == 0 {
        Seq::empty()
    } else {
        let f = folders[0];
        let full = folder_path_of(prefix, f);
        let open = expanded.contains(full);
        let head = seq![DisplayEntryView::Folder { name: f, depth, expanded: open }];
        let inner = if open && full.len() <= name_bound(files) && depth < usize::MAX {
            level_entries(files, full, (depth + 1) as usize, expanded)
        } else {
            Seq::empty()
        };
        head + inner + folder_block(files, prefix, depth, expanded, folders.drop_first())
    }
}

/// How many levels of expanded folders open one inside another below level
/// `prefix`: the depth that building the level adds at most.
pub open spec fn open_height(
    files: Seq<TorrentFileView>,
    prefix: Seq<char>,
    expanded: Set<Seq<char>>,
) -> nat
    decreases name_bound(files) - prefix.len(), 1int, 0int,
{
    folders_height(files, prefix, expanded, folders_upto(files, prefix, files.len() as int))
}

/// The largest [`open_height`] reached through the given folders of level
/// `prefix`, counting the folder itself when it is expanded.
pub open spec fn folders_height(
    files: Seq<TorrentFileView>,
    prefix: Seq<char>,
    expanded: Set<Seq<char>>,
    folders: Seq<Seq<char>>,
) -> nat
    decreases name_bound(files) - prefix.len(), 0int, folders.len(),
{
    if folders.len() == 0 {
        0
    } else {
        let full = folder_path_of(prefix, folders[0]);
        let h: nat = if expanded.contains(full) && full.len() <= name_bound(files) {
            1 + open_height(files, full, expanded)
        } else {
            0
        };
        let t = folders_height(files, prefix, expanded, folders.drop_first());
        if h > t {
            h
        } else {
            t
        }
    }
}

/// File entries for the given positions.
pub open spec fn file_block(files: Seq<TorrentFileView>, idx: Seq<int>, depth: usize) -> Seq<
    DisplayEntryView,
> {
    idx.map_values(|i: int| DisplayEntryView::File { file: files[i], depth })
}

// ── Facts about folders ──────────────────────────────────────────────

proof fn lemma_insert_sorted_members(s: Seq<Seq<char>>, x: Seq<char>)
    ensures
        forall|y: Seq<char>| #[trigger] insert_sorted(s, x).contains(y) ==> y == x || s.contains(y),
    decreases s.len(),
{
    if s.len() > 0 && s[0] != x && seq_lt(s[0], x) {
        let t = s.drop_first();
        lemma_insert_sorted_members(t, x);
        assert forall|y: Seq<char>| #[trigger] insert_sorted(s, x).contains(y) implies y == x
            || s.contains(y) by {
            let r = insert_sorted(s, x);
            let i = choose|i: int| 0 <= i < r.len() && r[i] == y;
            if i == 0 {
                assert(s[0] == y);
            } else {
                assert(insert_sorted(t, x)[i - 1] == y);
                assert(insert_sorted(t, x).contains(y));
                if y != x {
                    let k = choose|k: int| 0 <= k < t.len() && t[k] == y;
                    assert(s[k + 1] == y);
                }
            }
        }
    } else if s.len() > 0 && s[0] != x {
        assert forall|y: Seq<char>| #[trigger] insert_sorted(s, x).contains(y) implies y == x
            || s.contains(y) by {
            let r = insert_sorted(s, x);
            let i = choose|i: int| 0 <= i < r.len() && r[i] == y;
            if i > 0 {
                assert(s[i - 1] == y);
            }
        }
    }
}

/// Every folder found at level `prefix` is the start of some file's path.
proof fn lemma_folders_from_files(files: Seq<TorrentFileView>, prefix: Seq<char>, n: int)
    requires
        0 <= n <= files.len(),
    ensures
        forall|f: Seq<char>| #[trigger]
            folders_upto(files, prefix, n).contains(f) ==> exists|i: int|
                0 <= i < files.len() && has_prefix(
                    #[trigger] files[i].name,
                    folder_path_of(prefix, f),
                ),
    decreases n,
{
    if n > 0 {
        lemma_folders_from_files(files, prefix, n - 1);
        let acc = folders_upto(files, prefix, n - 1);
        let name = files[n - 1].name;
        match folder_under(name, prefix) {
            Some(g) => {
                lemma_insert_sorted_members(acc, g);
                let rest = rest_after(name, prefix);
                let i = slash_pos(rest)->0;
                lemma_slash_pos_found(rest);
                assert(has_prefix(name, folder_path_of(prefix, g))) by {
                    assert(name.subrange(0, folder_path_of(prefix, g).len() as int)
                        =~= folder_path_of(prefix, g));
                }
            },
            None => {},
        }
    }
}

proof fn lemma_slash_pos_found(s: Seq<char>)
    ensures
        slash_pos(s) matches Some(i) ==> 0 <= i < s.len() && s[i] == '/',
    decreases s.len(),
{
    if s.len() > 0 && s[0] != '/' {
        lemma_slash_pos_found(s.drop_first());
    }
}

proof fn lemma_name_bound(files: Seq<TorrentFileView>, i: int)
    requires
        0 <= i < files.len(),
    ensures
        files[i].name.len() <= name_bound(files),
    decreases files.len(),
{
    if i < files.len() - 1 {
        lemma_name_bound(files.drop_last(), i);
    }
}

/// The nesting below a level is at most as deep as the longest name is
/// longer than the level's path.
proof fn lemma_open_height_bound(
    files: Seq<TorrentFileView>,
    prefix: Seq<char>,
    expanded: Set<Seq<char>>,
)
    ensures
        open_height(files, prefix, expanded) <= if name_bound(files) > prefix.len() {
            name_bound(files) - prefix.len()
        } else {
            0
        },
    decreases name_bound(files) - prefix.len(), 1int, 0int,
{
    lemma_folders_height_bound(
        files,
        prefix,
        expanded,
        folders_upto(files, prefix, files.len() as int),
    );
}

proof fn lemma_folders_height_bound(
    files: Seq<TorrentFileView>,
    prefix: Seq<char>,
    expanded: Set<Seq<char>>,
    folders: Seq<Seq<char>>,
)
    ensures
        folders_height(files, prefix, expanded, folders) <= if name_bound(files) > prefix.len() {
            name_bound(files) - prefix.len()
        } else {
            0
        },
    decreases name_bound(files) - prefix.len(), 0int, folders.len(),
{
    if folders.len() > 0 {
        let full = folder_path_of(prefix, folders[0]);
        if expanded.contains(full) && full.len() <= name_bound(files) {
            lemma_open_height_bound(files, full, expanded);
        }
        lemma_folders_height_bound(files, prefix, expanded, folders.drop_first());
    }
}

/// The length of the longest file name.
fn longest_name(files: &Vec<TorrentFile>) -> (r: usize)
    ensures
        r == name_bound(files_view(files@)),
{
    let ghost fv = files_view(files@);
    let mut best: usize = 0;
    let mut i: usize = 0;
    while i < files.len()
        invariant
            i <= files.len(),
            fv == files_view(files@),
            best == name_bound(fv.take(i as int)),
        decreases files.len() - i,
    {
        let cs = chars_of(files[i].name.as_str());
        assert(fv.take(i + 1).drop_last() =~= fv.take(i as int));
        assert(fv.take(i + 1).last() == fv[i as int]);
        if cs.len() > best {
            best = cs.len();
        }
        i += 1;
    }
    assert(fv.take(files.len() as int) =~= fv);
    best
}

/// Appends the whole tree of `files` (the level of the empty path, at depth
/// zero) to `entries`.
pub fn rebuild_tree(files: &Vec<TorrentFile>, expanded: &Vec<String>, entries: &mut Vec<DisplayEntry>)
    ensures
        entries_view(final(entries)@) == entries_view(old(entries)@) + level_entries(
            files_view(files@),
            Seq::empty(),
            0,
            expanded.deep_view().to_set(),
        ),
{
    let prefix: Vec<char> = Vec::new();
    assert(prefix@ =~= Seq::<char>::empty());
    // No name is longer than a `usize` can count, and the nesting of the
    // folders is no deeper than the longest name.
    let longest = longest_name(files);
    proof {
        lemma_open_height_bound(files_view(files@), prefix@, expanded.deep_view().to_set());
        assert(open_height(files_view(files@), prefix@, expanded.deep_view().to_set()) <= longest);
    }
    rebuild_level(files, &prefix, 0, expanded, entries);
}

// ── Building the tree ────────────────────────────────────────────────

/// Whether a folder path is in the set of expanded paths.
pub fn is_expanded(expanded: &Vec<String>, full: &Vec<char>) -> (r: bool)
    ensures
        r == expanded.deep_view().to_set().contains(full@),
{
    let mut i: usize = 0;
    while i < expanded.len()
        invariant
            i <= expanded.len(),
            forall|k: int| 0 <= k < i ==> expanded.deep_view()[k] != full@,
        decreases expanded.len() - i,
    {
        let e = chars_of(expanded[i].as_str());
        if chars_equal(&e, full) {
            assert(expanded.deep_view()[i as int] == full@);
            return true;
        }
        i += 1;
    }
    false
}

/// The name parts that [`rebuild_level`] collects for one level.
fn collect_level(files: &Vec<TorrentFile>, prefix: &Vec<char>) -> (r: (Vec<Vec<char>>, Vec<usize>))
    ensures
        names_view(r.0@) == folders_upto(files_view(files@), prefix@, files@.len() as int),
        r.1@.map_values(|i: usize| i as int) == direct_files_upto(
            files_view(files@),
            prefix@,
            files@.len() as int,
        ),
        forall|m: int| 0 <= m < r.1.len() ==> #[trigger] r.1@[m] < files.len(),
{
    let ghost fv = files_view(files@);
    let mut folders: Vec<Vec<char>> = Vec::new();
    let mut direct: Vec<usize> = Vec::new();
    let mut i: usize = 0;
    while i < files.len()
        invariant
            i <= files.len(),
            fv == files_view(files@),
            names_view(folders@) == folders_upto(fv, prefix@, i as int),
            direct@.map_values(|k: usize| k as int) == direct_files_upto(fv, prefix@, i as int),
            forall|m: int| 0 <= m < direct.len() ==> #[trigger] direct@[m] < i,
        decreases files.len() - i,
    {
        let name = chars_of(files[i].name.as_str());
        assert(fv[i as int].name == name@);
        let ghost before = direct@;
        if name.len() >= prefix.len() && crate::text::starts_with_chars(&name, prefix) {
            let p = prefix.len();
            let slash = find_slash(&name, p);
            if slash < name.len() {
                let f = copy_range(&name, p, slash);
                proof {
                    let rest = rest_after(name@, prefix@);
                    assert(rest.take(slash - p) =~= name@.subrange(p as int, slash as int));
                }
                insert_name(&mut folders, f);
            } else {
                direct.push(i);
                assert(direct@.map_values(|k: usize| k as int) =~= before.map_values(
                    |k: usize| k as int,
                ).push(i as int));
            }
        } else {
            proof {
                if name.len() < prefix.len() {
                    assert(!has_prefix(name@, prefix@));
                }
            }
        }
        i += 1;
    }
    (folders, direct)
}

/// Appends level `prefix` of the tree to `entries` (see the module's doc).
pub fn rebuild_level(
    files: &Vec<TorrentFile>,
    prefix: &Vec<char>,
    depth: usize,
    expanded: &Vec<String>,
    entries: &mut Vec<DisplayEntry>,
)
    requires
        depth + open_height(files_view(files@), prefix@, expanded.deep_view().to_set())
            <= usize::MAX,
    ensures
        entries_view(final(entries)@) == entries_view(old(entries)@) + level_entries(
            files_view(files@),
            prefix@,
            depth,
            expanded.deep_view().to_set(),
        ),
    decreases name_bound(files_view(files@)) - prefix@.len(), 1int, 0int,
{
    let ghost fv = files_view(files@);
    let ghost ex = expanded.deep_view().to_set();
    let (folders, direct) = collect_level(files, prefix);
    let ghost start = entries_view(entries@);
    let ghost all = names_view(folders@);
    proof {
        lemma_folders_from_files(fv, prefix@, files@.len() as int);
        assert(all.skip(0) =~= all);
    }
    let mut j: usize = 0;
    while j < folders.len()
        invariant
            j <= folders.len(),
            depth + folders_height(fv, prefix@, ex, all.skip(j as int)) <= usize::MAX,
            fv == files_view(files@),
            ex == expanded.deep_view().to_set(),
            all == names_view(folders@),
            all == folders_upto(fv, prefix@, files@.len() as int),
            forall|f: Seq<char>| #[trigger]
                all.contains(f) ==> exists|i: int|
                    0 <= i < fv.len() && has_prefix(#[trigger] fv[i].name, folder_path_of(prefix@, f)),
            start + folder_block(fv, prefix@, depth, ex, all) == entries_view(entries@)
                + folder_block(fv, prefix@, depth, ex, all.skip(j as int)),
        decreases folders.len() - j,
    {
        let f = &folders[j];
        let mut full: Vec<char> = Vec::new();
        push_chars(&mut full, prefix);
        push_chars(&mut full, f);
        full.push('/');
        assert(full@ =~= folder_path_of(prefix@, f@));
        assert(all[j as int] == f@);
        let open = is_expanded(expanded, &full);
        let ghost rest_block = all.skip(j as int);
        assert(rest_block[0] == f@);
        assert(rest_block.drop_first() =~= all.skip(j + 1));
        let ghost mid = entries_view(entries@);
        entries.push(DisplayEntry::Folder { name: string_from_chars(f), depth, expanded: open });
        assert(entries_view(entries@) =~= mid + seq![
            DisplayEntryView::Folder { name: f@, depth, expanded: open },
        ]);
        proof {
            assert(all.contains(f@)) by {
                assert(all[j as int] == f@);
            }
            let i = choose|i: int|
                0 <= i < fv.len() && has_prefix(#[trigger] fv[i].name, folder_path_of(prefix@, f@));
            lemma_name_bound(fv, i);
        }
        let ghost with_head = entries_view(entries@);
        if open {
            rebuild_level(files, &full, depth + 1, expanded, entries);
        }
        proof {
            let inner = if open {
                level_entries(fv, full@, (depth + 1) as usize, ex)
            } else {
                Seq::empty()
            };
            assert(entries_view(entries@) =~= with_head + inner);
            assert(folder_block(fv, prefix@, depth, ex, rest_block) == seq![
                DisplayEntryView::Folder { name: f@, depth, expanded: open },
            ] + inner + folder_block(fv, prefix@, depth, ex, all.skip(j + 1)));
            assert(mid + folder_block(fv, prefix@, depth, ex, rest_block) =~= entries_view(entries@)
                + folder_block(fv, prefix@, depth, ex, all.skip(j + 1)));
        }
        j += 1;
    }
    proof {
        assert(all.skip(folders.len() as int) =~= Seq::<Seq<char>>::empty());
    }
    let ghost after_folders = entries_view(entries@);
    let mut k: usize = 0;
    let ghost idx = direct@.map_values(|i: usize| i as int);
    while k < direct.len()
        invariant
            k <= direct.len(),
            fv == files_view(files@),
            idx == direct@.map_values(|i: usize| i as int),
            forall|m: int| 0 <= m < direct.len() ==> #[trigger] direct@[m] < files.len(),
            entries_view(entries@) == after_folders + file_block(fv, idx.take(k as int), depth),
        decreases direct.len() - k,
    {
        let fi = direct[k];
        let file = files[fi].clone();
        let ghost mid = entries_view(entries@);
        entries.push(DisplayEntry::File { file, depth });
        assert(file_block(fv, idx.take(k + 1), depth) =~= file_block(fv, idx.take(k as int), depth).push(
            DisplayEntryView::File { file: fv[fi as int], depth },
        ));
        assert(entries_view(entries@) =~= mid.push(DisplayEntryView::File { file: fv[fi as int], depth }));
        k += 1;
    }
    assert(idx.take(direct.len() as int) =~= idx);
}

} // verus!
