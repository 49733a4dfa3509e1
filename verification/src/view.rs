//! The text that the screens show, computed from the state: shortened
//! names, counts, the search popup's title and rows, and the lines of the
//! lists. Drawing them is left to the terminal front end.
use crate::handlers::search::{page_of, page_slice};
use crate::model::fuzzy;
use crate::search::{results_view, SearchResult, SearchResultView};
use crate::state::AppState;
use crate::text::{
    byte_len, char_width, char_width_of, chars_of, decimal, is_control, is_control_char,
    lemma_byte_len_push, push_decimal, push_str_chars, str_len, string_from_chars,
    to_owned_string,
};
use crate::theme::{
    div_round_half_even, f64_of, f64_value, lemma_round_half_even_bound, round_half_even,
    tenths_text,
};
use vstd::prelude::*;

verus! {

// ── Shortening ───────────────────────────────────────────────────────

/// The longest prefix of `s` whose UTF-8 encoding takes at most `b` bytes.
pub open spec fn byte_prefix(s: Seq<char>, b: int) -> Seq<char>
    decreases s.len(),
{
    if s.len() == 0 || char_width(s[0]) > b {
        Seq::empty()
    } else {
        seq![s[0]] + byte_prefix(s.drop_first(), b - char_width(s[0]))
    }
}

/// Byte `b` of `s` starts a character (or is its end).
pub open spec fn on_char_boundary(s: Seq<char>, b: int) -> bool {
    byte_len(byte_prefix(s, b)) == b
}

/// `s` cut to `max - 3` bytes followed by `...` when it is longer than
/// `max` bytes.
pub open spec fn truncated(s: Seq<char>, max: usize) -> Seq<char> {
    if str_len(s) > max {
        byte_prefix(s, max - 3) + "..."@
    } else {
        s
    }
}

/// Cutting `s` would slice inside a character, or `max` is below 3 (std
/// panics on both).
pub open spec fn truncation_panics(s: Seq<char>, max: usize) -> bool {
    str_len(s) > max && (max < 3 || !on_char_boundary(s, max - 3))
}

proof fn lemma_byte_prefix_step(s: Seq<char>, i: int, b: int)
    requires
        0 <= i < s.len(),
        char_width(s[i]) <= b,
    ensures
        byte_prefix(s.skip(i), b) == seq![s[i]] + byte_prefix(s.skip(i + 1), b - char_width(s[i])),
{
    assert(s.skip(i)[0] == s[i]);
    assert(s.skip(i).drop_first() =~= s.skip(i + 1));
}

/// Length in characters of `byte_prefix(cs, b)`, and its byte length.
fn prefix_chars(cs: &Vec<char>, b: usize) -> (r: (usize, usize))
    ensures
        r.0 <= cs.len(),
        byte_prefix(cs@, b as int) == cs@.take(r.0 as int),
        r.1 == byte_len(cs@.take(r.0 as int)),
        r.1 <= b,
{
    let mut i: usize = 0;
    let mut acc: usize = 0;
    assert(cs@.skip(0) =~= cs@);
    assert(cs@.take(0) =~= Seq::<char>::empty());
    assert(vstd::utf8::encode_utf8(Seq::<char>::empty()) =~= Seq::<u8>::empty());
    while i < cs.len() && char_width_of(cs[i]) <= b - acc
        invariant
            i <= cs.len(),
            acc <= b,
            acc == byte_len(cs@.take(i as int)),
            byte_prefix(cs@, b as int) == cs@.take(i as int) + byte_prefix(
                cs@.skip(i as int),
                b - acc,
            ),
        decreases cs.len() - i,
    {
        let w = char_width_of(cs[i]);
        proof {
            lemma_byte_prefix_step(cs@, i as int, b - acc);
            lemma_byte_len_push(cs@.take(i as int), cs@[i as int]);
            assert(cs@.take(i + 1) =~= cs@.take(i as int).push(cs@[i as int]));
            assert(cs@.take(i as int) + (seq![cs@[i as int]] + byte_prefix(
                cs@.skip(i + 1),
                b - acc - w,
            )) =~= cs@.take(i + 1) + byte_prefix(cs@.skip(i + 1), b - acc - w));
        }
        acc = acc + w;
        i = i + 1;
    }
    proof {
        if i == cs.len() {
            assert(cs@.skip(i as int).len() == 0);
        } else {
            assert(cs@.skip(i as int)[0] == cs@[i as int]);
        }
        assert(byte_prefix(cs@.skip(i as int), b - acc) =~= Seq::<char>::empty());
        assert(cs@.take(i as int) + Seq::<char>::empty() =~= cs@.take(i as int));
    }
    (i, acc)
}

/// Whether [`truncate`] can cut `s` at `max` without slicing a character.
pub fn can_truncate(s: &str, max: usize) -> (r: bool)
    ensures
        r == !truncation_panics(s@, max),
{
    if s.len() <= max {
        return true;
    }
    if max < 3 {
        return false;
    }
    let cs = chars_of(s);
    let (_, bytes) = prefix_chars(&cs, max - 3);
    bytes == max - 3
}

/// Shortens `s` to `max - 3` bytes and `...` when it is longer than `max`
/// bytes.
pub fn truncate(s: &str, max: usize) -> (r: String)
    requires
        !truncation_panics(s@, max),
    ensures
        r@ == truncated(s@, max),
{
    if s.len() <= max {
        return to_owned_string(s);
    }
    let cs = chars_of(s);
    let (n, _) = prefix_chars(&cs, max - 3);
    let mut out = crate::text::copy_range(&cs, 0, n);
    assert(cs@.subrange(0, n as int) =~= cs@.take(n as int));
    push_str_chars(&mut out, "...");
    string_from_chars(&out)
}

// ── Seeder counts ────────────────────────────────────────────────────

/// `2^53 * 1000`: from here on, `v / 1000` needs more than 53 bits.
pub open spec fn wide_quotient() -> nat {
    0x20_0000_0000_0000 * 1000
}

/// The largest `e <= 52`, from `e` up, for which `v * 2^e` stays below
/// [`wide_quotient`]: the scale at which `v / 1000` has 53 bits.
pub open spec fn quotient_scale(v: nat, e: nat) -> nat
    decreases 52 - e,
{
    if e >= 52 || v * vstd::arithmetic::power2::pow2((e + 1) as nat) >= wide_quotient() {
        e
    } else {
        quotient_scale(v, e + 1)
    }
}

/// Ten times the `f64` nearest to `v / 1000`, rounded to an integer with
/// ties to even (the digits `{:.1}` prints).
pub open spec fn thousandths_tenths(v: nat) -> nat {
    if v >= 2 * wide_quotient() {
        round_half_even(v, 4000) * 40
    } else if v >= wide_quotient() {
        round_half_even(v, 2000) * 20
    } else {
        let e = quotient_scale(v, 0);
        let p = vstd::arithmetic::power2::pow2(e);
        round_half_even(10 * round_half_even(v * p, 1000), p)
    }
}

/// The seeder column: the count itself below a thousand, else thousands
/// with one decimal and `k`, as `{:.1}` prints `n as f64 / 1000.0`.
pub open spec fn seeders_text(n: nat) -> Seq<char> {
    if n >= 1000 {
        tenths_text(thousandths_tenths(f64_value(n))) + "k"@
    } else {
        decimal(n)
    }
}

/// Ten times the `f64` nearest to `v / 1000`, rounded to an integer.
fn thousandths_tenths_of(v: u128) -> (r: u64)
    requires
        v <= 0x1_0000_0000_0000_1000,
    ensures
        r == thousandths_tenths(v as nat),
{
    proof {
        vstd::arithmetic::power2::lemma2_to64();
    }
    let wide: u128 = 0x20_0000_0000_0000 * 1000;
    if v >= 2 * wide {
        let m = div_round_half_even(v, 4000);
        proof {
            lemma_round_half_even_bound(v as nat, 4000);
        }
        return (m * 40) as u64;
    }
    if v >= wide {
        let m = div_round_half_even(v, 2000);
        proof {
            lemma_round_half_even_bound(v as nat, 2000);
        }
        return (m * 20) as u64;
    }
    let mut e: u64 = 0;
    let mut p: u128 = 1;
    let mut scaled: u128 = v;
    while e < 52 && scaled * 2 < wide
        invariant
            e <= 52,
            p == vstd::arithmetic::power2::pow2(e as nat),
            scaled == v * p,
            scaled < wide,
            p <= 0x10_0000_0000_0000,
            wide == wide_quotient(),
            quotient_scale(v as nat, 0) == quotient_scale(v as nat, e as nat),
        decreases 52 - e,
    {
        proof {
            vstd::arithmetic::power2::lemma_pow2_unfold((e + 1) as nat);
            assert(v * (p * 2) == (v * p) * 2) by (nonlinear_arith);
            vstd::arithmetic::power2::lemma2_to64_rest();
            if e + 1 < 52 {
                vstd::arithmetic::power2::lemma_pow2_strictly_increases((e + 1) as nat, 52);
            }
        }
        e = e + 1;
        p = p * 2;
        scaled = scaled * 2;
    }
    proof {
        vstd::arithmetic::power2::lemma_pow2_unfold((e + 1) as nat);
        assert(v * (p * 2) == (v * p) * 2) by (nonlinear_arith);
        assert(quotient_scale(v as nat, e as nat) == e);
        vstd::arithmetic::power2::lemma_pow2_pos(e as nat);
    }
    let m = div_round_half_even(scaled, 1000);
    proof {
        lemma_round_half_even_bound(scaled as nat, 1000);
    }
    let t = div_round_half_even(10 * m, p);
    proof {
        lemma_round_half_even_bound((10 * m) as nat, p as nat);
        vstd::arithmetic::div_mod::lemma_div_is_ordered_by_denominator((10 * m) as int, 1, p as int);
    }
    t as u64
}

/// The seeder count as the results table shows it.
pub fn format_seeders(n: u64) -> (r: String)
    ensures
        r@ == seeders_text(n as nat),
{
    let mut out: Vec<char> = Vec::new();
    if n < 1000 {
        push_decimal(&mut out, n);
        return string_from_chars(&out);
    }
    let v = f64_of(n);
    let t = thousandths_tenths_of(v);
    push_decimal(&mut out, t / 10);
    out.push('.');
    push_decimal(&mut out, t % 10);
    push_str_chars(&mut out, "k");
    string_from_chars(&out)
}

// ── Control characters ───────────────────────────────────────────────

/// `s` without its control characters.
pub open spec fn without_controls(s: Seq<char>) -> Seq<char>
    decreases s.len(),
{
    if s.len() == 0 {
        Seq::empty()
    } else {
        let acc = without_controls(s.drop_last());
        if is_control_char(s.last()) {
            acc
        } else {
            acc.push(s.last())
        }
    }
}

/// Strips control characters, so that a torrent title cannot carry
/// terminal escape sequences into the log.
pub fn sanitize(raw: &str) -> (r: String)
    ensures
        r@ == without_controls(raw@),
{
    let cs = chars_of(raw);
    let mut out: Vec<char> = Vec::new();
    let mut i: usize = 0;
    while i < cs.len()
        invariant
            i <= cs.len(),
            cs@ == raw@,
            out@ == without_controls(cs@.take(i as int)),
        decreases cs.len() - i,
    {
        assert(cs@.take(i + 1).drop_last() =~= cs@.take(i as int));
        assert(cs@.take(i + 1).last() == cs@[i as int]);
        if !is_control(cs[i]) {
            out.push(cs[i]);
        }
        i += 1;
    }
    assert(cs@.take(cs@.len() as int) =~= cs@);
    string_from_chars(&out)
}

// ── The search popup ─────────────────────────────────────────────────

/// Results shown on one page of the popup's table.
pub const TABLE_PAGE: usize = 20;

/// A result is listed while the query is empty, equals the fetched query,
/// or fuzzy-matches its name.
pub open spec fn result_listed(query: Seq<char>, fetched: Seq<char>, r: SearchResultView) -> bool {
    query.len() == 0 || query == fetched || fuzzy(query, r.name)
}

/// The results of `rs` that are listed, in order.
pub open spec fn listed_results(rs: Seq<SearchResultView>, query: Seq<char>, fetched: Seq<char>) -> Seq<
    SearchResultView,
>
    decreases rs.len(),
{
    if rs.len() == 0 {
        Seq::empty()
    } else {
        let acc = listed_results(rs.drop_last(), query, fetched);
        if result_listed(query, fetched, rs.last()) {
            acc.push(rs.last())
        } else {
            acc
        }
    }
}

proof fn lemma_listed_len(rs: Seq<SearchResultView>, query: Seq<char>, fetched: Seq<char>)
    ensures
        listed_results(rs, query, fetched).len() <= rs.len(),
    decreases rs.len(),
{
    if rs.len() > 0 {
        lemma_listed_len(rs.drop_last(), query, fetched);
    }
}

/// The results of `results` that pass the filter, in order.
pub fn listed(results: &Vec<SearchResult>, query: &str, fetched: &str) -> (r: Vec<SearchResult>)
    ensures
        results_view(r@) == listed_results(results_view(results@), query@, fetched@),
{
    let ghost rv = results_view(results@);
    let same = crate::text::str_equal(query, fetched);
    let empty = query.is_empty();
    let mut out: Vec<SearchResult> = Vec::new();
    let mut i: usize = 0;
    while i < results.len()
        invariant
            i <= results.len(),
            rv == results_view(results@),
            same == (query@ == fetched@),
            empty == (query@.len() == 0),
            results_view(out@) == listed_results(rv.take(i as int), query@, fetched@),
        decreases results.len() - i,
    {
        assert(rv.take(i + 1).drop_last() =~= rv.take(i as int));
        assert(rv.take(i + 1).last() == results@[i as int]@);
        if empty || same || crate::model::fuzzy_match(query, results[i].name.as_str()) {
            let r = results[i].clone();
            let ghost before = out@;
            out.push(r);
            assert(results_view(out@) =~= results_view(before).push(rv[i as int]));
        }
        i += 1;
    }
    assert(rv.take(results.len() as int) =~= rv);
    out
}

/// How many of `results` pass the filter.
pub fn visible_filtered_count(results: &Vec<SearchResult>, query: &str, fetched: &str) -> (r: usize)
    ensures
        r == listed_results(results_view(results@), query@, fetched@).len(),
{
    listed(results, query, fetched).len()
}

/// The results on the table's current page (pages of [`TABLE_PAGE`]).
pub fn current_page(app: &AppState) -> (r: Vec<SearchResult>)
    ensures
        results_view(r@) == page_of(
            results_view(app.search_popup.all_results@),
            app.search_popup.page,
            TABLE_PAGE as int,
        ),
{
    page_slice(&app.search_popup.all_results, app.search_popup.page, TABLE_PAGE)
}

/// The search bar of the popup: the query and its page, or, while the typed
/// text differs from the fetched query, how many results it keeps.
pub open spec fn search_title_text(
    query: Seq<char>,
    fetched: Seq<char>,
    page: u32,
    shown: Seq<SearchResultView>,
) -> Seq<char> {
    if query.len() == 0 {
        "Query: "@
    } else if query != fetched && shown.len() > 0 {
        "Filter: "@ + query + "  ("@ + decimal(listed_results(shown, query, fetched).len()) + "/"@
            + decimal(shown.len()) + ")"@
    } else {
        "Query: "@ + query + "  (Page "@ + decimal(page as nat + 1) + ")"@
    }
}

/// Showing the page number would overflow it (std panics on that).
pub open spec fn search_title_panics(o: AppState, shown_len: int) -> bool {
    &&& o.search_popup.query@.len() > 0
    &&& !(o.search_popup.query@ != o.search_popup.fetched_query@ && shown_len > 0)
    &&& o.search_popup.page == u32::MAX
}

/// Tells whether [`search_title`] would overflow the page number for
/// `shown_len` results on the page, so that a caller can refuse to call it.
pub fn search_title_would_panic(app: &AppState, shown_len: usize) -> (r: bool)
    ensures
        r == search_title_panics(*app, shown_len as int),
{
    let q = app.search_popup.query.as_str();
    let f = app.search_popup.fetched_query.as_str();
    !q.is_empty() && !(!crate::text::str_equal(q, f) && shown_len > 0) && app.search_popup.page
        == u32::MAX
}

/// The title of the popup's search bar, over the results `shown` on the
/// current page.
pub fn search_title(app: &AppState, shown: &Vec<SearchResult>) -> (r: String)
    requires
        !search_title_panics(*app, shown@.len() as int),
    ensures
        r@ == search_title_text(
            app.search_popup.query@,
            app.search_popup.fetched_query@,
            app.search_popup.page,
            results_view(shown@),
        ),
{
    let q = app.search_popup.query.as_str();
    let f = app.search_popup.fetched_query.as_str();
    if q.is_empty() {
        return to_owned_string("Query: ");
    }
    let same = crate::text::str_equal(q, f);
    let mut v = chars_of(if !same && shown.len() > 0 {
        "Filter: "
    } else {
        "Query: "
    });
    push_str_chars(&mut v, q);
    if !same && shown.len() > 0 {
        let count = visible_filtered_count(shown, q, f);
        push_str_chars(&mut v, "  (");
        push_decimal(&mut v, count as u64);
        push_str_chars(&mut v, "/");
        push_decimal(&mut v, shown.len() as u64);
        push_str_chars(&mut v, ")");
    } else {
        push_str_chars(&mut v, "  (Page ");
        push_decimal(&mut v, (app.search_popup.page + 1) as u64);
        push_str_chars(&mut v, ")");
    }
    string_from_chars(&v)
}

/// What the body of the search popup shows.
#[derive(Debug, Clone, Copy, PartialEq, Eq, Structural)]
pub enum SearchBody {
    /// No search address is configured yet.
    NoApi,
    /// A search is running.
    Searching,
    /// Nothing has been fetched yet.
    Prompt,
    /// The current page holds no results.
    EmptyPage,
    /// The results table.
    Results,
}

pub open spec fn search_body_of(o: AppState, shown_len: int) -> SearchBody {
    if o.search_popup.config.url@.len() == 0 {
        SearchBody::NoApi
    } else if o.search_popup.busy {
        SearchBody::Searching
    } else if shown_len == 0 && o.search_popup.fetched_query@.len() == 0 {
        SearchBody::Prompt
    } else if shown_len == 0 {
        SearchBody::EmptyPage
    } else {
        SearchBody::Results
    }
}

pub fn search_body(app: &AppState, shown: &Vec<SearchResult>) -> (r: SearchBody)
    ensures
        r == search_body_of(*app, shown@.len() as int),
{
    if app.search_popup.config.url.as_str().is_empty() {
        SearchBody::NoApi
    } else if app.search_popup.busy {
        SearchBody::Searching
    } else if shown.len() == 0 && app.search_popup.fetched_query.as_str().is_empty() {
        SearchBody::Prompt
    } else if shown.len() == 0 {
        SearchBody::EmptyPage
    } else {
        SearchBody::Results
    }
}

/// The key help under the popup.
pub fn search_footer(app: &AppState, shown: &Vec<SearchResult>) -> (r: &'static str)
    ensures
        r@ == if shown@.len() == 0 && app.search_popup.fetched_query@.len() == 0 {
            "[Enter] fetch  [c] config  [Esc] close"@
        } else {
            "[Enter] add  [← →] page  [c] config  [/] clear  [Esc] close"@
        },
{
    if shown.len() == 0 && app.search_popup.fetched_query.as_str().is_empty() {
        "[Enter] fetch  [c] config  [Esc] close"
    } else {
        "[Enter] add  [← →] page  [c] config  [/] clear  [Esc] close"
    }
}

/// One row of the results table.
#[derive(Debug)]
pub struct ResultRow {
    pub number: String,
    pub name: String,
    pub seeders: String,
    pub leechers: String,
    pub size: String,
    pub selected: bool,
}

/// Rows that fit in a table `height` lines high, below its two header lines.
pub open spec fn table_rows(height: u16, listed_len: int) -> int {
    let room = if height >= 2 {
        height - 2
    } else {
        0
    };
    if room < listed_len {
        room
    } else {
        listed_len
    }
}

/// A listed result's name can be shortened to 60 bytes without slicing a
/// character (std panics otherwise).
pub open spec fn names_fit(rs: Seq<SearchResultView>, n: int) -> bool {
    forall|i: int| 0 <= i < n ==> !truncation_panics(#[trigger] rs[i].name, 60)
}

/// The rows of the results table for the results `shown` on the page, in a
/// table `height` lines high.
pub fn result_rows(app: &AppState, shown: &Vec<SearchResult>, height: u16) -> (r: Vec<ResultRow>)
    requires
        names_fit(
            listed_results(results_view(shown@), app.search_popup.query@, app.search_popup.fetched_query@),
            table_rows(
                height,
                listed_results(results_view(shown@), app.search_popup.query@, app.search_popup.fetched_query@).len() as int,
            ),
        ),
    ensures
        ({
            let l = listed_results(
                results_view(shown@),
                app.search_popup.query@,
                app.search_popup.fetched_query@,
            );
            &&& r@.len() == table_rows(height, l.len() as int)
            &&& forall|i: int|
                0 <= i < r@.len() ==> {
                    let sel = i == app.search_popup.selected;
                    &&& (#[trigger] r@[i]).number@ == " "@ + decimal((i + 1) as nat)
                    &&& r@[i].name@ == (if sel {
                        "▶ "@
                    } else {
                        "  "@
                    }) + truncated(l[i].name, 60)
                    &&& r@[i].seeders@ == seeders_text(l[i].seeders as nat)
                    &&& r@[i].leechers@ == decimal(l[i].leechers as nat)
                    &&& r@[i].size@ == crate::theme::size_text(l[i].size as nat)
                    &&& r@[i].selected == sel
                }
        }),
{
    let rows = listed(shown, app.search_popup.query.as_str(), app.search_popup.fetched_query.as_str());
    let ghost l = results_view(rows@);
    proof {
        lemma_listed_len(results_view(shown@), app.search_popup.query@, app.search_popup.fetched_query@);
    }
    let room: usize = if height >= 2 {
        (height - 2) as usize
    } else {
        0
    };
    let count = if room < rows.len() {
        room
    } else {
        rows.len()
    };
    let mut out: Vec<ResultRow> = Vec::new();
    let mut i: usize = 0;
    while i < count
        invariant
            i <= count <= rows.len(),
            l == results_view(rows@),
            count == table_rows(height, l.len() as int),
            names_fit(l, count as int),
            out@.len() == i,
            forall|k: int|
                0 <= k < i ==> {
                    let sel = k == app.search_popup.selected;
                    &&& (#[trigger] out@[k]).number@ == " "@ + decimal((k + 1) as nat)
                    &&& out@[k].name@ == (if sel {
                        "▶ "@
                    } else {
                        "  "@
                    }) + truncated(l[k].name, 60)
                    &&& out@[k].seeders@ == seeders_text(l[k].seeders as nat)
                    &&& out@[k].leechers@ == decimal(l[k].leechers as nat)
                    &&& out@[k].size@ == crate::theme::size_text(l[k].size as nat)
                    &&& out@[k].selected == sel
                },
        decreases count - i,
    {
        let r = &rows[i];
        assert(l[i as int] == r@);
        assert(!truncation_panics(l[i as int].name, 60));
        let sel = i == app.search_popup.selected;
        let mut number = chars_of(" ");
        push_decimal(&mut number, (i + 1) as u64);
        let mut name = chars_of(if sel {
            "▶ "
        } else {
            "  "
        });
        let short = truncate(r.name.as_str(), 60);
        push_str_chars(&mut name, short.as_str());
        let mut leech: Vec<char> = Vec::new();
        push_decimal(&mut leech, r.leechers);
        out.push(
            ResultRow {
                number: string_from_chars(&number),
                name: string_from_chars(&name),
                seeders: format_seeders(r.seeders),
                leechers: string_from_chars(&leech),
                size: crate::theme::format_size(r.size),
                selected: sel,
            },
        );
        i += 1;
    }
    out
}

} // verus!
