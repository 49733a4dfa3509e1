//! Torrent search against a user-configured JSON API: building the request
//! URL and reading results out of the response.
//!
//! The request itself is network I/O; the response text is read here:
//! `serde_json` parses it, and the parts of the document that the results
//! are read from become a [`SearchBody`].
use crate::config::{FieldMap, SearchConfig};
use crate::text::{
    chars_equal, chars_of, decimal, push_decimal, replace_all, replace_chars, string_from_chars,
};
use vstd::prelude::*;
use serde_json::Value;
use vstd::utf8::encode_utf8;

verus! {

/// A single search hit.
#[derive(Debug)]
pub struct SearchResult {
    pub name: String,
    pub info_hash: String,
    pub seeders: u64,
    pub leechers: u64,
    pub size: u64,
    pub username: String,
}

impl Clone for SearchResult {
    fn clone(&self) -> (r: Self)
        ensures
            r == *self,
    {
        SearchResult {
            name: self.name.clone(),
            info_hash: self.info_hash.clone(),
            seeders: self.seeders,
            leechers: self.leechers,
            size: self.size,
            username: self.username.clone(),
        }
    }
}

// ── URL encoding ─────────────────────────────────────────────────────

/// An upper-case hexadecimal digit for `n` below 16; for larger `n` the
/// letters go on past `F`.
pub open spec fn hex_digit(n: u8) -> char {
    if n < 10 {
        (48 + n) as char
    } else {
        (65 + (n - 10)) as char
    }
}

/// The digit for `n`: `0`..`9`, then letters from `A` on (the ones past
/// `F` for `n` above 15); larger `n` would overflow a byte.
pub fn hex(n: u8) -> (c: char)
    requires
        n <= 200,
    ensures
        c == hex_digit(n),
{
    if n < 10 {
        (48u8 + n) as char
    } else {
        (65u8 + (n - 10)) as char
    }
}

/// Bytes kept as they are in a URL query.
pub open spec fn unreserved(b: u8) -> bool {
    (65 <= b <= 90) || (97 <= b <= 122) || (48 <= b <= 57) || b == 45 || b == 95 || b == 46 || b
        == 126
}

/// How one byte is written: itself when unreserved, `+` for a space, else
/// `%` and two hex digits.
pub open spec fn encode_byte(b: u8) -> Seq<char> {
    if unreserved(b) {
        seq![b as char]
    } else if b == 32 {
        seq!['+']
    } else {
        seq!['%', hex_digit(b / 16), hex_digit(b % 16)]
    }
}

/// The form encoding of a byte string.
pub open spec fn url_encode(bytes: Seq<u8>) -> Seq<char>
    decreases bytes.len(),
{
    if bytes.len() == 0 {
        Seq::empty()
    } else {
        url_encode(bytes.drop_last()) + encode_byte(bytes.last())
    }
}

/// The value of an upper-case hexadecimal digit.
pub open spec fn hex_value(c: char) -> Option<u8> {
    if '0' <= c <= '9' {
        Some(((c as u32) - 48) as u8)
    } else if 'A' <= c <= 'F' {
        Some(((c as u32) - 55) as u8)
    } else {
        None
    }
}

/// Reading a query value back into bytes: `+` is a space, `%` and two
/// upper-case hex digits give that byte, any other ASCII character stands
/// for itself; `None` for anything else.
pub open spec fn url_decode(cs: Seq<char>) -> Option<Seq<u8>>
    decreases cs.len(),
{
    if cs.len() == 0 {
        Some(Seq::empty())
    } else if cs[0] == '%' {
        if cs.len() >= 3 {
            match (hex_value(cs[1]), hex_value(cs[2]), url_decode(cs.skip(3))) {
                (Some(h), Some(l), Some(rest)) => Some(seq![(h * 16 + l) as u8] + rest),
                _ => None,
            }
        } else {
            None
        }
    } else {
        match url_decode(cs.drop_first()) {
            Some(rest) => if cs[0] == '+' {
                Some(seq![32u8] + rest)
            } else if (cs[0] as u32) < 128 {
                Some(seq![cs[0] as u8] + rest)
            } else {
                None
            },
            None => None,
        }
    }
}

/// A character that may stand in an encoded query value: an ASCII letter
/// or digit, one of `-` `_` `.` `~`, or `+` and `%`.  The separators of a
/// query string (`&`, `=`, `#`, `?`, `/`) are not among them.
pub open spec fn query_safe(c: char) -> bool {
    ('A' <= c <= 'Z') || ('a' <= c <= 'z') || ('0' <= c <= '9') || c == '-' || c == '_' || c
        == '.' || c == '~' || c == '+' || c == '%'
}

/// A byte that a query value may hold as it is: an ASCII letter or digit,
/// `-`, `_`, `.` or `~`.
pub open spec fn plain_byte(b: u8) -> bool {
    ('A' as u32 <= b as u32 <= 'Z' as u32) || ('a' as u32 <= b as u32 <= 'z' as u32) || (
    '0' as u32 <= b as u32 <= '9' as u32) || b == 45 || b == 95 || b == 46 || b == 126
}

proof fn lemma_url_encode_append(a: Seq<u8>, b: Seq<u8>)
    ensures
        url_encode(a + b) == url_encode(a) + url_encode(b),
    decreases b.len(),
{
    if b.len() == 0 {
        assert(a + b =~= a);
        assert(url_encode(a) + url_encode(b) =~= url_encode(a));
    } else {
        assert((a + b).drop_last() =~= a + b.drop_last());
        assert((a + b).last() == b.last());
        lemma_url_encode_append(a, b.drop_last());
        assert(url_encode(a) + (url_encode(b.drop_last()) + encode_byte(b.last())) =~= (url_encode(a)
            + url_encode(b.drop_last())) + encode_byte(b.last()));
    }
}

proof fn lemma_hex_digit_value(n: u8)
    requires
        n < 16,
    ensures
        hex_value(hex_digit(n)) == Some(n),
        query_safe(hex_digit(n)),
{
}

proof fn lemma_decode_byte(b: u8, rest: Seq<char>, tail: Seq<u8>)
    requires
        url_decode(rest) == Some(tail),
    ensures
        url_decode(encode_byte(b) + rest) == Some(seq![b] + tail),
        forall|k: int| 0 <= k < encode_byte(b).len() ==> query_safe(#[trigger] encode_byte(b)[k]),
{
    let e = encode_byte(b) + rest;
    if unreserved(b) {
        assert(e[0] == b as char);
        assert(e.drop_first() =~= rest);
    } else if b == 32 {
        assert(e[0] == '+');
        assert(e.drop_first() =~= rest);
    } else {
        lemma_hex_digit_value(b / 16);
        lemma_hex_digit_value(b % 16);
        assert(e[0] == '%' && e[1] == hex_digit(b / 16) && e[2] == hex_digit(b % 16));
        assert(e.skip(3) =~= rest);
        assert(((b / 16) * 16 + b % 16) as u8 == b);
    }
}

/// The query encoding is read back exactly: decoding the encoded bytes
/// gives the bytes again; the encoding holds only letters, digits and
/// `-` `_` `.` `~` `+` `%`, so never a separator of the query string; and a
/// text made only of letters, digits, `-` `_` `.` `~` and spaces is kept
/// as it is, each space written `+`.
pub proof fn url_encoding_reads_back(bytes: Seq<u8>)
    ensures
        url_decode(url_encode(bytes)) == Some(bytes),
        forall|k: int| 0 <= k < url_encode(bytes).len() ==> query_safe(#[trigger] url_encode(bytes)[k]),
        (forall|k: int| 0 <= k < bytes.len() ==> plain_byte(#[trigger] bytes[k]) || bytes[k] == 32)
            ==> url_encode(bytes) == bytes.map_values(
            |b: u8|
                if b == 32 {
                    '+'
                } else {
                    b as char
                },
        ),
    decreases bytes.len(),
{
    if bytes.len() > 0 {
        let b = bytes[0];
        let rest = bytes.drop_first();
        url_encoding_reads_back(rest);
        assert(bytes =~= seq![b] + rest);
        lemma_url_encode_append(seq![b], rest);
        assert(seq![b].drop_last() =~= Seq::<u8>::empty());
        assert(url_encode(seq![b]) =~= encode_byte(b)) by {
            reveal_with_fuel(url_encode, 2);
            assert(url_encode(Seq::<u8>::empty()) =~= Seq::<char>::empty());
        }
        lemma_decode_byte(b, url_encode(rest), rest);
        let e = url_encode(bytes);
        assert forall|k: int| 0 <= k < e.len() implies query_safe(#[trigger] e[k]) by {
            if k < encode_byte(b).len() {
                assert(e[k] == encode_byte(b)[k]);
            } else {
                assert(e[k] == url_encode(rest)[k - encode_byte(b).len()]);
            }
        }
        if forall|k: int| 0 <= k < bytes.len() ==> plain_byte(#[trigger] bytes[k]) || bytes[k] == 32 {
            assert forall|k: int| 0 <= k < rest.len() implies plain_byte(#[trigger] rest[k])
                || rest[k] == 32 by {
                assert(rest[k] == bytes[k + 1]);
            }
            assert(plain_byte(bytes[0]) || bytes[0] == 32);
            let f = |x: u8|
                if x == 32 {
                    '+'
                } else {
                    x as char
                };
            assert(bytes.map_values(f) =~= seq![f(b)] + rest.map_values(f));
        }
    } else {
        assert(url_encode(bytes) =~= Seq::<char>::empty());
    }
}

/// Percent-encodes the UTF-8 bytes of `s` for a query string.
pub fn urlencoding(s: &str) -> (r: String)
    ensures
        r@ == url_encode(encode_utf8(s@)),
{
    let bytes = s.as_bytes();
    let mut out: Vec<char> = Vec::new();
    let mut i: usize = 0;
    while i < bytes.len()
        invariant
            i <= bytes.len(),
            bytes@ == encode_utf8(s@),
            out@ == url_encode(bytes@.take(i as int)),
        decreases bytes.len() - i,
    {
        let b = bytes[i];
        let ghost before = out@;
        if (b >= 65 && b <= 90) || (b >= 97 && b <= 122) || (b >= 48 && b <= 57) || b == 45 || b
            == 95 || b == 46 || b == 126 {
            out.push(b as char);
        } else if b == 32 {
            out.push('+');
        } else {
            out.push('%');
            out.push(hex(b / 16));
            out.push(hex(b % 16));
        }
        proof {
            assert(bytes@.take(i + 1).drop_last() =~= bytes@.take(i as int));
            assert(out@ =~= before + encode_byte(b));
        }
        i += 1;
    }
    assert(bytes@.take(bytes@.len() as int) =~= bytes@);
    string_from_chars(&out)
}

/// The request URL: `{query}` replaced by the encoded query, then `{page}`
/// by the page number.
pub open spec fn request_url(template: Seq<char>, query: Seq<char>, page: u32) -> Seq<char> {
    replace_all(
        replace_all(template, "{query}"@, url_encode(encode_utf8(query))),
        "{page}"@,
        decimal(page as nat),
    )
}

fn literal_chars(s: &str) -> (r: Vec<char>)
    ensures
        r@ == s@,
{
    chars_of(s)
}

// ── Reading the response ─────────────────────────────────────────────

/// A JSON value at a configured field, as far as the results read it.
#[derive(Debug)]
pub enum FieldValue {
    /// A JSON string.
    Str(String),
    /// A JSON number that is a non-negative integer fitting in a `u64`.
    UInt(u64),
    /// Anything else.
    Other,
}

/// One element of the response array: its fields when it is a JSON
/// object (each key once), `None` otherwise.
#[derive(Debug)]
pub struct SearchItem {
    pub fields: Option<Vec<(String, FieldValue)>>,
}

/// The response document: an array of items, or something else.
#[derive(Debug)]
pub enum SearchBody {
    Array(Vec<SearchItem>),
    NotArray,
}

/// Why a search response could not be read.
#[derive(Debug, Clone, Copy, PartialEq, Eq, Structural)]
pub enum SearchError {
    /// The response is valid JSON but not an array.
    NotAnArray,
    /// The response is not valid JSON.
    NotJson,
}

/// What `serde_json` reads of a response text, as far as the results read
/// it: the array's items, each with its fields when it is an object (a
/// string, a number that fits a `u64`, or something else); `None` when the
/// text is not JSON.
pub uninterp spec fn json_search_body(text: Seq<char>) -> Option<SearchBody>;

/// Calls `serde_json::from_str` to read the text as a JSON value and
/// converts the value one for one: an array into its items, an object
/// into its fields, a string, a number through `as_u64`.  The result is
/// named `json_search_body`; nothing more is stated of JSON parsing.
#[verifier::external_body]
fn parse_search_body(text: &str) -> (r: Option<SearchBody>)
    ensures
        r == json_search_body(text@),
{
    let field = |v: &Value| match v {
        Value::String(s) => FieldValue::Str(s.clone()),
        Value::Number(n) => n.as_u64().map_or(FieldValue::Other, FieldValue::UInt),
        _ => FieldValue::Other,
    };
    let item = |v: &Value| SearchItem {
        fields: v.as_object().map(|m| m.iter().map(|(k, x)| (k.clone(), field(x))).collect()),
    };
    match serde_json::from_str::<Value>(text) {
        Ok(Value::Array(a)) => Some(SearchBody::Array(a.iter().map(item).collect())),
        Ok(_) => Some(SearchBody::NotArray),
        Err(_) => None,
    }
}

/// The value at key `key` of an object's fields.
pub open spec fn lookup(fields: Seq<(String, FieldValue)>, key: Seq<char>) -> Option<FieldValue>
    decreases fields.len(),
{
    if fields.len() == 0 {
        None
    } else if fields[0].0@ == key {
        Some(fields[0].1)
    } else {
        lookup(fields.drop_first(), key)
    }
}

/// The field `key` of an item, when the item is an object that has it.
pub open spec fn field_of(item: SearchItem, key: Seq<char>) -> Option<FieldValue> {
    match item.fields {
        Some(f) => lookup(f@, key),
        None => None,
    }
}

/// A string field: its text when the value is a JSON string.
pub open spec fn string_field(item: SearchItem, key: Seq<char>) -> Option<Seq<char>> {
    match field_of(item, key) {
        Some(FieldValue::Str(s)) => Some(s@),
        _ => None,
    }
}

pub open spec fn is_digit(c: char) -> bool {
    '0' <= c <= '9'
}

/// The value of a string of decimal digits.
pub open spec fn digits_value(d: Seq<char>) -> nat
    decreases d.len(),
{
    if d.len() == 0 {
        0
    } else {
        digits_value(d.drop_last()) * 10 + ((d.last() as u32) - 48) as nat
    }
}

/// What follows an optional leading `+`.
pub open spec fn unsigned_digits(s: Seq<char>) -> Seq<char> {
    if s.len() > 0 && s[0] == '+' {
        s.drop_first()
    } else {
        s
    }
}

pub open spec fn all_digits(d: Seq<char>) -> bool {
    forall|i: int| 0 <= i < d.len() ==> is_digit(#[trigger] d[i])
}

/// `u64::from_str`: an optional `+`, then one or more decimal digits whose
/// value fits in a `u64`.
pub open spec fn parse_u64(s: Seq<char>) -> Option<u64> {
    let d = unsigned_digits(s);
    if d.len() == 0 || !all_digits(d) {
        None
    } else if digits_value(d) > u64::MAX {
        None
    } else {
        Some(digits_value(d) as u64)
    }
}

/// A number field: the integer itself, or a string that parses as one.
pub open spec fn int_field(item: SearchItem, key: Seq<char>) -> Option<u64> {
    match field_of(item, key) {
        Some(FieldValue::UInt(n)) => Some(n),
        Some(FieldValue::Str(s)) => parse_u64(s@),
        _ => None,
    }
}

/// The plain contents of a [`SearchResult`].
pub struct SearchResultView {
    pub name: Seq<char>,
    pub info_hash: Seq<char>,
    pub seeders: u64,
    pub leechers: u64,
    pub size: u64,
    pub username: Seq<char>,
}

impl View for SearchResult {
    type V = SearchResultView;

    open spec fn view(&self) -> SearchResultView {
        SearchResultView {
            name: self.name@,
            info_hash: self.info_hash@,
            seeders: self.seeders,
            leechers: self.leechers,
            size: self.size,
            username: self.username@,
        }
    }
}

pub open spec fn or_zero(v: Option<u64>) -> u64 {
    match v {
        Some(n) => n,
        None => 0,
    }
}

/// The result an item gives: it needs a string name and info hash; the
/// counts default to 0 and the uploader to the empty string.
pub open spec fn item_result(item: SearchItem, fm: FieldMap) -> Option<SearchResultView> {
    match (string_field(item, fm.name@), string_field(item, fm.info_hash@)) {
        (Some(name), Some(info_hash)) => Some(
            SearchResultView {
                name,
                info_hash,
                seeders: or_zero(int_field(item, fm.seeders@)),
                leechers: or_zero(int_field(item, fm.leechers@)),
                size: or_zero(int_field(item, fm.size@)),
                username: match string_field(item, fm.username@) {
                    Some(u) => u,
                    None => Seq::empty(),
                },
            },
        ),
        _ => None,
    }
}

/// The results of the items, in order, skipping items that give none.
pub open spec fn items_results(items: Seq<SearchItem>, fm: FieldMap) -> Seq<SearchResultView>
    decreases items.len(),
{
    if items.len() == 0 {
        Seq::empty()
    } else {
        let acc = items_results(items.drop_last(), fm);
        match item_result(items.last(), fm) {
            Some(r) => acc.push(r),
            None => acc,
        }
    }
}

pub open spec fn results_view(v: Seq<SearchResult>) -> Seq<SearchResultView> {
    v.map_values(|r: SearchResult| r@)
}

/// Finds the field `key` of an object.
fn find_field<'a>(fields: &'a Vec<(String, FieldValue)>, key: &str) -> (r: Option<&'a FieldValue>)
    ensures
        match r {
            Some(v) => lookup(fields@, key@) == Some(*v),
            None => lookup(fields@, key@) is None,
        },
{
    let k = chars_of(key);
    let mut i: usize = 0;
    assert(fields@.skip(0) =~= fields@);
    while i < fields.len()
        invariant
            i <= fields.len(),
            k@ == key@,
            lookup(fields@, key@) == lookup(fields@.skip(i as int), key@),
        decreases fields.len() - i,
    {
        let name = chars_of(fields[i].0.as_str());
        assert(fields@.skip(i as int)[0] == fields@[i as int]);
        assert(fields@.skip(i as int).drop_first() =~= fields@.skip(i + 1));
        if chars_equal(&name, &k) {
            return Some(&fields[i].1);
        }
        i += 1;
    }
    None
}

fn field_value<'a>(item: &'a SearchItem, key: &str) -> (r: Option<&'a FieldValue>)
    ensures
        match r {
            Some(v) => field_of(*item, key@) == Some(*v),
            None => field_of(*item, key@) is None,
        },
{
    match &item.fields {
        Some(f) => find_field(f, key),
        None => None,
    }
}

/// A string field of an item (`Value::get` then `as_str`).
pub fn string_val(item: &SearchItem, field: &str) -> (r: Option<String>)
    ensures
        match r {
            Some(s) => string_field(*item, field@) == Some(s@),
            None => string_field(*item, field@) is None,
        },
{
    match field_value(item, field) {
        Some(FieldValue::Str(s)) => Some(s.clone()),
        _ => None,
    }
}

pub(crate) proof fn lemma_digits_value_push(d: Seq<char>, c: char)
    ensures
        digits_value(d.push(c)) == digits_value(d) * 10 + ((c as u32) - 48) as nat,
{
    assert(d.push(c).drop_last() =~= d);
}

/// Parses a decimal `u64` as `str::parse::<u64>` does.
pub fn parse_u64_str(s: &str) -> (r: Option<u64>)
    ensures
        r == parse_u64(s@),
{
    let cs = chars_of(s);
    let start: usize = if cs.len() > 0 && cs[0] == '+' {
        1
    } else {
        0
    };
    let ghost d = unsigned_digits(s@);
    assert(d =~= cs@.subrange(start as int, cs@.len() as int));
    if start == cs.len() {
        return None;
    }
    let mut value: u64 = 0;
    let mut i: usize = start;
    let mut overflow = false;
    while i < cs.len()
        invariant
            start <= i <= cs.len(),
            cs@ == s@,
            d == cs@.subrange(start as int, cs@.len() as int),
            d == unsigned_digits(s@),
            d.len() > 0,
            forall|k: int| start <= k < i ==> is_digit(#[trigger] cs@[k]),
            !overflow ==> value == digits_value(cs@.subrange(start as int, i as int)),
            overflow ==> digits_value(cs@.subrange(start as int, i as int)) > u64::MAX,
        decreases cs.len() - i,
    {
        let c = cs[i];
        if !('0' <= c && c <= '9') {
            assert(!is_digit(d[i - start]));
            assert(!all_digits(d));
            return None;
        }
        let dv = (c as u32 - 48) as u64;
        proof {
            assert(cs@.subrange(start as int, i + 1) =~= cs@.subrange(start as int, i as int).push(c));
            lemma_digits_value_push(cs@.subrange(start as int, i as int), c);
        }
        if !overflow {
            if value > (u64::MAX - dv) / 10 {
                overflow = true;
                assert(digits_value(cs@.subrange(start as int, i + 1)) > u64::MAX) by (nonlinear_arith)
                    requires
                        digits_value(cs@.subrange(start as int, i + 1)) == value * 10 + dv,
                        value > (u64::MAX - dv) / 10,
                        dv <= 9,;
            } else {
                assert(value * 10 + dv <= u64::MAX) by (nonlinear_arith)
                    requires
                        value <= (u64::MAX - dv) / 10,
                        dv <= 9,;
                value = value * 10 + dv;
            }
        } else {
            assert(digits_value(cs@.subrange(start as int, i + 1)) > u64::MAX) by (nonlinear_arith)
                requires
                    digits_value(cs@.subrange(start as int, i + 1)) == digits_value(
                        cs@.subrange(start as int, i as int),
                    ) * 10 + dv,
                    digits_value(cs@.subrange(start as int, i as int)) > u64::MAX,;
        }
        i += 1;
    }
    assert(forall|k: int| 0 <= k < d.len() ==> is_digit(#[trigger] d[k]) ==> true);
    assert forall|k: int| 0 <= k < d.len() implies is_digit(#[trigger] d[k]) by {
        assert(d[k] == cs@[k + start]);
    }
    if overflow {
        None
    } else {
        Some(value)
    }
}

/// A number field of an item (`as_u64`, else a string parsed as `u64`).
pub fn int_val(item: &SearchItem, field: &str) -> (r: Option<u64>)
    ensures
        r == int_field(*item, field@),
{
    match field_value(item, field) {
        Some(FieldValue::UInt(n)) => Some(*n),
        Some(FieldValue::Str(s)) => parse_u64_str(s.as_str()),
        _ => None,
    }
}

/// The result that an item gives, if any (see [`item_result`]).
pub fn result_of_item(item: &SearchItem, fm: &FieldMap) -> (r: Option<SearchResult>)
    ensures
        match r {
            Some(res) => item_result(*item, *fm) == Some(res@),
            None => item_result(*item, *fm) is None,
        },
{
    let name = match string_val(item, fm.name.as_str()) {
        Some(n) => n,
        None => return None,
    };
    let info_hash = match string_val(item, fm.info_hash.as_str()) {
        Some(h) => h,
        None => return None,
    };
    let seeders = match int_val(item, fm.seeders.as_str()) {
        Some(n) => n,
        None => 0,
    };
    let leechers = match int_val(item, fm.leechers.as_str()) {
        Some(n) => n,
        None => 0,
    };
    let size = match int_val(item, fm.size.as_str()) {
        Some(n) => n,
        None => 0,
    };
    let username = match string_val(item, fm.username.as_str()) {
        Some(u) => u,
        None => String::new(),
    };
    Some(SearchResult { name, info_hash, seeders, leechers, size, username })
}

/// Default search service: reads results out of the configured JSON API.
pub struct SearchServiceImpl;

impl SearchServiceImpl {
    /// The URL to request for `query`, or `None` when no API is configured
    /// (a search then has no results).
    pub fn request_url(config: &SearchConfig, query: &str) -> (r: Option<String>)
        ensures
            config.url@.len() == 0 ==> r is None,
            config.url@.len() > 0 ==> (r matches Some(u) && u@ == request_url(
                config.url@,
                query@,
                config.page,
            )),
    {
        let template = chars_of(config.url.as_str());
        if template.len() == 0 {
            return None;
        }
        let q = urlencoding(query);
        let qc = chars_of(q.as_str());
        let query_pat = literal_chars("{query}");
        let page_pat = literal_chars("{page}");
        proof {
            reveal_strlit("{query}");
            reveal_strlit("{page}");
        }
        let step = replace_chars(&template, &query_pat, &qc);
        let mut page: Vec<char> = Vec::new();
        push_decimal(&mut page, config.page as u64);
        assert(page@ =~= decimal(config.page as nat));
        let url = replace_chars(&step, &page_pat, &page);
        Some(string_from_chars(&url))
    }

    /// The results of a response: an error when it is not an array, else
    /// one result per item that gives one, in order.
    pub fn results(body: &SearchBody, fm: &FieldMap) -> (r: Result<Vec<SearchResult>, SearchError>)
        ensures
            match *body {
                SearchBody::NotArray => r == Err::<Vec<SearchResult>, SearchError>(
                    SearchError::NotAnArray,
                ),
                SearchBody::Array(items) => (r matches Ok(v) && results_view(v@) == items_results(
                    items@,
                    *fm,
                )),
            },
    {
        match body {
            SearchBody::NotArray => Err(SearchError::NotAnArray),
            SearchBody::Array(items) => {
                let mut out: Vec<SearchResult> = Vec::new();
                let mut i: usize = 0;
                while i < items.len()
                    invariant
                        i <= items.len(),
                        results_view(out@) == items_results(items@.take(i as int), *fm),
                    decreases items.len() - i,
                {
                    let ghost before = out@;
                    assert(items@.take(i + 1).drop_last() =~= items@.take(i as int));
                    match result_of_item(&items[i], fm) {
                        Some(res) => {
                            out.push(res);
                            assert(results_view(out@) =~= results_view(before).push(res@));
                        },
                        None => {},
                    }
                    i += 1;
                }
                assert(items@.take(items@.len() as int) =~= items@);
                Ok(out)
            },
        }
    }
}

/// The results of a response text: an error when it is not JSON or not a
/// JSON array, else one result per item that gives one, in order.
pub fn search_response(text: &str, fm: &FieldMap) -> (r: Result<Vec<SearchResult>, SearchError>)
    ensures
        match json_search_body(text@) {
            None => r == Err::<Vec<SearchResult>, SearchError>(SearchError::NotJson),
            Some(SearchBody::NotArray) => r == Err::<Vec<SearchResult>, SearchError>(
                SearchError::NotAnArray,
            ),
            Some(SearchBody::Array(items)) => (r matches Ok(v) && results_view(v@) == items_results(
                items@,
                *fm,
            )),
        },
{
    match parse_search_body(text) {
        None => Err(SearchError::NotJson),
        Some(body) => SearchServiceImpl::results(&body, fm),
    }
}

} // verus!
