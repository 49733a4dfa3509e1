//! The embedded HTTP stream server's protocol: which file a request asks
//! for, the replies to bad requests, the chunked framing of the data, the
//! stream URLs handed to the player, and the file list of a torrent.
use crate::model::{TorrentFile, TorrentInfo};
use crate::search::{hex_digit, parse_u64, parse_u64_str};
use crate::text::{
    byte_len, char_pos, chars_of, str_len, copy_range, decimal, find_char, is_whitespace, is_ws, join_strings,
    joined, push_decimal, push_str_chars, string_from_chars, trim_start,
};
use vstd::prelude::*;
use vstd::utf8::encode_utf8;

verus! {

/// Longest request path served, in bytes.
pub const MAX_PATH_LEN: usize = 256;

// ── The request line ─────────────────────────────────────────────────

/// The first line of `s` as `str::lines` yields it: up to the first `\n`,
/// without a `\r` just before it; `None` for an empty text.
pub open spec fn first_line(s: Seq<char>) -> Option<Seq<char>> {
    if s.len() == 0 {
        None
    } else {
        match char_pos(s, '\n') {
            Some(i) => {
                let l = s.take(i);
                Some(
                    if l.len() > 0 && l.last() == '\r' {
                        l.drop_last()
                    } else {
                        l
                    },
                )
            },
            None => Some(s),
        }
    }
}

/// Number of leading characters of `s` that are not whitespace.
pub open spec fn word_len(s: Seq<char>) -> nat
    decreases s.len(),
{
    if s.len() > 0 && !is_ws(s[0]) {
        1 + word_len(s.drop_first())
    } else {
        0
    }
}

/// The second whitespace-separated word of `s` (`split_whitespace().nth(1)`).
pub open spec fn second_word(s: Seq<char>) -> Option<Seq<char>> {
    let a = trim_start(s);
    let b = trim_start(a.skip(word_len(a) as int));
    if a.len() == 0 || b.len() == 0 {
        None
    } else {
        Some(b.take(word_len(b) as int))
    }
}

/// The path of a request: the second word of its first line, `/` when
/// there is none.
pub open spec fn request_path(s: Seq<char>) -> Seq<char> {
    match first_line(s) {
        Some(l) => match second_word(l) {
            Some(w) => w,
            None => "/"@,
        },
        None => "/"@,
    }
}

/// The non-empty pieces of `s` between slashes, in order.
pub open spec fn segments(s: Seq<char>) -> Seq<Seq<char>>
    decreases s.len(),
{
    if s.len() == 0 {
        Seq::empty()
    } else {
        match char_pos(s, '/') {
            None => seq![s],
            Some(i) => {
                proof {
                    lemma_char_pos_in_range(s, '/');
                }
                let rest = segments(s.skip(i + 1));
                if i == 0 {
                    rest
                } else {
                    seq![s.take(i)] + rest
                }
            },
        }
    }
}

pub proof fn lemma_char_pos_in_range(s: Seq<char>, c: char)
    ensures
        char_pos(s, c) matches Some(i) ==> 0 <= i < s.len() && s[i] == c,
    decreases s.len(),
{
    if s.len() > 0 && s[0] != c {
        lemma_char_pos_in_range(s.drop_first(), c);
    }
}

/// `usize::from_str`.
pub open spec fn parse_usize(s: Seq<char>) -> Option<usize> {
    match parse_u64(s) {
        Some(v) if v <= usize::MAX => Some(v as usize),
        _ => None,
    }
}

/// What a request to the stream server asks for.
#[derive(Debug, Clone, Copy, PartialEq, Eq, Structural)]
pub enum StreamRequest {
    /// The path is longer than [`MAX_PATH_LEN`] bytes.
    TooLong,
    /// The path is not `/stream/<torrent>/<file>`.
    BadRequest,
    /// The torrent part is not a number.
    InvalidTorrentId,
    /// The file part is not a number.
    InvalidFileIndex,
    /// File `file_index` of torrent `torrent_id`.
    File { torrent_id: usize, file_index: usize },
}

pub open spec fn stream_request_of(request: Seq<char>) -> StreamRequest {
    let path = request_path(request);
    let parts = segments(path);
    if str_len(path) > MAX_PATH_LEN {
        StreamRequest::TooLong
    } else if parts.len() < 3 || parts[0] != "stream"@ {
        StreamRequest::BadRequest
    } else {
        match parse_usize(parts[1]) {
            None => StreamRequest::InvalidTorrentId,
            Some(t) => match parse_usize(parts[2]) {
                None => StreamRequest::InvalidFileIndex,
                Some(f) => StreamRequest::File { torrent_id: t, file_index: f },
            },
        }
    }
}

proof fn lemma_word_len(s: Seq<char>, j: int)
    requires
        0 <= j <= s.len(),
        forall|k: int| 0 <= k < j ==> !is_ws(#[trigger] s[k]),
        j == s.len() || is_ws(s[j]),
    ensures
        word_len(s) == j,
    decreases j,
{
    if j > 0 {
        let t = s.drop_first();
        assert forall|k: int| 0 <= k < j - 1 implies !is_ws(#[trigger] t[k]) by {
            assert(t[k] == s[k + 1]);
        }
        if j < s.len() {
            assert(t[j - 1] == s[j]);
        }
        lemma_word_len(t, j - 1);
    }
}

/// The first index at or after `i` that is not whitespace.
fn skip_spaces(cs: &Vec<char>, i: usize) -> (j: usize)
    requires
        i <= cs.len(),
    ensures
        i <= j <= cs.len(),
        trim_start(cs@.skip(i as int)) == cs@.skip(j as int),
{
    let mut j = i;
    while j < cs.len() && is_whitespace(cs[j])
        invariant
            i <= j <= cs.len(),
            forall|k: int| i <= k < j ==> is_ws(#[trigger] cs@[k]),
        decreases cs.len() - j,
    {
        j += 1;
    }
    proof {
        let t = cs@.skip(i as int);
        assert forall|k: int| 0 <= k < j - i implies is_ws(#[trigger] t[k]) by {
            assert(t[k] == cs@[k + i]);
        }
        if j < cs.len() {
            assert(t[j - i] == cs@[j as int]);
        }
        crate::text::lemma_trim_start(t, j - i);
        assert(t.subrange(j - i, t.len() as int) =~= cs@.skip(j as int));
    }
    j
}

/// The first index at or after `i` that is whitespace (or the end).
fn skip_word(cs: &Vec<char>, i: usize) -> (j: usize)
    requires
        i <= cs.len(),
    ensures
        i <= j <= cs.len(),
        j - i == word_len(cs@.skip(i as int)),
{
    let mut j = i;
    while j < cs.len() && !is_whitespace(cs[j])
        invariant
            i <= j <= cs.len(),
            forall|k: int| i <= k < j ==> !is_ws(#[trigger] cs@[k]),
        decreases cs.len() - j,
    {
        j += 1;
    }
    proof {
        let t = cs@.skip(i as int);
        assert forall|k: int| 0 <= k < j - i implies !is_ws(#[trigger] t[k]) by {
            assert(t[k] == cs@[k + i]);
        }
        if j < cs.len() {
            assert(t[j - i] == cs@[j as int]);
        }
        lemma_word_len(t, j - i);
    }
    j
}

/// The path that a request asks for.
pub fn request_path_of(request: &str) -> (r: Vec<char>)
    ensures
        r@ == request_path(request@),
{
    let cs = chars_of(request);
    let slash = chars_of("/");
    if cs.len() == 0 {
        return slash;
    }
    let nl = find_char(&cs, 0, '\n');
    assert(cs@.subrange(0, cs@.len() as int) =~= cs@);
    let mut end = nl;
    if nl < cs.len() && nl > 0 && cs[nl - 1] == '\r' {
        end = nl - 1;
    }
    let line = copy_range(&cs, 0, end);
    proof {
        if nl < cs.len() {
            assert(cs@.take(nl as int) =~= cs@.subrange(0, nl as int));
            if nl > 0 && cs@[nl - 1] == '\r' {
                assert(cs@.take(nl as int).drop_last() =~= line@);
            }
        } else {
            assert(line@ =~= cs@);
        }
        assert(first_line(request@) == Some(line@));
    }
    let a = skip_spaces(&line, 0);
    assert(line@.skip(0) =~= line@);
    let a_end = skip_word(&line, a);
    let b = skip_spaces(&line, a_end);
    proof {
        let av = trim_start(line@);
        assert(av.skip(word_len(av) as int) =~= line@.skip(a_end as int));
    }
    if a == line.len() || b == line.len() {
        return slash;
    }
    let b_end = skip_word(&line, b);
    let word = copy_range(&line, b, b_end);
    assert(line@.skip(b as int).take(word_len(line@.skip(b as int)) as int) =~= word@);
    word
}

/// The non-empty pieces of `path` between slashes.
pub fn path_segments(path: &Vec<char>) -> (r: Vec<Vec<char>>)
    ensures
        r@.map_values(|v: Vec<char>| v@) == segments(path@),
{
    let mut out: Vec<Vec<char>> = Vec::new();
    let mut i: usize = 0;
    assert(path@.skip(0) =~= path@);
    while i < path.len()
        invariant
            i <= path.len(),
            out@.map_values(|v: Vec<char>| v@) + segments(path@.skip(i as int)) == segments(path@),
        decreases path.len() - i,
    {
        let ghost rest = path@.skip(i as int);
        let j = find_char(path, i, '/');
        assert(path@.subrange(i as int, path@.len() as int) =~= rest);
        if j == path.len() {
            let piece = copy_range(path, i, j);
            assert(piece@ =~= rest);
            let ghost before = out@.map_values(|v: Vec<char>| v@);
            out.push(piece);
            assert(out@.map_values(|v: Vec<char>| v@) =~= before.push(rest));
            assert(path@.skip(j as int) =~= Seq::<char>::empty());
            assert(segments(path@.skip(j as int)) =~= Seq::<Seq<char>>::empty());
            assert(before.push(rest) =~= before + seq![rest]);
            i = j;
        } else {
            assert(rest.skip(j - i + 1) =~= path@.skip(j + 1));
            if j > i {
                let piece = copy_range(path, i, j);
                assert(piece@ =~= rest.take(j - i));
                let ghost before = out@.map_values(|v: Vec<char>| v@);
                out.push(piece);
                assert(out@.map_values(|v: Vec<char>| v@) =~= before.push(rest.take(j - i)));
                assert(before.push(rest.take(j - i)) + segments(path@.skip(j + 1)) =~= before + (
                seq![rest.take(j - i)] + segments(path@.skip(j + 1))));
            }
            i = j + 1;
        }
    }
    assert(path@.skip(i as int) =~= Seq::<char>::empty());
    assert(out@.map_values(|v: Vec<char>| v@) + Seq::<Seq<char>>::empty() =~= out@.map_values(
        |v: Vec<char>| v@,
    ));
    out
}

fn parse_usize_chars(s: &Vec<char>) -> (r: Option<usize>)
    ensures
        r == parse_usize(s@),
{
    let text = string_from_chars(s);
    match parse_u64_str(text.as_str()) {
        Some(v) => {
            if v <= usize::MAX as u64 {
                Some(v as usize)
            } else {
                None
            }
        },
        None => None,
    }
}

fn is_stream_word(s: &Vec<char>) -> (r: bool)
    ensures
        r == (s@ == "stream"@),
{
    let w = chars_of("stream");
    crate::text::chars_equal(s, &w)
}

/// What the request text `request` asks the stream server for.
pub fn parse_stream_request(request: &str) -> (r: StreamRequest)
    ensures
        r == stream_request_of(request@),
{
    let path = request_path_of(request);
    let text = string_from_chars(&path);
    if text.as_str().len() > MAX_PATH_LEN {
        return StreamRequest::TooLong;
    }
    let parts = path_segments(&path);
    let ghost pv = parts@.map_values(|v: Vec<char>| v@);
    assert(pv.len() == parts@.len());
    if parts.len() < 3 {
        return StreamRequest::BadRequest;
    }
    assert(pv[0] == parts@[0]@);
    assert(pv[1] == parts@[1]@);
    assert(pv[2] == parts@[2]@);
    if !is_stream_word(&parts[0]) {
        return StreamRequest::BadRequest;
    }
    match parse_usize_chars(&parts[1]) {
        None => StreamRequest::InvalidTorrentId,
        Some(t) => match parse_usize_chars(&parts[2]) {
            None => StreamRequest::InvalidFileIndex,
            Some(f) => StreamRequest::File { torrent_id: t, file_index: f },
        },
    }
}

/// The text that std's `String::from_utf8_lossy` makes of `bytes`.
pub uninterp spec fn utf8_lossy(bytes: Seq<u8>) -> Seq<char>;

/// Calls std's `String::from_utf8_lossy`. Nothing is stated of how invalid
/// sequences are replaced; bytes that are the UTF-8 encoding of some text
/// give back exactly that text.
#[verifier::external_body]
pub(crate) fn decode_lossy(bytes: &[u8]) -> (r: String)
    ensures
        r@ == utf8_lossy(bytes@),
        forall|cs: Seq<char>| encode_utf8(cs) == bytes@ ==> r@ == cs,
{
    String::from_utf8_lossy(bytes).into_owned()
}

/// What the bytes read from a client ask the stream server for.
pub fn stream_request(bytes: &[u8]) -> (r: StreamRequest)
    ensures
        r == stream_request_of(utf8_lossy(bytes@)),
        forall|cs: Seq<char>| encode_utf8(cs) == bytes@ ==> r == stream_request_of(cs),
{
    let text = decode_lossy(bytes);
    parse_stream_request(text.as_str())
}

// ── Replies ──────────────────────────────────────────────────────────

/// The reply to a request that is refused before any lookup, if any: an
/// unparsable torrent or file number gets no reply.
pub fn rejection(req: StreamRequest) -> (r: Option<&'static str>)
    ensures
        req == StreamRequest::TooLong ==> (r matches Some(t) && t@
            == "HTTP/1.1 414 URI Too Long\r\nContent-Length: 0\r\n\r\n"@),
        req == StreamRequest::BadRequest ==> (r matches Some(t) && t@
            == "HTTP/1.1 400 Bad Request\r\nContent-Length: 0\r\n\r\n"@),
        !(req == StreamRequest::TooLong || req == StreamRequest::BadRequest) ==> r is None,
{
    match req {
        StreamRequest::TooLong => Some("HTTP/1.1 414 URI Too Long\r\nContent-Length: 0\r\n\r\n"),
        StreamRequest::BadRequest => Some("HTTP/1.1 400 Bad Request\r\nContent-Length: 0\r\n\r\n"),
        _ => None,
    }
}

/// The head of a successful reply, before the chunks.
pub fn stream_head() -> (r: &'static str)
    ensures
        r@
            == "HTTP/1.1 200 OK\r\nContent-Type: application/octet-stream\r\nTransfer-Encoding: chunked\r\n\r\n"@,
{
    "HTTP/1.1 200 OK\r\nContent-Type: application/octet-stream\r\nTransfer-Encoding: chunked\r\n\r\n"
}

/// The last chunk, which ends the reply.
pub fn last_chunk() -> (r: &'static str)
    ensures
        r@ == "0\r\n\r\n"@,
{
    "0\r\n\r\n"
}

/// The upper-case hexadecimal digits of `n`, without leading zeros.
pub open spec fn hex_upper(n: nat) -> Seq<char>
    decreases n,
{
    if n < 16 {
        seq![hex_digit(n as u8)]
    } else {
        hex_upper(n / 16).push(hex_digit((n % 16) as u8))
    }
}

fn push_hex(out: &mut Vec<char>, n: u64)
    ensures
        final(out)@ == old(out)@ + hex_upper(n as nat),
    decreases n,
{
    if n >= 16 {
        push_hex(out, n / 16);
    }
    let d = (n % 16) as u8;
    out.push(crate::search::hex(d));
    proof {
        if n >= 16 {
            assert(hex_upper(n as nat) == hex_upper((n / 16) as nat).push(hex_digit(d)));
        } else {
            assert(hex_upper(n as nat) == seq![hex_digit(d)]);
        }
    }
    assert(final(out)@ =~= old(out)@ + hex_upper(n as nat));
}

/// The line that starts a chunk of `n` bytes: `n` in hexadecimal, then CRLF.
pub fn chunk_header(n: usize) -> (r: String)
    ensures
        r@ == hex_upper(n as nat) + "\r\n"@,
{
    let mut v: Vec<char> = Vec::new();
    push_hex(&mut v, n as u64);
    push_str_chars(&mut v, "\r\n");
    string_from_chars(&v)
}

// ── Stream URLs ──────────────────────────────────────────────────────

/// The path under which the stream server serves a file.
pub open spec fn stream_path(torrent_id: usize, file_index: usize) -> Seq<char> {
    "/stream/"@ + decimal(torrent_id as nat) + "/"@ + decimal(file_index as nat)
}

pub open spec fn stream_url_text(port: u16, torrent_id: usize, file_index: usize) -> Seq<char> {
    "http://127.0.0.1:"@ + decimal(port as nat) + stream_path(torrent_id, file_index)
}

/// The URL at which the stream server serves a file.
pub fn stream_url(port: u16, torrent_id: usize, file_index: usize) -> (r: String)
    ensures
        r@ == stream_url_text(port, torrent_id, file_index),
{
    let mut v = chars_of("http://127.0.0.1:");
    push_decimal(&mut v, port as u64);
    push_str_chars(&mut v, "/stream/");
    push_decimal(&mut v, torrent_id as u64);
    push_str_chars(&mut v, "/");
    push_decimal(&mut v, file_index as u64);
    string_from_chars(&v)
}

// ── Requests for the served URLs ─────────────────────────────────────

pub open spec fn pow10(k: nat) -> nat
    decreases k,
{
    if k == 0 {
        1
    } else {
        10 * pow10((k - 1) as nat)
    }
}

proof fn lemma_digit_char(d: nat)
    requires
        d < 10,
    ensures
        (crate::text::digit_char(d) as u32) == 48 + d,
{
}

proof fn lemma_decimal(n: nat, k: nat)
    ensures
        decimal(n).len() >= 1,
        n < pow10(k) && k >= 1 ==> decimal(n).len() <= k,
        forall|i: int| 0 <= i < decimal(n).len() ==> crate::search::is_digit(#[trigger] decimal(n)[i]),
        crate::search::digits_value(decimal(n)) == n,
    decreases n,
{
    if n >= 10 {
        if k >= 1 && n < pow10(k) {
            assert(pow10(k) == 10 * pow10((k - 1) as nat));
            assert(n / 10 < pow10((k - 1) as nat)) by (nonlinear_arith)
                requires
                    n < 10 * pow10((k - 1) as nat),
            {
            }
            assert(k >= 2) by {
                if k == 1 {
                    assert(pow10(0) == 1);
                }
            }
            lemma_decimal(n / 10, (k - 1) as nat);
        } else {
            lemma_decimal(n / 10, 0);
        }
        lemma_digit_char(n % 10);
        crate::search::lemma_digits_value_push(decimal(n / 10), crate::text::digit_char(n % 10));
        assert(n == (n / 10) * 10 + n % 10);
        assert(decimal(n) == decimal(n / 10).push(crate::text::digit_char(n % 10)));
        assert(crate::search::digits_value(decimal(n)) == n);
        let d = decimal(n / 10);
        assert forall|i: int| 0 <= i < decimal(n).len() implies crate::search::is_digit(
            #[trigger] decimal(n)[i],
        ) by {
            if i < d.len() {
                assert(decimal(n)[i] == d[i]);
            }
        }
    } else {
        lemma_digit_char(n);
        let c = crate::text::digit_char(n);
        assert(decimal(n) == seq![c]);
        assert(seq![c].drop_last() =~= Seq::<char>::empty());
        assert(crate::search::digits_value(Seq::<char>::empty()) == 0);
        assert(crate::search::digits_value(seq![c]) == crate::search::digits_value(
            seq![c].drop_last(),
        ) * 10 + ((seq![c].last() as u32) - 48) as nat);
    }
}

proof fn lemma_ascii_byte_len(s: Seq<char>)
    requires
        forall|i: int| 0 <= i < s.len() ==> (#[trigger] s[i] as u32) < 128,
    ensures
        byte_len(s) == s.len(),
    decreases s.len(),
{
    if s.len() > 0 {
        crate::text::lemma_encode_scalar_len(s[0]);
        assert forall|i: int| 0 <= i < s.drop_first().len() implies (#[trigger] s.drop_first()[i]
            as u32) < 128 by {
            assert(s.drop_first()[i] == s[i + 1]);
        }
        lemma_ascii_byte_len(s.drop_first());
    }
}

proof fn lemma_parse_decimal(n: usize)
    ensures
        parse_usize(decimal(n as nat)) == Some(n),
{
    lemma_decimal(n as nat, 0);
    let d = decimal(n as nat);
    assert(crate::search::is_digit(d[0]));
    assert(crate::search::unsigned_digits(d) == d);
}

/// A request for a served path names that path's torrent and file: the
/// stream server hands back the file that [`stream_url`] points at.
#[verifier::rlimit(40)]
pub proof fn served_path_roundtrip(torrent_id: usize, file_index: usize, rest: Seq<char>)
    ensures
        stream_request_of("GET "@ + stream_path(torrent_id, file_index) + " HTTP/1.1\r\n"@ + rest)
            == (StreamRequest::File { torrent_id, file_index }),
{
    reveal_strlit("GET ");
    reveal_strlit(" HTTP/1.1\r\n");
    reveal_strlit("/stream/");
    reveal_strlit("/");
    reveal_strlit("stream");
    let d1 = decimal(torrent_id as nat);
    let d2 = decimal(file_index as nat);
    lemma_decimal(torrent_id as nat, 20);
    lemma_decimal(file_index as nat, 20);
    assert(pow10(20) == 100000000000000000000) by {
        reveal_with_fuel(pow10, 21);
    }
    let p = stream_path(torrent_id, file_index);
    assert(p =~= seq!['/', 's', 't', 'r', 'e', 'a', 'm', '/'] + d1 + seq!['/'] + d2);
    let line = "GET "@ + p + " HTTP/1.1"@;
    reveal_strlit(" HTTP/1.1");
    let req = "GET "@ + p + " HTTP/1.1\r\n"@ + rest;
    // Every character of the path is ASCII, none is whitespace or a newline.
    assert forall|i: int| 0 <= i < p.len() implies (#[trigger] p[i] as u32) < 128 && !is_ws(p[i])
        && p[i] != '\n' by {
        if 8 <= i < 8 + d1.len() {
            assert(p[i] == d1[i - 8]);
        } else if 9 + d1.len() <= i < p.len() {
            assert(p[i] == d2[i - 9 - d1.len()]);
        }
    }
    // The first line.
    let nl: int = 4 + p.len() as int + 10;
    assert forall|k: int| 0 <= k < nl implies #[trigger] req[k] != '\n' by {
        if 4 <= k < 4 + p.len() {
            assert(req[k] == p[k - 4]);
        }
    }
    assert(req[nl] == '\n');
    crate::text::lemma_char_pos(req, '\n', nl);
    assert(req.take(nl).drop_last() =~= line);
    assert(first_line(req) == Some(line));
    // Its second word.
    crate::text::lemma_trim_start(line, 0);
    assert(line.subrange(0, line.len() as int) =~= line);
    lemma_word_len(line, 3);
    let after = line.skip(3);
    assert forall|k: int| 0 <= k < 1 implies is_ws(#[trigger] after[k]) by {}
    crate::text::lemma_trim_start(after, 1);
    let b = after.subrange(1, after.len() as int);
    assert(b =~= p + " HTTP/1.1"@);
    assert forall|k: int| 0 <= k < p.len() implies !is_ws(#[trigger] b[k]) by {
        assert(b[k] == p[k]);
    }
    lemma_word_len(b, p.len() as int);
    assert(b.take(p.len() as int) =~= p);
    assert(request_path(req) == p);
    // Its length.
    lemma_ascii_byte_len(p);
    // Its pieces.
    crate::text::lemma_char_pos(p, '/', 0);
    let p1 = p.skip(1);
    assert forall|k: int| 0 <= k < 6 implies #[trigger] p1[k] != '/' by {}
    crate::text::lemma_char_pos(p1, '/', 6);
    let p2 = p1.skip(7);
    assert(p2 =~= d1 + seq!['/'] + d2);
    assert forall|k: int| 0 <= k < d1.len() implies #[trigger] p2[k] != '/' by {
        assert(p2[k] == d1[k]);
    }
    crate::text::lemma_char_pos(p2, '/', d1.len() as int);
    let p3 = p2.skip(d1.len() as int + 1);
    assert(p3 =~= d2);
    assert forall|k: int| 0 <= k < d2.len() implies #[trigger] p3[k] != '/' by {}
    crate::text::lemma_char_pos(p3, '/', d2.len() as int);
    assert(p3.skip(d2.len() as int) =~= Seq::<char>::empty());
    assert(segments(p3) == seq![p3]);
    assert(p2.take(d1.len() as int) =~= d1);
    assert(segments(p2) =~= seq![d1] + seq![p3]);
    assert(p1.take(6) =~= "stream"@);
    assert(segments(p1) =~= seq!["stream"@] + (seq![d1] + seq![p3]));
    assert(segments(p) == segments(p1));
    lemma_parse_decimal(torrent_id);
    lemma_parse_decimal(file_index);
}

// ── A torrent's file list ────────────────────────────────────────────

/// One file of a torrent's metadata: its path components and length.
pub struct MetaFile {
    pub path: Vec<String>,
    pub length: u64,
}

/// The metadata of a torrent as listed for the browser: its name
/// (`Unknown` when it has none) and, for each file in order, its position,
/// its path joined by `/`, and its length.
pub fn torrent_info(name: Option<String>, files: &Vec<MetaFile>) -> (r: TorrentInfo)
    ensures
        r.name@ == match name {
            Some(n) => n@,
            None => "Unknown"@,
        },
        r.files@.len() == files@.len(),
        forall|i: int|
            0 <= i < files@.len() ==> {
                &&& (#[trigger] r.files@[i]).index == i
                &&& r.files@[i].name@ == joined(files@[i].path.deep_view(), "/"@)
                &&& r.files@[i].size == files@[i].length
            },
{
    let mut out: Vec<TorrentFile> = Vec::new();
    let mut i: usize = 0;
    while i < files.len()
        invariant
            i <= files.len(),
            out@.len() == i,
            forall|k: int|
                0 <= k < i ==> {
                    &&& (#[trigger] out@[k]).index == k
                    &&& out@[k].name@ == joined(files@[k].path.deep_view(), "/"@)
                    &&& out@[k].size == files@[k].length
                },
        decreases files.len() - i,
    {
        let name = join_strings(&files[i].path, "/");
        out.push(TorrentFile { index: i, name, size: files[i].length });
        i += 1;
    }
    let name = match name {
        Some(n) => n,
        None => crate::text::to_owned_string("Unknown"),
    };
    TorrentInfo { name, files: out }
}

} // verus!
