//! The console gateway's WebSocket side: opening handshake (RFC 6455 §4.2),
//! frame headers, unmasking, and the JSON-RPC replies.

use vstd::prelude::*;
use vstd::string::StrSliceExecFns;
use vstd::string::StringExecFns;
use vstd::string::StringSliceAdditionalSpecFns;

use crate::sha1::{sha1, sha1_spec, u64_be_bytes};
use crate::text::{
    append_str, chars_of, contains, from_utf8_lossy, lemma_encode_utf8_concat, lemma_encode_utf8_len_bound, lowercase, occurs_at,
    occurs_at_exec, push_char, str_contains, string_from_chars, to_lowercase_str, trim, trim_bounds,
    utf8_lossy, utf8_width, utf8_width_exec, char_index_at_byte,
};

verus! {

// ── Base64 ──────────────────────────────────────────────────

/// The Base64 alphabet (RFC 4648 §4): `v`-th digit, `0 <= v < 64`.
pub open spec fn b64_digit(v: int) -> char {
    if v < 26 {
        (65 + v) as char
    } else if v < 52 {
        (97 + (v - 26)) as char
    } else if v < 62 {
        (48 + (v - 52)) as char
    } else if v == 62 {
        '+'
    } else {
        '/'
    }
}

/// The four Base64 characters for the first (up to) three bytes of `b`, `b` non-empty.
pub open spec fn b64_group(b: Seq<u8>) -> Seq<char> {
    let b0 = b[0] as int;
    let b1 = if b.len() > 1 {
        b[1] as int
    } else {
        0
    };
    let b2 = if b.len() > 2 {
        b[2] as int
    } else {
        0
    };
    let n = b0 * 65536 + b1 * 256 + b2;
    seq![
        b64_digit(n / 262144),
        b64_digit((n / 4096) % 64),
        if b.len() > 1 {
            b64_digit((n / 64) % 64)
        } else {
            '='
        },
        if b.len() > 2 {
            b64_digit(n % 64)
        } else {
            '='
        },
    ]
}

/// Base64 with `=` padding of a byte string.
pub open spec fn base64_spec(b: Seq<u8>) -> Seq<char>
    decreases b.len(),
{
    if b.len() == 0 {
        seq![]
    } else if b.len() > 3 {
        b64_group(b) + base64_spec(b.skip(3))
    } else {
        b64_group(b)
    }
}

fn b64_digit_exec(v: u32) -> (c: char)
    requires
        v < 64,
    ensures
        c == b64_digit(v as int),
{
    if v < 26 {
        ((65 + v) as u8) as char
    } else if v < 52 {
        ((97 + (v - 26)) as u8) as char
    } else if v < 62 {
        ((48 + (v - 52)) as u8) as char
    } else if v == 62 {
        '+'
    } else {
        '/'
    }
}

/// Appends the Base64 group of `data[i..]` to `s`.
fn push_b64_group(s: &mut String, data: &[u8], i: usize)
    requires
        i < data@.len(),
    ensures
        final(s)@ == old(s)@ + b64_group(data@.skip(i as int)),
{
    let ghost rest = data@.skip(i as int);
    let n = data.len();
    let b0 = data[i] as u32;
    let b1 = if n - i > 1 {
        data[i + 1] as u32
    } else {
        0
    };
    let b2 = if n - i > 2 {
        data[i + 2] as u32
    } else {
        0
    };
    let v = b0 * 65536 + b1 * 256 + b2;
    push_char(s, b64_digit_exec(v / 262144));
    push_char(s, b64_digit_exec((v / 4096) % 64));
    if n - i > 1 {
        push_char(s, b64_digit_exec((v / 64) % 64));
    } else {
        push_char(s, '=');
    }
    if n - i > 2 {
        push_char(s, b64_digit_exec(v % 64));
    } else {
        push_char(s, '=');
    }
    assert(rest[0] == data@[i as int]);
    if n - i > 1 {
        assert(rest[1] == data@[i + 1]);
    }
    if n - i > 2 {
        assert(rest[2] == data@[i + 2]);
    }
    assert(final(s)@ =~= old(s)@ + b64_group(rest));
}

/// Base64 encoding (standard alphabet, `=` padding) of `data`.
pub fn base64_encode(data: &[u8]) -> (s: String)
    ensures
        s@ == base64_spec(data@),
{
    let mut s = String::new();
    let n = data.len();
    let mut i: usize = 0;
    assert(data@.skip(0) =~= data@);
    while i < n
        invariant
            i <= n,
            n == data@.len(),
            base64_spec(data@) == s@ + base64_spec(data@.skip(i as int)),
        decreases n - i,
    {
        let ghost before = s@;
        push_b64_group(&mut s, data, i);
        if n - i > 3 {
            assert(data@.skip(i as int).skip(3) =~= data@.skip(i + 3));
            i = i + 3;
        } else {
            i = n;
            assert(data@.skip(i as int) =~= Seq::<u8>::empty());
        }
    }
    assert(s@ =~= s@ + base64_spec(data@.skip(i as int)));
    s
}

// ── Opening handshake ───────────────────────────────────────

/// The GUID appended to the client key (RFC 6455 §1.3).
pub open spec fn ws_guid() -> Seq<char> {
    "258EAFA5-E914-47DA-95CA-C5AB0DC85B11"@
}

/// `Sec-WebSocket-Accept` for a client key: Base64 of the SHA-1 of the UTF-8 bytes of
/// the key followed by the GUID.
pub open spec fn accept_spec(key: Seq<char>) -> Seq<char> {
    base64_spec(sha1_spec(vstd::utf8::encode_utf8(key + ws_guid())))
}

/// The `Sec-WebSocket-Accept` value answering the client key `key`.
pub fn compute_accept(key: &str) -> (r: String)
    requires
        key.spec_bytes().len() + 256 <= 0x2000_0000_0000_0000,
    ensures
        r@ == accept_spec(key@),
{
    let mut chk = String::from_str(key);
    chk.append("258EAFA5-E914-47DA-95CA-C5AB0DC85B11");
    let bytes = chk.as_str().as_bytes();
    proof {
        reveal_strlit("258EAFA5-E914-47DA-95CA-C5AB0DC85B11");
        lemma_encode_utf8_concat(key@, ws_guid());
        lemma_encode_utf8_len_bound(ws_guid());
    }
    let hash = sha1(bytes);
    base64_encode(&hash)
}

// ── Request scanning ────────────────────────────────────────

/// Index of the first `'\n'` at or after `i`, or `s.len()` when there is none.
pub open spec fn next_newline(s: Seq<char>, i: int) -> int
    decreases s.len() - i,
{
    if i >= s.len() {
        s.len() as int
    } else if s[i] == '\n' {
        i
    } else {
        next_newline(s, i + 1)
    }
}

pub proof fn lemma_next_newline(s: Seq<char>, i: int)
    requires
        0 <= i <= s.len(),
    ensures
        i <= next_newline(s, i) <= s.len(),
        forall|j: int| i <= j < next_newline(s, i) ==> s[j] != '\n',
        next_newline(s, i) < s.len() ==> s[next_newline(s, i)] == '\n',
    decreases s.len() - i,
{
    if i < s.len() && s[i] != '\n' {
        lemma_next_newline(s, i + 1);
    }
}

/// End of the line that starts at `i`: before the terminating `'\n'`, and before a
/// `'\r'` that directly precedes that `'\n'`.
pub open spec fn line_end(s: Seq<char>, i: int) -> int {
    let k = next_newline(s, i);
    if k < s.len() && k > i && s[k - 1] == '\r' {
        k - 1
    } else {
        k
    }
}

/// `str::lines` of `s[i..]`: split at `'\n'` (a preceding `'\r'` is dropped with it);
/// a final line ending adds no empty line.
pub open spec fn lines_from(s: Seq<char>, i: int) -> Seq<Seq<char>>
    decreases s.len() + 1 - i,
{
    if i < 0 || i >= s.len() {
        seq![]
    } else {
        proof {
            lemma_next_newline(s, i);
        }
        seq![s.subrange(i, line_end(s, i))] + lines_from(s, next_newline(s, i) + 1)
    }
}

/// `str::lines`.
pub open spec fn lines(s: Seq<char>) -> Seq<Seq<char>> {
    lines_from(s, 0)
}

/// The header name that announces the client key, as matched after lowercasing.
pub open spec fn key_prefix() -> Seq<char> {
    "sec-websocket-key:"@
}

/// The trimmed, lowercased line starts with the key header name.
pub open spec fn is_key_line(line: Seq<char>) -> bool {
    occurs_at(lowercase(trim(line)), key_prefix(), 0)
}

/// The first key line among `ls`.
pub open spec fn first_key_line(ls: Seq<Seq<char>>) -> Option<Seq<char>>
    decreases ls.len(),
{
    if ls.len() == 0 {
        None
    } else if is_key_line(ls[0]) {
        Some(ls[0])
    } else {
        first_key_line(ls.drop_first())
    }
}

/// The key the handshake request carries: the text after byte 18 of the first key
/// line, trimmed; empty when there is no key line. `None` where slicing that line at
/// byte 18 is not possible (byte 18 is not a character boundary of the line).
pub open spec fn extract_key_spec(req: Seq<char>) -> Option<Seq<char>> {
    match first_key_line(lines(req)) {
        None => Some(Seq::<char>::empty()),
        Some(l) => match char_index_at_byte(l, 18) {
            Some(j) => Some(trim(l.skip(j))),
            None => None,
        },
    }
}

proof fn lemma_lines_from_unfold(s: Seq<char>, i: int)
    requires
        0 <= i < s.len(),
    ensures
        lines_from(s, i).len() > 0,
        lines_from(s, i)[0] == s.subrange(i, line_end(s, i)),
        lines_from(s, i).drop_first() == lines_from(s, next_newline(s, i) + 1),
{
    lemma_next_newline(s, i);
    let rest = lines_from(s, next_newline(s, i) + 1);
    assert((seq![s.subrange(i, line_end(s, i))] + rest).drop_first() =~= rest);
}

/// Scans the request for the key; `None` where the key line cannot be sliced.
fn scan_key(req: &str) -> (r: Option<String>)
    ensures
        r matches Some(v) ==> extract_key_spec(req@) == Some(v@),
        r is None ==> extract_key_spec(req@) is None,
{
    let v = chars_of(req);
    let prefix = chars_of("sec-websocket-key:");
    let n = v.len();
    let ghost s = v@;
    let mut i: usize = 0;
    assert(lines(s) == lines_from(s, 0));
    while i < n
        invariant
            s == v@,
            s == req@,
            prefix@ == key_prefix(),
            n == s.len(),
            i <= n,
            first_key_line(lines(s)) == first_key_line(lines_from(s, i as int)),
        decreases n - i,
    {
        let mut k = i;
        while k < n && v[k] != '\n'
            invariant
                i <= k <= n,
                n == s.len(),
                s == v@,
                forall|j: int| i <= j < k ==> s[j] != '\n',
            decreases n - k,
        {
            k = k + 1;
        }
        proof {
            lemma_next_newline(s, i as int);
            if next_newline(s, i as int) < k {
                assert(s[next_newline(s, i as int)] == '\n');
            }
            assert(k == next_newline(s, i as int));
        }
        let e = if k < n && k > i && v[k - 1] == '\r' {
            k - 1
        } else {
            k
        };
        assert(e == line_end(s, i as int));
        let ghost line = s.subrange(i as int, e as int);
        proof {
            lemma_lines_from_unfold(s, i as int);
        }
        let (a, b) = trim_bounds(&v, i, e);
        let trimmed = string_from_chars(&v, a, b);
        let low = to_lowercase_str(trimmed.as_str());
        let lowv = chars_of(low.as_str());
        if occurs_at_exec(&lowv, &prefix, 0) {
            assert(is_key_line(line));
            assert(first_key_line(lines(s)) == Some(line));
            // Locate byte offset 18 of the line.
            let mut j = i;
            let mut acc: usize = 0;
            while j < e && acc < 18
                invariant
                    i <= j <= e,
                    e <= n,
                    n == s.len(),
                    s == v@,
                    line == s.subrange(i as int, e as int),
                    s == req@,
                    first_key_line(lines(s)) == Some(line),
                    acc <= 18,
                    char_index_at_byte(line, 18) == (match char_index_at_byte(
                        s.subrange(j as int, e as int),
                        18 - acc,
                    ) {
                        Some(x) => Some(x + (j - i)),
                        None => None,
                    }),
                decreases e - j,
            {
                let w = utf8_width_exec(v[j]);
                proof {
                    let t = s.subrange(j as int, e as int);
                    assert(t[0] == s[j as int]);
                    assert(t.drop_first() =~= s.subrange(j + 1, e as int));
                }
                if acc + w > 18 {
                    proof {
                        let t = s.subrange(j as int, e as int);
                        let t2 = s.subrange(j + 1, e as int);
                        assert(char_index_at_byte(t2, 18 - acc - w) is None);
                    }
                    return None;
                }
                acc = acc + w;
                j = j + 1;
            }
            if acc < 18 {
                assert(s.subrange(j as int, e as int).len() == 0);
                return None;
            }
            assert(char_index_at_byte(line, 18) == Some(j - i));
            assert(line.skip(j - i) =~= s.subrange(j as int, e as int));
            let (a2, b2) = trim_bounds(&v, j, e);
            return Some(string_from_chars(&v, a2, b2));
        }
        assert(!is_key_line(line));
        if k < n {
            i = k + 1;
        } else {
            assert(lines_from(s, k + 1) =~= Seq::<Seq<char>>::empty());
            i = n;
        }
    }
    assert(lines_from(s, i as int) =~= Seq::<Seq<char>>::empty());
    Some(String::new())
}

/// Whether `extract_key` can slice the key line of `req`.
pub fn key_line_sound(req: &str) -> (b: bool)
    ensures
        b == (extract_key_spec(req@) is Some),
{
    scan_key(req).is_some()
}

/// The client key of a WebSocket opening request (empty when it has none).
pub fn extract_key(req: &str) -> (r: String)
    requires
        extract_key_spec(req@) is Some,
    ensures
        r@ == extract_key_spec(req@)->0,
{
    match scan_key(req) {
        Some(k) => k,
        None => String::new(),
    }
}

/// The client key, or `None` where the key line cannot be sliced at byte 18.
pub fn try_extract_key(req: &str) -> (r: Option<String>)
    ensures
        r matches Some(v) ==> extract_key_spec(req@) == Some(v@),
        r is None ==> extract_key_spec(req@) is None,
{
    if key_line_sound(req) {
        Some(extract_key(req))
    } else {
        None
    }
}

// ── Handshake reply ─────────────────────────────────────────

/// The `101 Switching Protocols` response carrying `accept`.
pub open spec fn handshake_response_spec(accept: Seq<char>) -> Seq<char> {
    "HTTP/1.1 101 Switching Protocols\r\nUpgrade: websocket\r\nConnection: Upgrade\r\nSec-WebSocket-Accept: "@
        + accept + "\r\n\r\n"@
}

/// The server's handshake response for the accept value `accept`.
pub fn handshake_response(accept: &str) -> (r: String)
    ensures
        r@ == handshake_response_spec(accept@),
{
    let mut r = String::from_str(
        "HTTP/1.1 101 Switching Protocols\r\nUpgrade: websocket\r\nConnection: Upgrade\r\nSec-WebSocket-Accept: ",
    );
    r.append(accept);
    r.append("\r\n\r\n");
    r
}

/// What the gateway does with an opening request.
#[derive(Debug)]
pub enum Handshake {
    /// Send this response and keep the connection.
    Accept(String),
    /// The request carries no key: close the connection.
    Reject,
    /// The key line cannot be sliced at byte 18, or the key is too long to hash.
    Malformed,
}

/// Whether `h` is the gateway's answer to the opening request text `req`.
pub open spec fn handshake_spec(req: Seq<char>, h: Handshake) -> bool {
    match h {
        Handshake::Accept(resp) => extract_key_spec(req) matches Some(k) && k.len() > 0 && resp@
            == handshake_response_spec(accept_spec(k)),
        Handshake::Reject => extract_key_spec(req) == Some(Seq::<char>::empty()),
        Handshake::Malformed => extract_key_spec(req) is None || (extract_key_spec(req) matches Some(
            k,
        ) && vstd::utf8::encode_utf8(k).len() + 256 > 0x2000_0000_0000_0000),
    }
}

/// The gateway's answer to the opening request text `req`.
pub fn handshake_for_request(req: &str) -> (h: Handshake)
    ensures
        handshake_spec(req@, h),
{
    match try_extract_key(req) {
        None => Handshake::Malformed,
        Some(key) => {
            if key.as_str().is_empty() {
                assert(key@ =~= Seq::<char>::empty());
                Handshake::Reject
            } else if key.as_str().as_bytes().len() as u64 > 0x2000_0000_0000_0000u64 - 256 {
                Handshake::Malformed
            } else {
                let accept = compute_accept(key.as_str());
                Handshake::Accept(handshake_response(accept.as_str()))
            }
        },
    }
}

/// The gateway's answer to the opening request `request` (raw bytes from the socket,
/// decoded as `String::from_utf8_lossy` does).
pub fn handshake_reply(request: &[u8]) -> (h: Handshake)
    ensures
        handshake_spec(utf8_lossy(request@), h),
{
    let req = from_utf8_lossy(request);
    handshake_for_request(req.as_str())
}

// ── JSON-RPC replies ────────────────────────────────────────

/// JSON whitespace.
pub open spec fn is_json_ws(c: char) -> bool {
    c == ' ' || c == '\t' || c == '\n' || c == '\r'
}

/// The first position at or after `i` that is not JSON whitespace.
pub open spec fn skip_ws(s: Seq<char>, i: int) -> int
    decreases s.len() - i,
{
    if 0 <= i < s.len() && is_json_ws(s[i]) {
        skip_ws(s, i + 1)
    } else {
        i
    }
}

/// Position of the `:` after the first `"id"` key at or after `i` (the key, then
/// optional whitespace, then a colon).
pub open spec fn id_colon_from(s: Seq<char>, i: int) -> Option<int>
    decreases s.len() - i,
{
    if i < 0 || i + 4 > s.len() {
        None
    } else if occurs_at(s, "\"id\""@, i) && skip_ws(s, i + 4) < s.len() && s[skip_ws(s, i + 4)]
        == ':' {
        Some(skip_ws(s, i + 4))
    } else {
        id_colon_from(s, i + 1)
    }
}

/// Position just past the closing quote of a JSON string whose contents start at
/// `j` (a backslash escapes the next character); `None` when it is not closed.
pub open spec fn string_end(s: Seq<char>, j: int) -> Option<int>
    decreases s.len() - j,
{
    if j < 0 || j >= s.len() {
        None
    } else if s[j] == '\\' {
        if j + 1 >= s.len() {
            None
        } else {
            string_end(s, j + 2)
        }
    } else if s[j] == '"' {
        Some(j + 1)
    } else {
        string_end(s, j + 1)
    }
}

/// Characters that end a JSON number or literal.
pub open spec fn ends_scalar(c: char) -> bool {
    c == ',' || c == '}' || c == ']' || is_json_ws(c)
}

/// End of the number or literal starting at `j`.
pub open spec fn scalar_end(s: Seq<char>, j: int) -> int
    decreases s.len() - j,
{
    if 0 <= j < s.len() && !ends_scalar(s[j]) {
        scalar_end(s, j + 1)
    } else {
        j
    }
}

/// The request's id as JSON text: the value of the first `"id"` member (a string
/// with its quotes, or a number or literal), `null` when there is none.
pub open spec fn request_id_spec(s: Seq<char>) -> Seq<char> {
    match id_colon_from(s, 0) {
        None => "null"@,
        Some(c) => {
            let v = skip_ws(s, c + 1);
            if v >= s.len() {
                "null"@
            } else if s[v] == '"' {
                match string_end(s, v + 1) {
                    Some(e) => s.subrange(v, e),
                    None => "null"@,
                }
            } else if scalar_end(s, v) == v {
                "null"@
            } else {
                s.subrange(v, scalar_end(s, v))
            }
        },
    }
}

fn is_json_ws_exec(c: char) -> (b: bool)
    ensures
        b == is_json_ws(c),
{
    c == ' ' || c == '\t' || c == '\n' || c == '\r'
}

fn skip_ws_exec(v: &Vec<char>, i: usize) -> (r: usize)
    requires
        i <= v@.len(),
    ensures
        r == skip_ws(v@, i as int),
        i <= r <= v@.len(),
{
    let mut k = i;
    while k < v.len() && is_json_ws_exec(v[k])
        invariant
            i <= k <= v@.len(),
            skip_ws(v@, k as int) == skip_ws(v@, i as int),
        decreases v@.len() - k,
    {
        k = k + 1;
    }
    k
}

fn id_colon_exec(v: &Vec<char>) -> (r: Option<usize>)
    ensures
        r matches Some(c) ==> id_colon_from(v@, 0) == Some(c as int) && c < v@.len(),
        r is None ==> id_colon_from(v@, 0) is None,
{
    let key = chars_of("\"id\"");
    proof {
        reveal_strlit("\"id\"");
    }
    let n = v.len();
    let mut i: usize = 0;
    while n >= 4 && i <= n - 4
        invariant
            n == v@.len(),
            key@ == "\"id\""@,
            id_colon_from(v@, i as int) == id_colon_from(v@, 0),
            i <= n,
        decreases n - i,
    {
        if occurs_at_exec(v, &key, i) {
            let k = skip_ws_exec(v, i + 4);
            if k < n && v[k] == ':' {
                return Some(k);
            }
        }
        i = i + 1;
    }
    None
}

fn string_end_exec(v: &Vec<char>, j: usize) -> (r: Option<usize>)
    requires
        j <= v@.len(),
    ensures
        r matches Some(e) ==> string_end(v@, j as int) == Some(e as int) && j < e <= v@.len(),
        r is None ==> string_end(v@, j as int) is None,
{
    let n = v.len();
    let mut k = j;
    while k < n
        invariant
            j <= k <= n,
            n == v@.len(),
            string_end(v@, k as int) == string_end(v@, j as int),
        decreases n - k,
    {
        if v[k] == '\\' {
            if k + 1 >= n {
                return None;
            }
            k = k + 2;
        } else if v[k] == '"' {
            return Some(k + 1);
        } else {
            k = k + 1;
        }
    }
    None
}

fn scalar_end_exec(v: &Vec<char>, j: usize) -> (r: usize)
    requires
        j <= v@.len(),
    ensures
        r == scalar_end(v@, j as int),
        j <= r <= v@.len(),
{
    let mut k = j;
    while k < v.len() && !(v[k] == ',' || v[k] == '}' || v[k] == ']' || is_json_ws_exec(v[k]))
        invariant
            j <= k <= v@.len(),
            scalar_end(v@, k as int) == scalar_end(v@, j as int),
        decreases v@.len() - k,
    {
        k = k + 1;
    }
    k
}

/// The id of a JSON-RPC request, as JSON text (`null` when it has none).
pub fn request_id(msg: &str) -> (r: String)
    ensures
        r@ == request_id_spec(msg@),
{
    let v = chars_of(msg);
    match id_colon_exec(&v) {
        None => String::from_str("null"),
        Some(c) => {
            let start = skip_ws_exec(&v, c + 1);
            if start >= v.len() {
                String::from_str("null")
            } else if v[start] == '"' {
                match string_end_exec(&v, start + 1) {
                    Some(e) => string_from_chars(&v, start, e),
                    None => String::from_str("null"),
                }
            } else {
                let e = scalar_end_exec(&v, start);
                if e == start {
                    String::from_str("null")
                } else {
                    string_from_chars(&v, start, e)
                }
            }
        },
    }
}

/// The result member of a reply, by the first method name the message mentions, in
/// the order `Kei.Ping`, `Kei.Status`, `Base.Heartbeat`; otherwise the "method not
/// found" error member.
pub open spec fn reply_body_spec(msg: Seq<char>) -> Seq<char> {
    if contains(msg, "Kei.Ping"@) {
        "\"result\":{\"pong\":true}}"@
    } else if contains(msg, "Kei.Status"@) {
        "\"result\":{\"status\":\"ready\",\"version\":\"0.1.0\",\"arch\":\"aarch64\",\"mode\":\"gateway\",\"display\":\"aris-vtty\"}}"@
    } else if contains(msg, "Base.Heartbeat"@) {
        "\"result\":{\"ok\":true}}"@
    } else {
        "\"error\":{\"code\":-32601,\"message\":\"method not found\"}}"@
    }
}

/// The JSON-RPC 2.0 response to the message `msg` carrying the request id `id`
/// (JSON text): the id is echoed, the result chosen by the method.
pub open spec fn rpc_reply_spec(msg: Seq<char>, id: Seq<char>) -> Seq<char> {
    "{\"jsonrpc\":\"2.0\",\"id\":"@ + id + ","@ + reply_body_spec(msg)
}

/// The JSON-RPC reply the gateway sends for the text message `msg` whose id is `id`.
pub fn rpc_reply(msg: &str, id: &str) -> (r: String)
    ensures
        r@ == rpc_reply_spec(msg@, id@),
{
    let mut r = String::from_str("{\"jsonrpc\":\"2.0\",\"id\":");
    append_str(&mut r, id);
    append_str(&mut r, ",");
    if str_contains(msg, "Kei.Ping") {
        append_str(&mut r, "\"result\":{\"pong\":true}}");
    } else if str_contains(msg, "Kei.Status") {
        append_str(
            &mut r,
            "\"result\":{\"status\":\"ready\",\"version\":\"0.1.0\",\"arch\":\"aarch64\",\"mode\":\"gateway\",\"display\":\"aris-vtty\"}}",
        );
    } else if str_contains(msg, "Base.Heartbeat") {
        append_str(&mut r, "\"result\":{\"ok\":true}}");
    } else {
        append_str(&mut r, "\"error\":{\"code\":-32601,\"message\":\"method not found\"}}");
    }
    r
}

/// The reply for a received frame payload (decoded as `String::from_utf8_lossy`
/// does), echoing the request's id.
pub fn rpc_reply_for_payload(payload: &[u8]) -> (r: String)
    ensures
        ({
            let msg = utf8_lossy(payload@);
            r@ == rpc_reply_spec(msg, request_id_spec(msg))
        }),
{
    let msg = from_utf8_lossy(payload);
    let id = request_id(msg.as_str());
    rpc_reply(msg.as_str(), id.as_str())
}

// ── Frames ──────────────────────────────────────────────────

/// Header of an unmasked final text frame with a payload of `len` bytes.
pub open spec fn frame_header_spec(len: nat) -> Seq<u8> {
    if len < 126 {
        seq![0x81u8, len as u8]
    } else if len < 65536 {
        seq![0x81u8, 126u8, (len / 256) as u8, (len % 256) as u8]
    } else {
        seq![0x81u8, 127u8] + u64_be_bytes(len as u64)
    }
}

/// The header the gateway writes before a text payload of `len` bytes.
pub fn ws_frame_header(len: usize) -> (h: Vec<u8>)
    ensures
        h@ == frame_header_spec(len as nat),
{
    let mut h: Vec<u8> = Vec::new();
    h.push(0x81u8);
    if len < 126 {
        h.push(len as u8);
    } else if len < 65536 {
        h.push(126u8);
        h.push((len / 256) as u8);
        h.push((len % 256) as u8);
    } else {
        h.push(127u8);
        let l = len as u64;
        h.push((l >> 56u64) as u8);
        h.push((l >> 48u64) as u8);
        h.push((l >> 40u64) as u8);
        h.push((l >> 32u64) as u8);
        h.push((l >> 24u64) as u8);
        h.push((l >> 16u64) as u8);
        h.push((l >> 8u64) as u8);
        h.push(l as u8);
    }
    assert(h@ =~= frame_header_spec(len as nat));
    h
}

/// The first two bytes of a frame, decoded.
pub struct FrameHead {
    /// Low four bits of the first byte.
    pub opcode: u8,
    /// The MASK bit.
    pub masked: bool,
    /// The seven-bit payload length field.
    pub len_code: u8,
}

/// Decodes the first two bytes of a frame.
pub fn ws_frame_head(b0: u8, b1: u8) -> (r: FrameHead)
    ensures
        r.opcode == b0 & 0x0F,
        r.masked == (b1 & 0x80 != 0),
        r.len_code == b1 & 0x7F,
{
    FrameHead { opcode: b0 & 0x0F, masked: (b1 & 0x80) != 0, len_code: b1 & 0x7F }
}

/// Big-endian 64-bit value of `b[0..8]`.
pub open spec fn u64_from_be(b: Seq<u8>) -> u64 {
    ((b[0] as u64) << 56u64) | ((b[1] as u64) << 48u64) | ((b[2] as u64) << 40u64) | ((
    b[3] as u64) << 32u64) | ((b[4] as u64) << 24u64) | ((b[5] as u64) << 16u64) | ((b[6] as u64)
        << 8u64) | (b[7] as u64)
}

/// Payload length given the length field and the bytes that follow the first two:
/// 126 takes a 16-bit and 127 a 64-bit big-endian length (cast to `usize`).
pub open spec fn payload_len_spec(len_code: u8, ext: Seq<u8>) -> usize {
    if len_code == 126 {
        (ext[0] as int * 256 + ext[1] as int) as usize
    } else if len_code == 127 {
        u64_from_be(ext) as usize
    } else {
        len_code as usize
    }
}

/// Number of extended length bytes that follow the first two.
pub open spec fn ext_len_bytes(len_code: u8) -> nat {
    if len_code == 126 {
        2
    } else if len_code == 127 {
        8
    } else {
        0
    }
}

/// How many extended length bytes follow the first two bytes of a frame.
pub fn ws_ext_len(len_code: u8) -> (n: usize)
    ensures
        n == ext_len_bytes(len_code),
{
    if len_code == 126 {
        2
    } else if len_code == 127 {
        8
    } else {
        0
    }
}

/// The payload length announced by a frame.
pub fn ws_payload_len(len_code: u8, ext: &[u8]) -> (n: usize)
    requires
        ext@.len() >= ext_len_bytes(len_code),
    ensures
        n == payload_len_spec(len_code, ext@),
{
    if len_code == 126 {
        (ext[0] as usize) * 256 + (ext[1] as usize)
    } else if len_code == 127 {
        let v: u64 = ((ext[0] as u64) << 56u64) | ((ext[1] as u64) << 48u64) | ((ext[2] as u64)
            << 40u64) | ((ext[3] as u64) << 32u64) | ((ext[4] as u64) << 24u64) | ((ext[5] as u64)
            << 16u64) | ((ext[6] as u64) << 8u64) | (ext[7] as u64);
        v as usize
    } else {
        len_code as usize
    }
}

/// XORs the first `n` bytes of `buf` with the 4-byte masking key.
pub fn ws_unmask(buf: &mut [u8], n: usize, mask: [u8; 4])
    requires
        n <= old(buf)@.len(),
    ensures
        final(buf)@.len() == old(buf)@.len(),
        forall|i: int| 0 <= i < n ==> #[trigger] final(buf)@[i] == old(buf)@[i] ^ mask@[i % 4],
        forall|i: int| n <= i < old(buf)@.len() ==> #[trigger] final(buf)@[i] == old(buf)@[i],
{
    let mut i: usize = 0;
    while i < n
        invariant
            i <= n,
            n <= buf@.len(),
            buf@.len() == old(buf)@.len(),
            forall|j: int| 0 <= j < i ==> #[trigger] buf@[j] == old(buf)@[j] ^ mask@[j % 4],
            forall|j: int| i <= j < buf@.len() ==> #[trigger] buf@[j] == old(buf)@[j],
        decreases n - i,
    {
        buf[i] = buf[i] ^ mask[i % 4];
        i = i + 1;
    }
}

proof fn lemma_u64_be_round_trip(x: u64)
    ensures
        u64_from_be(u64_be_bytes(x)) == x,
{
    let b = u64_be_bytes(x);
    assert(b[0] == (x >> 56u64) as u8);
    assert(b[7] == x as u8);
    assert(((((x >> 56u64) as u8) as u64) << 56u64) | ((((x >> 48u64) as u8) as u64) << 48u64)
        | ((((x >> 40u64) as u8) as u64) << 40u64) | ((((x >> 32u64) as u8) as u64) << 32u64) | ((
    ((x >> 24u64) as u8) as u64) << 24u64) | ((((x >> 16u64) as u8) as u64) << 16u64) | (
    (((x >> 8u64) as u8) as u64) << 8u64) | ((x as u8) as u64) == x) by (bit_vector);
}

/// A header written for a payload of `len` bytes reads back as an unmasked text frame
/// of `len` bytes.
pub proof fn lemma_frame_header_round_trip(len: usize)
    ensures
        ({
            let h = frame_header_spec(len as nat);
            let code = h[1] & 0x7F;
            &&& h.len() == 2 + ext_len_bytes(code)
            &&& h[0] & 0x0F == 1
            &&& h[1] & 0x80 == 0
            &&& payload_len_spec(code, h.skip(2)) == len
        }),
{
    let h = frame_header_spec(len as nat);
    assert(0x81u8 & 0x0F == 1) by (bit_vector);
    if len < 126 {
        let b = len as u8;
        assert(b < 126 ==> b & 0x7F == b && b & 0x80 == 0) by (bit_vector);
    } else if len < 65536 {
        assert(126u8 & 0x7F == 126 && 126u8 & 0x80 == 0) by (bit_vector);
        assert(h.skip(2)[0] == (len / 256) as u8);
        assert(h.skip(2)[1] == (len % 256) as u8);
    } else {
        assert(127u8 & 0x7F == 127 && 127u8 & 0x80 == 0) by (bit_vector);
        lemma_u64_be_round_trip(len as u64);
        assert(h.skip(2) =~= u64_be_bytes(len as u64));
    }
}

/// Unmasking is its own inverse: applying the same key twice gives back the bytes.
pub proof fn lemma_unmask_twice(b: u8, m: u8)
    ensures
        (b ^ m) ^ m == b,
{
    assert((b ^ m) ^ m == b) by (bit_vector);
}

} // verus!
