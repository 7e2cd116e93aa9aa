//! The parts of the intermediary's HTTP responses that the client reads:
//! where the headers end, the status line and the body's length.

use crate::session::ConnectorError;
use crate::status::{chars_of, parse_u32, parse_u32_chars, range_is};
use vstd::prelude::*;

verus! {

/// Largest HTTP response accepted from the intermediary.
pub const MAX_RESPONSE_SIZE: usize = 4096;

/// `s` holds a carriage return and a line feed at `i`.
pub open spec fn crlf_at(s: Seq<char>, i: int) -> bool {
    0 <= i && i + 1 < s.len() && s[i] == '\r' && s[i + 1] == '\n'
}

/// Where the line starting at `p` ends: at the next line break, or at the
/// end of `s`.
pub open spec fn line_end(s: Seq<char>, p: int) -> int
    decreases s.len() - p,
{
    if p < 0 || p >= s.len() {
        s.len() as int
    } else if crlf_at(s, p) {
        p
    } else {
        line_end(s, p + 1)
    }
}

/// The status line of a successful response.
pub open spec fn success_status() -> Seq<char> {
    seq!['H', 'T', 'T', 'P', '/', '1', '.', '1', ' ', '2', '0', '0', ' ', 'O', 'K']
}

/// The prefix of the content-length header.
pub open spec fn content_length_prefix() -> Seq<char> {
    seq![
        'C', 'o', 'n', 't', 'e', 'n', 't', '-', 'L', 'e', 'n', 'g', 't', 'h', ':', ' ',
    ]
}

/// The value of the first content-length header among the lines from `p` on.
pub open spec fn find_content_length(s: Seq<char>, p: int) -> Option<Seq<char>>
    decreases s.len() - p,
{
    if p < 0 || p > s.len() {
        None
    } else {
        let e = line_end(s, p);
        let line = s.subrange(p, e);
        if line.len() >= 16 && line.subrange(0, 16) == content_length_prefix() {
            Some(line.subrange(16, line.len() as int))
        } else if e >= s.len() || e < p || e + 2 > s.len() {
            None
        } else {
            find_content_length(s, e + 2)
        }
    }
}

/// The body length announced by the headers `s` of a response whose body
/// starts at `body_start`: the status line must report success, a
/// content-length header must hold a decimal number, and the body must fit
/// in the response buffer.
pub open spec fn header_content_length(s: Seq<char>, body_start: nat) -> Option<nat> {
    let e0 = line_end(s, 0);
    if s.subrange(0, e0) != success_status() || e0 >= s.len() {
        None
    } else {
        match find_content_length(s, e0 + 2) {
            None => None,
            Some(v) => match parse_u32(v) {
                Some(n) if body_start <= MAX_RESPONSE_SIZE && n <= MAX_RESPONSE_SIZE - body_start => Some(
                    n as nat,
                ),
                _ => None,
            },
        }
    }
}

proof fn lemma_line_end_bounds(s: Seq<char>, p: int)
    requires
        0 <= p,
    ensures
        p <= line_end(s, p) <= s.len() || (p > s.len() && line_end(s, p) == s.len()),
        line_end(s, p) < s.len() ==> crlf_at(s, line_end(s, p)),
    decreases s.len() - p,
{
    if p < s.len() && !crlf_at(s, p) {
        lemma_line_end_bounds(s, p + 1);
    }
}

/// The end of the line of `c` that starts at `p`.
fn find_line_end(c: &Vec<char>, p: usize) -> (r: usize)
    requires
        p <= c@.len(),
    ensures
        r as int == line_end(c@, p as int),
        p <= r <= c@.len(),
{
    let mut j = p;
    while j < c.len()
        invariant
            p <= j <= c@.len(),
            line_end(c@, p as int) == line_end(c@, j as int),
        decreases c@.len() - j,
    {
        if j + 1 < c.len() && c[j] == '\r' && c[j + 1] == '\n' {
            return j;
        }
        j = j + 1;
    }
    j
}

/// Parse the HTTP headers `header` of a response whose body starts at
/// `body_starts_at`, returning the body's length. Fails when the status
/// line is not `HTTP/1.1 200 OK`, when no `Content-Length` header holds a
/// decimal number, or when the body would not fit in the response buffer.
pub fn parse_headers(header: &str, body_starts_at: usize) -> (r: Result<usize, ConnectorError>)
    ensures
        header_content_length(header@, body_starts_at as nat) matches Some(n) ==> r == Ok::<
            usize,
            ConnectorError,
        >(n as usize),
        header_content_length(header@, body_starts_at as nat) is None ==> r == Err::<
            usize,
            ConnectorError,
        >(ConnectorError::Framing),
{
    let c = chars_of(header);
    let e0 = find_line_end(&c, 0);
    let status = [
        'H', 'T', 'T', 'P', '/', '1', '.', '1', ' ', '2', '0', '0', ' ', 'O', 'K',
    ];
    assert(status@ =~= success_status());
    if !range_is(&c, 0, e0, &status) || e0 >= c.len() {
        return Err(ConnectorError::Framing);
    }
    let prefix = [
        'C', 'o', 'n', 't', 'e', 'n', 't', '-', 'L', 'e', 'n', 'g', 't', 'h', ':', ' ',
    ];
    assert(prefix@ =~= content_length_prefix());
    proof {
        lemma_line_end_bounds(c@, 0);
    }
    let ghost first = (e0 + 2) as int;
    let mut p = e0 + 2;
    loop
        invariant
            c@ == header@,
            p <= c@.len(),
            prefix@ == content_length_prefix(),
            find_content_length(c@, first) == find_content_length(c@, p as int),
            header_content_length(c@, body_starts_at as nat) == (match find_content_length(c@, first) {
                None => None,
                Some(v) => match parse_u32(v) {
                    Some(n) if body_starts_at <= MAX_RESPONSE_SIZE && n <= MAX_RESPONSE_SIZE
                        - body_starts_at => Some(n as nat),
                    _ => None,
                },
            }),
        decreases c@.len() - p,
    {
        let e = find_line_end(&c, p);
        proof {
            lemma_line_end_bounds(c@, p as int);
        }
        if e - p >= 16 && range_is(&c, p, p + 16, &prefix) {
            assert(c@.subrange(p as int, e as int).subrange(0, 16) == c@.subrange(p as int, p
                + 16));
            assert(c@.subrange(p as int, e as int).subrange(16, e - p) == c@.subrange(p
                + 16, e as int));
            assert(find_content_length(c@, p as int) == Some(c@.subrange(p + 16, e as int)));
            let n = match parse_u32_chars(&c, p + 16, e) {
                Some(n) => n,
                None => {
                    return Err(ConnectorError::Framing);
                },
            };
            if body_starts_at > MAX_RESPONSE_SIZE || n as usize > MAX_RESPONSE_SIZE - body_starts_at {
                return Err(ConnectorError::Framing);
            }
            return Ok(n as usize);
        }
        if e - p >= 16 {
            assert(c@.subrange(p as int, e as int).subrange(0, 16) == c@.subrange(p as int, p
                + 16));
        }
        if e >= c.len() {
            return Err(ConnectorError::Framing);
        }
        p = e + 2;
    }
}

/// An empty line (CR LF CR LF) ends just before `k`.
pub open spec fn header_end_at(b: Seq<u8>, k: int) -> bool {
    4 <= k <= b.len() && b.subrange(k - 4, k) == seq![13u8, 10u8, 13u8, 10u8]
}

/// Where the body of the response in `buf` starts: just past the first
/// empty line, if there is one.
pub fn find_body_start(buf: &[u8]) -> (r: Option<usize>)
    ensures
        r matches Some(k) ==> header_end_at(buf@, k as int) && forall|j: int|
            j < k ==> !#[trigger] header_end_at(buf@, j),
        r is None ==> forall|j: int| !#[trigger] header_end_at(buf@, j),
{
    if buf.len() < 4 {
        return None;
    }
    let mut k: usize = 4;
    loop
        invariant
            4 <= k <= buf@.len(),
            forall|j: int| j < k ==> !#[trigger] header_end_at(buf@, j),
        decreases buf@.len() - k,
    {
        if buf[k - 4] == 13 && buf[k - 3] == 10 && buf[k - 2] == 13 && buf[k - 1] == 10 {
            assert(buf@.subrange(k - 4, k as int) =~= seq![13u8, 10u8, 13u8, 10u8]);
            return Some(k);
        }
        assert(buf@.subrange(k - 4, k as int)[0] == buf@[k - 4]);
        assert(buf@.subrange(k - 4, k as int)[3] == buf@[k - 1]);
        assert(buf@.subrange(k - 4, k as int)[1] == buf@[k - 3]);
        assert(buf@.subrange(k - 4, k as int)[2] == buf@[k - 2]);
        if k == buf.len() {
            return None;
        }
        k = k + 1;
    }
}

} // verus!
