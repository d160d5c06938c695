//! Parsing of the first line of a client request into a CONNECT target.
//!
//! The parser works on the raw bytes of the client's first read. Only the
//! first line is interpreted: it must consist of at least two
//! whitespace-separated tokens, the first being exactly `CONNECT` and the
//! second an authority of the form `host:port` with a non-empty host and a
//! decimal port that fits in sixteen bits.

use vstd::prelude::*;

verus! {

/// Errors produced when the request does not contain a well-formed
/// `CONNECT host:port` first line.
#[derive(Clone, Copy, PartialEq, Eq, Structural, Debug)]
pub enum ParseError {
    /// The request buffer held no bytes at all.
    EmptyRequest,
    /// Fewer than two whitespace-separated tokens on the first line, a
    /// method token other than `CONNECT`, or an authority that is not
    /// `host:port` with a non-empty host and a valid decimal port.
    MalformedRequest,
}

/// The target a client asked the proxy to tunnel to.
pub struct ConnectTarget {
    pub hostname: Vec<u8>,
    pub port: u16,
}

impl ConnectTarget {
    /// A parsed target always carries a non-empty hostname.
    pub open spec fn wf(&self) -> bool {
        self.hostname@.len() > 0
    }
}

/// ASCII whitespace: the token separators recognised on the request line.
pub open spec fn is_ws(b: u8) -> bool {
    b == 32 || b == 9 || b == 10 || b == 12 || b == 13
}

/// A decimal digit byte.
pub open spec fn is_digit(b: u8) -> bool {
    48 <= b <= 57
}

/// The numeric weight of one byte: its decimal digit value, and zero for a
/// byte that is no digit (such a byte makes the port invalid anyway).
pub open spec fn digit_val(b: u8) -> nat {
    if is_digit(b) {
        (b - 48) as nat
    } else {
        0
    }
}

/// Index of the first line feed in `s` at or after `i`, or `s.len()` when
/// none follows: the first line of the request ends there.
pub open spec fn line_len(s: Seq<u8>, i: nat) -> nat
    decreases s.len() - i,
{
    if i >= s.len() {
        s.len()
    } else if s[i as int] == 10 {
        i
    } else {
        line_len(s, i + 1)
    }
}

/// Index of the first non-whitespace byte of `s` at or after `i`, or
/// `s.len()` when only whitespace follows.
pub open spec fn scan_ws(s: Seq<u8>, i: nat) -> nat
    decreases s.len() - i,
{
    if i >= s.len() {
        s.len()
    } else if is_ws(s[i as int]) {
        scan_ws(s, i + 1)
    } else {
        i
    }
}

/// Index of the first whitespace byte of `s` at or after `i`, or `s.len()`
/// when none follows: a token that starts at `i` ends there.
pub open spec fn scan_tok(s: Seq<u8>, i: nat) -> nat
    decreases s.len() - i,
{
    if i >= s.len() {
        s.len()
    } else if is_ws(s[i as int]) {
        i
    } else {
        scan_tok(s, i + 1)
    }
}

/// Index of the first colon in `s` at or after `i`, or `s.len()` when none
/// follows.
pub open spec fn colon_pos(s: Seq<u8>, i: nat) -> nat
    decreases s.len() - i,
{
    if i >= s.len() {
        s.len()
    } else if s[i as int] == 58 {
        i
    } else {
        colon_pos(s, i + 1)
    }
}

/// Every byte of `s` is a decimal digit.
pub open spec fn all_digits(s: Seq<u8>) -> bool {
    forall|i: int| 0 <= i < s.len() ==> is_digit(s[i])
}

/// The value of `s` read as a decimal numeral, most significant digit
/// first.
pub open spec fn dec_value(s: Seq<u8>) -> nat
    decreases s.len(),
{
    if s.len() == 0 {
        0
    } else {
        dec_value(s.drop_last()) * 10 + digit_val(s.last())
    }
}

/// A valid port numeral: non-empty, all digits, and at most 65535.
pub open spec fn is_port(s: Seq<u8>) -> bool {
    s.len() > 0 && all_digits(s) && dec_value(s) <= 65535
}

/// The bytes of the method token this proxy accepts: `CONNECT`.
pub open spec fn connect_method() -> Seq<u8> {
    seq!['C' as u8, 'O' as u8, 'N' as u8, 'N' as u8, 'E' as u8, 'C' as u8, 'T' as u8]
}

/// What parsing an authority token yields: the bytes before the first colon
/// as the hostname, the bytes after it as the port numeral. The authority is
/// malformed when it has no colon, an empty host, or an invalid port.
pub open spec fn spec_parse_authority(auth: Seq<u8>) -> Result<(Seq<u8>, u16), ParseError> {
    let c = colon_pos(auth, 0);
    if c >= auth.len() {
        Err(ParseError::MalformedRequest)
    } else {
        let host = auth.take(c as int);
        let numeral = auth.subrange(c as int + 1, auth.len() as int);
        if host.len() == 0 || !is_port(numeral) {
            Err(ParseError::MalformedRequest)
        } else {
            Ok((host, dec_value(numeral) as u16))
        }
    }
}

/// What parsing a request yields: an empty buffer is an empty request;
/// otherwise the first line must hold at least two tokens, the first token
/// must be exactly `CONNECT`, and the second token is parsed as the
/// authority.
pub open spec fn spec_parse(req: Seq<u8>) -> Result<(Seq<u8>, u16), ParseError> {
    if req.len() == 0 {
        Err(ParseError::EmptyRequest)
    } else {
        let line = req.take(line_len(req, 0) as int);
        let t1s = scan_ws(line, 0);
        let t1e = scan_tok(line, t1s);
        let t2s = scan_ws(line, t1e);
        let t2e = scan_tok(line, t2s);
        if t2s >= line.len() {
            Err(ParseError::MalformedRequest)
        } else if line.subrange(t1s as int, t1e as int) != connect_method() {
            Err(ParseError::MalformedRequest)
        } else {
            spec_parse_authority(line.subrange(t2s as int, t2e as int))
        }
    }
}

/// The first line of a request: the bytes before its first line feed.
pub open spec fn request_line(req: Seq<u8>) -> Seq<u8> {
    req.take(line_len(req, 0) as int)
}

/// The first whitespace-separated token of `line`: the method token.
pub open spec fn method_token(line: Seq<u8>) -> Seq<u8> {
    line.subrange(scan_ws(line, 0) as int, scan_tok(line, scan_ws(line, 0)) as int)
}

/// Whether `line` holds at least two whitespace-separated tokens.
pub open spec fn has_two_tokens(line: Seq<u8>) -> bool {
    scan_ws(line, scan_tok(line, scan_ws(line, 0))) < line.len()
}

/// Law: an empty buffer, a first line with fewer than two tokens, and a
/// method token other than exactly `CONNECT` are each rejected by the
/// parser — no target comes out of such a request.
pub proof fn lemma_parse_rejects(req: Seq<u8>)
    ensures
        req.len() == 0 ==> spec_parse(req) == Err::<(Seq<u8>, u16), ParseError>(
            ParseError::EmptyRequest,
        ),
        req.len() > 0 && !has_two_tokens(request_line(req)) ==> spec_parse(req) == Err::<
            (Seq<u8>, u16),
            ParseError,
        >(ParseError::MalformedRequest),
        req.len() > 0 && method_token(request_line(req)) != connect_method() ==> spec_parse(req)
            == Err::<(Seq<u8>, u16), ParseError>(ParseError::MalformedRequest),
{
}

/// The numeral prefixes of a digit string never exceed its full value:
/// appending digits can only grow a decimal numeral.
pub proof fn lemma_dec_value_prefix(s: Seq<u8>, i: int)
    requires
        0 <= i <= s.len(),
    ensures
        dec_value(s.take(i)) <= dec_value(s),
    decreases s.len() - i,
{
    if i == s.len() {
        assert(s.take(i) =~= s);
    } else {
        assert(s.take(i + 1).drop_last() =~= s.take(i));
        assert(dec_value(s.take(i + 1)) == dec_value(s.take(i)) * 10 + digit_val(s.take(i + 1).last()));
        lemma_dec_value_prefix(s, i + 1);
    }
}

/// Whether `b` separates tokens on the request line.
fn ws_byte(b: u8) -> (r: bool)
    ensures
        r == is_ws(b),
{
    b == 32 || b == 9 || b == 10 || b == 12 || b == 13
}

/// Parses the raw bytes of the client's first read into the tunnel target.
///
/// The result is exactly what the parsing model `spec_parse` yields on the
/// same bytes: the hostname and port of a well-formed `CONNECT host:port`
/// first line, `EmptyRequest` for an empty buffer, and `MalformedRequest`
/// for anything else.
#[verifier::loop_isolation(false)]
#[verifier::rlimit(60)]
pub fn parse_connect_request(request: &Vec<u8>) -> (r: Result<ConnectTarget, ParseError>)
    ensures
        match r {
            Ok(t) => t.wf() && spec_parse(request@) == Ok::<(Seq<u8>, u16), ParseError>(
                (t.hostname@, t.port),
            ),
            Err(e) => spec_parse(request@) == Err::<(Seq<u8>, u16), ParseError>(e),
        },
{
    let n = request.len();
    if n == 0 {
        return Err(ParseError::EmptyRequest);
    }

    // The first line ends at the first line feed, or at the end of the buffer.
    let mut end: usize = 0;
    while end < n && request[end] != 10
        invariant
            0 <= end <= n,
            n == request@.len(),
            line_len(request@, 0) == line_len(request@, end as nat),
        decreases n - end,
    {
        end += 1;
    }
    assert(line_len(request@, 0) == end);
    let ghost line = request@.take(end as int);
    assert(line.len() == end);

    // First token: skip leading whitespace, then take non-whitespace bytes.
    let mut t1s: usize = 0;
    while t1s < end && ws_byte(request[t1s])
        invariant
            0 <= t1s <= end,
            end <= n == request@.len(),
            line == request@.take(end as int),
            scan_ws(line, 0) == scan_ws(line, t1s as nat),
        decreases end - t1s,
    {
        t1s += 1;
    }
    assert(scan_ws(line, 0) == t1s);
    let mut t1e: usize = t1s;
    while t1e < end && !ws_byte(request[t1e])
        invariant
            t1s <= t1e <= end,
            end <= n == request@.len(),
            line == request@.take(end as int),
            scan_tok(line, t1s as nat) == scan_tok(line, t1e as nat),
        decreases end - t1e,
    {
        t1e += 1;
    }
    assert(scan_tok(line, t1s as nat) == t1e);

    // Second token.
    let mut t2s: usize = t1e;
    while t2s < end && ws_byte(request[t2s])
        invariant
            t1e <= t2s <= end,
            end <= n == request@.len(),
            line == request@.take(end as int),
            scan_ws(line, t1e as nat) == scan_ws(line, t2s as nat),
        decreases end - t2s,
    {
        t2s += 1;
    }
    assert(scan_ws(line, t1e as nat) == t2s);
    if t2s >= end {
        return Err(ParseError::MalformedRequest);
    }
    let mut t2e: usize = t2s;
    while t2e < end && !ws_byte(request[t2e])
        invariant
            t2s <= t2e <= end,
            end <= n == request@.len(),
            line == request@.take(end as int),
            scan_tok(line, t2s as nat) == scan_tok(line, t2e as nat),
        decreases end - t2e,
    {
        t2e += 1;
    }
    assert(scan_tok(line, t2s as nat) == t2e);

    // The method token must be exactly `CONNECT`.
    let ghost method = line.subrange(t1s as int, t1e as int);
    if t1e - t1s != 7 {
        assert(method.len() != connect_method().len());
        return Err(ParseError::MalformedRequest);
    }
    let good = request[t1s] == 'C' as u8 && request[t1s + 1] == 'O' as u8 && request[t1s + 2]
        == 'N' as u8 && request[t1s + 3] == 'N' as u8 && request[t1s + 4] == 'E' as u8 && request[t1s
        + 5] == 'C' as u8 && request[t1s + 6] == 'T' as u8;
    assert(forall|k: int| 0 <= k < 7 ==> method[k] == request@[t1s + k]);
    if !good {
        assert(method != connect_method());
        return Err(ParseError::MalformedRequest);
    }
    assert(method =~= connect_method());

    // The authority token must be `host:port` with a non-empty host.
    let ghost auth = line.subrange(t2s as int, t2e as int);
    assert(forall|k: int| 0 <= k < auth.len() ==> auth[k] == request@[t2s + k]);
    let mut c: usize = t2s;
    while c < t2e && request[c] != 58
        invariant
            t2s <= c <= t2e,
            t2e <= end <= n == request@.len(),
            auth == line.subrange(t2s as int, t2e as int),
            line == request@.take(end as int),
            colon_pos(auth, 0) == colon_pos(auth, (c - t2s) as nat),
        decreases t2e - c,
    {
        c += 1;
    }
    assert(colon_pos(auth, 0) == c - t2s);
    if c == t2e {
        return Err(ParseError::MalformedRequest);
    }
    if c == t2s {
        // Empty host.
        return Err(ParseError::MalformedRequest);
    }
    let ghost numeral = auth.subrange((c - t2s) as int + 1, auth.len() as int);
    assert(forall|k: int| 0 <= k < numeral.len() ==> numeral[k] == request@[c + 1 + k]);
    if c + 1 == t2e {
        // Empty port numeral.
        assert(!is_port(numeral));
        return Err(ParseError::MalformedRequest);
    }

    // Read the port numeral, rejecting non-digits and values over 65535.
    let mut i: usize = c + 1;
    let mut val: u32 = 0;
    while i < t2e
        invariant
            c + 1 <= i <= t2e,
            t2e <= end <= n == request@.len(),
            numeral == auth.subrange((c - t2s) as int + 1, auth.len() as int),
            auth == line.subrange(t2s as int, t2e as int),
            line == request@.take(end as int),
            t2s <= c < t2e,
            numeral.len() == t2e - c - 1,
            forall|k: int| 0 <= k < numeral.len() ==> numeral[k] == request@[c + 1 + k],
            forall|k: int| 0 <= k < i - c - 1 ==> is_digit(numeral[k]),
            val == dec_value(numeral.take(i - c - 1)),
            val <= 65535,
        decreases t2e - i,
    {
        let b = request[i];
        let ghost k = i - c - 1;
        assert(numeral[k] == b);
        if !(48 <= b && b <= 57) {
            assert(!all_digits(numeral));
            return Err(ParseError::MalformedRequest);
        }
        let nv = val * 10 + (b - 48) as u32;
        proof {
            assert(numeral.take(k + 1).drop_last() =~= numeral.take(k));
            assert(numeral.take(k + 1).last() == numeral[k]);
            assert(dec_value(numeral.take(k + 1)) == dec_value(numeral.take(k)) * 10 + digit_val(b));
        }
        if nv > 65535 {
            proof {
                lemma_dec_value_prefix(numeral, k + 1);
                assert(dec_value(numeral) > 65535);
            }
            return Err(ParseError::MalformedRequest);
        }
        val = nv;
        i += 1;
    }
    assert(numeral.take(numeral.len() as int) =~= numeral);
    assert(val == dec_value(numeral));
    assert(all_digits(numeral));
    assert(is_port(numeral));

    // Copy the hostname out of the buffer.
    let mut hostname: Vec<u8> = Vec::new();
    let mut j: usize = t2s;
    while j < c
        invariant
            t2s <= j <= c,
            c <= end <= n == request@.len(),
            hostname@ == request@.subrange(t2s as int, j as int),
        decreases c - j,
    {
        let b = request[j];
        hostname.push(b);
        proof {
            assert(request@.subrange(t2s as int, j + 1) =~= request@.subrange(
                t2s as int,
                j as int,
            ).push(request@[j as int]));
        }
        j += 1;
    }
    let ghost host = auth.take((c - t2s) as int);
    assert(hostname@ =~= host);

    let port: u16 = val as u16;
    proof {
        assert(spec_parse_authority(auth) == Ok::<(Seq<u8>, u16), ParseError>((host, port)));
        assert(spec_parse(request@) == spec_parse_authority(auth));
    }
    Ok(ConnectTarget { hostname, port })
}

} // verus!
