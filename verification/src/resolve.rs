use vstd::prelude::*;
use vstd::string::*;

use crate::clock::rfc3339_of;
use crate::clock::rfc3339_of_unix_nanos;
use crate::format::Format;
use crate::format::FormatText;
use crate::format::Token;
use crate::human::human_byte_count;
use crate::human::human_bytes_of;
use crate::human::human_duration;
use crate::human::human_duration_of;
use crate::strutil::spec_dec_pad;
use crate::strutil::spec_dec_str;
use crate::strutil::spec_eq_ci;
use crate::strutil::str_eq;
use crate::strutil::str_eq_ci;
use crate::strutil::u64_to_dec;
use crate::strutil::u64_to_dec_pad;

verus! {

// ---------------------------------------------------------------------------
// What the interceptor reads of a request and of a response head
// ---------------------------------------------------------------------------

/// The plain values of a request that log fields draw on. The transport layer
/// fills one in when the request arrives.
pub struct RequestInfo {
    /// The request method, as written in the request line (`GET`).
    pub method: String,
    /// The path, with no query string.
    pub path: String,
    /// The query string, empty when the request has none.
    pub query: String,
    /// The protocol version, as logged (`HTTP/1.1`).
    pub version: String,
    /// Header names and values, in arrival order.
    pub headers: Vec<(String, String)>,
    /// The peer address of the connection, when known.
    pub peer_addr: Option<String>,
    /// The client address trusted from forwarding headers, when known.
    pub real_ip: Option<String>,
}

/// The plain values of a response head that log fields draw on; the body is
/// deliberately absent and never buffered.
pub struct ResponseInfo {
    /// The status code.
    pub status: u16,
    /// Header names and values, in order.
    pub headers: Vec<(String, String)>,
}

// ---------------------------------------------------------------------------
// Lookups
// ---------------------------------------------------------------------------

/// The value of the first header whose name matches up to ASCII case, or `-`.
pub open spec fn spec_header_value(hs: Seq<(String, String)>, name: Seq<char>) -> Seq<char>
    decreases hs.len(),
{
    if hs.len() == 0 {
        "-"@
    } else if spec_eq_ci(hs[0].0@, name) {
        hs[0].1@
    } else {
        spec_header_value(hs.skip(1), name)
    }
}

/// Looks a header up by name, insensitively to ASCII case; absent renders `-`.
pub fn header_value(hs: &Vec<(String, String)>, name: &str) -> (r: String)
    ensures
        r@ == spec_header_value(hs@, name@),
{
    let n = hs.len();
    let mut i: usize = 0;
    proof {
        assert(hs@.skip(0) =~= hs@);
    }
    while i < n
        invariant
            i <= n,
            n == hs@.len(),
            spec_header_value(hs@, name@) == spec_header_value(hs@.skip(i as int), name@),
        decreases n - i,
    {
        if str_eq_ci(hs[i].0.as_str(), name) {
            proof {
                assert(hs@.skip(i as int)[0] == hs@[i as int]);
            }
            return hs[i].1.clone();
        }
        proof {
            assert(hs@.skip(i as int)[0] == hs@[i as int]);
            assert(hs@.skip(i as int).skip(1) =~= hs@.skip(i as int + 1));
        }
        i += 1;
    }
    proof {
        assert(hs@.skip(n as int).len() == 0);
    }
    "-".to_owned()
}

/// The value of the first entry of the environment snapshot whose name matches
/// exactly, or `-`.
pub open spec fn spec_env_value(env: Seq<(String, String)>, name: Seq<char>) -> Seq<char>
    decreases env.len(),
{
    if env.len() == 0 {
        "-"@
    } else if env[0].0@ == name {
        env[0].1@
    } else {
        spec_env_value(env.skip(1), name)
    }
}

/// Looks a variable up in an environment snapshot; absent renders `-`.
pub fn env_value(env: &Vec<(String, String)>, name: &str) -> (r: String)
    ensures
        r@ == spec_env_value(env@, name@),
{
    let n = env.len();
    let mut i: usize = 0;
    proof {
        assert(env@.skip(0) =~= env@);
    }
    while i < n
        invariant
            i <= n,
            n == env@.len(),
            spec_env_value(env@, name@) == spec_env_value(env@.skip(i as int), name@),
        decreases n - i,
    {
        if str_eq(env[i].0.as_str(), name) {
            proof {
                assert(env@.skip(i as int)[0] == env@[i as int]);
            }
            return env[i].1.clone();
        }
        proof {
            assert(env@.skip(i as int)[0] == env@[i as int]);
            assert(env@.skip(i as int).skip(1) =~= env@.skip(i as int + 1));
        }
        i += 1;
    }
    proof {
        assert(env@.skip(n as int).len() == 0);
    }
    "-".to_owned()
}

/// An optional value, with `-` standing for absence.
pub open spec fn spec_or_dash(o: Option<String>) -> Seq<char> {
    match o {
        Some(s) => s@,
        None => "-"@,
    }
}

fn or_dash(o: &Option<String>) -> (r: String)
    ensures
        r@ == spec_or_dash(*o),
{
    match o {
        Some(s) => s.clone(),
        None => "-".to_owned(),
    }
}

// ---------------------------------------------------------------------------
// Request phase
// ---------------------------------------------------------------------------

/// The request line as logged: method, path, query string when present, and
/// protocol version.
pub open spec fn spec_request_line(req: RequestInfo) -> Seq<char> {
    if req.query@.len() == 0 {
        req.method@ + " "@ + req.path@ + " "@ + req.version@
    } else {
        req.method@ + " "@ + req.path@ + "?"@ + req.query@ + " "@ + req.version@
    }
}

fn render_request_line(req: &RequestInfo) -> (r: String)
    ensures
        r@ == spec_request_line(*req),
{
    let mut s = req.method.clone();
    s.append(" ");
    s.append(req.path.as_str());
    if !req.query.as_str().is_empty() {
        s.append("?");
        s.append(req.query.as_str());
    }
    s.append(" ");
    s.append(req.version.as_str());
    proof {
        assert(s@ =~= spec_request_line(*req));
    }
    s
}

/// One token after the request phase: every field knowable at arrival —
/// request context and environment alike — is replaced, in place, by its
/// literal value.
pub open spec fn spec_resolve_request(
    t: Token,
    req: RequestInfo,
    now: u64,
    env: Seq<(String, String)>,
) -> Token {
    match t {
        Token::RequestLine => Token::Str(spec_request_line(req)),
        Token::UrlPath => Token::Str(req.path@),
        Token::RequestTime => Token::Str(rfc3339_of(now)),
        Token::RequestHeader(n) => Token::Str(spec_header_value(req.headers@, n)),
        Token::RemoteAddr => Token::Str(spec_or_dash(req.peer_addr)),
        Token::RealIpRemoteAddr => Token::Str(spec_or_dash(req.real_ip)),
        Token::EnvironHeader(n) => Token::Str(spec_env_value(env, n)),
        Token::CustomRequest(n) => Token::Str("-"@),
        _ => t,
    }
}

/// A whole token sequence after the request phase.
pub open spec fn spec_resolve_request_all(
    ts: Seq<Token>,
    req: RequestInfo,
    now: u64,
    env: Seq<(String, String)>,
) -> Seq<Token> {
    ts.map_values(|t: Token| spec_resolve_request(t, req, now, env))
}

fn resolve_request_token(
    t: &FormatText,
    req: &RequestInfo,
    now: u64,
    env: &Vec<(String, String)>,
) -> (r: FormatText)
    ensures
        r@ == spec_resolve_request(t@, *req, now, env@),
{
    match t {
        FormatText::RequestLine => FormatText::Str(render_request_line(req)),
        FormatText::UrlPath => FormatText::Str(req.path.clone()),
        FormatText::RequestTime => FormatText::Str(rfc3339_of_unix_nanos(now)),
        FormatText::RequestHeader(n) => FormatText::Str(header_value(&req.headers, n.as_str())),
        FormatText::RemoteAddr => FormatText::Str(or_dash(&req.peer_addr)),
        FormatText::RealIpRemoteAddr => FormatText::Str(or_dash(&req.real_ip)),
        FormatText::EnvironHeader(n) => FormatText::Str(env_value(env, n.as_str())),
        FormatText::CustomRequest(_) => FormatText::Str("-".to_owned()),
        other => other.duplicate(),
    }
}

/// Resolves every request-phase token of a working copy of the format.
pub fn resolve_request_format(
    f: &Format,
    req: &RequestInfo,
    now: u64,
    env: &Vec<(String, String)>,
) -> (r: Format)
    ensures
        r@ == spec_resolve_request_all(f@, *req, now, env@),
{
    let n = f.0.len();
    let mut v: Vec<FormatText> = Vec::new();
    let mut i: usize = 0;
    while i < n
        invariant
            i <= n,
            n == f@.len(),
            v.deep_view() == spec_resolve_request_all(f@, *req, now, env@).take(i as int),
        decreases n - i,
    {
        let ghost prev = v.deep_view();
        let t = resolve_request_token(&f.0[i], req, now, env);
        v.push(t);
        proof {
            assert(v.deep_view() =~= prev.push(t@));
            assert(prev.push(t@) =~= spec_resolve_request_all(f@, *req, now, env@).take(
                i as int + 1,
            ));
        }
        i += 1;
    }
    proof {
        assert(spec_resolve_request_all(f@, *req, now, env@).take(n as int)
            =~= spec_resolve_request_all(f@, *req, now, env@));
    }
    Format(v)
}

// ---------------------------------------------------------------------------
// Response phase
// ---------------------------------------------------------------------------

/// One token after the response phase: every field knowable from the response
/// head is replaced by its literal value.
pub open spec fn spec_resolve_response(t: Token, resp: ResponseInfo) -> Token {
    match t {
        Token::ResponseStatus => Token::Str(spec_dec_str(resp.status as nat)),
        Token::ResponseHeader(n) => Token::Str(spec_header_value(resp.headers@, n)),
        Token::CustomResponse(n) => Token::Str("-"@),
        _ => t,
    }
}

/// A whole token sequence after the response phase.
pub open spec fn spec_resolve_response_all(ts: Seq<Token>, resp: ResponseInfo) -> Seq<Token> {
    ts.map_values(|t: Token| spec_resolve_response(t, resp))
}

fn resolve_response_token(t: &FormatText, resp: &ResponseInfo) -> (r: FormatText)
    ensures
        r@ == spec_resolve_response(t@, *resp),
{
    match t {
        FormatText::ResponseStatus => FormatText::Str(u64_to_dec(resp.status as u64)),
        FormatText::ResponseHeader(n) => FormatText::Str(header_value(&resp.headers, n.as_str())),
        FormatText::CustomResponse(_) => FormatText::Str("-".to_owned()),
        other => other.duplicate(),
    }
}

/// Resolves every response-phase token of the working copy, reading only the
/// response head.
pub fn resolve_response_format(f: &Format, resp: &ResponseInfo) -> (r: Format)
    ensures
        r@ == spec_resolve_response_all(f@, *resp),
{
    let n = f.0.len();
    let mut v: Vec<FormatText> = Vec::new();
    let mut i: usize = 0;
    while i < n
        invariant
            i <= n,
            n == f@.len(),
            v.deep_view() == spec_resolve_response_all(f@, *resp).take(i as int),
        decreases n - i,
    {
        let ghost prev = v.deep_view();
        let t = resolve_response_token(&f.0[i], resp);
        v.push(t);
        proof {
            assert(v.deep_view() =~= prev.push(t@));
            assert(prev.push(t@) =~= spec_resolve_response_all(f@, *resp).take(i as int + 1));
        }
        i += 1;
    }
    proof {
        assert(spec_resolve_response_all(f@, *resp).take(n as int) =~= spec_resolve_response_all(
            f@,
            *resp,
        ));
    }
    Format(v)
}

// ---------------------------------------------------------------------------
// Finalization phase
// ---------------------------------------------------------------------------

/// Elapsed time as fractional seconds with microsecond precision, the way
/// `%T` logs it: seconds, a dot, six digits, and a trailing `s`.
pub open spec fn spec_elapsed_str(nanos: u64) -> Seq<char> {
    spec_dec_str((nanos / 1_000_000_000) as nat) + "."@ + spec_dec_pad(
        ((nanos % 1_000_000_000) / 1000) as nat,
        6,
    ) + "s"@
}

fn render_elapsed(nanos: u64) -> (r: String)
    ensures
        r@ == spec_elapsed_str(nanos),
{
    let mut s = u64_to_dec(nanos / 1_000_000_000);
    s.append(".");
    let frac = u64_to_dec_pad((nanos % 1_000_000_000) / 1000, 6);
    s.append(frac.as_str());
    s.append("s");
    proof {
        assert(s@ =~= spec_elapsed_str(nanos));
    }
    s
}

/// What one token contributes to the finished line, given the counted body
/// size and the elapsed nanoseconds. A token of a phase that never ran
/// contributes nothing.
pub open spec fn spec_render_token(t: Token, size: u64, elapsed: u64) -> Seq<char> {
    match t {
        Token::Str(s) => s,
        Token::Percent => "%"@,
        Token::ResponseSize => human_bytes_of(size),
        Token::Time => spec_elapsed_str(elapsed),
        Token::TimeMillis => human_duration_of(elapsed),
        _ => Seq::empty(),
    }
}

/// The finished line: every token's contribution, concatenated in order.
pub open spec fn spec_render_line(ts: Seq<Token>, size: u64, elapsed: u64) -> Seq<char>
    decreases ts.len(),
{
    if ts.len() == 0 {
        Seq::empty()
    } else {
        spec_render_token(ts[0], size, elapsed) + spec_render_line(ts.skip(1), size, elapsed)
    }
}

fn render_token(t: &FormatText, size: u64, elapsed: u64) -> (r: String)
    ensures
        r@ == spec_render_token(t@, size, elapsed),
{
    match t {
        FormatText::Str(s) => s.clone(),
        FormatText::Percent => "%".to_owned(),
        FormatText::ResponseSize => human_byte_count(size),
        FormatText::Time => render_elapsed(elapsed),
        FormatText::TimeMillis => human_duration(elapsed),
        _ => String::new(),
    }
}

/// Renders the fully-resolved working copy to one string.
pub fn render_line(f: &Format, size: u64, elapsed: u64) -> (r: String)
    ensures
        r@ == spec_render_line(f@, size, elapsed),
{
    let n = f.0.len();
    let mut s = String::new();
    let mut i: usize = 0;
    proof {
        assert(f@.skip(0) =~= f@);
        assert(s@ + spec_render_line(f@, size, elapsed) =~= spec_render_line(f@, size, elapsed));
    }
    while i < n
        invariant
            i <= n,
            n == f@.len(),
            spec_render_line(f@, size, elapsed) == s@ + spec_render_line(
                f@.skip(i as int),
                size,
                elapsed,
            ),
        decreases n - i,
    {
        let piece = render_token(&f.0[i], size, elapsed);
        proof {
            assert(f@.skip(i as int)[0] == f@[i as int]);
            assert(f@.skip(i as int).skip(1) =~= f@.skip(i as int + 1));
            assert((s@ + piece@) + spec_render_line(f@.skip(i as int + 1), size, elapsed) =~= s@
                + (piece@ + spec_render_line(f@.skip(i as int + 1), size, elapsed)));
        }
        s.append(piece.as_str());
        i += 1;
    }
    proof {
        assert(f@.skip(n as int).len() == 0);
        assert(s@ + spec_render_line(f@.skip(n as int), size, elapsed) =~= s@);
    }
    s
}

} // verus!
