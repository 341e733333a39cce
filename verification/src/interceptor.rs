use vstd::prelude::*;
use vstd::string::*;

use crate::clock::now_unix_nanos;
use crate::clock::spec_elapsed;
use crate::filter::regex_compiles;
use crate::filter::ExclusionFilter;
use crate::format::spec_fmt_ok;
use crate::format::spec_tokens;
use crate::format::Format;
use crate::format::FormatError;
use crate::format::FormatText;
use crate::format::Token;
use crate::resolve::render_line;
use crate::resolve::resolve_request_format;
use crate::resolve::resolve_response_format;
use crate::resolve::spec_render_line;
use crate::resolve::spec_resolve_request_all;
use crate::resolve::spec_resolve_response_all;
use crate::resolve::RequestInfo;
use crate::resolve::ResponseInfo;
use crate::severity::severity_for;
use crate::severity::spec_severity_for;
use crate::severity::Severity;
use crate::clock::elapsed_nanos;

verus! {

// ---------------------------------------------------------------------------
// The models of the per-request states
// ---------------------------------------------------------------------------

/// Model of a request between arrival and the response head. `tokens` is
/// absent exactly for a bypassed (excluded) request.
pub struct PendingV {
    pub tokens: Option<Seq<Token>>,
    pub start: u64,
    pub target: Seq<char>,
}

/// Model of a request while its body streams out.
pub struct StreamV {
    pub tokens: Option<Seq<Token>>,
    pub size: u64,
    pub start: u64,
    pub target: Seq<char>,
    pub status: u16,
    pub done: bool,
}

/// Model of one emitted log line.
pub struct LineV {
    pub severity: Severity,
    pub target: Seq<char>,
    pub message: Seq<char>,
}

// ---------------------------------------------------------------------------
// The exec states
// ---------------------------------------------------------------------------

/// Per-request state after the request phase: the working copy of the format
/// with every request-phase token resolved, or nothing for a bypassed request.
pub struct PendingLog {
    pub format: Option<Format>,
    pub start_nanos: u64,
    pub log_target: String,
}

impl View for PendingLog {
    type V = PendingV;

    open spec fn view(&self) -> PendingV {
        PendingV {
            tokens: match self.format {
                Some(f) => Some(f@),
                None => None,
            },
            start: self.start_nanos,
            target: self.log_target@,
        }
    }
}

/// Per-request state while the body streams: the pass-through byte counter
/// and everything finalization will need. Finalization runs exactly once.
pub struct StreamLog {
    pub format: Option<Format>,
    pub size: u64,
    pub start_nanos: u64,
    pub log_target: String,
    pub status: u16,
    pub done: bool,
}

impl View for StreamLog {
    type V = StreamV;

    open spec fn view(&self) -> StreamV {
        StreamV {
            tokens: match self.format {
                Some(f) => Some(f@),
                None => None,
            },
            size: self.size,
            start: self.start_nanos,
            target: self.log_target@,
            status: self.status,
            done: self.done,
        }
    }
}

/// One finished access-log line, ready for the sink.
pub struct LogLine {
    pub severity: Severity,
    pub target: String,
    pub message: String,
}

impl View for LogLine {
    type V = LineV;

    open spec fn view(&self) -> LineV {
        LineV { severity: self.severity, target: self.target@, message: self.message@ }
    }
}

// ---------------------------------------------------------------------------
// The transitions, as mathematics
// ---------------------------------------------------------------------------

/// What entering the interceptor does: an excluded path bypasses with no
/// timestamp and no working copy; any other request records the clock and
/// resolves every request-phase token against the request context and the
/// environment.
pub open spec fn spec_begin(
    l: Logger,
    req: RequestInfo,
    now: u64,
    env: Seq<(String, String)>,
) -> PendingV {
    if l.filter.spec_excluded(req.path@) {
        PendingV { tokens: None, start: 0, target: Seq::empty() }
    } else {
        PendingV {
            tokens: Some(spec_resolve_request_all(l.format@, req, now, env)),
            start: now,
            target: l.log_target@,
        }
    }
}

/// What the response head's arrival does: response-phase tokens resolve
/// against the head alone, the status is kept for severity routing, and the
/// byte counter starts at zero.
pub open spec fn spec_on_response(p: PendingV, resp: ResponseInfo) -> StreamV {
    StreamV {
        tokens: match p.tokens {
            Some(ts) => Some(spec_resolve_response_all(ts, resp)),
            None => None,
        },
        size: 0,
        start: p.start,
        target: p.target,
        status: resp.status,
        done: false,
    }
}

/// What one pulled body chunk does: its length joins the counter (saturating
/// at the counter's capacity), and nothing else moves.
pub open spec fn spec_on_chunk(s: StreamV, len: u64) -> StreamV {
    StreamV {
        tokens: s.tokens,
        size: if s.size + len <= u64::MAX {
            (s.size + len) as u64
        } else {
            u64::MAX
        },
        start: s.start,
        target: s.target,
        status: s.status,
        done: s.done,
    }
}

/// The state after finalization: finalized, whatever else held.
pub open spec fn spec_finish_state(s: StreamV) -> StreamV {
    StreamV {
        tokens: s.tokens,
        size: s.size,
        start: s.start,
        target: s.target,
        status: s.status,
        done: true,
    }
}

/// The line finalization emits: nothing for a bypassed request and nothing
/// the second time; otherwise exactly one line, with severity routed by the
/// status code and the message rendered over the counted size and the
/// elapsed time.
pub open spec fn spec_finish_line(s: StreamV, now: u64) -> Option<LineV> {
    if s.done || s.tokens is None {
        None
    } else {
        Some(
            LineV {
                severity: spec_severity_for(s.status),
                target: s.target,
                message: "Access "@ + spec_render_line(
                    s.tokens->0,
                    s.size,
                    spec_elapsed(s.start, now),
                ),
            },
        )
    }
}

// ---------------------------------------------------------------------------
// The interceptor configuration
// ---------------------------------------------------------------------------

/// The interceptor's shared, immutable configuration: the compiled format,
/// the exclusion filter, and the log-sink target name. Built once at worker
/// start; every request reads it and none mutates it.
pub struct Logger {
    pub format: Format,
    pub filter: ExclusionFilter,
    pub log_target: String,
}

/// The warning written at startup for one unbound custom request field.
pub open spec fn spec_request_warning(label: Seq<char>) -> Seq<char> {
    "No custom request replacement function was registered for label: "@ + label
}

/// The warning written at startup for one unbound custom response field.
pub open spec fn spec_response_warning(label: Seq<char>) -> Seq<char> {
    "No custom response replacement function was registered for label: "@ + label
}

/// The startup warnings a token sequence owes: one per custom field, in
/// order, and none for anything else.
pub open spec fn spec_warnings(ts: Seq<Token>) -> Seq<Seq<char>>
    decreases ts.len(),
{
    if ts.len() == 0 {
        Seq::empty()
    } else {
        let rest = spec_warnings(ts.skip(1));
        match ts[0] {
            Token::CustomRequest(n) => seq![spec_request_warning(n)] + rest,
            Token::CustomResponse(n) => seq![spec_response_warning(n)] + rest,
            _ => rest,
        }
    }
}

impl Logger {
    /// The configuration's invariant: the filter's compiled patterns match
    /// their recorded texts.
    pub open spec fn wf(&self) -> bool {
        self.filter.wf()
    }

    /// Builds an interceptor from a format string, excluding nothing yet.
    /// A malformed format string is refused here, at construction time.
    pub fn try_new(format: &str) -> (r: Result<Logger, FormatError>)
        ensures
            (r is Ok) <==> spec_fmt_ok(format@),
            r matches Ok(l) ==> {
                &&& l.wf()
                &&& l.format@ == spec_tokens(format@)
                &&& l.filter.exact@.len() == 0
                &&& l.filter.patterns@.len() == 0
                &&& l.log_target@ == "access_filter"@
            },
    {
        match Format::compile(format) {
            Ok(f) => Ok(
                Logger {
                    format: f,
                    filter: ExclusionFilter::empty(),
                    log_target: "access_filter".to_owned(),
                },
            ),
            Err(e) => Err(e),
        }
    }

    /// Builds an interceptor from a format string known to be acceptable.
    pub fn new(format: &str) -> (r: Logger)
        requires
            spec_fmt_ok(format@),
        ensures
            r.wf(),
            r.format@ == spec_tokens(format@),
            r.filter.exact@.len() == 0,
            r.filter.patterns@.len() == 0,
            r.log_target@ == "access_filter"@,
    {
        match Logger::try_new(format) {
            Ok(l) => l,
            Err(_) => vstd::pervasive::unreached(),
        }
    }

    /// Excludes one exact path from logging.
    pub fn exclude(self, path: &str) -> (r: Logger)
        ensures
            r.format == self.format,
            r.log_target == self.log_target,
            r.filter.patterns == self.filter.patterns,
            r.filter.regexes == self.filter.regexes,
            r.filter.exact@.len() == self.filter.exact@.len() + 1,
            r.filter.exact@ == self.filter.exact@.push(r.filter.exact@.last()),
            r.filter.exact@.last()@ == path@,
            self.wf() ==> r.wf(),
    {
        let mut l = self;
        l.filter.add_exact(path);
        l
    }

    /// Excludes every path matching a pattern known to compile.
    pub fn exclude_regex(self, path: &str) -> (r: Logger)
        requires
            self.wf(),
            regex_compiles(path@),
        ensures
            r.wf(),
            r.format == self.format,
            r.log_target == self.log_target,
            r.filter.exact == self.filter.exact,
            r.filter.patterns@.len() == self.filter.patterns@.len() + 1,
            r.filter.patterns@ == self.filter.patterns@.push(r.filter.patterns@.last()),
            r.filter.patterns@.last()@ == path@,
    {
        let mut l = self;
        l.filter.add_pattern(path);
        l
    }

    /// Tries to exclude every path matching a pattern; reports whether the
    /// pattern compiled, and changes nothing when it did not.
    pub fn try_exclude_regex(self, path: &str) -> (r: (Logger, bool))
        requires
            self.wf(),
        ensures
            r.0.wf(),
            r.1 == regex_compiles(path@),
            !r.1 ==> r.0 == self,
            r.1 ==> {
                &&& r.0.format == self.format
                &&& r.0.log_target == self.log_target
                &&& r.0.filter.exact == self.filter.exact
                &&& r.0.filter.patterns@.len() == self.filter.patterns@.len() + 1
                &&& r.0.filter.patterns@ == self.filter.patterns@.push(
                    r.0.filter.patterns@.last(),
                )
                &&& r.0.filter.patterns@.last()@ == path@
            },
    {
        match crate::filter::regex_new(path) {
            Some(_) => (self.exclude_regex(path), true),
            None => (self, false),
        }
    }

    /// Whether a request with this path would bypass logging entirely.
    pub fn is_excluded(&self, path: &str) -> (r: bool)
        requires
            self.wf(),
        ensures
            r == self.filter.spec_excluded(path@),
    {
        self.filter.is_excluded(path)
    }

    /// The startup warnings this configuration owes: one per custom field
    /// token, each of which will render as `-` until a callback is bound.
    /// They are owed once, at construction, never per request.
    pub fn startup_warnings(&self) -> (r: Vec<String>)
        ensures
            r.deep_view() == spec_warnings(self.format@),
    {
        let n = self.format.0.len();
        let mut out: Vec<String> = Vec::new();
        let mut i: usize = 0;
        proof {
            assert(self.format@.skip(0) =~= self.format@);
            assert(out.deep_view() + spec_warnings(self.format@) =~= spec_warnings(
                self.format@,
            ));
        }
        while i < n
            invariant
                i <= n,
                n == self.format@.len(),
                spec_warnings(self.format@) == out.deep_view() + spec_warnings(
                    self.format@.skip(i as int),
                ),
            decreases n - i,
        {
            let ghost prev = out.deep_view();
            proof {
                assert(self.format@.skip(i as int)[0] == self.format@[i as int]);
                assert(self.format@.skip(i as int).skip(1) =~= self.format@.skip(i as int + 1));
            }
            match &self.format.0[i] {
                FormatText::CustomRequest(label) => {
                    let mut msg =
                        "No custom request replacement function was registered for label: ".to_owned();
                    msg.append(label.as_str());
                    out.push(msg);
                    proof {
                        assert(out.deep_view() =~= prev.push(
                            spec_request_warning(self.format@[i as int]->CustomRequest_0),
                        ));
                        assert((prev.push(spec_request_warning(
                            self.format@[i as int]->CustomRequest_0,
                        ))) + spec_warnings(self.format@.skip(i as int + 1)) =~= prev + (seq![
                            spec_request_warning(self.format@[i as int]->CustomRequest_0),
                        ] + spec_warnings(self.format@.skip(i as int + 1))));
                    }
                },
                FormatText::CustomResponse(label) => {
                    let mut msg =
                        "No custom response replacement function was registered for label: ".to_owned();
                    msg.append(label.as_str());
                    out.push(msg);
                    proof {
                        assert(out.deep_view() =~= prev.push(
                            spec_response_warning(self.format@[i as int]->CustomResponse_0),
                        ));
                        assert((prev.push(spec_response_warning(
                            self.format@[i as int]->CustomResponse_0,
                        ))) + spec_warnings(self.format@.skip(i as int + 1)) =~= prev + (seq![
                            spec_response_warning(self.format@[i as int]->CustomResponse_0),
                        ] + spec_warnings(self.format@.skip(i as int + 1))));
                    }
                },
                _ => {},
            }
            i += 1;
        }
        proof {
            assert(self.format@.skip(n as int).len() == 0);
            assert(out.deep_view() + spec_warnings(self.format@.skip(n as int))
                =~= out.deep_view());
        }
        out
    }

    /// Enters the interceptor: decides exclusion, and for a tracked request
    /// resolves every request-phase token, in place, against the request
    /// context and the given environment snapshot.
    pub fn begin_request(
        &self,
        req: &RequestInfo,
        now_nanos: u64,
        env: &Vec<(String, String)>,
    ) -> (r: PendingLog)
        requires
            self.wf(),
        ensures
            r@ == spec_begin(*self, *req, now_nanos, env@),
    {
        if self.filter.is_excluded(req.path.as_str()) {
            PendingLog { format: None, start_nanos: 0, log_target: String::new() }
        } else {
            PendingLog {
                format: Some(resolve_request_format(&self.format, req, now_nanos, env)),
                start_nanos: now_nanos,
                log_target: self.log_target.clone(),
            }
        }
    }

    /// Enters the interceptor against the wall clock. The clock is read only
    /// after the exclusion check, so a bypassed request costs nothing.
    pub fn begin_request_now(&self, req: &RequestInfo, env: &Vec<(String, String)>) -> (r:
        PendingLog)
        requires
            self.wf(),
        ensures
            r@ == spec_begin(*self, *req, r@.start, env@),
    {
        if self.filter.is_excluded(req.path.as_str()) {
            PendingLog { format: None, start_nanos: 0, log_target: String::new() }
        } else {
            let now = now_unix_nanos();
            self.begin_request(req, now, env)
        }
    }
}

// ---------------------------------------------------------------------------
// The per-request lifecycle
// ---------------------------------------------------------------------------

impl PendingLog {
    /// Takes the response head: resolves every response-phase token against
    /// the head alone — no body byte has flowed yet — and becomes the
    /// counting body wrapper's state.
    pub fn on_response(self, resp: &ResponseInfo) -> (r: StreamLog)
        ensures
            r@ == spec_on_response(self@, *resp),
    {
        StreamLog {
            format: match self.format {
                Some(f) => Some(resolve_response_format(&f, resp)),
                None => None,
            },
            size: 0,
            start_nanos: self.start_nanos,
            log_target: self.log_target,
            status: resp.status,
            done: false,
        }
    }
}

impl StreamLog {
    /// Counts one body chunk as the transport pulls it through unchanged.
    pub fn on_chunk(&mut self, len: usize)
        requires
            old(self)@.size + len <= u64::MAX,
        ensures
            final(self)@ == spec_on_chunk(old(self)@, len as u64),
    {
        self.size = self.size + len as u64;
    }

    /// Finalizes: exactly once per request, on every exit path — normal
    /// exhaustion of the stream or early abandonment alike. The first call on
    /// a tracked request yields the one log line; a bypassed request and any
    /// later call yield nothing.
    pub fn finish(&mut self, now: u64) -> (r: Option<LogLine>)
        ensures
            final(self)@ == spec_finish_state(old(self)@),
            (r is Some) == (spec_finish_line(old(self)@, now) is Some),
            r matches Some(l) ==> Some(l@) == spec_finish_line(old(self)@, now),
    {
        if self.done {
            return None;
        }
        self.done = true;
        match &self.format {
            None => None,
            Some(f) => {
                let elapsed = elapsed_nanos(self.start_nanos, now);
                let rendered = render_line(f, self.size, elapsed);
                let mut msg = "Access ".to_owned();
                msg.append(rendered.as_str());
                let sev = severity_for(self.status);
                Some(LogLine { severity: sev, target: self.log_target.clone(), message: msg })
            },
        }
    }
}

} // verus!
