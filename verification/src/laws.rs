use vstd::prelude::*;

use crate::clock::spec_elapsed;
use crate::format::Token;
use crate::interceptor::spec_begin;
use crate::interceptor::spec_finish_line;
use crate::interceptor::spec_finish_state;
use crate::interceptor::spec_on_chunk;
use crate::interceptor::spec_on_response;
use crate::interceptor::spec_warnings;
use crate::interceptor::LineV;
use crate::interceptor::Logger;
use crate::interceptor::StreamV;
use crate::resolve::spec_render_line;
use crate::resolve::spec_resolve_request;
use crate::resolve::spec_resolve_request_all;
use crate::resolve::spec_resolve_response;
use crate::resolve::spec_resolve_response_all;
use crate::resolve::RequestInfo;
use crate::resolve::ResponseInfo;
use crate::severity::spec_severity_for;

verus! {

/// The lengths of the pulled body chunks, summed.
pub open spec fn spec_sum(lens: Seq<u64>) -> int
    decreases lens.len(),
{
    if lens.len() == 0 {
        0
    } else {
        lens[0] + spec_sum(lens.skip(1))
    }
}

pub proof fn lemma_sum_nonneg(lens: Seq<u64>)
    ensures
        spec_sum(lens) >= 0,
    decreases lens.len(),
{
    if lens.len() > 0 {
        lemma_sum_nonneg(lens.skip(1));
    }
}

/// The stream state after a sequence of pulled chunks.
pub open spec fn spec_fold_chunks(s: StreamV, lens: Seq<u64>) -> StreamV
    decreases lens.len(),
{
    if lens.len() == 0 {
        s
    } else {
        spec_fold_chunks(spec_on_chunk(s, lens[0]), lens.skip(1))
    }
}

/// Counting chunks moves nothing but the counter.
pub proof fn lemma_fold_chunks_fields(s: StreamV, lens: Seq<u64>)
    ensures
        spec_fold_chunks(s, lens).tokens == s.tokens,
        spec_fold_chunks(s, lens).start == s.start,
        spec_fold_chunks(s, lens).target == s.target,
        spec_fold_chunks(s, lens).status == s.status,
        spec_fold_chunks(s, lens).done == s.done,
    decreases lens.len(),
{
    if lens.len() > 0 {
        lemma_fold_chunks_fields(spec_on_chunk(s, lens[0]), lens.skip(1));
    }
}

/// The byte counter reports the exact sum of the pulled chunk lengths, for a
/// fully consumed body and a zero-length body alike.
pub proof fn lemma_size_is_chunk_sum(s: StreamV, lens: Seq<u64>)
    requires
        s.size + spec_sum(lens) <= u64::MAX,
    ensures
        spec_fold_chunks(s, lens).size == s.size + spec_sum(lens),
    decreases lens.len(),
{
    if lens.len() > 0 {
        lemma_sum_nonneg(lens.skip(1));
        lemma_size_is_chunk_sum(spec_on_chunk(s, lens[0]), lens.skip(1));
    }
}

/// For a request whose path the exclusion filter matches, no timestamp is
/// recorded, no working copy is made, and no log line is ever emitted:
/// whatever response arrived, however many chunks passed, and whenever
/// finalization runs, it yields nothing.
pub proof fn lemma_excluded_never_logs(
    l: Logger,
    req: RequestInfo,
    now: u64,
    env: Seq<(String, String)>,
    resp: ResponseInfo,
    lens: Seq<u64>,
    fin_now: u64,
)
    requires
        l.filter.spec_excluded(req.path@),
    ensures
        spec_begin(l, req, now, env).tokens is None,
        spec_begin(l, req, now, env).start == 0,
        spec_finish_line(
            spec_fold_chunks(spec_on_response(spec_begin(l, req, now, env), resp), lens),
            fin_now,
        ) is None,
{
    lemma_fold_chunks_fields(spec_on_response(spec_begin(l, req, now, env), resp), lens);
}

/// Double finalization never occurs: once a request's state is finalized —
/// whether the stream ran dry or the wrapper was discarded early — any later
/// finalization yields nothing.
pub proof fn lemma_no_double_finalization(s: StreamV, again: u64)
    ensures
        spec_finish_line(spec_finish_state(s), again) is None,
{
}

/// For a tracked (non-excluded) request, exactly one line is emitted: however
/// the body was consumed — fully, partially, or abandoned mid-stream — the
/// first finalization yields a line and every later one yields none.
pub proof fn lemma_tracked_logs_exactly_once(
    l: Logger,
    req: RequestInfo,
    now: u64,
    env: Seq<(String, String)>,
    resp: ResponseInfo,
    lens: Seq<u64>,
    t1: u64,
    t2: u64,
)
    requires
        !l.filter.spec_excluded(req.path@),
    ensures
        ({
            let st = spec_fold_chunks(spec_on_response(spec_begin(l, req, now, env), resp), lens);
            &&& spec_finish_line(st, t1) is Some
            &&& spec_finish_line(spec_finish_state(st), t2) is None
        }),
{
    lemma_fold_chunks_fields(spec_on_response(spec_begin(l, req, now, env), resp), lens);
}

/// What the one emitted line of a tracked request holds: severity routed
/// from the status code alone, the configured sink target, and a message
/// rendered from the two-phase-resolved tokens over the exact sum of the
/// pulled chunk lengths and the elapsed time from entry to finalization.
pub proof fn lemma_emitted_line(
    l: Logger,
    req: RequestInfo,
    now: u64,
    env: Seq<(String, String)>,
    resp: ResponseInfo,
    lens: Seq<u64>,
    fin_now: u64,
)
    requires
        !l.filter.spec_excluded(req.path@),
        spec_sum(lens) <= u64::MAX,
    ensures
        ({
            let st = spec_fold_chunks(spec_on_response(spec_begin(l, req, now, env), resp), lens);
            spec_finish_line(st, fin_now) == Some(
                LineV {
                    severity: spec_severity_for(resp.status),
                    target: l.log_target@,
                    message: "Access "@ + spec_render_line(
                        spec_resolve_response_all(
                            spec_resolve_request_all(l.format@, req, now, env),
                            resp,
                        ),
                        spec_sum(lens) as u64,
                        spec_elapsed(now, fin_now),
                    ),
                },
            )
        }),
{
    let s0 = spec_on_response(spec_begin(l, req, now, env), resp);
    lemma_fold_chunks_fields(s0, lens);
    lemma_sum_nonneg(lens);
    lemma_size_is_chunk_sum(s0, lens);
}

/// Elapsed time is never negative — a clock that stepped backwards reads as
/// no time passed — and equals the wall-clock difference whenever the clock
/// moved forward.
pub proof fn lemma_elapsed_nonnegative(start: u64, now: u64)
    ensures
        spec_elapsed(start, now) >= 0,
        now >= start ==> spec_elapsed(start, now) == now - start,
{
}

/// An unbound custom field renders as the placeholder `-`: the request phase
/// resolves a custom request field to the literal `-`, and the response phase
/// resolves a custom response field to the literal `-`.
pub proof fn lemma_custom_renders_dash(
    label: Seq<char>,
    req: RequestInfo,
    now: u64,
    env: Seq<(String, String)>,
    resp: ResponseInfo,
)
    ensures
        spec_resolve_response(
            spec_resolve_request(Token::CustomRequest(label), req, now, env),
            resp,
        ) == Token::Str("-"@),
        spec_resolve_response(
            spec_resolve_request(Token::CustomResponse(label), req, now, env),
            resp,
        ) == Token::Str("-"@),
{
}

/// How many custom field tokens a format holds.
pub open spec fn spec_custom_count(ts: Seq<Token>) -> int
    decreases ts.len(),
{
    if ts.len() == 0 {
        0
    } else {
        (match ts[0] {
            Token::CustomRequest(_) => 1int,
            Token::CustomResponse(_) => 1int,
            _ => 0int,
        }) + spec_custom_count(ts.skip(1))
    }
}

/// Exactly one startup warning per unbound custom field: the warning list is
/// as long as the count of custom field tokens — owed once, at construction,
/// and untouched by however many requests later flow.
pub proof fn lemma_one_warning_per_custom(ts: Seq<Token>)
    ensures
        spec_warnings(ts).len() == spec_custom_count(ts),
    decreases ts.len(),
{
    if ts.len() > 0 {
        lemma_one_warning_per_custom(ts.skip(1));
    }
}

} // verus!
