use vstd::prelude::*;

verus! {

/// The RFC 3339 rendering of a moment given as nanoseconds since the Unix
/// epoch. One moment has one rendering, on every machine.
pub uninterp spec fn rfc3339_of(nanos: u64) -> Seq<char>;

/// Relies on time::OffsetDateTime: `from_unix_timestamp_nanos` followed by
/// `format` with the well-known RFC 3339 description renders the moment, and
/// the result depends on the timestamp alone. Every u64 count of nanoseconds
/// lies within the representable years (1970 up to 2554), so neither step
/// fails; the empty fallbacks are never taken.
#[verifier::external_body]
pub fn rfc3339_of_unix_nanos(nanos: u64) -> (r: String)
    ensures
        r@ == rfc3339_of(nanos),
{
    match time::OffsetDateTime::from_unix_timestamp_nanos(nanos as i128) {
        Ok(t) => match t.format(&time::format_description::well_known::Rfc3339) {
            Ok(s) => s,
            Err(_) => String::new(),
        },
        Err(_) => String::new(),
    }
}

/// Relies on time::OffsetDateTime::now_utc: the wall clock, as nanoseconds
/// since the Unix epoch. A reading before the epoch or past what u64 holds
/// comes back as 0. Nothing can be promised of a clock value.
#[verifier::external_body]
pub fn now_unix_nanos() -> (r: u64) {
    time::OffsetDateTime::now_utc().unix_timestamp_nanos().try_into().unwrap_or(0)
}

/// Nanoseconds elapsed from `start` to `now`, never negative: a clock that
/// stepped backwards reads as no time passed.
pub open spec fn spec_elapsed(start: u64, now: u64) -> u64 {
    if now >= start {
        (now - start) as u64
    } else {
        0
    }
}

/// Computes the elapsed nanoseconds between two clock readings.
pub fn elapsed_nanos(start: u64, now: u64) -> (r: u64)
    ensures
        r == spec_elapsed(start, now),
{
    if now >= start {
        now - start
    } else {
        0
    }
}

} // verus!
