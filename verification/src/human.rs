use human_repr::HumanCount;
use vstd::prelude::*;

verus! {

/// What human_repr's byte-count rendering produces for a count: a number with
/// an automatic SI prefix and the unit `B` (4 renders as `4B`, 123000 as
/// `123kB`). One count has one rendering, on every machine.
pub uninterp spec fn human_bytes_of(n: u64) -> Seq<char>;

/// Relies on human_repr::HumanCount::human_count_bytes: renders a byte count
/// human-readably; the result depends on the count alone.
#[verifier::external_body]
pub fn human_byte_count(n: u64) -> (r: String)
    ensures
        r@ == human_bytes_of(n),
{
    format!("{}", n.human_count_bytes())
}

/// What myhumantime's duration formatter produces for a count of nanoseconds:
/// space-separated unit parts, largest first (90s renders as `1m 30s`, zero as
/// `0s`). One count has one rendering, on every machine.
pub uninterp spec fn human_duration_of(nanos: u64) -> Seq<char>;

/// Relies on myhumantime::format_duration: renders a duration human-readably;
/// the result depends on the duration alone.
#[verifier::external_body]
pub fn human_duration(nanos: u64) -> (r: String)
    ensures
        r@ == human_duration_of(nanos),
{
    format!("{}", myhumantime::format_duration(std::time::Duration::from_nanos(nanos)))
}

} // verus!
