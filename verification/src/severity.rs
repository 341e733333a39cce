use vstd::prelude::*;

verus! {

/// The level at which a finished access-log line is handed to the sink.
///
/// Server-side failures (status 500 and above) are escalated so that they
/// stand out in the log; everything else is ordinary traffic.
#[derive(Clone, Copy, Debug, PartialEq, Eq, Structural)]
pub enum Severity {
    Info,
    Error,
}

/// The severity a log line gets from the response's status code.
pub open spec fn spec_severity_for(status: u16) -> Severity {
    if status >= 500 {
        Severity::Error
    } else {
        Severity::Info
    }
}

/// Chooses the severity for a rendered line: error level at status 500 and
/// above, informational level below.
pub fn severity_for(status: u16) -> (r: Severity)
    ensures
        r == spec_severity_for(status),
        (r == Severity::Error) <==> status >= 500,
{
    if status >= 500 {
        Severity::Error
    } else {
        Severity::Info
    }
}

} // verus!
