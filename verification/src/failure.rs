//! The uniform failure shape and the task outcome delivered to the host.
//!
//! Every way a task can go wrong — a domain error from the client library,
//! a malformed address, an unknown handle, or an abrupt internal fault —
//! is converted to one structured `Failure` before delivery, so nothing
//! ever escapes the task boundary.

use vstd::prelude::*;

use crate::text::append_str;

verus! {

/// One structured failure, as the host sees it.
#[derive(Debug)]
pub enum Failure {
    /// The external client library reported an error; its text verbatim.
    Domain(Vec<char>),
    /// A malformed address encoding, with a description of the fault.
    Address(Vec<char>),
    /// No resource is registered under this handle.
    UnknownHandle(Vec<char>),
    /// An abrupt fault caught at the isolation boundary: a best-effort
    /// description followed by a frame trace.
    Internal(Vec<char>),
}

/// The exactly-once delivered result of one task.
#[derive(Debug)]
pub enum TaskOutcome {
    /// A success payload in the canonical text encoding.
    Success(Vec<char>),
    /// A success payload of raw bytes, delivered as-is without encoding.
    RawSuccess(Vec<u8>),
    /// A structured failure.
    Failed(Failure),
}

/// The text of an internal-fault report: the description when the fault
/// carried one, then a blank line, then the frame trace.
pub open spec fn internal_text(msg: Option<Seq<char>>, trace: Seq<char>) -> Seq<char> {
    match msg {
        Some(m) => "Internal error: "@ + m + "\n\n"@ + trace,
        None => "Internal error"@ + "\n\n"@ + trace,
    }
}

/// The view of an optional character vector.
pub open spec fn opt_chars_view(msg: Option<Vec<char>>) -> Option<Seq<char>> {
    match msg {
        Some(m) => Some(m@),
        None => None,
    }
}

/// Builds the internal-fault report for a fault description and a frame
/// trace that were already captured.
pub fn format_internal(msg: &Option<Vec<char>>, trace: &Vec<char>) -> (r: Vec<char>)
    ensures
        r@ == internal_text(opt_chars_view(*msg), trace@),
{
    let mut out: Vec<char> = Vec::new();
    match msg {
        Some(m) => {
            append_str(&mut out, "Internal error: ");
            append_char_vec(&mut out, m);
        },
        None => {
            append_str(&mut out, "Internal error");
        },
    }
    append_str(&mut out, "\n\n");
    append_char_vec(&mut out, trace);
    out
}

/// Appends every character of `s` to `out`.
pub fn append_char_vec(out: &mut Vec<char>, s: &Vec<char>)
    ensures
        final(out)@ == old(out)@ + s@,
{
    let n = s.len();
    let mut i: usize = 0;
    while i < n
        invariant
            n == s@.len(),
            i <= n,
            out@ == old(out)@ + s@.subrange(0, i as int),
        decreases n - i,
    {
        out.push(s[i]);
        assert(s@.subrange(0, i as int + 1) =~= s@.subrange(0, i as int).push(s@[i as int]));
        i = i + 1;
    }
    assert(s@.subrange(0, n as int) =~= s@);
}

/// Relies on `backtrace::Backtrace::new` and its debug rendering for a
/// best-effort trace of the current call stack.  What the trace holds
/// depends on the machine and the moment, so nothing is promised of it.
#[verifier::external_body]
pub fn capture_trace() -> Vec<char> {
    format!("{:?}", backtrace::Backtrace::new()).chars().collect()
}

/// Converts an intercepted abrupt fault into the structured internal
/// failure: the fault's description, when it carried one, joined with a
/// freshly captured frame trace.
pub fn internal_failure(msg: Option<Vec<char>>) -> (r: Failure)
    ensures
        r matches Failure::Internal(t) && (exists|trace: Seq<char>|
            t@ == internal_text(opt_chars_view(msg), trace)),
{
    let trace = capture_trace();
    let text = format_internal(&msg, &trace);
    proof {
        assert(text@ == internal_text(opt_chars_view(msg), trace@));
    }
    Failure::Internal(text)
}

} // verus!
