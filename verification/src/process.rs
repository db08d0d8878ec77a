//! Limits on what a command may print before its output is trusted.
use vstd::prelude::*;
use crate::error::SidebarError;
use crate::text::opt_text;

verus! {

/// The most bytes a command may write to each of its output streams.
pub const OUTPUT_LIMIT: usize = 4194304;

/// Accepts a command's output when neither stream exceeds the limit.
pub fn check_output_size(program: &String, out_len: usize, err_len: usize) -> (r: Result<(), SidebarError>)
    ensures
        r is Ok <==> (out_len <= OUTPUT_LIMIT && err_len <= OUTPUT_LIMIT),
        r is Err ==> r == Err::<(), SidebarError>(SidebarError::OutputTooLarge { program: *program }),
{
    if out_len <= OUTPUT_LIMIT && err_len <= OUTPUT_LIMIT {
        Ok(())
    } else {
        Err(SidebarError::OutputTooLarge { program: program.clone() })
    }
}

/// What to do next while a command runs.
#[derive(Debug)]
pub enum Wait {
    /// Its output, its error output and its exit status are all in.
    Done,
    /// Not everything is in yet and time remains: poll again.
    Poll,
    /// Not everything is in and the time is up.
    TimedOut,
}

/// Judges a running command: done once everything is in, otherwise polled again until
/// `timeout_ms` milliseconds have passed since it started.
pub fn command_wait(all_in: bool, elapsed_ms: u64, timeout_ms: u64) -> (r: Wait)
    ensures
        all_in ==> r is Done,
        !all_in && elapsed_ms < timeout_ms ==> r is Poll,
        !all_in && elapsed_ms >= timeout_ms ==> r is TimedOut,
{
    if all_in {
        Wait::Done
    } else if elapsed_ms < timeout_ms {
        Wait::Poll
    } else {
        Wait::TimedOut
    }
}

/// The verdict on a finished command, judged in this order: its output must be within the
/// limit, it must have exited successfully, its output must be JSON, and that JSON must
/// carry no `error` field.  `parse_error` is why the output is not JSON, if it is not;
/// `error_field` is the `error` field as shown, if there is one.
pub open spec fn outcome_of(
    program: String,
    out_len: usize,
    err_len: usize,
    success: bool,
    status: String,
    stderr: String,
    stdout: String,
    parse_error: Option<String>,
    error_field: Option<String>,
) -> Result<(), SidebarError> {
    if !(out_len <= OUTPUT_LIMIT && err_len <= OUTPUT_LIMIT) {
        Err(SidebarError::OutputTooLarge { program })
    } else if !success {
        Err(SidebarError::CommandFailed { program, status, stderr, stdout })
    } else if parse_error is Some {
        Err(SidebarError::InvalidJson { program, reason: parse_error->0 })
    } else if error_field is Some {
        Err(SidebarError::ReportedError { program, error: error_field->0 })
    } else {
        Ok(())
    }
}

/// Judges a finished command, as [`outcome_of`] says.
pub fn command_outcome(
    program: &String,
    out_len: usize,
    err_len: usize,
    success: bool,
    status: &String,
    stderr: &String,
    stdout: &String,
    parse_error: Option<String>,
    error_field: Option<String>,
) -> (r: Result<(), SidebarError>)
    ensures
        r == outcome_of(*program, out_len, err_len, success, *status, *stderr, *stdout, parse_error, error_field),
{
    check_output_size(program, out_len, err_len)?;
    if !success {
        return Err(SidebarError::CommandFailed {
            program: program.clone(),
            status: status.clone(),
            stderr: stderr.clone(),
            stdout: stdout.clone(),
        });
    }
    if let Some(reason) = parse_error {
        return Err(SidebarError::InvalidJson { program: program.clone(), reason });
    }
    if let Some(error) = error_field {
        return Err(SidebarError::ReportedError { program: program.clone(), error });
    }
    Ok(())
}

/// What serde_json makes of a command's output `out`: why it is not JSON, if it is not, and
/// otherwise the `error` field of the JSON value as serde_json shows it, if there is one.
pub uninterp spec fn json_verdict_of(out: Seq<u8>) -> (Option<Seq<char>>, Option<Seq<char>>);

/// Reads `out` with `serde_json::from_slice` as a `serde_json::Value`.  When that fails, the
/// first part is the error's text; otherwise it is `None`, and the second part is the text
/// (`Display`) of the value's `error` field as `Value::get` finds it.  The contract claims
/// only that the result is a function of the bytes, named [`json_verdict_of`], and that
/// output that is not JSON has no `error` field; what serde_json accepts as JSON and how it
/// words its errors are not stated.
#[verifier::external_body]
fn json_verdict(out: &Vec<u8>) -> (r: (Option<String>, Option<String>))
    ensures
        (opt_text(r.0), opt_text(r.1)) == json_verdict_of(out@),
        r.0 is Some ==> r.1 is None,
{
    match serde_json::from_slice::<serde_json::Value>(out.as_slice()) {
        Err(error) => (Some(error.to_string()), None),
        Ok(value) => match value.get("error") {
            Some(field) => (None, Some(field.to_string())),
            None => (None, None),
        },
    }
}

/// Whether `r` is the verdict on a finished command whose output `out` serde_json judged as
/// `verdict`: within the limit, exited successfully, JSON, and without an `error` field.
pub open spec fn judged(
    r: Result<(), SidebarError>,
    program: String,
    out_len: int,
    err_len: usize,
    success: bool,
    status: String,
    stderr: String,
    stdout: String,
    verdict: (Option<Seq<char>>, Option<Seq<char>>),
) -> bool {
    if !(out_len <= OUTPUT_LIMIT && err_len <= OUTPUT_LIMIT) {
        r == Err::<(), SidebarError>(SidebarError::OutputTooLarge { program })
    } else if !success {
        r == Err::<(), SidebarError>(SidebarError::CommandFailed { program, status, stderr, stdout })
    } else if verdict.0 is Some {
        r matches Err(SidebarError::InvalidJson { program: p, reason }) && p == program && reason@
            == verdict.0->0
    } else if verdict.1 is Some {
        r matches Err(SidebarError::ReportedError { program: p, error }) && p == program && error@
            == verdict.1->0
    } else {
        r is Ok
    }
}

/// Judges a finished command from its output bytes `out`: the output is read as JSON, and
/// the command is judged as [`command_outcome`] says.
pub fn command_verdict(
    program: &String,
    out: &Vec<u8>,
    err_len: usize,
    success: bool,
    status: &String,
    stderr: &String,
    stdout: &String,
) -> (r: Result<(), SidebarError>)
    ensures
        judged(r, *program, out@.len() as int, err_len, success, *status, *stderr, *stdout, json_verdict_of(out@)),
{
    let (parse_error, error_field) = json_verdict(out);
    command_outcome(program, out.len(), err_len, success, status, stderr, stdout, parse_error, error_field)
}

} // verus!
