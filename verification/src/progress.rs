//! The text of transfer progress reports.
//!
//! Sizes are formatted by the `humansize` crate with decimal (SI) units; the
//! messages around them are built here.
use vstd::prelude::*;

use crate::text::{decimal, decimal_string, push_str};

verus! {

broadcast use vstd::string::group_string_axioms;

/// The text that `humansize::format_size` gives `bytes` with the `DECIMAL`
/// options.
pub uninterp spec fn decimal_size(bytes: u64) -> Seq<char>;

/// Formats `bytes` with `humansize::format_size` and `humansize::DECIMAL`.
///
/// The contract names the text `decimal_size(bytes)`; how `humansize`
/// scales and rounds is not stated.
#[verifier::external_body]
fn humansize_decimal(bytes: u64) -> (r: String)
    ensures
        r@ == decimal_size(bytes),
{
    humansize::format_size(bytes, humansize::DECIMAL)
}

/// Formats the transfer amount as a string like "10 MB".
pub fn format_size(bytes: u64) -> (r: String)
    ensures
        r@ == decimal_size(bytes),
{
    humansize_decimal(bytes)
}

/// The text of a transfer rate: the size transferred per second followed by
/// `/s`, or `0 MB/s` when there is no rate (nothing transferred or no time
/// elapsed).
pub open spec fn transfer_rate_text(bytes_per_second: Option<u64>) -> Seq<char> {
    match bytes_per_second {
        Some(r) => decimal_size(r) + "/s"@,
        None => "0 MB"@ + "/s"@,
    }
}

/// Formats the transfer rate as a string like "10 MB/s".
///
/// `bytes_per_second` is `None` when the elapsed time or the transferred
/// bytes are zero; the text is then "0 MB/s".
pub fn format_transfer_rate(bytes_per_second: Option<u64>) -> (r: String)
    ensures
        r@ == transfer_rate_text(bytes_per_second),
{
    let mut r = match bytes_per_second {
        Some(rate) => format_size(rate),
        None => "0 MB".to_owned(),
    };
    push_str(&mut r, "/s");
    r
}

/// The progress message of a transfer:
/// `<operation> (<files> files, <size> at <rate>)`.
pub open spec fn transfer_message_text(
    operation: Seq<char>,
    files: u64,
    bytes: u64,
    bytes_per_second: Option<u64>,
) -> Seq<char> {
    operation + " ("@ + decimal(files as nat) + " files, "@ + decimal_size(bytes) + " at "@
        + transfer_rate_text(bytes_per_second) + ")"@
}

/// The progress message of a transfer that moved `files` files and `bytes`
/// bytes at `bytes_per_second`.
pub fn transfer_message(
    operation: &str,
    files: u64,
    bytes: u64,
    bytes_per_second: Option<u64>,
) -> (r: String)
    ensures
        r@ == transfer_message_text(operation@, files, bytes, bytes_per_second),
{
    let mut r = operation.to_owned();
    push_str(&mut r, " (");
    let f = decimal_string(files);
    push_str(&mut r, f.as_str());
    push_str(&mut r, " files, ");
    let s = format_size(bytes);
    push_str(&mut r, s.as_str());
    push_str(&mut r, " at ");
    let t = format_transfer_rate(bytes_per_second);
    push_str(&mut r, t.as_str());
    push_str(&mut r, ")");
    r
}

/// What the periodic progress logger does after each wait.
#[derive(Copy, Clone, PartialEq, Eq, Debug)]
pub enum LoggerStep {
    /// Stop logging.
    Stop,
    /// Log the current progress and wait again.
    Log,
}

/// The step of the progress logger after a wait: it stops when it was
/// signalled to stop or the progress is finished, and logs otherwise.
pub fn logger_step(signalled: bool, finished: bool) -> (r: LoggerStep)
    ensures
        r == (if signalled || finished {
            LoggerStep::Stop
        } else {
            LoggerStep::Log
        }),
{
    if signalled {
        LoggerStep::Stop
    } else if finished {
        LoggerStep::Stop
    } else {
        LoggerStep::Log
    }
}

} // verus!
