//! The ways sending a request through httpyac fails, and their messages.

use vstd::prelude::*;
use crate::text::{decimal, decimal_string};

verus! {

/// Why sending a request failed. Errors of outside libraries are held as
/// their message text, a path as its text.
#[derive(Debug)]
pub enum Error {
    /// The httpyac binary could not be started because it was not found.
    NotFound { binary: String },
    /// httpyac ran and exited with a failure status.
    NonZero { status: i32, stderr: String },
    /// httpyac's output is not valid JSON; holds the parser's message.
    BadJson(String),
    /// Another I/O failure; holds its message.
    Io(String),
    /// The request file's path has no parent directory (or no file name).
    NoParent(String),
}

/// The decimal rendering of a signed number, with a leading `-` when it is
/// negative.
pub open spec fn signed_decimal(n: int) -> Seq<char> {
    if n < 0 {
        "-"@ + decimal((-n) as nat)
    } else {
        decimal(n as nat)
    }
}

/// The message of an error.
pub open spec fn message_of(e: Error) -> Seq<char> {
    match e {
        Error::NotFound { binary } => "httpyac binary not found at `"@ + binary@
            + "` — install httpyac or point at an explicit path"@,
        Error::NonZero { status, stderr } => "httpyac exited with status "@ + signed_decimal(
            status as int,
        ) + ": "@ + stderr@,
        Error::BadJson(m) => "httpyac output is not valid JSON: "@ + m@,
        Error::Io(m) => m@,
        Error::NoParent(p) => "file path has no parent directory: "@ + p@,
    }
}

impl Error {
    /// The message that describes the error.
    pub fn message(&self) -> (m: String)
        ensures
            m@ == message_of(*self),
    {
        match self {
            Error::NotFound { binary } => {
                let mut m = String::from_str("httpyac binary not found at `");
                m.append(binary.as_str());
                m.append("` — install httpyac or point at an explicit path");
                m
            },
            Error::NonZero { status, stderr } => {
                let mut m = String::from_str("httpyac exited with status ");
                if *status < 0 {
                    m.append("-");
                    let magnitude: u64 = (0i64 - (*status as i64)) as u64;
                    let digits = decimal_string(magnitude);
                    m.append(digits.as_str());
                } else {
                    let digits = decimal_string(*status as u64);
                    m.append(digits.as_str());
                }
                m.append(": ");
                m.append(stderr.as_str());
                m
            },
            Error::BadJson(e) => {
                let mut m = String::from_str("httpyac output is not valid JSON: ");
                m.append(e.as_str());
                m
            },
            Error::Io(e) => e.clone(),
            Error::NoParent(p) => {
                let mut m = String::from_str("file path has no parent directory: ");
                m.append(p.as_str());
                m
            },
        }
    }
}

/// The error for an httpyac process that could not be started: `NotFound`
/// naming the binary when the failure was that it was not found, otherwise
/// the I/O failure with its message.
pub fn spawn_error(not_found: bool, binary: &str, message: String) -> (e: Error)
    ensures
        not_found ==> (e matches Error::NotFound { binary: b } && b@ == binary@),
        !not_found ==> (e matches Error::Io(m) && m@ == message@),
{
    if not_found {
        Error::NotFound { binary: String::from_str(binary) }
    } else {
        Error::Io(message)
    }
}

/// The error for an httpyac run that exited with a failure status: its exit
/// code (-1 when it has none, as when a signal ended it) and what it wrote
/// to stderr.
pub fn exit_error(code: Option<i32>, stderr: String) -> (e: Error)
    ensures
        e matches Error::NonZero { status, stderr: out } && status == match code {
            Some(c) => c,
            None => -1i32,
        } && out@ == stderr@,
{
    let status = match code {
        Some(c) => c,
        None => -1,
    };
    Error::NonZero { status, stderr }
}

} // verus!
