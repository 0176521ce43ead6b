//! The slice of httpyac's `--json --output exchange` payload that the
//! library reads: the requests that were executed and their responses.
//!
//! Two fields are held in the form in which they are shown: a header's value
//! is its text (a JSON string as it is, any other JSON value as its JSON
//! text), and a request's total time is its number of milliseconds rounded
//! to a whole number.

use vstd::prelude::*;

verus! {

/// The outcome of one `httpyac send` run.
#[derive(Debug, Clone)]
pub struct Exchange {
    pub requests: Vec<RequestResult>,
    pub summary: Summary,
}

/// The request counters of a run.
#[derive(Debug, Clone)]
pub struct Summary {
    pub total_requests: u32,
    pub failed_requests: u32,
    pub errored_requests: u32,
}

/// One executed request.
#[derive(Debug, Clone)]
pub struct RequestResult {
    pub name: Option<String>,
    pub title: Option<String>,
    /// 0-indexed line number reported by httpyac.
    pub line: Option<u32>,
    pub response: Option<Response>,
}

/// One response header: its name and the text of its value.
#[derive(Debug, Clone)]
pub struct Header {
    pub name: String,
    pub value: String,
}

/// A received response.
#[derive(Debug, Clone)]
pub struct Response {
    pub status_code: u16,
    pub status_message: Option<String>,
    pub protocol: Option<String>,
    /// The headers, each name at most once (see `header_names_distinct`).
    pub headers: Vec<Header>,
    pub body: String,
    pub timings: Option<Timings>,
    pub meta: Option<Meta>,
}

/// The timings of a response.
#[derive(Debug, Clone)]
pub struct Timings {
    /// Total time in milliseconds, rounded to a whole number and written in
    /// decimal.
    pub total: Option<String>,
}

/// No two headers share a name (as in the JSON object they are read from).
pub open spec fn header_names_distinct(hs: Seq<Header>) -> bool {
    forall|i: int, j: int|
        0 <= i < j < hs.len() ==> (#[trigger] hs[i]).name@ != (#[trigger] hs[j]).name@
}

/// Metadata of a response.
#[derive(Debug, Clone)]
pub struct Meta {
    /// The response size as httpyac describes it (such as `"1.2 KiB"`).
    pub size: Option<String>,
}

} // verus!
