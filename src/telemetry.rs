//! How the span that traces one request is set up.

use vstd::prelude::*;

verus! {

/// The verbosity of a span, from the most to the least severe.
#[derive(Clone, Copy, Debug, PartialEq, Eq, Structural)]
pub enum Level {
    Error,
    Warn,
    Info,
    Debug,
    Trace,
}

/// How the span of each request is made: at which level, and whether the
/// request's headers are recorded on it.
#[derive(Clone, Copy, Debug)]
pub struct RequestIdMakeSpan {
    level: Level,
    include_headers: bool,
}

impl RequestIdMakeSpan {
    pub closed spec fn level_spec(&self) -> Level {
        self.level
    }

    pub closed spec fn include_headers_spec(&self) -> bool {
        self.include_headers
    }

    /// Spans at `Level::Debug`, without headers.
    pub fn new() -> (r: RequestIdMakeSpan)
        ensures
            r.level_spec() == Level::Debug,
            !r.include_headers_spec(),
    {
        RequestIdMakeSpan { level: Level::Debug, include_headers: false }
    }

    /// The same, with spans at `level`.
    pub fn level(self, level: Level) -> (r: RequestIdMakeSpan)
        ensures
            r.level_spec() == level,
            r.include_headers_spec() == self.include_headers_spec(),
    {
        RequestIdMakeSpan { level, ..self }
    }

    /// The same, recording the headers or not.
    pub fn include_headers(self, include_headers: bool) -> (r: RequestIdMakeSpan)
        ensures
            r.level_spec() == self.level_spec(),
            r.include_headers_spec() == include_headers,
    {
        RequestIdMakeSpan { include_headers, ..self }
    }

    /// The level that spans are made at.
    pub fn span_level(&self) -> (r: Level)
        ensures
            r == self.level_spec(),
    {
        self.level
    }

    /// Whether spans record the request's headers.
    pub fn records_headers(&self) -> (r: bool)
        ensures
            r == self.include_headers_spec(),
    {
        self.include_headers
    }
}

impl Default for RequestIdMakeSpan {
    fn default() -> (r: RequestIdMakeSpan)
        ensures
            r.level_spec() == Level::Debug,
            !r.include_headers_spec(),
    {
        RequestIdMakeSpan::new()
    }
}

} // verus!
