use vstd::prelude::*;

verus! {

/// Reasons a request head fails to parse. Any of these aborts request
/// construction; a malformed request is never dispatched through routes.
#[derive(Debug, Clone, Copy, PartialEq, Eq, Structural)]
pub enum ParseError {
    /// The request line did not split into at least method, path and version.
    MalformedRequestLine,
    /// The version token of the request line was not exactly `HTTP/1.1`.
    UnsupportedVersion,
    /// A header line before the blank line contained no `:` separator.
    MalformedHeader,
}

/// Errors raised by response operations and route handlers, and carried into
/// the error-handling phase of dispatch.
#[derive(Debug, Clone, PartialEq)]
pub enum HttpError {
    /// A one-shot guard of the response state machine was violated: headers
    /// were mutated after the header flush, or a second body was sent.
    AlreadySent,
    /// An input/output failure reported by the surrounding runtime.
    Io(String),
    /// An opaque application-level error raised by a route handler.
    App(String),
}

} // verus!
