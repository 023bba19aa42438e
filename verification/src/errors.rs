//! The failure kinds of the user-agent. None of these is recovered from
//! internally: each one aborts the whole load operation.

use vstd::prelude::*;

verus! {

/// Everything that can go wrong while resolving, fetching or decoding a
/// locator. Each variant names one failure; the contracts of the library
/// functions say exactly which inputs produce which variant.
#[derive(Clone, Copy, Debug, PartialEq, Eq, Structural)]
pub enum FetchError {
    /// The locator's scheme is none of `http`, `https`, `file` or `data`.
    UnsupportedScheme,
    /// The locator text does not fit the expected shape: no scheme
    /// separator, an inline locator without a comma, or an authority whose
    /// port is not a decimal number up to 65535.
    MalformedLocator,
    /// An operation that only network locators support was asked of a file
    /// or inline locator.
    UnsupportedOperation,
    /// The socket could not be opened or the TLS handshake failed.
    ConnectError,
    /// The response declares a transfer or content encoding; chunked and
    /// compressed bodies are not supported.
    UnsupportedEncoding,
    /// The response has no `content-length` header.
    MissingContentLength,
    /// A redirect response has no `location` header.
    MissingLocation,
    /// The status line or a header line of the response is not well formed,
    /// or `content-length` is not a decimal number that fits the machine.
    MalformedResponse,
    /// The response body or a file is not valid UTF-8.
    InvalidEncoding,
    /// Following a redirect led back to a locator already on the chain.
    RedirectCycle,
    /// The redirect chain grew past the allowed length.
    TooManyRedirects,
    /// A file could not be read.
    Io,
}

} // verus!
