//! The protocol engine: request serialization, status-line and header
//! parsing, header interpretation, and body decoding. All functions work on
//! plain lines and bytes; the socket reads and writes themselves happen
//! outside the library.

use vstd::prelude::*;
use vstd::utf8::{decode_utf8, valid_utf8};

use crate::errors::FetchError;
use crate::text::{
    all_digits, dec_val, find_char, find_char_from, is_ws, lower, lower_str, parse_dec_u64, str_eq,
    trim, trim_str,
};
use crate::url::{spec_display_host, Url, UrlView};

verus! {

/// What one request/response exchange produced: a final body to render, or
/// a location to follow. A value of this type is consumed immediately by the
/// redirect driver.
pub enum Response {
    Body(String),
    Redirect(String),
}

/// The mathematical shape of a response outcome.
pub enum ResponseView {
    Body(Seq<char>),
    Redirect(Seq<char>),
}

impl View for Response {
    type V = ResponseView;

    open spec fn view(&self) -> ResponseView {
        match self {
            Response::Body(b) => ResponseView::Body(b@),
            Response::Redirect(l) => ResponseView::Redirect(l@),
        }
    }
}

/// The status codes that demand a `location` header and another hop.
pub open spec fn spec_is_redirect(status: u16) -> bool {
    status == 301 || status == 302 || status == 303 || status == 307 || status == 308
}

impl Response {
    /// True exactly for the redirect status codes.
    pub fn is_redirect(status: u16) -> (r: bool)
        ensures
            r == spec_is_redirect(status),
    {
        matches!(status, 301 | 302 | 303 | 307 | 308)
    }
}

/// The serialized request for a network locator: request line, `Host`,
/// `Connection` and `User-Agent` headers, and the blank-line terminator.
/// No request body is ever sent.
pub open spec fn spec_request_text(u: UrlView) -> Seq<char> {
    match u {
        UrlView::Network { path, .. } => "GET "@ + path + " HTTP/1.1\r\nHost: "@
            + spec_display_host(u)
            + "\r\nConnection: keep-alive\r\nUser-Agent: vanadium/0.1.0\r\n\r\n"@,
        _ => Seq::empty(),
    }
}

/// Serialize the request for a network locator.
pub fn request_text(url: &Url) -> (r: String)
    requires
        url@ is Network,
    ensures
        r@ == spec_request_text(url@),
{
    let mut out = String::from_str("GET ");
    match url {
        Url::Network { path, .. } => out.append(path.as_str()),
        _ => {},
    }
    out.append(" HTTP/1.1\r\nHost: ");
    let host = url.display_host();
    out.append(host.as_str());
    out.append("\r\nConnection: keep-alive\r\nUser-Agent: vanadium/0.1.0\r\n\r\n");
    out
}

/// What parsing a status line yields: the numeric status between the first
/// two spaces. The version before the first space and the explanation after
/// the second are discarded, but both separators must be present.
pub open spec fn spec_parse_status(line: Seq<char>) -> Result<u16, FetchError> {
    match find_char(line, ' ') {
        None => Err(FetchError::MalformedResponse),
        Some(i) => {
            let rest = line.skip(i + 1);
            match find_char(rest, ' ') {
                None => Err(FetchError::MalformedResponse),
                Some(j) => {
                    let digits = rest.take(j);
                    if digits.len() > 0 && all_digits(digits) && dec_val(digits) <= u16::MAX {
                        Ok(dec_val(digits) as u16)
                    } else {
                        Err(FetchError::MalformedResponse)
                    }
                },
            }
        },
    }
}

/// Parse the status code out of a response status line.
pub fn parse_status_line(line: &str) -> (r: Result<u16, FetchError>)
    ensures
        r == spec_parse_status(line@),
{
    let n = line.unicode_len();
    proof {
        assert(line@.skip(0) =~= line@);
    }
    match find_char_from(line, 0, ' ') {
        None => Err(FetchError::MalformedResponse),
        Some(i) => {
            let rest = line.substring_char(i + 1, n);
            let rn = rest.unicode_len();
            proof {
                assert(rest@.skip(0) =~= rest@);
            }
            match find_char_from(rest, 0, ' ') {
                None => Err(FetchError::MalformedResponse),
                Some(j) => {
                    let digits = rest.substring_char(0, j);
                    match parse_dec_u64(digits) {
                        Some(v) if v <= u16::MAX as u64 => Ok(v as u16),
                        _ => Err(FetchError::MalformedResponse),
                    }
                },
            }
        },
    }
}

/// What parsing a header line yields: the name before the first colon,
/// lower-cased, and the value after it, trimmed.
pub open spec fn spec_parse_header(line: Seq<char>) -> Result<(Seq<char>, Seq<char>), FetchError> {
    match find_char(line, ':') {
        None => Err(FetchError::MalformedResponse),
        Some(i) => Ok((lower(line.take(i)), trim(line.skip(i + 1)))),
    }
}

/// The view of a parsed header line.
pub open spec fn header_result_view(r: Result<(String, String), FetchError>) -> Result<
    (Seq<char>, Seq<char>),
    FetchError,
> {
    match r {
        Ok(p) => Ok((p.0@, p.1@)),
        Err(e) => Err(e),
    }
}

/// Parse one header line into its lower-cased name and trimmed value.
pub fn parse_header_line(line: &str) -> (r: Result<(String, String), FetchError>)
    ensures
        header_result_view(r) == spec_parse_header(line@),
{
    let n = line.unicode_len();
    proof {
        assert(line@.skip(0) =~= line@);
    }
    match find_char_from(line, 0, ':') {
        None => Err(FetchError::MalformedResponse),
        Some(i) => {
            let name = lower_str(line.substring_char(0, i));
            let value = trim_str(line.substring_char(i + 1, n));
            Ok((name, value))
        },
    }
}

/// A line of nothing but whitespace ends the header section.
pub open spec fn spec_is_blank(s: Seq<char>) -> bool {
    forall|i: int| 0 <= i < s.len() ==> is_ws(#[trigger] s[i])
}

/// True when the line holds only whitespace.
pub fn is_blank_line(line: &str) -> (r: bool)
    ensures
        r == spec_is_blank(line@),
{
    let n = line.unicode_len();
    let mut i: usize = 0;
    while i < n
        invariant
            0 <= i <= n,
            n == line@.len(),
            forall|j: int| 0 <= j < i ==> is_ws(#[trigger] line@[j]),
        decreases n - i,
    {
        let c = line.get_char(i);
        if !(c == ' ' || c == '\t' || c == '\n' || c == '\r' || c == '\u{b}' || c == '\u{c}') {
            return false;
        }
        i += 1;
    }
    true
}

/// The view of a header list: each name and value as characters.
pub open spec fn headers_view(hs: Seq<(String, String)>) -> Seq<(Seq<char>, Seq<char>)> {
    hs.map_values(|p: (String, String)| (p.0@, p.1@))
}

/// The value of the last header with the given name, if any: a header
/// repeated later in the response overrides an earlier one.
pub open spec fn header_lookup(hs: Seq<(Seq<char>, Seq<char>)>, name: Seq<char>) -> Option<
    Seq<char>,
>
    decreases hs.len(),
{
    if hs.len() == 0 {
        None
    } else if hs.last().0 == name {
        Some(hs.last().1)
    } else {
        header_lookup(hs.drop_last(), name)
    }
}

/// Find the last header with the given name.
fn header_lookup_exec(headers: &Vec<(String, String)>, name: &str) -> (r: Option<String>)
    ensures
        match r {
            Some(v) => header_lookup(headers_view(headers@), name@) == Some(v@),
            None => header_lookup(headers_view(headers@), name@) is None,
        },
{
    let ghost hv = headers_view(headers@);
    let mut i = headers.len();
    proof {
        assert(hv.take(i as int) =~= hv);
    }
    while i > 0
        invariant
            0 <= i <= headers.len(),
            hv == headers_view(headers@),
            hv.len() == headers@.len(),
            header_lookup(hv, name@) == header_lookup(hv.take(i as int), name@),
        decreases i,
    {
        i -= 1;
        proof {
            assert(hv.take(i + 1).last() == hv[i as int]);
            assert(hv.take(i + 1).drop_last() =~= hv.take(i as int));
        }
        if str_eq(headers[i].0.as_str(), name) {
            return Some(headers[i].1.clone());
        }
    }
    None
}

/// Everything the header section decides: the status, how many body bytes
/// to read, and — for a redirect — where to go next.
pub struct ResponseHead {
    pub status: u16,
    pub content_length: usize,
    pub location: Option<String>,
}

/// The mathematical shape of a response head.
pub struct ResponseHeadView {
    pub status: u16,
    pub content_length: nat,
    pub location: Option<Seq<char>>,
}

impl View for ResponseHead {
    type V = ResponseHeadView;

    open spec fn view(&self) -> ResponseHeadView {
        ResponseHeadView {
            status: self.status,
            content_length: self.content_length as nat,
            location: match self.location {
                Some(l) => Some(l@),
                None => None,
            },
        }
    }
}

/// The view of a head-interpretation outcome.
pub open spec fn head_result_view(r: Result<ResponseHead, FetchError>) -> Result<
    ResponseHeadView,
    FetchError,
> {
    match r {
        Ok(h) => Ok(h@),
        Err(e) => Err(e),
    }
}

/// What interpreting the headers of a response yields. A transfer or
/// content encoding is refused whatever else is present; `content-length`
/// is required and must be a decimal count that fits the machine; a
/// redirect status additionally requires `location`.
pub open spec fn spec_interpret(status: u16, hs: Seq<(Seq<char>, Seq<char>)>) -> Result<
    ResponseHeadView,
    FetchError,
> {
    if header_lookup(hs, "transfer-encoding"@) is Some || header_lookup(hs, "content-encoding"@)
        is Some {
        Err(FetchError::UnsupportedEncoding)
    } else {
        match header_lookup(hs, "content-length"@) {
            None => Err(FetchError::MissingContentLength),
            Some(cl) => {
                if cl.len() > 0 && all_digits(cl) && dec_val(cl) <= usize::MAX {
                    if spec_is_redirect(status) {
                        match header_lookup(hs, "location"@) {
                            None => Err(FetchError::MissingLocation),
                            Some(loc) => Ok(
                                ResponseHeadView {
                                    status,
                                    content_length: dec_val(cl),
                                    location: Some(loc),
                                },
                            ),
                        }
                    } else {
                        Ok(
                            ResponseHeadView {
                                status,
                                content_length: dec_val(cl),
                                location: None,
                            },
                        )
                    }
                } else {
                    Err(FetchError::MalformedResponse)
                }
            },
        }
    }
}

/// Interpret the parsed headers of a response.
pub fn interpret_headers(status: u16, headers: &Vec<(String, String)>) -> (r: Result<
    ResponseHead,
    FetchError,
>)
    ensures
        head_result_view(r) == spec_interpret(status, headers_view(headers@)),
{
    if header_lookup_exec(headers, "transfer-encoding").is_some() {
        return Err(FetchError::UnsupportedEncoding);
    }
    if header_lookup_exec(headers, "content-encoding").is_some() {
        return Err(FetchError::UnsupportedEncoding);
    }
    match header_lookup_exec(headers, "content-length") {
        None => Err(FetchError::MissingContentLength),
        Some(cl) => {
            match parse_dec_u64(cl.as_str()) {
                Some(v) if v <= usize::MAX as u64 => {
                    let content_length = v as usize;
                    if Response::is_redirect(status) {
                        match header_lookup_exec(headers, "location") {
                            None => Err(FetchError::MissingLocation),
                            Some(loc) => Ok(
                                ResponseHead { status, content_length, location: Some(loc) },
                            ),
                        }
                    } else {
                        Ok(ResponseHead { status, content_length, location: None })
                    }
                },
                _ => Err(FetchError::MalformedResponse),
            }
        },
    }
}

/// A response that declares a transfer encoding is refused with
/// `UnsupportedEncoding`, whatever its status and other headers say.
pub proof fn lemma_chunked_refused(status: u16, hs: Seq<(Seq<char>, Seq<char>)>)
    requires
        header_lookup(hs, "transfer-encoding"@) is Some,
    ensures
        spec_interpret(status, hs) == Err::<ResponseHeadView, FetchError>(
            FetchError::UnsupportedEncoding,
        ),
{
}

/// A redirect-status response whose headers pass interpretation always
/// carries a location and finishes as a `Redirect`, never as a body,
/// whatever bytes its own body held.
pub proof fn lemma_redirect_never_body(
    status: u16,
    hs: Seq<(Seq<char>, Seq<char>)>,
    bytes: Seq<u8>,
)
    requires
        spec_is_redirect(status),
        spec_interpret(status, hs) is Ok,
    ensures
        spec_interpret(status, hs)->Ok_0.location is Some,
        spec_finish(spec_interpret(status, hs)->Ok_0.location, bytes) is Ok,
        spec_finish(spec_interpret(status, hs)->Ok_0.location, bytes)->Ok_0 is Redirect,
{
}

/// Relies on `String::from_utf8`: succeeds exactly on valid UTF-8 input and
/// decodes the bytes to the characters they encode.
#[verifier::external_body]
fn utf8_to_string(bytes: Vec<u8>) -> (r: Option<String>)
    ensures
        match r {
            Some(s) => valid_utf8(bytes@) && s@ == decode_utf8(bytes@),
            None => !valid_utf8(bytes@),
        },
{
    match String::from_utf8(bytes) {
        Ok(s) => Some(s),
        Err(_) => None,
    }
}

/// The view of a body-decoding outcome.
pub open spec fn string_result_view(r: Result<String, FetchError>) -> Result<
    Seq<char>,
    FetchError,
> {
    match r {
        Ok(s) => Ok(s@),
        Err(e) => Err(e),
    }
}

/// What decoding a byte body yields: its text when the bytes are valid
/// UTF-8, and `InvalidEncoding` otherwise.
pub open spec fn spec_decode_body(bytes: Seq<u8>) -> Result<Seq<char>, FetchError> {
    if valid_utf8(bytes) {
        Ok(decode_utf8(bytes))
    } else {
        Err(FetchError::InvalidEncoding)
    }
}

/// Decode a body (or a file's contents) as UTF-8 text.
pub fn decode_body(bytes: Vec<u8>) -> (r: Result<String, FetchError>)
    ensures
        string_result_view(r) == spec_decode_body(bytes@),
{
    match utf8_to_string(bytes) {
        Some(s) => Ok(s),
        None => Err(FetchError::InvalidEncoding),
    }
}

/// The view of a finished response.
pub open spec fn response_result_view(r: Result<Response, FetchError>) -> Result<
    ResponseView,
    FetchError,
> {
    match r {
        Ok(x) => Ok(x@),
        Err(e) => Err(e),
    }
}

/// What a response amounts to once its body bytes are in hand: a redirect
/// hands over its location; anything else decodes the body as UTF-8.
pub open spec fn spec_finish(location: Option<Seq<char>>, bytes: Seq<u8>) -> Result<
    ResponseView,
    FetchError,
> {
    match location {
        Some(loc) => Ok(ResponseView::Redirect(loc)),
        None => match spec_decode_body(bytes) {
            Ok(text) => Ok(ResponseView::Body(text)),
            Err(e) => Err(e),
        },
    }
}

/// Turn an interpreted head and the body bytes read for it into the final
/// response. A redirect's body is read but discarded.
pub fn finish_response(head: ResponseHead, bytes: Vec<u8>) -> (r: Result<Response, FetchError>)
    ensures
        response_result_view(r) == spec_finish(head@.location, bytes@),
{
    match head.location {
        Some(loc) => Ok(Response::Redirect(loc)),
        None => match decode_body(bytes) {
            Ok(text) => Ok(Response::Body(text)),
            Err(e) => Err(e),
        },
    }
}

/// The body of an inline locator, handed back verbatim.
pub fn inline_response(url: &Url) -> (r: Response)
    requires
        url@ is Inline,
    ensures
        r@ == ResponseView::Body(url@->Inline_content),
{
    match url {
        Url::Inline { content, .. } => Response::Body(content.clone()),
        _ => Response::Body(String::new()),
    }
}

} // verus!
