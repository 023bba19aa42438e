//! The locator model: a fetchable target is a network authority with a path,
//! a file on disk, or inline content. Parsing and redirect resolution are
//! specified by `spec_parse` and `spec_follow` and proved exact.

use vstd::prelude::*;

use crate::errors::FetchError;
use crate::text::{
    all_digits, dec_val, find_char, find_char_from, find_str, find_str_from, has_prefix,
    has_prefix_at, parse_dec_u64, spec_digits, str_eq,
};
use crate::text::format_u64;

verus! {

/// A fetchable target. A locator is immutable once constructed: a redirect
/// produces a new value, never changes one in place. For `Network`, `path`
/// always starts with `/`, and `(host, port)` is the granularity at which
/// connections are cached.
#[derive(Debug)]
pub enum Url {
    Network { secure: bool, view_source: bool, host: String, port: u16, path: String },
    File { view_source: bool, path: String },
    Inline { view_source: bool, media_type: String, content: String },
}

/// The mathematical shape of a locator: the same variants over `Seq<char>`.
pub enum UrlView {
    Network { secure: bool, view_source: bool, host: Seq<char>, port: u16, path: Seq<char> },
    File { view_source: bool, path: Seq<char> },
    Inline { view_source: bool, media_type: Seq<char>, content: Seq<char> },
}

impl View for Url {
    type V = UrlView;

    open spec fn view(&self) -> UrlView {
        match self {
            Url::Network { secure, view_source, host, port, path } => UrlView::Network {
                secure: *secure,
                view_source: *view_source,
                host: host@,
                port: *port,
                path: path@,
            },
            Url::File { view_source, path } => UrlView::File {
                view_source: *view_source,
                path: path@,
            },
            Url::Inline { view_source, media_type, content } => UrlView::Inline {
                view_source: *view_source,
                media_type: media_type@,
                content: content@,
            },
        }
    }
}

impl UrlView {
    /// The literal/line-numbered rendering flag, whatever the variant.
    pub open spec fn view_source(self) -> bool {
        match self {
            UrlView::Network { view_source, .. } => view_source,
            UrlView::File { view_source, .. } => view_source,
            UrlView::Inline { view_source, .. } => view_source,
        }
    }

    /// A network locator's path begins with `/`; the other variants have no
    /// such constraint.
    pub open spec fn path_rooted(self) -> bool {
        match self {
            UrlView::Network { path, .. } => path.len() > 0 && path[0] == '/',
            _ => true,
        }
    }
}

/// The view of a parse or follow outcome: the locator's view on success, the
/// error unchanged on failure.
pub open spec fn url_result_view(r: Result<Url, FetchError>) -> Result<UrlView, FetchError> {
    match r {
        Ok(u) => Ok(u@),
        Err(e) => Err(e),
    }
}

/// The marker that asks for literal rendering.
pub open spec fn view_source_marker() -> Seq<char> {
    "view-source:"@
}

/// The scheme prefix of an inline locator.
pub open spec fn inline_marker() -> Seq<char> {
    "data:"@
}

/// The separator between a scheme and the rest of a locator.
pub open spec fn scheme_sep() -> Seq<char> {
    "://"@
}

/// What parsing a locator string yields: the locator, or the exact error.
/// An optional `view-source:` marker is stripped first; `data:` splits once
/// on the first comma; otherwise the text splits once on `://` and the
/// scheme must be `file`, `http` or `https`.
pub open spec fn spec_parse(s: Seq<char>) -> Result<UrlView, FetchError> {
    if has_prefix(s, view_source_marker()) {
        spec_parse_after_marker(true, s.skip(view_source_marker().len() as int))
    } else {
        spec_parse_after_marker(false, s)
    }
}

/// Parsing after the optional `view-source:` marker is stripped.
pub open spec fn spec_parse_after_marker(vs: bool, t: Seq<char>) -> Result<UrlView, FetchError> {
    if has_prefix(t, inline_marker()) {
        let rest = t.skip(inline_marker().len() as int);
        match find_char(rest, ',') {
            Some(i) => Ok(
                UrlView::Inline {
                    view_source: vs,
                    media_type: rest.take(i),
                    content: rest.skip(i + 1),
                },
            ),
            None => Err(FetchError::MalformedLocator),
        }
    } else {
        match find_str(t, scheme_sep()) {
            None => Err(FetchError::MalformedLocator),
            Some(i) => {
                let scheme = t.take(i);
                let rest = t.skip(i + scheme_sep().len() as int);
                if scheme == "file"@ {
                    Ok(UrlView::File { view_source: vs, path: rest })
                } else if scheme == "http"@ {
                    spec_parse_network(vs, false, 80, rest)
                } else if scheme == "https"@ {
                    spec_parse_network(vs, true, 443, rest)
                } else {
                    Err(FetchError::UnsupportedScheme)
                }
            },
        }
    }
}

/// Parsing the authority-and-path part of a network locator. Without a `/`
/// the path is the implicit root `/`; otherwise the path is everything from
/// the first `/` on.
pub open spec fn spec_parse_network(vs: bool, secure: bool, default_port: u16, rest: Seq<char>) -> Result<
    UrlView,
    FetchError,
> {
    match find_char(rest, '/') {
        Some(i) => spec_parse_authority(
            vs,
            secure,
            default_port,
            rest.take(i),
            seq!['/'] + rest.skip(i + 1),
        ),
        None => spec_parse_authority(vs, secure, default_port, rest, seq!['/']),
    }
}

/// Parsing an authority: an optional `:port` after the host overrides the
/// scheme's default port.
pub open spec fn spec_parse_authority(
    vs: bool,
    secure: bool,
    default_port: u16,
    authority: Seq<char>,
    path: Seq<char>,
) -> Result<UrlView, FetchError> {
    match find_char(authority, ':') {
        None => Ok(
            UrlView::Network {
                secure,
                view_source: vs,
                host: authority,
                port: default_port,
                path,
            },
        ),
        Some(j) => {
            let digits = authority.skip(j + 1);
            if digits.len() > 0 && all_digits(digits) && dec_val(digits) <= 65535 {
                Ok(
                    UrlView::Network {
                        secure,
                        view_source: vs,
                        host: authority.take(j),
                        port: dec_val(digits) as u16,
                        path,
                    },
                )
            } else {
                Err(FetchError::MalformedLocator)
            }
        },
    }
}

/// What following a `location` from a current locator yields. Only network
/// locators can be followed. A location that does not start with `/` is a
/// full locator and is reparsed; otherwise it replaces the path on the same
/// authority and scheme, with the view-source flag reset.
pub open spec fn spec_follow(u: UrlView, loc: Seq<char>) -> Result<UrlView, FetchError> {
    match u {
        UrlView::Network { secure, host, port, .. } => {
            if loc.len() == 0 || loc[0] != '/' {
                spec_parse(loc)
            } else {
                Ok(
                    UrlView::Network {
                        secure,
                        view_source: false,
                        host,
                        port,
                        path: loc,
                    },
                )
            }
        },
        _ => Err(FetchError::UnsupportedOperation),
    }
}

impl Url {
    /// Parse a raw locator string.
    pub fn new(url: &str) -> (r: Result<Url, FetchError>)
        ensures
            url_result_view(r) == spec_parse(url@),
    {
        let n = url.unicode_len();
        let vs = has_prefix_at(url, 0, "view-source:");
        proof {
            assert(url@.skip(0) =~= url@);
        }
        let start: usize = if vs {
            "view-source:".unicode_len()
        } else {
            0
        };
        let t = url.substring_char(start, n);
        Self::parse_after_marker(vs, t)
    }

    /// Parse the text after the optional `view-source:` marker.
    fn parse_after_marker(vs: bool, t: &str) -> (r: Result<Url, FetchError>)
        ensures
            url_result_view(r) == spec_parse_after_marker(vs, t@),
    {
        let n = t.unicode_len();
        proof {
            assert(t@.skip(0) =~= t@);
        }
        if has_prefix_at(t, 0, "data:") {
            let m = "data:".unicode_len();
            let rest = t.substring_char(m, n);
            let rn = rest.unicode_len();
            proof {
                assert(rest@.skip(0) =~= rest@);
            }
            match find_char_from(rest, 0, ',') {
                Some(i) => Ok(
                    Url::Inline {
                        view_source: vs,
                        media_type: String::from_str(rest.substring_char(0, i)),
                        content: String::from_str(rest.substring_char(i + 1, rn)),
                    },
                ),
                None => Err(FetchError::MalformedLocator),
            }
        } else {
            match find_str_from(t, 0, "://") {
                None => Err(FetchError::MalformedLocator),
                Some(i) => {
                    let scheme = t.substring_char(0, i);
                    let rest = t.substring_char(i + "://".unicode_len(), n);
                    if str_eq(scheme, "file") {
                        Ok(Url::File { view_source: vs, path: String::from_str(rest) })
                    } else if str_eq(scheme, "http") {
                        Self::parse_network(vs, false, 80, rest)
                    } else if str_eq(scheme, "https") {
                        Self::parse_network(vs, true, 443, rest)
                    } else {
                        Err(FetchError::UnsupportedScheme)
                    }
                },
            }
        }
    }

    /// Parse the authority-and-path part of a network locator.
    fn parse_network(vs: bool, secure: bool, default_port: u16, rest: &str) -> (r: Result<
        Url,
        FetchError,
    >)
        ensures
            url_result_view(r) == spec_parse_network(vs, secure, default_port, rest@),
    {
        let n = rest.unicode_len();
        proof {
            assert(rest@.skip(0) =~= rest@);
            reveal_strlit("/");
        }
        match find_char_from(rest, 0, '/') {
            Some(i) => {
                let mut path = String::from_str("/");
                path.append(rest.substring_char(i + 1, n));
                proof {
                    assert(path@ =~= seq!['/'] + rest@.skip(i + 1));
                }
                Self::parse_authority(vs, secure, default_port, rest.substring_char(0, i), path)
            },
            None => {
                let path = String::from_str("/");
                proof {
                    assert(path@ =~= seq!['/']);
                }
                Self::parse_authority(vs, secure, default_port, rest, path)
            },
        }
    }

    /// Parse an authority, attaching the already-built path.
    fn parse_authority(
        vs: bool,
        secure: bool,
        default_port: u16,
        authority: &str,
        path: String,
    ) -> (r: Result<Url, FetchError>)
        ensures
            url_result_view(r) == spec_parse_authority(vs, secure, default_port, authority@, path@),
    {
        let n = authority.unicode_len();
        proof {
            assert(authority@.skip(0) =~= authority@);
        }
        match find_char_from(authority, 0, ':') {
            None => Ok(
                Url::Network {
                    secure,
                    view_source: vs,
                    host: String::from_str(authority),
                    port: default_port,
                    path,
                },
            ),
            Some(j) => {
                let digits = authority.substring_char(j + 1, n);
                match parse_dec_u64(digits) {
                    Some(v) if v <= 65535 => Ok(
                        Url::Network {
                            secure,
                            view_source: vs,
                            host: String::from_str(authority.substring_char(0, j)),
                            port: v as u16,
                            path,
                        },
                    ),
                    _ => Err(FetchError::MalformedLocator),
                }
            },
        }
    }

    /// The literal/line-numbered rendering flag.
    pub fn view_source(&self) -> (r: bool)
        ensures
            r == self@.view_source(),
    {
        match self {
            Url::Network { view_source, .. } => *view_source,
            Url::File { view_source, .. } => *view_source,
            Url::Inline { view_source, .. } => *view_source,
        }
    }

    /// Resolve a redirect location against this locator.
    pub fn follow(&self, location: String) -> (r: Result<Url, FetchError>)
        ensures
            url_result_view(r) == spec_follow(self@, location@),
    {
        match self {
            Url::Network { secure, host, port, .. } => {
                if location.unicode_len() == 0 || location.as_str().get_char(0) != '/' {
                    Url::new(location.as_str())
                } else {
                    Ok(
                        Url::Network {
                            secure: *secure,
                            view_source: false,
                            host: host.clone(),
                            port: *port,
                            path: location,
                        },
                    )
                }
            },
            _ => Err(FetchError::UnsupportedOperation),
        }
    }
}

/// What the `Host` header shows for a network locator: the bare host on the
/// scheme's default port, otherwise `host:port`.
pub open spec fn spec_display_host(u: UrlView) -> Seq<char> {
    match u {
        UrlView::Network { secure, host, port, .. } => {
            if (!secure && port == 80) || (secure && port == 443) {
                host
            } else {
                host + seq![':'] + spec_digits(port as nat)
            }
        },
        _ => Seq::empty(),
    }
}

impl Url {
    /// The authority as it appears in a `Host` header.
    pub fn display_host(&self) -> (r: String)
        requires
            self@ is Network,
        ensures
            r@ == spec_display_host(self@),
    {
        match self {
            Url::Network { secure, host, port, .. } => {
                if (!*secure && *port == 80) || (*secure && *port == 443) {
                    host.clone()
                } else {
                    let mut out = host.clone();
                    out.push(':');
                    let digits = format_u64(*port as u64);
                    out.append(digits.as_str());
                    proof {
                        assert(out@ =~= host@ + seq![':'] + spec_digits(*port as nat));
                    }
                    out
                }
            },
            _ => String::new(),
        }
    }
}

impl Clone for Url {
    /// An exact copy: the clone equals the value it was made from.
    fn clone(&self) -> (r: Self)
        ensures
            r == *self,
    {
        match self {
            Url::Network { secure, view_source, host, port, path } => Url::Network {
                secure: *secure,
                view_source: *view_source,
                host: host.clone(),
                port: *port,
                path: path.clone(),
            },
            Url::File { view_source, path } => Url::File {
                view_source: *view_source,
                path: path.clone(),
            },
            Url::Inline { view_source, media_type, content } => Url::Inline {
                view_source: *view_source,
                media_type: media_type.clone(),
                content: content.clone(),
            },
        }
    }
}

impl PartialEq for Url {
    /// Two locators are equal exactly when all fields of the same variant
    /// match; used by the redirect driver for cycle detection.
    fn eq(&self, other: &Url) -> (r: bool) {
        match (self, other) {
            (
                Url::Network { secure: s1, view_source: v1, host: h1, port: p1, path: q1 },
                Url::Network { secure: s2, view_source: v2, host: h2, port: p2, path: q2 },
            ) => *s1 == *s2 && *v1 == *v2 && *h1 == *h2 && *p1 == *p2 && *q1 == *q2,
            (
                Url::File { view_source: v1, path: q1 },
                Url::File { view_source: v2, path: q2 },
            ) => *v1 == *v2 && *q1 == *q2,
            (
                Url::Inline { view_source: v1, media_type: m1, content: c1 },
                Url::Inline { view_source: v2, media_type: m2, content: c2 },
            ) => *v1 == *v2 && *m1 == *m2 && *c1 == *c2,
            _ => false,
        }
    }
}

impl vstd::std_specs::cmp::PartialEqSpecImpl for Url {
    open spec fn obeys_eq_spec() -> bool {
        true
    }

    open spec fn eq_spec(&self, other: &Url) -> bool {
        self@ == other@
    }
}

impl Eq for Url {

}

/// A parsed network locator's path always begins with `/`.
pub proof fn lemma_parse_path_rooted(s: Seq<char>)
    ensures
        spec_parse(s) matches Ok(u) ==> u.path_rooted(),
{
}

/// Following a redirect keeps the path-rooted invariant.
pub proof fn lemma_follow_path_rooted(u: UrlView, loc: Seq<char>)
    ensures
        spec_follow(u, loc) matches Ok(v) ==> v.path_rooted(),
{
    lemma_parse_path_rooted(loc);
}

} // verus!
