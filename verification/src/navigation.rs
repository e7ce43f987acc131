//! Which URLs the embedded browser may navigate to and load: the bundled UI under
//! `koharu://app`, the development server's exact origin, and for resources also
//! `data:` URLs and `blob:` URLs of an allowed origin.
use vstd::prelude::*;
use crate::text::strip_prefix;

verus! {

/// The scheme of the bundled UI.
pub const APP_SCHEME: &'static str = "koharu";

/// The host of the bundled UI.
pub const APP_DOMAIN: &'static str = "app";

/// Where the embedded browser runs from and what it first loads: the browser
/// distribution, its cache, the initial URL, and the bundled UI files if any.
#[derive(Clone, Debug, PartialEq, Eq)]
pub struct CefConfig {
    pub distribution: String,
    pub cache_root: String,
    pub initial_url: String,
    pub resources_root: Option<String>,
}

/// The parts of a parsed absolute URL that the navigation policy reads.
#[derive(Clone, Debug, PartialEq, Eq)]
pub struct UrlParts {
    /// The scheme, lower-cased, without the `:`.
    pub scheme: String,
    pub host: Option<String>,
    pub username: String,
    pub password: Option<String>,
    /// The explicit port, if the URL names one other than the scheme's default.
    pub port: Option<u16>,
    /// The ASCII serialization of the origin (`null` for an opaque origin).
    pub origin: String,
    /// Whether the origin is a (scheme, host, port) tuple rather than opaque.
    pub origin_is_tuple: bool,
    /// The whole URL as serialized by the parser.
    pub serialized: String,
}

/// What a parsed URL holds, as character sequences.
pub struct UrlView {
    pub scheme: Seq<char>,
    pub host: Option<Seq<char>>,
    pub username: Seq<char>,
    pub password: Option<Seq<char>>,
    pub port: Option<u16>,
    pub origin: Seq<char>,
    pub origin_is_tuple: bool,
    pub serialized: Seq<char>,
}

/// The characters of an optional string.
pub open spec fn opt_view(s: Option<String>) -> Option<Seq<char>> {
    match s {
        Some(t) => Some(t@),
        None => None,
    }
}

impl View for UrlParts {
    type V = UrlView;

    open spec fn view(&self) -> UrlView {
        UrlView {
            scheme: self.scheme@,
            host: opt_view(self.host),
            username: self.username@,
            password: opt_view(self.password),
            port: self.port,
            origin: self.origin@,
            origin_is_tuple: self.origin_is_tuple,
            serialized: self.serialized@,
        }
    }
}

/// What `url::Url::parse` makes of a string: `None` when it is no absolute URL.
pub uninterp spec fn parsed_url(input: Seq<char>) -> Option<UrlView>;

/// Parses an absolute URL with `url::Url::parse` and keeps the parts the policy
/// reads. The contract only names the result: the WHATWG parsing rules that
/// decide it are the `url` crate's and are not restated here.
#[verifier::external_body]
fn parse_url(input: &str) -> (r: Option<UrlParts>)
    ensures
        r matches Some(u) ==> parsed_url(input@) == Some(u@),
        r is None ==> parsed_url(input@) is None,
{
    let url = url::Url::parse(input).ok()?;
    let origin = url.origin();
    Some(UrlParts {
        scheme: url.scheme().to_owned(),
        host: url.host_str().map(str::to_owned),
        username: url.username().to_owned(),
        password: url.password().map(str::to_owned),
        port: url.port(),
        origin: origin.ascii_serialization(),
        origin_is_tuple: origin.is_tuple(),
        serialized: url.as_str().to_owned(),
    })
}

/// The URL names the bundled UI: scheme `koharu`, host exactly `app`, and no
/// user name, password or port.
pub open spec fn spec_is_app_url(u: UrlView) -> bool {
    &&& u.scheme == APP_SCHEME@
    &&& u.host == Some(APP_DOMAIN@)
    &&& u.username.len() == 0
    &&& u.password is None
    &&& u.port is None
}

/// The URL is the bundled UI, or its origin is exactly the development origin.
pub open spec fn spec_is_primary_url(u: UrlView, development_origin: Option<Seq<char>>) -> bool {
    spec_is_app_url(u) || match development_origin {
        Some(o) => u.origin == o,
        None => false,
    }
}

/// Whether the browser may navigate to `url`.
pub open spec fn spec_allowed_navigation(url: Seq<char>, development_origin: Option<Seq<char>>) -> bool {
    match parsed_url(url) {
        Some(u) => spec_is_primary_url(u, development_origin),
        None => false,
    }
}

/// The text after a `blob:` prefix.
pub open spec fn blob_inner(serialized: Seq<char>) -> Option<Seq<char>> {
    let prefix = seq!['b', 'l', 'o', 'b', ':'];
    if prefix.len() <= serialized.len() && serialized.take(5) == prefix {
        Some(serialized.skip(5))
    } else {
        None
    }
}

/// Whether the browser may load a resource from `url`: a primary URL, a `data:`
/// URL, or a `blob:` URL whose inner URL is primary.
pub open spec fn spec_allowed_resource(url: Seq<char>, development_origin: Option<Seq<char>>) -> bool {
    match parsed_url(url) {
        None => false,
        Some(u) => spec_is_primary_url(u, development_origin) || u.scheme == seq!['d', 'a', 't', 'a']
            || match blob_inner(u.serialized) {
            Some(inner) => match parsed_url(inner) {
                Some(v) => spec_is_primary_url(v, development_origin),
                None => false,
            },
            None => false,
        },
    }
}

/// The origin of the development server at `url`: its ASCII serialization when
/// the origin is a tuple, `None` when it is opaque or `url` does not parse.
pub open spec fn spec_development_origin(url: Seq<char>) -> Option<Seq<char>> {
    match parsed_url(url) {
        Some(u) => if u.origin_is_tuple {
            Some(u.origin)
        } else {
            None
        },
        None => None,
    }
}

fn eq_text(a: &String, b: &str) -> (r: bool)
    ensures
        r == (a@ == b@),
{
    let b = b.to_owned();
    *a == b
}

/// Whether the URL names the bundled UI.
pub fn is_app_url(url: &UrlParts) -> (b: bool)
    ensures
        b == spec_is_app_url(url@),
{
    let host_ok = match &url.host {
        Some(h) => eq_text(h, APP_DOMAIN),
        None => false,
    };
    eq_text(&url.scheme, APP_SCHEME) && host_ok && url.username.as_str().is_empty() && url.password.is_none()
        && url.port.is_none()
}

/// Whether the URL is the bundled UI or has exactly the development origin.
pub fn is_primary_url(url: &UrlParts, development_origin: Option<&str>) -> (b: bool)
    ensures
        b == spec_is_primary_url(
            url@,
            match development_origin {
                Some(o) => Some(o@),
                None => None,
            },
        ),
{
    if is_app_url(url) {
        return true;
    }
    match development_origin {
        None => false,
        Some(o) => eq_text(&url.origin, o),
    }
}

/// Whether the browser may navigate to `url`.
pub fn allowed_navigation(url: &str, development_origin: Option<&str>) -> (b: bool)
    ensures
        b == spec_allowed_navigation(
            url@,
            match development_origin {
                Some(o) => Some(o@),
                None => None,
            },
        ),
{
    match parse_url(url) {
        Some(u) => is_primary_url(&u, development_origin),
        None => false,
    }
}

/// Whether the browser may load a resource from `url`.
pub fn allowed_resource(url: &str, development_origin: Option<&str>) -> (b: bool)
    ensures
        b == spec_allowed_resource(
            url@,
            match development_origin {
                Some(o) => Some(o@),
                None => None,
            },
        ),
{
    let u = match parse_url(url) {
        Some(u) => u,
        None => return false,
    };
    proof {
        reveal_strlit("data");
        assert("data"@ =~= seq!['d', 'a', 't', 'a']);
    }
    if is_primary_url(&u, development_origin) || eq_text(&u.scheme, "data") {
        return true;
    }
    proof {
        reveal_strlit("data");
        reveal_strlit("blob:");
        assert("blob:"@ =~= seq!['b', 'l', 'o', 'b', ':']);
    }
    let inner = match strip_prefix(u.serialized.as_str(), "blob:") {
        Some(inner) => inner,
        None => {
            assert(blob_inner(u.serialized@) is None);
            return false;
        },
    };
    assert(blob_inner(u.serialized@) == Some(inner@));
    match parse_url(inner.as_str()) {
        Some(v) => is_primary_url(&v, development_origin),
        None => false,
    }
}

/// The origin of the development server the UI is loaded from, when it has one.
pub fn development_origin(url: &str) -> (r: Option<String>)
    ensures
        opt_view(r) == spec_development_origin(url@),
{
    match parse_url(url) {
        Some(u) => if u.origin_is_tuple {
            Some(u.origin)
        } else {
            None
        },
        None => None,
    }
}

/// The page the browser starts at is always allowed: when the development origin
/// is taken from the initial URL, navigating to and loading from that URL pass.
pub proof fn lemma_initial_url_is_allowed(url: Seq<char>)
    ensures
        spec_development_origin(url) matches Some(o) ==> spec_allowed_navigation(url, Some(o))
            && spec_allowed_resource(url, Some(o)),
{
}

/// The bundled UI may be navigated to and loaded from whatever the development
/// origin is.
pub proof fn lemma_app_urls_are_allowed(url: Seq<char>, development_origin: Option<Seq<char>>)
    requires
        parsed_url(url) matches Some(u) && spec_is_app_url(u),
    ensures
        spec_allowed_navigation(url, development_origin),
        spec_allowed_resource(url, development_origin),
{
}

/// The bundled UI lives at `koharu://app`: a URL names it exactly when its
/// scheme is `koharu`, its host is `app`, and it carries no user name, password
/// or port.
pub proof fn lemma_app_url_is_koharu_app(u: UrlView)
    ensures
        spec_is_app_url(u) <==> (u.scheme == "koharu"@ && u.host == Some("app"@) && u.username.len()
            == 0 && u.password is None && u.port is None),
{
}

/// Loading is never stricter than navigating: every URL the browser may
/// navigate to it may also load from; and without a development origin only
/// the bundled UI may be navigated to.
pub proof fn lemma_navigation_implies_loading(url: Seq<char>, development_origin: Option<Seq<char>>)
    ensures
        spec_allowed_navigation(url, development_origin) ==> spec_allowed_resource(url, development_origin),
        spec_allowed_navigation(url, None) <==> (parsed_url(url) matches Some(u) && spec_is_app_url(u)),
{
}

} // verus!
