//! URLs taken apart into plain values, and the encodings built on them.

use vstd::prelude::*;

verus! {

/// The parts of an absolute URL that the routing rules read.
pub struct UrlParts {
    pub scheme: String,
    pub username: String,
    pub has_password: bool,
    pub host: Option<String>,
    /// The port, or the scheme's default port.
    pub port: Option<u16>,
    pub path: String,
    pub query: Option<String>,
    pub fragment: Option<String>,
    /// The ASCII serialization of the origin.
    pub origin: String,
    /// The whole URL.
    pub href: String,
}

/// Mathematical value of [`UrlParts`].
pub struct UrlView {
    pub scheme: Seq<char>,
    pub username: Seq<char>,
    pub has_password: bool,
    pub host: Option<Seq<char>>,
    pub port: Option<u16>,
    pub path: Seq<char>,
    pub query: Option<Seq<char>>,
    pub fragment: Option<Seq<char>>,
    pub origin: Seq<char>,
    pub href: Seq<char>,
}

impl UrlParts {
    pub open spec fn value(self) -> UrlView {
        UrlView {
            scheme: self.scheme@,
            username: self.username@,
            has_password: self.has_password,
            host: self.host.deep_view(),
            port: self.port,
            path: self.path@,
            query: self.query.deep_view(),
            fragment: self.fragment.deep_view(),
            origin: self.origin@,
            href: self.href@,
        }
    }
}

/// What the URL parser makes of a text; `None` where it rejects it.
pub uninterp spec fn parsed_url(source: Seq<char>) -> Option<UrlView>;

/// `url::Url::parse` and the accessors of the URL. Their results are named
/// `parsed_url`.
#[verifier::external_body]
pub(crate) fn read_url(source: &str) -> (r: Option<UrlParts>)
    ensures
        match r {
            Some(parts) => parsed_url(source@) == Some(parts.value()),
            None => parsed_url(source@) is None,
        },
{
    url::Url::parse(source).ok().map(|u| UrlParts {
        scheme: u.scheme().to_owned(),
        username: u.username().to_owned(),
        has_password: u.password().is_some(),
        host: u.host_str().map(|h| h.to_owned()),
        port: u.port_or_known_default(),
        path: u.path().to_owned(),
        query: u.query().map(|q| q.to_owned()),
        fragment: u.fragment().map(|f| f.to_owned()),
        origin: u.origin().ascii_serialization(),
        href: u.as_str().to_owned(),
    })
}

/// Parses an absolute URL; `None` where the parser rejects it.
pub fn parse(source: &str) -> (r: Option<UrlParts>)
    ensures
        match r {
            Some(parts) => parsed_url(source@) == Some(parts.value()),
            None => parsed_url(source@) is None,
        },
{
    read_url(source)
}

/// A URL with its path replaced and without query and fragment; `None` where
/// the URL is not valid.
pub open spec fn url_at_path(href: Seq<char>, path: Seq<char>) -> Option<Seq<char>> {
    match url_moved(href, path) {
        Some(moved) => match url_with_query(moved, None) {
            Some(plain) => url_with_fragment(plain, None),
            None => None,
        },
        None => None,
    }
}

/// A URL with its path replaced and without query and fragment.
pub(crate) fn with_path(href: &str, path: &str) -> (r: Option<String>)
    ensures
        r.deep_view() == url_at_path(href@, path@),
{
    match moved_to(href, path) {
        Some(moved) => match with_query(moved.as_str(), None) {
            Some(plain) => with_fragment(plain.as_str(), None),
            None => None,
        },
        None => None,
    }
}

/// A URL with its fragment replaced, or without one; `None` where the URL is not
/// valid.
pub uninterp spec fn url_with_fragment(href: Seq<char>, fragment: Option<Seq<char>>) -> Option<
    Seq<char>,
>;

/// `url::Url::set_fragment` on a parsed URL. The result is named
/// `url_with_fragment`.
#[verifier::external_body]
fn with_fragment(href: &str, fragment: Option<&str>) -> (r: Option<String>)
    ensures
        r.deep_view() == url_with_fragment(href@, fragment.deep_view()),
{
    let mut u = url::Url::parse(href).ok()?;
    u.set_fragment(fragment);
    Some(u.into())
}

/// The `application/x-www-form-urlencoded` text of name and value pairs.
pub uninterp spec fn form_encoded(pairs: Seq<(Seq<char>, Seq<char>)>) -> Seq<char>;

/// `url::form_urlencoded::Serializer` over pairs. The result is named
/// `form_encoded`.
#[verifier::external_body]
pub(crate) fn form_encode(pairs: &Vec<(String, String)>) -> (r: String)
    ensures
        r@ == form_encoded(pairs.deep_view()),
{
    url::form_urlencoded::Serializer::new(String::new()).extend_pairs(pairs).finish()
}

/// An optional URL with form pairs behind its query; `None` where there is no valid
/// URL.
pub open spec fn url_with_pairs(href: Option<Seq<char>>, pairs: Seq<(Seq<char>, Seq<char>)>) -> Option<
    Seq<char>,
> {
    match href {
        Some(base) => url_with_more_pairs(base, pairs),
        None => None,
    }
}

/// A URL with its path replaced by encoded segments; `None` where the URL is not
/// valid or cannot have segments.
pub uninterp spec fn url_at_segments(href: Seq<char>, segments: Seq<Seq<char>>) -> Option<Seq<char>>;

/// `url::Url::path_segments_mut` on a parsed URL, cleared and extended. The
/// result is named `url_at_segments`.
#[verifier::external_body]
pub(crate) fn with_segments(href: &str, segments: &Vec<&str>) -> (r: Option<String>)
    ensures
        r.deep_view() == url_at_segments(href@, segments.deep_view()),
{
    let mut u = url::Url::parse(href).ok()?;
    u.path_segments_mut().ok()?.clear().extend(segments);
    Some(u.into())
}

/// A URL with encoded segments behind its path, of which an empty last segment
/// is dropped; `None` where the URL is not valid or cannot have segments.
pub uninterp spec fn url_below_segments(href: Seq<char>, segments: Seq<Seq<char>>) -> Option<
    Seq<char>,
>;

/// `url::Url::path_segments_mut` on a parsed URL, with `pop_if_empty` and
/// extended. The result is named `url_below_segments`.
#[verifier::external_body]
pub(crate) fn below_segments(href: &str, segments: &Vec<&str>) -> (r: Option<String>)
    ensures
        r.deep_view() == url_below_segments(href@, segments.deep_view()),
{
    let mut u = url::Url::parse(href).ok()?;
    u.path_segments_mut().ok()?.pop_if_empty().extend(segments);
    Some(u.into())
}

/// A URL with its query replaced, or without one; `None` where the URL is not
/// valid.
pub uninterp spec fn url_with_query(href: Seq<char>, query: Option<Seq<char>>) -> Option<Seq<char>>;

/// `url::Url::set_query` on a parsed URL. The result is named `url_with_query`.
#[verifier::external_body]
pub(crate) fn with_query(href: &str, query: Option<&str>) -> (r: Option<String>)
    ensures
        r.deep_view() == url_with_query(href@, query.deep_view()),
{
    let mut u = url::Url::parse(href).ok()?;
    u.set_query(query);
    Some(u.into())
}

/// A URL with form pairs behind its query; `None` where the URL is not valid.
pub uninterp spec fn url_with_more_pairs(
    href: Seq<char>,
    pairs: Seq<(Seq<char>, Seq<char>)>,
) -> Option<Seq<char>>;

/// `url::Url::query_pairs_mut` on a parsed URL, extended by pairs. The result is
/// named `url_with_more_pairs`.
#[verifier::external_body]
pub(crate) fn extend_pairs(href: &str, pairs: &Vec<(String, String)>) -> (r: Option<String>)
    ensures
        r.deep_view() == url_with_more_pairs(href@, pairs.deep_view()),
{
    let mut u = url::Url::parse(href).ok()?;
    u.query_pairs_mut().extend_pairs(pairs);
    Some(u.into())
}

/// A URL with its path replaced and its query kept; `None` where the URL is not
/// valid.
pub uninterp spec fn url_moved(href: Seq<char>, path: Seq<char>) -> Option<Seq<char>>;

/// `url::Url::set_path` on a parsed URL. The result is named `url_moved`.
#[verifier::external_body]
pub(crate) fn moved_to(href: &str, path: &str) -> (r: Option<String>)
    ensures
        r.deep_view() == url_moved(href@, path@),
{
    let mut u = url::Url::parse(href).ok()?;
    u.set_path(path);
    Some(u.into())
}

/// The decoded name and value pairs of a query.
pub uninterp spec fn query_pairs_of(query: Seq<char>) -> Seq<(Seq<char>, Seq<char>)>;

/// `url::form_urlencoded::parse` over a query. The pairs are named
/// `query_pairs_of`.
#[verifier::external_body]
pub(crate) fn query_pairs(query: &str) -> (r: Vec<(String, String)>)
    ensures
        r.deep_view() == query_pairs_of(query@),
{
    url::form_urlencoded::parse(query.as_bytes()).into_owned().collect()
}

/// Whether a URL is a bare origin: no credentials, the root path, no query and
/// no fragment.
pub open spec fn bare(url: UrlView) -> bool {
    url.username.len() == 0 && !url.has_password && url.path == "/"@ && url.query is None
        && url.fragment is None
}

/// Whether a URL is a bare origin.
pub fn is_bare_origin(url: &UrlParts) -> (r: bool)
    ensures
        r == bare(url.value()),
{
    url.username.as_str().is_empty() && !url.has_password && crate::text::same_text(
        url.path.as_str(),
        "/",
    ) && url.query.is_none() && url.fragment.is_none()
}

/// How an endpoint may be reached.
#[derive(Debug, Clone, Copy, PartialEq, Eq, Structural)]
pub enum EndpointClass {
    PublicHttps,
    PrivateHttps,
    PrivateHttp,
    LoopbackDevelopment,
}

} // verus!
