//! The parts of a URL that a request is built from.
use crate::text::option_text;
use vstd::prelude::*;

verus! {

/// The parts of an absolute URL.
#[derive(Debug, Clone)]
pub struct UrlParts {
    /// The scheme, in lower case and without the colon.
    pub scheme: String,
    /// The host as it is written in the URL, where it has one.
    pub host: Option<String>,
    /// The host, where it is a domain name and no IP address.
    pub domain: Option<String>,
    /// The port, or the default port where the scheme has a known one.
    pub port: Option<u16>,
    /// The path.
    pub path: String,
    /// What follows the `?`, where there is one.
    pub query: Option<String>,
    /// What follows the `#`, where there is one.
    pub fragment: Option<String>,
}

/// The parts of a URL as texts.
pub struct UrlPartsView {
    pub scheme: Seq<char>,
    pub host: Option<Seq<char>>,
    pub domain: Option<Seq<char>>,
    pub port: Option<u16>,
    pub path: Seq<char>,
    pub query: Option<Seq<char>>,
    pub fragment: Option<Seq<char>>,
}

impl View for UrlParts {
    type V = UrlPartsView;

    open spec fn view(&self) -> UrlPartsView {
        UrlPartsView {
            scheme: self.scheme@,
            host: option_text(self.host),
            domain: option_text(self.domain),
            port: self.port,
            path: self.path@,
            query: option_text(self.query),
            fragment: option_text(self.fragment),
        }
    }
}

/// The parts that the `url` crate reads from `text`, or `None` where it
/// takes `text` for no absolute URL.
pub uninterp spec fn url_parts(text: Seq<char>) -> Option<UrlPartsView>;

/// `url::Url::parse`, and the accessors `scheme`, `host_str`, `domain`,
/// `port_or_known_default`, `path`, `query` and `fragment` on what it
/// returns. The outcome depends on the text alone.
#[verifier::external_body]
pub(crate) fn parse_url(text: &str) -> (parsed: Result<UrlParts, url::ParseError>)
    ensures
        match parsed {
            Ok(parts) => url_parts(text@) == Some(parts@),
            Err(_) => url_parts(text@).is_none(),
        },
{
    let u = url::Url::parse(text)?;
    Ok(UrlParts {
        scheme: u.scheme().to_string(),
        host: u.host_str().map(|h| h.to_string()),
        domain: u.domain().map(|d| d.to_string()),
        port: u.port_or_known_default(),
        path: u.path().to_string(),
        query: u.query().map(|q| q.to_string()),
        fragment: u.fragment().map(|f| f.to_string()),
    })
}

} // verus!
