//! The parts of a URL that tell where a service is.

use crate::xml;
use url::Url;
use vstd::prelude::*;

verus! {

/// The parts of a URL.
#[derive(Debug, Clone)]
pub struct UrlParts {
    /// The host: a name, an IPv4 address, or an IPv6 address in brackets
    pub host: Option<String>,
    /// The port, unless it is left out or the default of the scheme
    pub port: Option<u16>,
    /// The path
    pub path: String,
}

/// The view of `UrlParts`.
#[verifier::ext_equal]
pub struct UrlPartsView {
    pub host: Option<Seq<char>>,
    pub port: Option<u16>,
    pub path: Seq<char>,
}

impl View for UrlParts {
    type V = UrlPartsView;

    open spec fn view(&self) -> UrlPartsView {
        UrlPartsView { host: xml::text_view(self.host), port: self.port, path: self.path@ }
    }
}

/// The view of the parts of a URL, or of why it is none.
pub open spec fn url_view(r: Result<UrlParts, String>) -> Result<UrlPartsView, Seq<char>> {
    match r {
        Ok(parts) => Ok(parts@),
        Err(e) => Err(e@),
    }
}

/// What `Url::parse` makes of a URL, or the text of its error.
pub uninterp spec fn parsed_url(url: Seq<char>) -> Result<UrlPartsView, Seq<char>>;

/// `url::Url::parse`, and `host_str`, `port` and `path` of what it returns: the parts of a URL, or
/// the text of the error. All of it depends on `url` alone.
#[verifier::external_body]
pub(crate) fn parse_url(url: &str) -> (r: Result<UrlParts, String>)
    ensures
        url_view(r) == parsed_url(url@),
{
    match Url::parse(url) {
        Ok(parsed) => Ok(
            UrlParts {
                host: parsed.host_str().map(String::from),
                port: parsed.port(),
                path: parsed.path().to_owned(),
            },
        ),
        Err(e) => Err(e.to_string()),
    }
}

} // verus!
