//! Addresses, taken apart by the `url` crate.
use vstd::prelude::*;

use crate::text::opt_text;

verus! {

/// The parts of an address.
pub struct UrlParts {
    pub scheme: String,
    pub host: Option<String>,
    /// The port that is given, else the one that the scheme is known for.
    pub port: Option<u16>,
}

/// The parts of an address.
#[verifier::ext_equal]
pub struct UrlSpec {
    pub scheme: Seq<char>,
    pub host: Option<Seq<char>>,
    pub port: Option<u16>,
}

impl View for UrlParts {
    type V = UrlSpec;

    open spec fn view(&self) -> UrlSpec {
        UrlSpec { scheme: self.scheme@, host: opt_text(self.host), port: self.port }
    }
}

/// The parts of the address that a text is, if it is one.
pub uninterp spec fn url_parts(text: Seq<char>) -> Option<UrlSpec>;

/// `url::Url::parse`, and the scheme, the host and the port of what it returns. They depend on the
/// text alone; it fails on a text that is no absolute address.
#[verifier::external_body]
pub(crate) fn parse_url(text: &str) -> (r: Option<UrlParts>)
    ensures
        match r {
            Some(u) => url_parts(text@) == Some(u@),
            None => url_parts(text@) is None,
        },
{
    url::Url::parse(text).ok().map(|u| UrlParts {
        scheme: u.scheme().to_string(),
        host: u.host_str().map(|h| h.to_string()),
        port: u.port_or_known_default(),
    })
}

}
