//! The parts of a parsed URL that the library reads.

use vstd::prelude::*;

verus! {

/// What the `url` crate's parser makes of `s`, in the parts read here:
/// scheme, host, port (explicit or the scheme's default), path and query.
pub uninterp spec fn url_parse(
    s: Seq<char>,
) -> Option<(Seq<char>, Option<Seq<char>>, Option<u16>, Seq<char>, Option<Seq<char>>)>;

/// A parsed URL, held as plain values.
#[derive(Clone, Debug)]
pub struct UrlParts {
    pub scheme: String,
    pub host: Option<String>,
    pub port: Option<u16>,
    pub path: String,
    pub query: Option<String>,
}

pub open spec fn opt_view(s: Option<String>) -> Option<Seq<char>> {
    match s {
        Some(x) => Some(x@),
        None => None,
    }
}

impl UrlParts {
    pub open spec fn parts(&self) -> (
        Seq<char>,
        Option<Seq<char>>,
        Option<u16>,
        Seq<char>,
        Option<Seq<char>>,
    ) {
        (self.scheme@, opt_view(self.host), self.port, self.path@, opt_view(self.query))
    }
}

/// Relies on url::Url::parse and the accessors scheme, host_str,
/// port_or_known_default, path and query: the parts depend on the input
/// alone.
#[verifier::external_body]
pub(crate) fn parse_url(s: &str) -> (r: Option<UrlParts>)
    ensures
        match url_parse(s@) {
            Some(p) => r matches Some(u) && u.parts() == p,
            None => r is None,
        },
{
    match url::Url::parse(s) {
        Ok(u) => Some(UrlParts {
            scheme: u.scheme().to_string(),
            host: u.host_str().map(|h| h.to_string()),
            port: u.port_or_known_default(),
            path: u.path().to_string(),
            query: u.query().map(|q| q.to_string()),
        }),
        Err(_) => None,
    }
}

} // verus!
