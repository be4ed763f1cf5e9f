//! Web addresses. Reading an address is left to the `url` crate; the library
//! keeps the parts of the result that it works with as plain text.

use vstd::prelude::*;
use vstd::string::*;
use crate::text::option_text;

verus! {

/// The parts of an address as mathematical values.
pub struct UrlParts {
    /// The address in its normalized form.
    pub url: Seq<char>,
    /// The host, where it is a domain name.
    pub domain: Option<Seq<char>>,
    /// The host in any form.
    pub host: Option<Seq<char>>,
    /// The path.
    pub path: Seq<char>,
}

/// The parts of an address that was read.
#[derive(Debug)]
pub struct ParsedUrl {
    pub url: String,
    pub domain: Option<String>,
    pub host: Option<String>,
    pub path: String,
}

impl View for ParsedUrl {
    type V = UrlParts;

    open spec fn view(&self) -> UrlParts {
        UrlParts {
            url: self.url@,
            domain: option_text(self.domain),
            host: option_text(self.host),
            path: self.path@,
        }
    }
}

/// What `url::Url::parse` makes of `text`: the normalized address, its
/// domain, its host and its path, or `None` where the crate rejects the text.
pub uninterp spec fn url_parsed(text: Seq<char>) -> Option<UrlParts>;

/// The domain of an address or, where the host is no domain name, the host.
pub open spec fn domain_or_host(parts: UrlParts) -> Option<Seq<char>> {
    if parts.domain is Some {
        parts.domain
    } else {
        parts.host
    }
}

/// Calls `url::Url::parse`, then `to_string`, `domain`, `host_str` and
/// `path` on the address. The normalized form is never empty: it starts
/// with the scheme and a colon. An address with a domain or host, once
/// normalized, is read again as itself: the crate holds for each of its
/// values that its text parses to the same text with the same host and the
/// same path.
#[verifier::external_body]
fn url_parse(text: &str) -> (r: Option<ParsedUrl>)
    ensures
        match r {
            Some(p) => url_parsed(text@) == Some(p@) && p@.url.len() > 0 && (domain_or_host(p@)
                is Some ==> url_parsed(p@.url) == Some(p@)),
            None => url_parsed(text@).is_none(),
        },
{
    match url::Url::parse(text) {
        Ok(address) => Some(
            ParsedUrl {
                url: address.to_string(),
                domain: address.domain().map(|d| d.to_string()),
                host: address.host_str().map(|h| h.to_string()),
                path: address.path().to_string(),
            },
        ),
        Err(_) => None,
    }
}

impl ParsedUrl {
    /// An address that is read back from its normalized form as itself.
    pub open spec fn normalized(&self) -> bool {
        url_parsed(self@.url) == Some(self@)
    }

    /// Reads an address.
    pub fn parse(text: &str) -> (r: Option<ParsedUrl>)
        ensures
            match r {
                Some(p) => url_parsed(text@) == Some(p@) && p@.url.len() > 0 && (domain_or_host(
                    p@,
                ) is Some ==> p.normalized()),
                None => url_parsed(text@).is_none(),
            },
    {
        url_parse(text)
    }

    /// Whether `text` is an address that a web app can have: one that can
    /// be read and has a domain or a host.
    pub fn is_valid(text: &str) -> (r: bool)
        ensures
            r == (url_parsed(text@) is Some && domain_or_host(url_parsed(text@)->0) is Some),
    {
        match Self::parse(text) {
            Some(address) => address.domain.is_some() || address.host.is_some(),
            None => false,
        }
    }

    /// The domain of the address or, where the host is no domain name, the
    /// host.
    pub fn domain_or_host(&self) -> (r: Option<String>)
        ensures
            option_text(r) == domain_or_host(self@),
    {
        match &self.domain {
            Some(domain) => Some(domain.clone()),
            None => match &self.host {
                Some(host) => Some(host.clone()),
                None => None,
            },
        }
    }
}

} // verus!
