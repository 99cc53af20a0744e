//! The host resolver: from a URL to the host that identifies the service.
//!
//! Parsing follows the `url` crate and the registrable domain follows the
//! public suffix list of the `psl` crate. Neither is modelled: what they
//! return is named, and the resolver's choice among the URL, its host and
//! the host's registrable domain is stated over those names.

use vstd::prelude::*;

verus! {

/// What `url::Url::parse` makes of `url`, as far as the resolver reads it:
/// `None` where it reports an error, else `Some` of what `Url::host_str`
/// returns for the parsed URL.
pub uninterp spec fn parsed_host(url: Seq<char>) -> Option<Option<Seq<char>>>;

/// What `psl::domain_str` returns for `host`: its registrable domain, where
/// the public suffix list gives it one.
pub uninterp spec fn registrable_domain(host: Seq<char>) -> Option<Seq<char>>;

/// Calls `url::Url::parse` on `url` and, where that succeeds, `host_str` on
/// the URL it returns, copying the host into a string of its own. Claimed:
/// the outcome depends on the characters of `url` alone.
#[verifier::external_body]
fn parse_host(url: &str) -> (parsed: Option<Option<String>>)
    ensures
        parsed.deep_view() == parsed_host(url@),
{
    match url::Url::parse(url) {
        Ok(parsed) => Some(parsed.host_str().map(String::from)),
        Err(_) => None,
    }
}

/// Calls `psl::domain_str` on `host` and copies the domain it returns into a
/// string of its own. Claimed: the outcome depends on the characters of
/// `host` alone.
#[verifier::external_body]
fn domain_of(host: &str) -> (domain: Option<String>)
    ensures
        domain.deep_view() == registrable_domain(host@),
{
    psl::domain_str(host).map(String::from)
}

/// The host of a URL that parsed: the host it names or, where it names none,
/// the URL as it was given.
pub open spec fn host_or_url(found: Option<Seq<char>>, url: Seq<char>) -> Seq<char> {
    match found {
        Some(host) => host,
        None => url,
    }
}

/// The registrable domain of a host or, where it has none, the host itself.
pub open spec fn domain_or_host(domain: Option<Seq<char>>, host: Seq<char>) -> Seq<char> {
    match domain {
        Some(domain) => domain,
        None => host,
    }
}

/// The host that stands for `url`.
///
/// A string that does not parse as a URL stands for itself, untouched. A
/// URL that parses stands for its host, or for itself where it has none,
/// reduced to the registrable domain where `strip_subdomain` asks for it and
/// the public suffix list knows one.
pub open spec fn resolved_host(url: Seq<char>, strip_subdomain: bool) -> Seq<char> {
    match parsed_host(url) {
        None => url,
        Some(found) => {
            let host = host_or_url(found, url);
            if strip_subdomain {
                domain_or_host(registrable_domain(host), host)
            } else {
                host
            }
        },
    }
}

/// Picks the host that the parser found, or the URL where it found none.
pub fn pick_host(found: Option<String>, url: &str) -> (host: String)
    ensures
        host@ == host_or_url(found.deep_view(), url@),
{
    match found {
        Some(host) => host,
        None => url.to_owned(),
    }
}

/// Picks the registrable domain, or the host where it has none.
pub fn pick_domain(domain: Option<String>, host: String) -> (r: String)
    ensures
        r@ == domain_or_host(domain.deep_view(), host@),
{
    match domain {
        Some(domain) => domain,
        None => host,
    }
}

/// Resolves `url` to the host that identifies the service.
///
/// No input is an error: what cannot be parsed is returned as it came.
/// Nothing is trimmed here.
pub fn get_host(url: &str, strip_subdomain: &bool) -> (host: String)
    ensures
        host@ == resolved_host(url@, *strip_subdomain),
{
    match parse_host(url) {
        None => url.to_owned(),
        Some(found) => {
            let host = pick_host(found, url);
            if *strip_subdomain {
                let domain = domain_of(host.as_str());
                pick_domain(domain, host)
            } else {
                host
            }
        },
    }
}

} // verus!
