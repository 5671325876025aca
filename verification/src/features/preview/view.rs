//! The preview view's origin policy: what the preview webview may load.
use vstd::prelude::*;
use crate::features::human_browser::policy::{parse_url_parts, parsed_view, url_parts, UrlParts};
use crate::text::text_eq;

verus! {

/// Whether a host names the loopback interface canonically.
pub open spec fn is_loopback_host(host: Seq<char>) -> bool {
    host == "127.0.0.1"@ || host == "localhost"@ || host == "::1"@ || host == "[::1]"@
}

/// The approved preview origin: a web scheme, no credentials, a loopback
/// host and exactly the owned port; everything else, including text that
/// does not parse, is refused.
pub open spec fn origin_allowed(parts: Option<UrlParts>, owned_port: u16) -> bool {
    match parts {
        Some((scheme, user, has_password, host, port)) => {
            &&& (scheme == "http"@ || scheme == "https"@)
            &&& user.len() == 0
            &&& !has_password
            &&& (host matches Some(h) && is_loopback_host(h))
            &&& port == Some(owned_port)
        },
        None => false,
    }
}

pub fn preview_origin_allowed(candidate: &str, owned_port: u16) -> (r: bool)
    ensures
        r == origin_allowed(url_parts(candidate@), owned_port),
{
    let parts = parse_url_parts(candidate);
    match parts {
        Some((scheme, user, has_password, host, port)) => {
            let web = text_eq(scheme.as_str(), "http") || text_eq(scheme.as_str(), "https");
            if !web || !user.as_str().is_empty() || has_password {
                return false;
            }
            let loopback = match &host {
                Some(h) => text_eq(h.as_str(), "127.0.0.1") || text_eq(h.as_str(), "localhost")
                    || text_eq(h.as_str(), "::1") || text_eq(h.as_str(), "[::1]"),
                None => false,
            };
            let port_matches = match port {
                Some(p) => p == owned_port,
                None => false,
            };
            loopback && port_matches
        },
        None => false,
    }
}

/// The preview may load exactly the owned loopback origins: a URL is allowed
/// if and only if it has a web scheme, no credentials, one of the hosts
/// `127.0.0.1`, `localhost`, `::1` or `[::1]`, and exactly the owned port.
pub proof fn lemma_loopback_origins(candidate: Seq<char>, owned_port: u16)
    ensures
        origin_allowed(url_parts(candidate), owned_port) <==> (url_parts(candidate) is Some && {
            let (scheme, user, has_password, host, port) = url_parts(candidate)->Some_0;
            &&& (scheme == "http"@ || scheme == "https"@)
            &&& user.len() == 0
            &&& !has_password
            &&& (host == Some("127.0.0.1"@) || host == Some("localhost"@) || host == Some("::1"@)
                || host == Some("[::1]"@))
            &&& port == Some(owned_port)
        }),
{
}

} // verus!
