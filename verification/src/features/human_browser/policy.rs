//! The Human Browser's role and navigation policy.
//!
//! The policy is the only authority for what the Human Browser view may load:
//! `http` and `https` are allowed, external protocol handlers are surfaced as
//! an explicit user action, and every other scheme, unparsable input and URL
//! with embedded credentials is denied with a reason code.
use vstd::prelude::*;
use crate::text::{owned, text_eq};

verus! {

#[derive(Debug, Clone, Copy, PartialEq, Eq, Structural)]
pub enum BrowserRole {
    Human,
}

impl Default for BrowserRole {
    fn default() -> (r: Self)
        ensures
            r == BrowserRole::Human,
    {
        BrowserRole::Human
    }
}

#[derive(Debug, PartialEq, Eq)]
pub enum NavigationDecision {
    Allow,
    Deny { code: String },
    OpenExternal,
}

/// A decision as plain values.
pub enum DecisionView {
    Allow,
    Deny(Seq<char>),
    OpenExternal,
}

impl View for NavigationDecision {
    type V = DecisionView;

    open spec fn view(&self) -> DecisionView {
        match self {
            NavigationDecision::Allow => DecisionView::Allow,
            NavigationDecision::Deny { code } => DecisionView::Deny(code@),
            NavigationDecision::OpenExternal => DecisionView::OpenExternal,
        }
    }
}

/// What `url::Url::parse` makes of a text, read through `Url::scheme`,
/// `Url::username`, whether `Url::password` is present, `Url::host_str` and
/// `Url::port`: `None` when it does not parse.
pub uninterp spec fn url_parts(candidate: Seq<char>) -> Option<UrlParts>;

/// A parsed URL as plain values: scheme, user name, whether a password is
/// present, host text and explicit port.
pub type UrlParts = (Seq<char>, Seq<char>, bool, Option<Seq<char>>, Option<u16>);

/// A parsed URL as the parser hands it over.
pub type ParsedUrl = (String, String, bool, Option<String>, Option<u16>);

pub open spec fn parsed_view(p: Option<ParsedUrl>) -> Option<UrlParts> {
    match p {
        Some(u) => Some(
            (
                u.0@,
                u.1@,
                u.2,
                match u.3 {
                    Some(h) => Some(h@),
                    None => None,
                },
                u.4,
            ),
        ),
        None => None,
    }
}

/// Parses `candidate` with `url::Url::parse` and reads its scheme, its user
/// name, whether it holds a password, its host and its explicit port.
#[verifier::external_body]
pub(crate) fn parse_url_parts(candidate: &str) -> (r: Option<ParsedUrl>)
    ensures
        parsed_view(r) == url_parts(candidate@),
{
    match url::Url::parse(candidate) {
        Ok(u) => Some(
            (
                u.scheme().to_string(),
                u.username().to_string(),
                u.password().is_some(),
                u.host_str().map(str::to_string),
                u.port(),
            ),
        ),
        Err(_) => None,
    }
}

/// The decision for a parsed URL: web schemes are allowed unless they carry
/// credentials; mail, phone, message and magnet links open outside; any
/// other scheme, and anything that does not parse, is denied.
pub open spec fn navigation_of(parts: Option<UrlParts>) -> DecisionView {
    match parts {
        None => DecisionView::Deny("human_url_invalid"@),
        Some((scheme, user, has_password, _, _)) => if scheme == "http"@ || scheme == "https"@ {
            if user.len() == 0 && !has_password {
                DecisionView::Allow
            } else {
                DecisionView::Deny("human_userinfo_denied"@)
            }
        } else if scheme == "mailto"@ || scheme == "tel"@ || scheme == "sms"@ || scheme
            == "magnet"@ {
            DecisionView::OpenExternal
        } else {
            DecisionView::Deny("human_scheme_denied"@)
        },
    }
}

fn deny(code: &str) -> (r: NavigationDecision)
    ensures
        r@ == DecisionView::Deny(code@),
{
    NavigationDecision::Deny { code: owned(code) }
}

/// The decision for a URL already split into its parts (`None` for text
/// that does not parse).
pub fn decide_parsed(parts: Option<ParsedUrl>) -> (r: NavigationDecision)
    ensures
        r@ == navigation_of(parsed_view(parts)),
{
    match parts {
        None => deny("human_url_invalid"),
        Some((scheme, user, has_password, _, _)) => {
            let s = scheme.as_str();
            if text_eq(s, "http") || text_eq(s, "https") {
                if user.as_str().is_empty() && !has_password {
                    NavigationDecision::Allow
                } else {
                    deny("human_userinfo_denied")
                }
            } else if text_eq(s, "mailto") || text_eq(s, "tel") || text_eq(s, "sms") || text_eq(
                s,
                "magnet",
            ) {
                NavigationDecision::OpenExternal
            } else {
                deny("human_scheme_denied")
            }
        },
    }
}

/// Decides what the Human Browser may do with a navigation candidate.
pub fn decide_navigation(candidate: &str) -> (r: NavigationDecision)
    ensures
        r@ == navigation_of(url_parts(candidate@)),
{
    decide_parsed(parse_url_parts(candidate))
}

} // verus!
