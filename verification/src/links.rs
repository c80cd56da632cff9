//! Links clicked in a message: only web and mail links are offered, and
//! each says where it really goes before it opens.

use vstd::prelude::*;

use crate::text::{trim, trimmed};

verus! {

/// What an address says once parsed, as plain text: the whole normalized
/// address, its scheme, its host if it has one, and its path.
pub struct ParsedUrl {
    pub serialized: String,
    pub scheme: String,
    pub host: Option<String>,
    pub path: String,
}

/// The text of an optional string.
pub open spec fn opt_text(o: Option<String>) -> Option<Seq<char>> {
    match o {
        Some(s) => Some(s@),
        None => None,
    }
}

/// What `url::Url::parse` makes of a text: the serialized address, its
/// scheme, host and path; `None` when it is no address.
pub uninterp spec fn url_parse(text: Seq<char>) -> Option<(Seq<char>, Seq<char>, Option<Seq<char>>, Seq<char>)>;

/// What a parsed address says, as plain text.
pub open spec fn parsed_view(p: Option<ParsedUrl>) -> Option<(Seq<char>, Seq<char>, Option<Seq<char>>, Seq<char>)> {
    match p {
        Some(u) => Some((u.serialized@, u.scheme@, opt_text(u.host), u.path@)),
        None => None,
    }
}

/// Parses an address with `url::Url::parse`, reading its scheme, host,
/// path and normalized form. The result is named `url_parse`.
#[verifier::external_body]
pub(crate) fn parse_url(text: &str) -> (r: Option<ParsedUrl>)
    ensures
        parsed_view(r) == url_parse(text@),
{
    match url::Url::parse(text) {
        Ok(u) => Some(ParsedUrl {
            scheme: u.scheme().to_owned(),
            host: u.host_str().map(|h| h.to_owned()),
            path: u.path().to_owned(),
            serialized: u.into(),
        }),
        Err(_) => None,
    }
}

/// A link clicked in a message, waiting for the user to confirm it.
#[derive(Debug, Clone, PartialEq, Eq)]
pub struct PendingLink {
    /// The complete, normalized address that opens.
    pub url: String,
    /// Where the link really goes: the web host or the mail address.
    pub target: String,
}

/// The address and target a parsed link offers: a web link by its host,
/// a mail link by its address; anything else is not offered.
pub open spec fn offered(p: Option<(Seq<char>, Seq<char>, Option<Seq<char>>, Seq<char>)>) -> Option<(Seq<char>, Seq<char>)> {
    match p {
        None => None,
        Some((url, scheme, host, path)) => if scheme == "http"@ || scheme == "https"@ {
            match host {
                Some(h) => Some((url, h)),
                None => None,
            }
        } else if scheme == "mailto"@ {
            Some((url, path))
        } else {
            None
        },
    }
}

/// A pending link as plain text.
pub open spec fn link_view(l: Option<PendingLink>) -> Option<(Seq<char>, Seq<char>)> {
    match l {
        Some(k) => Some((k.url@, k.target@)),
        None => None,
    }
}

impl PendingLink {
    /// The link a parsed address offers, if it is a web or mail link.
    pub fn from_parsed(parsed: Option<ParsedUrl>) -> (r: Option<PendingLink>)
        ensures
            link_view(r) == offered(parsed_view(parsed)),
    {
        proof {
            reveal_strlit("http");
            reveal_strlit("https");
            reveal_strlit("mailto");
        }
        let u = match parsed {
            Some(u) => u,
            None => return None,
        };
        if crate::text::same_text(u.scheme.as_str(), "http") || crate::text::same_text(u.scheme.as_str(), "https") {
            match u.host {
                Some(h) => Some(PendingLink { url: u.serialized, target: h }),
                None => None,
            }
        } else if crate::text::same_text(u.scheme.as_str(), "mailto") {
            Some(PendingLink { url: u.serialized, target: u.path })
        } else {
            None
        }
    }

    /// Accepts only web and mail links, read without surrounding white
    /// space.
    pub fn parse(link: &str) -> (r: Option<PendingLink>)
        ensures
            link_view(r) == offered(url_parse(trimmed(link@))),
    {
        let t = trim(link);
        PendingLink::from_parsed(parse_url(t.as_str()))
    }
}

/// Web links over http and https are offered with their host as target,
/// and never without a host; mail links are offered with their address as
/// target; a link with any other scheme is not offered, nor one that does
/// not parse.
pub proof fn law_web_and_mail_links_are_offered(
    url: Seq<char>,
    scheme: Seq<char>,
    host: Option<Seq<char>>,
    path: Seq<char>,
)
    ensures
        (scheme == "http"@ || scheme == "https"@) && host is Some ==> offered(Some((url, scheme, host, path)))
            == Some((url, host->0)),
        (scheme == "http"@ || scheme == "https"@) && host is None ==> offered(Some((url, scheme, host, path)))
            is None,
        scheme == "mailto"@ ==> offered(Some((url, scheme, host, path))) == Some((url, path)),
        scheme != "http"@ && scheme != "https"@ && scheme != "mailto"@ ==> offered(
            Some((url, scheme, host, path)),
        ) is None,
        offered(None) is None,
{
    reveal_strlit("http");
    reveal_strlit("https");
    reveal_strlit("mailto");
    assert("http"@.len() == 4 && "https"@.len() == 5 && "mailto"@.len() == 6);
}

} // verus!
