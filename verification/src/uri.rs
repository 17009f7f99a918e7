//! The address of a request at the worker that is to answer it.
//!
//! A client's request names a path and a query; the worker that was picked for
//! it lends its host and port. What is a well-formed authority or path is for
//! the `http` types behind `hyper` to say, so those calls stand here behind
//! small functions whose contracts are taken on trust.

use crate::text::address;
use hyper::http::uri::{InvalidUri, InvalidUriParts};
use vstd::prelude::*;

verus! {

/// The error of a text that is no authority, or no path and query.
#[verifier::external_type_specification]
#[verifier::external_body]
pub struct ExInvalidUri(hyper::http::uri::InvalidUri);

/// The error of parts that make no URI together.
#[verifier::external_type_specification]
#[verifier::external_body]
pub struct ExInvalidUriParts(hyper::http::uri::InvalidUriParts);

/// The scheme under which workers are reached.
pub const UPSTREAM_SCHEME: &'static str = "http";

/// Whether `Authority::from_str` accepts `text`.
pub uninterp spec fn authority_accepts(text: Seq<char>) -> bool;

/// What `PathAndQuery::from_str` makes of `text`, read back with
/// `PathAndQuery::as_str`; `None` where it refuses `text`.
pub uninterp spec fn path_and_query_text(text: Seq<char>) -> Option<Seq<char>>;

/// A letter, a digit, a dot or a hyphen.
pub open spec fn is_host_char(c: char) -> bool {
    'a' <= c <= 'z' || 'A' <= c <= 'Z' || '0' <= c <= '9' || c == '.' || c == '-'
}

/// The name or the IPv4 address of a host.
pub open spec fn is_host_name(text: Seq<char>) -> bool {
    forall|i: int| 0 <= i < text.len() ==> is_host_char(#[trigger] text[i])
}

/// A host name with at most one port, both of them plain.
pub open spec fn is_host_and_port(text: Seq<char>) -> bool {
    &&& text.len() > 0
    &&& forall|i: int| 0 <= i < text.len() ==> is_host_char(#[trigger] text[i]) || text[i] == ':'
    &&& forall|i: int, j: int|
        0 <= i < j < text.len() ==> !(#[trigger] text[i] == ':' && #[trigger] text[j] == ':')
}

/// A character that may stand as it is both in a path and in a query, or the
/// mark that parts them.
pub open spec fn is_path_char(c: char) -> bool {
    ||| c == '!'
    ||| '$' <= c <= ';'
    ||| c == '='
    ||| '?' <= c <= '_'
    ||| 'a' <= c <= 'z'
    ||| c == '|'
    ||| c == '~'
}

/// A path, with a query or without, in which nothing needs to be encoded.
pub open spec fn is_path(text: Seq<char>) -> bool {
    text.len() > 0 && forall|i: int| 0 <= i < text.len() ==> is_path_char(#[trigger] text[i])
}

/// A text that is not empty and has no fragment mark.
pub open spec fn is_plain(text: Seq<char>) -> bool {
    text.len() > 0 && !text.contains('#')
}

/// Calls `http::uri::Authority::from_str`, and `Authority::as_str` on what it
/// gives.
///
/// Claimed: whether a text is accepted depends on the text alone; a plain host
/// name with a port is; and an authority that was accepted reads back as the
/// text it was made from.
#[verifier::external_body]
fn parse_authority(text: &str) -> (authority: Result<String, InvalidUri>)
    ensures
        authority is Ok <==> authority_accepts(text@),
        is_host_and_port(text@) ==> authority is Ok,
        authority matches Ok(a) ==> a@ == text@,
{
    text.parse::<hyper::http::uri::Authority>().map(|a| a.as_str().to_owned())
}

/// Calls `http::uri::PathAndQuery::from_str`, and `PathAndQuery::as_str` on
/// what it gives.
///
/// Claimed: the outcome depends on the text alone; a path in which nothing needs
/// to be encoded is accepted; what was accepted, read back and parsed again stays
/// as it is; and an accepted text that is not empty and has no fragment mark
/// reads back unchanged.
#[verifier::external_body]
fn parse_path_and_query(text: &str) -> (path_and_query: Result<String, InvalidUri>)
    ensures
        path_and_query is Ok <==> path_and_query_text(text@) is Some,
        is_path(text@) ==> path_and_query is Ok,
        path_and_query matches Ok(p) ==> path_and_query_text(text@) == Some(p@),
        path_and_query matches Ok(p) ==> path_and_query_text(p@) == Some(p@),
        path_and_query matches Ok(p) ==> (is_plain(text@) ==> p@ == text@),
{
    text.parse::<hyper::http::uri::PathAndQuery>().map(|p| p.as_str().to_owned())
}

/// Calls `hyper::Uri::from_parts` on a scheme, an authority and, where there is
/// one, a path and query, and reads the parts back with `Uri::into_parts`.
///
/// Claimed: with a scheme and an authority there is a URI exactly where there
/// is a path and query too, and it holds the three parts that were given.
#[verifier::external_body]
fn uri_from_parts(scheme: &str, authority: &str, path_and_query: Option<&str>) -> (uri: Result<
    UpstreamUri,
    InvalidUriParts,
>)
    requires
        scheme@ == UPSTREAM_SCHEME@,
        authority_accepts(authority@),
        path_and_query matches Some(p) ==> path_and_query_text(p@) == Some(p@),
    ensures
        uri is Ok <==> path_and_query is Some,
        uri matches Ok(u) ==> {
            &&& u.scheme@ == scheme@
            &&& u.authority@ == authority@
            &&& u.path_and_query@ == path_and_query->0@
        },
{
    let mut parts = hyper::http::uri::Parts::default();
    parts.scheme = Some(scheme.parse().unwrap());
    parts.authority = Some(authority.parse().unwrap());
    parts.path_and_query = path_and_query.map(|p| p.parse().unwrap());
    let parts = hyper::Uri::from_parts(parts)?.into_parts();
    Ok(UpstreamUri {
        scheme: parts.scheme.unwrap().as_str().to_owned(),
        authority: parts.authority.unwrap().as_str().to_owned(),
        path_and_query: parts.path_and_query.unwrap().as_str().to_owned(),
    })
}

/// Where a worker is to find what a client asked for.
#[derive(Debug)]
pub struct UpstreamUri {
    pub scheme: String,
    pub authority: String,
    pub path_and_query: String,
}

/// Why a request has no address at a worker.
#[derive(Clone, Copy, Debug, PartialEq, Eq, Structural)]
pub enum UriError {
    /// The worker's `host:port` is no authority.
    Authority,
    /// The client's path and query is malformed.
    Path,
    /// The client's request names no path.
    Incomplete,
}

impl UpstreamUri {
    /// `self` is the address of the path and query `path` at `host:port`.
    pub open spec fn points_at(self, host: Seq<char>, port: u16, path: Seq<char>) -> bool {
        &&& self.scheme@ == UPSTREAM_SCHEME@
        &&& self.authority@ == crate::text::address_text(host, port)
        &&& self.path_and_query@ == path
    }
}

/// Whether, and to what, the path and query `target` is rewritten for the worker
/// at `host:port`, given whether `host:port` is an authority and what `target`
/// reads as.
pub open spec fn rewritten(
    result: Result<UpstreamUri, UriError>,
    host: Seq<char>,
    port: u16,
    target: Option<Seq<char>>,
    accepted: bool,
    path: Option<Seq<char>>,
) -> bool {
    if !accepted {
        result == Err::<UpstreamUri, UriError>(UriError::Authority)
    } else if target is None {
        result == Err::<UpstreamUri, UriError>(UriError::Incomplete)
    } else if path is None {
        result == Err::<UpstreamUri, UriError>(UriError::Path)
    } else {
        result matches Ok(uri) && uri.points_at(host, port, path->0)
    }
}

proof fn lemma_decimal_text_is_host_name(n: nat)
    ensures
        is_host_name(crate::text::decimal_text(n)),
    decreases n,
{
    if n >= 10 {
        lemma_decimal_text_is_host_name(n / 10);
    }
}

proof fn lemma_address_is_host_and_port(host: Seq<char>, port: u16)
    requires
        is_host_name(host),
    ensures
        is_host_and_port(crate::text::address_text(host, port)),
{
    reveal_strlit(":");
    let text = crate::text::address_text(host, port);
    let digits = crate::text::decimal_text(port as nat);
    lemma_decimal_text_is_host_name(port as nat);
    assert forall|i: int| 0 <= i < text.len() implies (if i == host.len() {
        #[trigger] text[i] == ':'
    } else {
        is_host_char(text[i])
    }) by {
        if i < host.len() {
            assert(text[i] == host[i]);
        } else if i > host.len() {
            assert(text[i] == digits[i - host.len() - 1]);
        }
    }
}

proof fn lemma_path_is_plain(text: Seq<char>)
    requires
        is_path(text),
    ensures
        is_plain(text),
{
    if text.contains('#') {
        let i = choose|i: int| 0 <= i < text.len() && text[i] == '#';
        assert(is_path_char(text[i]));
    }
}

/// Whether a worker can be addressed at `host:port`.
pub fn is_authority(host: &str, port: u16) -> (accepted: bool)
    ensures
        accepted == authority_accepts(crate::text::address_text(host@, port)),
        is_host_name(host@) ==> accepted,
{
    proof {
        if is_host_name(host@) {
            lemma_address_is_host_and_port(host@, port);
        }
    }
    parse_authority(address(host, port).as_str()).is_ok()
}

/// Rewrites a request's address so that it points at the worker at `host:port`:
/// the scheme and the authority are replaced, the path and the query stay.
pub fn upstream_uri(host: &str, port: u16, target: Option<&str>) -> (result: Result<
    UpstreamUri,
    UriError,
>)
    ensures
        rewritten(
            result,
            host@,
            port,
            match target {
                Some(t) => Some(t@),
                None => None,
            },
            authority_accepts(crate::text::address_text(host@, port)),
            match target {
                Some(t) => path_and_query_text(t@),
                None => None,
            },
        ),
        result matches Ok(uri) ==> (is_plain(target->0@) ==> uri.path_and_query@ == target->0@),
        is_host_name(host@) ==> match target {
            Some(t) => is_path(t@) ==> {
                result matches Ok(uri) && uri.points_at(host@, port, t@)
            },
            None => result == Err::<UpstreamUri, UriError>(UriError::Incomplete),
        },
{
    proof {
        if is_host_name(host@) {
            lemma_address_is_host_and_port(host@, port);
        }
        if target is Some && is_path(target->0@) {
            lemma_path_is_plain(target->0@);
        }
    }
    let authority = match parse_authority(address(host, port).as_str()) {
        Ok(authority) => authority,
        Err(_) => return Err(UriError::Authority),
    };
    let path = match target {
        Some(text) => match parse_path_and_query(text) {
            Ok(path) => Some(path),
            Err(_) => return Err(UriError::Path),
        },
        None => None,
    };
    let parts = match &path {
        Some(path) => uri_from_parts(UPSTREAM_SCHEME, authority.as_str(), Some(path.as_str())),
        None => uri_from_parts(UPSTREAM_SCHEME, authority.as_str(), None),
    };
    match parts {
        Ok(uri) => Ok(uri),
        Err(_) => Err(UriError::Incomplete),
    }
}

/// A worker can be addressed exactly where its `host:port` is an authority, and
/// always where its host is a plain one.
pub proof fn law_plain_host_can_be_addressed(host: &str, port: u16, accepted: bool)
    requires
        call_ensures(is_authority, (host, port), accepted),
    ensures
        accepted == authority_accepts(host@ + ":"@ + crate::text::decimal_text(port as nat)),
        (forall|i: int|
            0 <= i < host@.len() ==> 'a' <= #[trigger] host@[i] <= 'z' || '0' <= host@[i] <= '9'
                || host@[i] == '.') ==> accepted,
{
    if forall|i: int|
        0 <= i < host@.len() ==> 'a' <= #[trigger] host@[i] <= 'z' || '0' <= host@[i] <= '9'
            || host@[i] == '.' {
        assert(is_host_name(host@));
    }
}

/// A rewritten address leads to the worker over plain HTTP: its scheme is `http`,
/// its authority reads as the worker's host and port, and its path and query is
/// the client's.
pub proof fn law_rewritten_address_leads_to_the_worker(
    host: &str,
    port: u16,
    target: &str,
    result: Result<UpstreamUri, UriError>,
)
    requires
        call_ensures(upstream_uri, (host, port, Some(target)), result),
    ensures
        result matches Ok(uri) ==> {
            &&& uri.scheme@ == "http"@
            &&& crate::text::reads_as_address(uri.authority@, host@, port as int)
            &&& path_and_query_text(target@) == Some(uri.path_and_query@)
            &&& target@.len() > 0 && !target@.contains('#') ==> uri.path_and_query@ == target@
        },
{
    crate::text::lemma_address_text_reads_as_address(host@, port);
}

/// Whether an address can be rewritten, and what is wrong where it cannot: it can
/// exactly where the worker has an authority and the client a path that is well
/// formed, and the worker's fault is named before the client's.
pub proof fn law_address_is_rewritten_where_it_can_be(
    host: &str,
    port: u16,
    target: Option<&str>,
    result: Result<UpstreamUri, UriError>,
)
    requires
        call_ensures(upstream_uri, (host, port, target), result),
    ensures
        ({
            let addressed = authority_accepts(
                host@ + ":"@ + crate::text::decimal_text(port as nat),
            );
            let named = target is Some;
            let formed = named && path_and_query_text(target->0@) is Some;
            &&& result is Ok <==> addressed && formed
            &&& result matches Err(e) ==> {
                &&& e is Authority <==> !addressed
                &&& e is Incomplete <==> addressed && !named
                &&& e is Path <==> addressed && named && !formed
            }
        }),
{
}

/// A plain path at a plain host is always reached.
pub proof fn law_plain_path_is_reached(
    host: &str,
    port: u16,
    target: &str,
    result: Result<UpstreamUri, UriError>,
)
    requires
        call_ensures(upstream_uri, (host, port, Some(target)), result),
        forall|i: int|
            0 <= i < host@.len() ==> 'a' <= #[trigger] host@[i] <= 'z' || '0' <= host@[i] <= '9'
                || host@[i] == '.',
        target@.len() > 0,
        forall|i: int|
            0 <= i < target@.len() ==> 'a' <= #[trigger] target@[i] <= 'z' || '0' <= target@[i]
                <= '9' || target@[i] == '/' || target@[i] == '_' || target@[i] == '.'
                || target@[i] == '?' || target@[i] == '=' || target@[i] == '&',
    ensures
        result matches Ok(uri) && uri.path_and_query@ == target@,
{
    assert(is_host_name(host@));
    assert(is_path(target@));
}

} // verus!
