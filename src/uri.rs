//! Pointing a request at the cluster: base authority, then the request's own
//! path and query, verbatim.
use vstd::prelude::*;
use crate::outcome::FailureKind;

verus! {

/// Opaque parsed URI.
#[verifier::external_type_specification]
#[verifier::external_body]
pub struct ExUri(http::Uri);

/// Opaque URI parse error.
#[verifier::external_type_specification]
#[verifier::external_body]
pub struct ExInvalidUri(http::uri::InvalidUri);

/// Whether the URI parser accepts the text `s`.
pub uninterp spec fn uri_accepts(s: Seq<char>) -> bool;

/// Relies on `<http::Uri as TryFrom<&str>>::try_from`: whether it succeeds
/// depends on the text alone.
#[verifier::external_body]
fn parse_uri(s: &str) -> (r: Result<http::Uri, http::uri::InvalidUri>)
    ensures
        r.is_ok() == uri_accepts(s@),
{
    http::Uri::try_from(s)
}

/// The text of the rewritten URI: the base, then the path and query.
pub fn join_uri(base: &String, path_and_query: &String) -> (r: String)
    ensures
        r@ == base@ + path_and_query@,
{
    base.clone().concat(path_and_query.as_str())
}

/// Where a request goes: `text` is the URI that is sent, and `uri` the
/// parser's reading of that same text.
#[derive(Debug)]
pub struct Destination {
    pub text: String,
    pub uri: http::Uri,
}

/// The destination for the text `text` once the parser has answered.
pub fn settle_destination(text: String, parsed: Result<http::Uri, http::uri::InvalidUri>) -> (r:
    Result<Destination, FailureKind>)
    ensures
        parsed.is_ok() ==> (r matches Ok(d) && d.text == text),
        parsed.is_err() ==> r == Err::<Destination, FailureKind>(FailureKind::UriConstruction),
{
    match parsed {
        Ok(uri) => Ok(Destination { text, uri }),
        Err(_) => Err(FailureKind::UriConstruction),
    }
}

/// The destination of a request whose path and query is `path_and_query`,
/// on the cluster at `base`.
pub fn rewrite_uri(base: &String, path_and_query: &Option<String>) -> (r: Result<
    Destination,
    FailureKind,
>)
    ensures
        path_and_query is None ==> r == Err::<Destination, FailureKind>(FailureKind::UriConstruction),
        path_and_query matches Some(pq) ==> {
            &&& uri_accepts(base@ + pq@) ==> (r matches Ok(d) && d.text@ == base@ + pq@)
            &&& !uri_accepts(base@ + pq@) ==> r == Err::<Destination, FailureKind>(
                FailureKind::UriConstruction,
            )
        },
{
    match path_and_query {
        None => Err(FailureKind::UriConstruction),
        Some(pq) => {
            let text = join_uri(base, pq);
            let parsed = parse_uri(text.as_str());
            settle_destination(text, parsed)
        },
    }
}

} // verus!
