//! URL parsing, query rewriting and resolution, through the `url` crate, on plain strings.

use vstd::prelude::*;

verus! {

/// What the sanitizer reads of a parsed URL: its domain (none for an IP host or a URL
/// without a host) and its query as percent-decoded name/value pairs.
pub type UrlPartsView = (Option<Seq<char>>, Seq<(Seq<char>, Seq<char>)>);

/// The parts of a parsed URL that the sanitizer reads.
pub struct UrlParts {
    pub domain: Option<String>,
    pub query_pairs: Vec<(String, String)>,
}

impl UrlParts {
    pub open spec fn view(&self) -> UrlPartsView {
        (self.domain.deep_view(), self.query_pairs.deep_view())
    }
}

/// What `url::Url::parse` gives for `s`, read through `Url::domain` and
/// `Url::query_pairs`: `None` when `s` is not an absolute URL.
pub uninterp spec fn url_parts_of(s: Seq<char>) -> Option<UrlPartsView>;

/// Parses `s` with `url::Url::parse` and reads its domain (`Url::domain`) and query
/// pairs (`Url::query_pairs`). The contract claims only that the result is a function of
/// `s`.
#[verifier::external_body]
pub(crate) fn url_parts(s: &str) -> (r: Option<UrlParts>)
    ensures
        match r {
            Some(p) => url_parts_of(s@) == Some(p.view()),
            None => url_parts_of(s@) is None,
        },
{
    let u = url::Url::parse(s).ok()?;
    Some(UrlParts {
        domain: u.domain().map(|d| d.to_string()),
        query_pairs: u.query_pairs().map(|(k, v)| (k.into_owned(), v.into_owned())).collect(),
    })
}

/// What `s`, parsed with `url::Url::parse`, then given the query `query` with
/// `Url::set_query` (after clearing it), serializes to: `None` when `s` does not parse.
pub uninterp spec fn url_with_query_of(s: Seq<char>, query: Option<Seq<char>>) -> Option<Seq<char>>;

/// Parses `s` with `url::Url::parse`, clears its query with `Url::set_query(None)`, sets
/// `query` with `Url::set_query`, and serializes it. The contract claims only that the
/// result is a function of the arguments.
#[verifier::external_body]
pub(crate) fn url_with_query(s: &str, query: Option<&str>) -> (r: Option<String>)
    ensures
        match r {
            Some(u) => url_with_query_of(
                s@,
                match query {
                    Some(q) => Some(q@),
                    None => None,
                },
            ) == Some(u@),
            None => url_with_query_of(
                s@,
                match query {
                    Some(q) => Some(q@),
                    None => None,
                },
            ) is None,
        },
{
    let mut u = url::Url::parse(s).ok()?;
    u.set_query(None);
    u.set_query(query);
    Some(u.to_string())
}

/// What `href`, resolved with `Url::join` against `base` parsed with `url::Url::parse`,
/// serializes to: `None` when `base` does not parse or the join fails.
pub uninterp spec fn url_join_of(base: Seq<char>, href: Seq<char>) -> Option<Seq<char>>;

/// Resolves `href` against `base` (`url::Url::parse`, then `Url::join`) and serializes
/// the result. The contract claims only that the result is a function of the arguments.
#[verifier::external_body]
pub(crate) fn url_join(base: &str, href: &str) -> (r: Option<String>)
    ensures
        match r {
            Some(u) => url_join_of(base@, href@) == Some(u@),
            None => url_join_of(base@, href@) is None,
        },
{
    url::Url::parse(base).ok()?.join(href).ok().map(|u| u.to_string())
}

} // verus!
