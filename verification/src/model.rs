//! The data types the library's contracts speak about: search results, the
//! error taxonomy of a search, and the tool's input arguments.

use vstd::prelude::*;

verus! {

/// One structured search result extracted from a provider's HTML page.
///
/// Invariant (established by the extractor): `url` is an absolute HTTP(S)
/// URL, and `title` and `snippet` are never empty — a generated placeholder
/// stands in when the page supplies nothing.
#[derive(Debug, Clone)]
pub struct SearchResult {
    /// The title of the search result (the result's host, or a placeholder).
    pub title: String,

    /// The URL of the result.
    pub url: String,

    /// A snippet describing the result.
    pub snippet: String,
}

/// The mathematical view of a [`SearchResult`]: each text field as a
/// sequence of characters.
pub struct ResultModel {
    pub title: Seq<char>,
    pub url: Seq<char>,
    pub snippet: Seq<char>,
}

impl View for SearchResult {
    type V = ResultModel;

    open spec fn view(&self) -> ResultModel {
        ResultModel { title: self.title@, url: self.url@, snippet: self.snippet@ }
    }
}

/// The views of a sequence of results, element by element.
pub open spec fn views_of(rs: Seq<SearchResult>) -> Seq<ResultModel> {
    rs.map_values(|r: SearchResult| r@)
}

/// Whether some result in `rs` already carries the URL `u`
/// (case-sensitive exact match).
pub open spec fn has_url(rs: Seq<ResultModel>, u: Seq<char>) -> bool {
    exists|k: int| 0 <= k < rs.len() && rs[k].url == u
}

/// Whether no two results in `rs` share a URL.
pub open spec fn urls_distinct(rs: Seq<ResultModel>) -> bool {
    forall|i: int, j: int| 0 <= i < j < rs.len() ==> rs[i].url != rs[j].url
}

/// What can go wrong when a search is performed.
#[derive(Debug)]
pub enum SearchError {
    /// The provider answered with a non-success status other than
    /// "too many requests"; the payload describes the status.
    SearchFailed(String),

    /// The provider answered with a "too many requests" status.
    RateLimited,

    /// Declared for callers that want to distinguish an empty answer;
    /// the normal flow prefers an empty result list over this error.
    NoResults(String),

    /// A transport-level failure (DNS, TLS, connection, timeout);
    /// the payload describes the failure.
    NetworkError(String),
}

/// The input arguments of the `web_search` capability: a single required
/// query string.
#[derive(Debug, Clone)]
pub struct SearchArgs {
    /// The search query to run.
    pub query: String,
}

} // verus!
