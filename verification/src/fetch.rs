//! The compute side of the fetcher: building the outbound search URL and
//! classifying the provider's HTTP response. The HTTP transfer itself is
//! the caller's concern; it hands status and body back in as plain values.

use vstd::prelude::*;
use vstd::string::*;

use crate::extract::{spec_extract, WebSearchTool};
use crate::model::{urls_distinct, views_of, SearchError, SearchResult};
use crate::percent::{percent_encode, percent_encoded};
use crate::text::{dec_of, push_dec, string_of};

verus! {

/// The fixed target of a search request, up to the encoded query.
pub open spec fn search_url_prefix() -> Seq<char> {
    "https://html.duckduckgo.com/html/?q="@
}

/// The URL a search for `query` is sent to: the provider's HTML endpoint
/// with the percent-encoded query as its one parameter.
pub fn build_search_url(query: &str) -> (url: String)
    ensures
        url@ == search_url_prefix() + percent_encoded(query@),
{
    let enc = percent_encode(query);
    let mut url = String::from_str("https://html.duckduckgo.com/html/?q=");
    url.append(enc.as_str());
    url
}

/// HTTP statuses that count as success.
pub open spec fn is_success_status(status: u16) -> bool {
    200 <= status < 300
}

/// The status the provider uses to signal rate limiting.
pub const TOO_MANY_REQUESTS: u16 = 429;

/// The message carried by a `SearchFailed` error for `status`.
pub open spec fn status_message(status: u16) -> Seq<char> {
    seq!['H', 'T', 'T', 'P', ' '] + dec_of(status as nat)
}

/// Classifies a provider response status: success statuses pass; a
/// too-many-requests status yields `RateLimited`; every other status
/// yields `SearchFailed` naming the status.
pub fn classify_status(status: u16) -> (r: Result<(), SearchError>)
    ensures
        r is Ok <==> is_success_status(status),
        (r matches Err(SearchError::RateLimited)) <==> (status == 429),
        !is_success_status(status) && status != 429 ==> (r matches Err(
            SearchError::SearchFailed(m),
        ) && m@ == status_message(status)),
{
    if 200 <= status && status < 300 {
        Ok(())
    } else if status == TOO_MANY_REQUESTS {
        Err(SearchError::RateLimited)
    } else {
        let mut msg: Vec<char> = vec!['H', 'T', 'T', 'P', ' '];
        proof {
            assert(msg@ =~= seq!['H', 'T', 'T', 'P', ' ']);
        }
        push_dec(status as u64, &mut msg);
        Err(SearchError::SearchFailed(string_of(&msg)))
    }
}

impl WebSearchTool {
    /// Turns one provider response into the search's outcome: on a success
    /// status the results extracted from the body, on a too-many-requests
    /// status `RateLimited`, on any other status `SearchFailed`.
    pub fn search_outcome(&self, status: u16, body: &str) -> (r: Result<
        Vec<SearchResult>,
        SearchError,
    >)
        ensures
            r is Ok <==> is_success_status(status),
            is_success_status(status) ==> (r matches Ok(res) && views_of(res@) == spec_extract(
                body@,
                self.spec_max_results(),
            ) && res@.len() <= self.spec_max_results() && urls_distinct(views_of(res@))),
            (r matches Err(SearchError::RateLimited)) <==> (status == 429),
            !is_success_status(status) && status != 429 ==> (r matches Err(
                SearchError::SearchFailed(m),
            ) && m@ == status_message(status)),
    {
        match classify_status(status) {
            Ok(()) => Ok(self.parse_html(body)),
            Err(e) => Err(e),
        }
    }
}

} // verus!
