//! The extraction engine: three ordered, independent scanning strategies
//! turn a provider's HTML result page into a bounded, deduplicated sequence
//! of structured results.
//!
//! Strategy order: redirect-parameter values first, then result-anchor
//! `href` attributes, then raw URL occurrences. All three share one output
//! sequence; a candidate URL already present is never added again, and no
//! strategy runs past the configured maximum.

use vstd::prelude::*;
use vstd::string::*;

use crate::model::{has_url, urls_distinct, views_of, ResultModel, SearchResult};
use crate::percent::{percent_decode, percent_decoded};
use crate::text::{
    begins_with, chars_of, char_pred, contains, contains_pat, delim_pred, extend, find_char,
    find_delim, find_pat, find_pat_from, find_term, find_where_from, is_match_at,
    lemma_find_pat_from_props, lemma_find_where_from_props, starts_with, string_of, subvec,
    term_pred,
};

verus! {

// ---------------------------------------------------------------------------
// The markers and filter patterns of the three strategies
// ---------------------------------------------------------------------------

/// The redirect-parameter marker: the query-parameter name under which the
/// provider encodes a result's true destination URL.
pub open spec fn redirect_marker() -> Seq<char> {
    seq!['u', 'd', 'd', 'g', '=']
}

/// The result-anchor marker: the CSS class the provider attaches to the
/// element wrapping a visible result URL.
pub open spec fn anchor_marker() -> Seq<char> {
    seq!['r', 'e', 's', 'u', 'l', 't', '_', '_', 'u', 'r', 'l']
}

/// The raw-URL marker: a literal scheme prefix.
pub open spec fn raw_marker() -> Seq<char> {
    seq!['h', 't', 't', 'p', 's', ':', '/', '/']
}

/// The attribute that carries a result anchor's URL.
pub open spec fn href_marker() -> Seq<char> {
    seq!['h', 'r', 'e', 'f', '=', '"']
}

pub open spec fn http_prefix() -> Seq<char> {
    seq!['h', 't', 't', 'p']
}

pub open spec fn double_slash() -> Seq<char> {
    seq!['/', '/']
}

pub open spec fn https_scheme() -> Seq<char> {
    seq!['h', 't', 't', 'p', 's', ':']
}

/// The provider's own domain; candidates referencing it are dropped.
pub open spec fn provider_domain() -> Seq<char> {
    seq!['d', 'u', 'c', 'k', 'd', 'u', 'c', 'k', 'g', 'o', '.', 'c', 'o', 'm']
}

/// The provider's own host prefix, for raw candidates.
pub open spec fn provider_prefix() -> Seq<char> {
    seq!['d', 'u', 'c', 'k', 'd', 'u', 'c', 'k', 'g', 'o']
}

/// The provider's analytics subdomain, for raw candidates.
pub open spec fn analytics_prefix() -> Seq<char> {
    seq![
        'i', 'm', 'p', 'r', 'o', 'v', 'i', 'n', 'g', '.', 'd', 'u', 'c', 'k', 'd', 'u', 'c', 'k',
        'g', 'o',
    ]
}

pub open spec fn cdn_pat() -> Seq<char> {
    seq!['c', 'd', 'n', '.']
}

pub open spec fn js_pat() -> Seq<char> {
    seq!['.', 'j', 's']
}

pub open spec fn css_pat() -> Seq<char> {
    seq!['.', 'c', 's', 's']
}

pub open spec fn png_pat() -> Seq<char> {
    seq!['.', 'p', 'n', 'g']
}

pub open spec fn ico_pat() -> Seq<char> {
    seq!['.', 'i', 'c', 'o']
}

pub open spec fn dot_pat() -> Seq<char> {
    seq!['.']
}

// ---------------------------------------------------------------------------
// Titles and snippets
// ---------------------------------------------------------------------------

/// The host part of `u`: everything between the first `//` and the next `/`,
/// or `None` where `u` holds no `//`.
pub open spec fn domain_of(u: Seq<char>) -> Option<Seq<char>> {
    match find_pat_from(u, double_slash(), 0) {
        None => None,
        Some(i) => {
            let start = i + 2;
            match find_where_from(u, char_pred('/'), start) {
                None => Some(u.subrange(start, u.len() as int)),
                Some(e) => Some(u.subrange(start, e)),
            }
        },
    }
}

/// The title of a result for URL `u`: its host, or a placeholder where no
/// host, or only an empty one, can be read off.
pub open spec fn title_of(u: Seq<char>) -> Seq<char> {
    match domain_of(u) {
        Some(d) => if d.len() > 0 {
            d
        } else {
            "Result"@
        },
        None => "Result"@,
    }
}

/// The snippet attached by the redirect-parameter strategy.
pub open spec fn redirect_snippet() -> Seq<char> {
    "Search result from DuckDuckGo"@
}

/// The snippet attached by the other two strategies.
pub open spec fn generic_snippet() -> Seq<char> {
    "Search result"@
}

/// The result constructed for an accepted candidate URL.
pub open spec fn result_for(u: Seq<char>, snippet: Seq<char>) -> ResultModel {
    ResultModel { title: title_of(u), url: u, snippet }
}

// ---------------------------------------------------------------------------
// The generic scan: one walk shared by the three strategies
// ---------------------------------------------------------------------------

/// Walks `html` left to right. At each occurrence of `marker` (non-
/// overlapping), `accept` is given the index just past the marker and may
/// append one result. The walk stops once `max` results are collected.
pub open spec fn scan_results(
    html: Seq<char>,
    marker: Seq<char>,
    accept: spec_fn(int, Seq<ResultModel>) -> Seq<ResultModel>,
    from: int,
    max: nat,
    rs: Seq<ResultModel>,
) -> Seq<ResultModel>
    decreases html.len() + 1 - from when marker.len() > 0
{
    if rs.len() >= max || from + marker.len() > html.len() || from < 0 {
        rs
    } else if is_match_at(html, marker, from) {
        scan_results(
            html,
            marker,
            accept,
            from + marker.len(),
            max,
            accept(from + marker.len() as int, rs),
        )
    } else {
        scan_results(html, marker, accept, from + 1, max, rs)
    }
}

/// Positions without a marker occurrence do not change the scan.
pub proof fn lemma_scan_skip(
    html: Seq<char>,
    marker: Seq<char>,
    accept: spec_fn(int, Seq<ResultModel>) -> Seq<ResultModel>,
    from: int,
    to: int,
    max: nat,
    rs: Seq<ResultModel>,
)
    requires
        marker.len() > 0,
        0 <= from <= to,
        forall|j: int| from <= j < to ==> !is_match_at(html, marker, j),
    ensures
        scan_results(html, marker, accept, from, max, rs) == scan_results(
            html,
            marker,
            accept,
            to,
            max,
            rs,
        ),
    decreases to - from,
{
    if from < to {
        if rs.len() >= max {
        } else if from + marker.len() > html.len() {
        } else {
            lemma_scan_skip(html, marker, accept, from + 1, to, max, rs);
        }
    }
}

/// A scan over a stretch with no marker occurrence at all returns its input.
pub proof fn lemma_scan_none(
    html: Seq<char>,
    marker: Seq<char>,
    accept: spec_fn(int, Seq<ResultModel>) -> Seq<ResultModel>,
    from: int,
    max: nat,
    rs: Seq<ResultModel>,
)
    requires
        marker.len() > 0,
        0 <= from,
        forall|j: int| from <= j ==> !is_match_at(html, marker, j),
    ensures
        scan_results(html, marker, accept, from, max, rs) == rs,
    decreases html.len() + 1 - from,
{
    if rs.len() >= max || from + marker.len() > html.len() {
    } else {
        lemma_scan_none(html, marker, accept, from + 1, max, rs);
    }
}

/// An `accept` function is well-behaved when it either returns its input
/// unchanged or appends exactly one result whose URL was not present yet.
pub open spec fn accept_ok(accept: spec_fn(int, Seq<ResultModel>) -> Seq<ResultModel>) -> bool {
    forall|p: int, rs: Seq<ResultModel>|
        #[trigger] accept(p, rs) == rs || (accept(p, rs).len() == rs.len() + 1 && accept(
            p,
            rs,
        ).subrange(0, rs.len() as int) == rs && !has_url(rs, accept(p, rs).last().url))
}

/// A scan with a well-behaved `accept` keeps the result count within `max`
/// and never lets two results share a URL.
pub proof fn lemma_scan_bounded(
    html: Seq<char>,
    marker: Seq<char>,
    accept: spec_fn(int, Seq<ResultModel>) -> Seq<ResultModel>,
    from: int,
    max: nat,
    rs: Seq<ResultModel>,
)
    requires
        marker.len() > 0,
        accept_ok(accept),
        rs.len() <= max,
        urls_distinct(rs),
    ensures
        scan_results(html, marker, accept, from, max, rs).len() <= max,
        urls_distinct(scan_results(html, marker, accept, from, max, rs)),
    decreases html.len() + 1 - from,
{
    if from < 0 {
    } else if rs.len() >= max || from + marker.len() > html.len() {
    } else if is_match_at(html, marker, from) {
        let p = from + marker.len() as int;
        let rs2 = accept(p, rs);
        assert(rs2.len() <= max && urls_distinct(rs2)) by {
            if rs2 != rs {
                assert(forall|i: int| 0 <= i < rs.len() ==> rs2[i] == rs[i]) by {
                    assert(forall|i: int|
                        0 <= i < rs.len() ==> rs2.subrange(0, rs.len() as int)[i] == rs2[i]);
                };
                assert(urls_distinct(rs2)) by {
                    assert(forall|i: int, j: int|
                        0 <= i < j < rs2.len() && j < rs.len() ==> rs2[i].url != rs2[j].url);
                    assert(forall|i: int|
                        0 <= i < rs.len() ==> #[trigger] rs2[i].url != rs2[rs2.len() - 1].url) by {
                        assert(!has_url(rs, rs2.last().url));
                    };
                };
            }
        };
        lemma_scan_bounded(html, marker, accept, from + marker.len(), max, rs2);
    } else {
        lemma_scan_bounded(html, marker, accept, from + 1, max, rs);
    }
}

// ---------------------------------------------------------------------------
// Strategy 1: redirect-parameter values
// ---------------------------------------------------------------------------

/// The candidate URL read off a redirect-parameter occurrence whose value
/// starts at `p`: the text up to the first delimiter, percent-decoded.
pub open spec fn redirect_candidate(html: Seq<char>, p: int) -> Option<Seq<char>> {
    match find_where_from(html, delim_pred(), p) {
        None => None,
        Some(e) => percent_decoded(html.subrange(p, e)),
    }
}

/// Appends the result of the redirect-parameter occurrence at `p`, if its
/// candidate decodes, is an HTTP(S) URL, does not reference the provider's
/// own domain, and was not seen before.
pub open spec fn redirect_accept(html: Seq<char>, p: int, rs: Seq<ResultModel>) -> Seq<
    ResultModel,
> {
    match redirect_candidate(html, p) {
        None => rs,
        Some(u) => if starts_with(u, http_prefix()) && !contains_pat(u, provider_domain())
            && !has_url(rs, u) {
            rs.push(result_for(u, redirect_snippet()))
        } else {
            rs
        },
    }
}

pub open spec fn redirect_accept_fn(html: Seq<char>) -> spec_fn(int, Seq<ResultModel>) -> Seq<
    ResultModel,
> {
    |p: int, rs: Seq<ResultModel>| redirect_accept(html, p, rs)
}

/// All results the redirect-parameter strategy collects from `from` on.
pub open spec fn redirect_results(
    html: Seq<char>,
    from: int,
    max: nat,
    rs: Seq<ResultModel>,
) -> Seq<ResultModel> {
    scan_results(html, redirect_marker(), redirect_accept_fn(html), from, max, rs)
}

// ---------------------------------------------------------------------------
// Strategy 2: result-anchor href attributes
// ---------------------------------------------------------------------------

/// The candidate URL read off a result-anchor occurrence ending at `p`: the
/// quoted value of the next `href` attribute, with a protocol-relative URL
/// normalized to `https:` and anything but an HTTP(S) URL dropped.
pub open spec fn anchor_candidate(html: Seq<char>, p: int) -> Option<Seq<char>> {
    match find_pat_from(html, href_marker(), p) {
        None => None,
        Some(h) => {
            let us = h + href_marker().len();
            match find_where_from(html, char_pred('"'), us as int) {
                None => None,
                Some(e) => {
                    let href = html.subrange(us as int, e);
                    if starts_with(href, double_slash()) {
                        Some(https_scheme() + href)
                    } else if starts_with(href, http_prefix()) {
                        Some(href)
                    } else {
                        None
                    }
                },
            }
        },
    }
}

/// Appends the result of the result-anchor occurrence at `p`, if its
/// candidate exists, does not reference the provider's own domain, and was
/// not seen before.
pub open spec fn anchor_accept(html: Seq<char>, p: int, rs: Seq<ResultModel>) -> Seq<ResultModel> {
    match anchor_candidate(html, p) {
        None => rs,
        Some(u) => if !contains_pat(u, provider_domain()) && !has_url(rs, u) {
            rs.push(result_for(u, generic_snippet()))
        } else {
            rs
        },
    }
}

pub open spec fn anchor_accept_fn(html: Seq<char>) -> spec_fn(int, Seq<ResultModel>) -> Seq<
    ResultModel,
> {
    |p: int, rs: Seq<ResultModel>| anchor_accept(html, p, rs)
}

/// All results the result-anchor strategy collects from `from` on.
pub open spec fn anchor_results(html: Seq<char>, from: int, max: nat, rs: Seq<ResultModel>) -> Seq<
    ResultModel,
> {
    scan_results(html, anchor_marker(), anchor_accept_fn(html), from, max, rs)
}

// ---------------------------------------------------------------------------
// Strategy 3: raw URL occurrences
// ---------------------------------------------------------------------------

/// The filter on a raw host-and-path candidate: not the provider's own or
/// its analytics host, no CDN or static-asset pattern, a plausible hostname
/// (a dot somewhere), and more than five characters.
pub open spec fn raw_ok(dp: Seq<char>) -> bool {
    !starts_with(dp, provider_prefix()) && !starts_with(dp, analytics_prefix()) && !contains_pat(
        dp,
        cdn_pat(),
    ) && !contains_pat(dp, js_pat()) && !contains_pat(dp, css_pat()) && !contains_pat(
        dp,
        png_pat(),
    ) && !contains_pat(dp, ico_pat()) && contains_pat(dp, dot_pat()) && dp.len() > 5
}

/// The candidate URL read off a raw occurrence whose host starts at `p`:
/// the text up to the first terminator, put back behind the scheme.
pub open spec fn raw_candidate(html: Seq<char>, p: int) -> Option<Seq<char>> {
    match find_where_from(html, term_pred(), p) {
        None => None,
        Some(e) => {
            let dp = html.subrange(p, e);
            if raw_ok(dp) {
                Some(raw_marker() + dp)
            } else {
                None
            }
        },
    }
}

/// Appends the result of the raw occurrence at `p`, if its candidate passes
/// the filter and was not seen before.
pub open spec fn raw_accept(html: Seq<char>, p: int, rs: Seq<ResultModel>) -> Seq<ResultModel> {
    match raw_candidate(html, p) {
        None => rs,
        Some(u) => if !has_url(rs, u) {
            rs.push(result_for(u, generic_snippet()))
        } else {
            rs
        },
    }
}

pub open spec fn raw_accept_fn(html: Seq<char>) -> spec_fn(int, Seq<ResultModel>) -> Seq<
    ResultModel,
> {
    |p: int, rs: Seq<ResultModel>| raw_accept(html, p, rs)
}

/// All results the raw-URL strategy collects from `from` on.
pub open spec fn raw_results(html: Seq<char>, from: int, max: nat, rs: Seq<ResultModel>) -> Seq<
    ResultModel,
> {
    scan_results(html, raw_marker(), raw_accept_fn(html), from, max, rs)
}

// ---------------------------------------------------------------------------
// The whole extraction
// ---------------------------------------------------------------------------

/// What `parse_html` returns: the three strategies run in fixed order on one
/// shared output sequence, each stopping once `max` results are collected.
pub open spec fn spec_extract(html: Seq<char>, max: nat) -> Seq<ResultModel> {
    raw_results(
        html,
        0,
        max,
        anchor_results(html, 0, max, redirect_results(html, 0, max, Seq::empty())),
    )
}

pub proof fn lemma_redirect_accept_ok(html: Seq<char>)
    ensures
        accept_ok(redirect_accept_fn(html)),
{
    let f = redirect_accept_fn(html);
    assert forall|p: int, rs: Seq<ResultModel>|
        #[trigger] f(p, rs) == rs || (f(p, rs).len() == rs.len() + 1 && f(p, rs).subrange(
            0,
            rs.len() as int,
        ) == rs && !has_url(rs, f(p, rs).last().url)) by {
        let out = f(p, rs);
        if out != rs {
            let u = redirect_candidate(html, p)->Some_0;
            assert(out == rs.push(result_for(u, redirect_snippet())));
            assert(out.subrange(0, rs.len() as int) =~= rs);
        }
    };
}

pub proof fn lemma_anchor_accept_ok(html: Seq<char>)
    ensures
        accept_ok(anchor_accept_fn(html)),
{
    let f = anchor_accept_fn(html);
    assert forall|p: int, rs: Seq<ResultModel>|
        #[trigger] f(p, rs) == rs || (f(p, rs).len() == rs.len() + 1 && f(p, rs).subrange(
            0,
            rs.len() as int,
        ) == rs && !has_url(rs, f(p, rs).last().url)) by {
        let out = f(p, rs);
        if out != rs {
            let u = anchor_candidate(html, p)->Some_0;
            assert(out == rs.push(result_for(u, generic_snippet())));
            assert(out.subrange(0, rs.len() as int) =~= rs);
        }
    };
}

pub proof fn lemma_raw_accept_ok(html: Seq<char>)
    ensures
        accept_ok(raw_accept_fn(html)),
{
    let f = raw_accept_fn(html);
    assert forall|p: int, rs: Seq<ResultModel>|
        #[trigger] f(p, rs) == rs || (f(p, rs).len() == rs.len() + 1 && f(p, rs).subrange(
            0,
            rs.len() as int,
        ) == rs && !has_url(rs, f(p, rs).last().url)) by {
        let out = f(p, rs);
        if out != rs {
            let u = raw_candidate(html, p)->Some_0;
            assert(out == rs.push(result_for(u, generic_snippet())));
            assert(out.subrange(0, rs.len() as int) =~= rs);
        }
    };
}

/// The invariant of an extracted result: its URL is an absolute HTTP(S)
/// URL, and its title and snippet are never empty.
pub open spec fn result_wf(r: ResultModel) -> bool {
    starts_with(r.url, http_prefix()) && r.title.len() > 0 && r.snippet.len() > 0
}

/// The invariant holds of every result in `rs`.
pub open spec fn results_wf(rs: Seq<ResultModel>) -> bool {
    forall|i: int| 0 <= i < rs.len() ==> result_wf(#[trigger] rs[i])
}

/// An `accept` function respects the result invariant when anything it
/// appends satisfies it.
pub open spec fn accept_wf(accept: spec_fn(int, Seq<ResultModel>) -> Seq<ResultModel>) -> bool {
    forall|p: int, rs: Seq<ResultModel>|
        #[trigger] accept(p, rs) == rs || result_wf(accept(p, rs).last())
}

/// A scan whose `accept` is well-behaved and respects the result invariant
/// keeps the invariant across the whole walk.
pub proof fn lemma_scan_wf(
    html: Seq<char>,
    marker: Seq<char>,
    accept: spec_fn(int, Seq<ResultModel>) -> Seq<ResultModel>,
    from: int,
    max: nat,
    rs: Seq<ResultModel>,
)
    requires
        marker.len() > 0,
        accept_ok(accept),
        accept_wf(accept),
        results_wf(rs),
    ensures
        results_wf(scan_results(html, marker, accept, from, max, rs)),
    decreases html.len() + 1 - from,
{
    if from < 0 {
    } else if rs.len() >= max || from + marker.len() > html.len() {
    } else if is_match_at(html, marker, from) {
        let p = from + marker.len() as int;
        let rs2 = accept(p, rs);
        assert(results_wf(rs2)) by {
            if rs2 != rs {
                assert(forall|i: int|
                    0 <= i < rs.len() ==> rs2.subrange(0, rs.len() as int)[i] == #[trigger] rs2[i]);
                assert(result_wf(rs2[rs2.len() - 1]));
            }
        };
        lemma_scan_wf(html, marker, accept, from + marker.len(), max, rs2);
    } else {
        lemma_scan_wf(html, marker, accept, from + 1, max, rs);
    }
}

pub proof fn lemma_redirect_accept_wf(html: Seq<char>)
    ensures
        accept_wf(redirect_accept_fn(html)),
{
    let f = redirect_accept_fn(html);
    assert forall|p: int, rs: Seq<ResultModel>|
        #[trigger] f(p, rs) == rs || result_wf(f(p, rs).last()) by {
        let out = f(p, rs);
        if out != rs {
            let u = redirect_candidate(html, p)->Some_0;
            assert(out.last() == result_for(u, redirect_snippet()));
            assert(starts_with(u, http_prefix()));
            reveal_strlit("Search result from DuckDuckGo");
            reveal_strlit("Result");
        }
    };
}

pub proof fn lemma_anchor_accept_wf(html: Seq<char>)
    ensures
        accept_wf(anchor_accept_fn(html)),
{
    let f = anchor_accept_fn(html);
    assert forall|p: int, rs: Seq<ResultModel>|
        #[trigger] f(p, rs) == rs || result_wf(f(p, rs).last()) by {
        let out = f(p, rs);
        if out != rs {
            let u = anchor_candidate(html, p)->Some_0;
            assert(out.last() == result_for(u, generic_snippet()));
            reveal_strlit("Search result");
            reveal_strlit("Result");
            let h = find_pat_from(html, href_marker(), p)->Some_0;
            let us = h + href_marker().len();
            let e = find_where_from(html, char_pred('"'), us as int)->Some_0;
            let href = html.subrange(us as int, e);
            if starts_with(href, double_slash()) {
                assert(u == https_scheme() + href);
                assert(u.subrange(0, 4) =~= http_prefix());
            } else {
                assert(u == href && starts_with(href, http_prefix()));
            }
        }
    };
}

pub proof fn lemma_raw_accept_wf(html: Seq<char>)
    ensures
        accept_wf(raw_accept_fn(html)),
{
    let f = raw_accept_fn(html);
    assert forall|p: int, rs: Seq<ResultModel>|
        #[trigger] f(p, rs) == rs || result_wf(f(p, rs).last()) by {
        let out = f(p, rs);
        if out != rs {
            let u = raw_candidate(html, p)->Some_0;
            assert(out.last() == result_for(u, generic_snippet()));
            reveal_strlit("Search result");
            reveal_strlit("Result");
            let e = find_where_from(html, term_pred(), p)->Some_0;
            assert(u == raw_marker() + html.subrange(p, e));
            assert(u.subrange(0, 4) =~= http_prefix());
        }
    };
}

/// Every extracted result satisfies the result invariant: an absolute
/// HTTP(S) URL, a non-empty title, and a non-empty snippet.
pub proof fn lemma_extract_results_wf(html: Seq<char>, max: nat)
    ensures
        results_wf(spec_extract(html, max)),
{
    lemma_redirect_accept_ok(html);
    lemma_anchor_accept_ok(html);
    lemma_raw_accept_ok(html);
    lemma_redirect_accept_wf(html);
    lemma_anchor_accept_wf(html);
    lemma_raw_accept_wf(html);
    let rs0 = Seq::<ResultModel>::empty();
    let rs1 = redirect_results(html, 0, max, rs0);
    let rs2 = anchor_results(html, 0, max, rs1);
    lemma_scan_wf(html, redirect_marker(), redirect_accept_fn(html), 0, max, rs0);
    lemma_scan_wf(html, anchor_marker(), anchor_accept_fn(html), 0, max, rs1);
    lemma_scan_wf(html, raw_marker(), raw_accept_fn(html), 0, max, rs2);
}

/// However large the page: the extraction never yields more than `max`
/// results, and no two of them share a URL.
pub proof fn lemma_extract_bounded_and_deduped(html: Seq<char>, max: nat)
    ensures
        spec_extract(html, max).len() <= max,
        urls_distinct(spec_extract(html, max)),
{
    lemma_redirect_accept_ok(html);
    lemma_anchor_accept_ok(html);
    lemma_raw_accept_ok(html);
    let rs0 = Seq::<ResultModel>::empty();
    let rs1 = redirect_results(html, 0, max, rs0);
    let rs2 = anchor_results(html, 0, max, rs1);
    lemma_scan_bounded(html, redirect_marker(), redirect_accept_fn(html), 0, max, rs0);
    lemma_scan_bounded(html, anchor_marker(), anchor_accept_fn(html), 0, max, rs1);
    lemma_scan_bounded(html, raw_marker(), raw_accept_fn(html), 0, max, rs2);
}

/// A page holding no occurrence of any of the three markers yields nothing.
pub proof fn lemma_extract_empty_without_markers(html: Seq<char>, max: nat)
    requires
        !contains_pat(html, redirect_marker()),
        !contains_pat(html, anchor_marker()),
        !contains_pat(html, raw_marker()),
    ensures
        spec_extract(html, max) == Seq::<ResultModel>::empty(),
{
    let rs0 = Seq::<ResultModel>::empty();
    lemma_scan_none(html, redirect_marker(), redirect_accept_fn(html), 0, max, rs0);
    lemma_scan_none(html, anchor_marker(), anchor_accept_fn(html), 0, max, rs0);
    lemma_scan_none(html, raw_marker(), raw_accept_fn(html), 0, max, rs0);
}

/// Extraction is deterministic: identical pages give identical results.
pub proof fn lemma_extract_deterministic(a: Seq<char>, b: Seq<char>, max: nat)
    requires
        a == b,
    ensures
        spec_extract(a, max) == spec_extract(b, max),
{
}

/// One unfolding of the scan at a marker occurrence.
proof fn lemma_scan_step(
    html: Seq<char>,
    marker: Seq<char>,
    accept: spec_fn(int, Seq<ResultModel>) -> Seq<ResultModel>,
    i: int,
    max: nat,
    rs: Seq<ResultModel>,
)
    requires
        marker.len() > 0,
        is_match_at(html, marker, i),
        rs.len() < max,
    ensures
        scan_results(html, marker, accept, i, max, rs) == scan_results(
            html,
            marker,
            accept,
            i + marker.len(),
            max,
            accept(i + marker.len() as int, rs),
        ),
{
}

// ---------------------------------------------------------------------------
// The executable extractor
// ---------------------------------------------------------------------------

/// A `String` holding the generic snippet text.
fn generic_snippet_string() -> (s: String)
    ensures
        s@ == generic_snippet(),
{
    String::from_str("Search result")
}

/// A `String` holding the redirect-strategy snippet text.
fn redirect_snippet_string() -> (s: String)
    ensures
        s@ == redirect_snippet(),
{
    String::from_str("Search result from DuckDuckGo")
}

/// The host part of `u` as a character vector, as `domain_of` gives it.
fn domain_chars(u: &Vec<char>) -> (r: Option<Vec<char>>)
    ensures
        match r {
            Some(d) => domain_of(u@) == Some(d@),
            None => domain_of(u@) is None,
        },
{
    let dslash: Vec<char> = vec!['/', '/'];
    proof {
        assert(dslash@ =~= double_slash());
    }
    let ulen = u.len();
    match find_pat(u, &dslash, 0) {
        None => None,
        Some(i) => {
            proof {
                lemma_find_pat_from_props(u@, dslash@, 0);
            }
            let start = i + 2;
            match find_char(u, '/', start) {
                None => Some(subvec(u, start, ulen)),
                Some(e) => {
                    proof {
                        lemma_find_where_from_props(u@, char_pred('/'), start as int);
                    }
                    Some(subvec(u, start, e))
                },
            }
        },
    }
}

/// Extracts the host from a URL: everything between the first `//` and the
/// next `/`, or `None` where the URL holds no `//`.
pub fn extract_domain(url: &str) -> (r: Option<String>)
    ensures
        match r {
            Some(d) => domain_of(url@) == Some(d@),
            None => domain_of(url@) is None,
        },
{
    let u = chars_of(url);
    match domain_chars(&u) {
        Some(d) => Some(string_of(&d)),
        None => None,
    }
}

/// The title for an accepted candidate URL: its host, or a placeholder.
fn title_string(u: &Vec<char>) -> (t: String)
    ensures
        t@ == title_of(u@),
{
    match domain_chars(u) {
        Some(d) => {
            if d.len() > 0 {
                string_of(&d)
            } else {
                String::from_str("Result")
            }
        },
        None => String::from_str("Result"),
    }
}

/// Whether some already-collected result carries the URL `u`.
fn has_url_vec(res: &Vec<SearchResult>, u: &Vec<char>) -> (r: bool)
    ensures
        r == has_url(views_of(res@), u@),
{
    let us = string_of(u);
    let mut k: usize = 0;
    while k < res.len()
        invariant
            k <= res@.len(),
            us@ == u@,
            forall|j: int| 0 <= j < k ==> views_of(res@)[j].url != u@,
        decreases res@.len() - k,
    {
        if res[k].url == us {
            proof {
                assert(views_of(res@)[k as int].url == u@);
            }
            return true;
        }
        k += 1;
    }
    false
}

/// Appends the result built for the candidate URL `u`.
fn push_result(res: &mut Vec<SearchResult>, u: &Vec<char>, snippet: String)
    ensures
        views_of(final(res)@) == views_of(old(res)@).push(
            result_for(u@, snippet@),
        ),
{
    let title = title_string(u);
    let url = string_of(u);
    let r = SearchResult { title, url, snippet };
    res.push(r);
    proof {
        assert(views_of(res@) =~= views_of(old(res)@).push(result_for(u@, snippet@)));
    }
}

/// Performs the redirect-parameter acceptance step at value start `p`.
fn redirect_step(
    html: &Vec<char>,
    p: usize,
    http: &Vec<char>,
    ddg: &Vec<char>,
    res: &mut Vec<SearchResult>,
)
    requires
        http@ == http_prefix(),
        ddg@ == provider_domain(),
    ensures
        views_of(final(res)@) == redirect_accept(html@, p as int, views_of(old(res)@)),
{
    match find_delim(html, p) {
        None => {},
        Some(e) => {
            proof {
                lemma_find_where_from_props(html@, delim_pred(), p as int);
            }
            let enc = subvec(html, p, e);
            match percent_decode(&enc) {
                None => {},
                Some(u) => {
                    if begins_with(&u, http) && !contains(&u, ddg) && !has_url_vec(res, &u) {
                        push_result(res, &u, redirect_snippet_string());
                    }
                },
            }
        },
    }
}

/// Runs the redirect-parameter strategy over the whole page.
fn redirect_scan(html: &Vec<char>, max: usize, res: &mut Vec<SearchResult>)
    ensures
        views_of(final(res)@) == redirect_results(
            html@,
            0,
            max as nat,
            views_of(old(res)@),
        ),
{
    let marker: Vec<char> = vec!['u', 'd', 'd', 'g', '='];
    let http: Vec<char> = vec!['h', 't', 't', 'p'];
    let ddg: Vec<char> = vec!['d', 'u', 'c', 'k', 'd', 'u', 'c', 'k', 'g', 'o', '.', 'c', 'o', 'm'];
    proof {
        assert(marker@ =~= redirect_marker());
        assert(http@ =~= http_prefix());
        assert(ddg@ =~= provider_domain());
    }
    let mut pos: usize = 0;
    while res.len() < max
        invariant
            pos <= html@.len() + 1,
            marker@ == redirect_marker(),
            http@ == http_prefix(),
            ddg@ == provider_domain(),
            redirect_results(html@, 0, max as nat, views_of(old(res)@)) == redirect_results(
                html@,
                pos as int,
                max as nat,
                views_of(res@),
            ),
        decreases html@.len() + 1 - pos,
    {
        match find_pat(html, &marker, pos) {
            None => {
                proof {
                    lemma_find_pat_from_props(html@, marker@, pos as int);
                    lemma_scan_none(
                        html@,
                        redirect_marker(),
                        redirect_accept_fn(html@),
                        pos as int,
                        max as nat,
                        views_of(res@),
                    );
                }
                return;
            },
            Some(i) => {
                proof {
                    lemma_find_pat_from_props(html@, marker@, pos as int);
                    lemma_scan_skip(
                        html@,
                        redirect_marker(),
                        redirect_accept_fn(html@),
                        pos as int,
                        i as int,
                        max as nat,
                        views_of(res@),
                    );
                    lemma_scan_step(
                        html@,
                        redirect_marker(),
                        redirect_accept_fn(html@),
                        i as int,
                        max as nat,
                        views_of(res@),
                    );
                }
                // Reading the length bounds the index arithmetic below.
                let _hn = html.len();
                let p = i + marker.len();
                redirect_step(html, p, &http, &ddg, res);
                pos = p;
            },
        }
    }
}

/// Performs the result-anchor acceptance step just past the marker at `p`.
fn anchor_step(
    html: &Vec<char>,
    p: usize,
    href_m: &Vec<char>,
    dslash: &Vec<char>,
    https6: &Vec<char>,
    http: &Vec<char>,
    ddg: &Vec<char>,
    res: &mut Vec<SearchResult>,
)
    requires
        href_m@ == href_marker(),
        dslash@ == double_slash(),
        https6@ == https_scheme(),
        http@ == http_prefix(),
        ddg@ == provider_domain(),
    ensures
        views_of(final(res)@) == anchor_accept(html@, p as int, views_of(old(res)@)),
{
    match find_pat(html, href_m, p) {
        None => {},
        Some(h) => {
            proof {
                lemma_find_pat_from_props(html@, href_m@, p as int);
            }
            // Reading the length bounds the index arithmetic below.
            let _hn = html.len();
            let us = h + 6;
            match find_char(html, '"', us) {
                None => {},
                Some(e) => {
                    proof {
                        lemma_find_where_from_props(html@, char_pred('"'), us as int);
                    }
                    let href = subvec(html, us, e);
                    if begins_with(&href, dslash) {
                        let mut u: Vec<char> = Vec::new();
                        extend(&mut u, https6);
                        extend(&mut u, &href);
                        proof {
                            assert(u@ =~= https_scheme() + href@);
                        }
                        if !contains(&u, ddg) && !has_url_vec(res, &u) {
                            push_result(res, &u, generic_snippet_string());
                        }
                    } else if begins_with(&href, http) {
                        if !contains(&href, ddg) && !has_url_vec(res, &href) {
                            push_result(res, &href, generic_snippet_string());
                        }
                    }
                },
            }
        },
    }
}

/// Runs the result-anchor strategy over the whole page.
fn anchor_scan(html: &Vec<char>, max: usize, res: &mut Vec<SearchResult>)
    ensures
        views_of(final(res)@) == anchor_results(
            html@,
            0,
            max as nat,
            views_of(old(res)@),
        ),
{
    let marker: Vec<char> = vec!['r', 'e', 's', 'u', 'l', 't', '_', '_', 'u', 'r', 'l'];
    let href_m: Vec<char> = vec!['h', 'r', 'e', 'f', '=', '"'];
    let dslash: Vec<char> = vec!['/', '/'];
    let https6: Vec<char> = vec!['h', 't', 't', 'p', 's', ':'];
    let http: Vec<char> = vec!['h', 't', 't', 'p'];
    let ddg: Vec<char> = vec!['d', 'u', 'c', 'k', 'd', 'u', 'c', 'k', 'g', 'o', '.', 'c', 'o', 'm'];
    proof {
        assert(marker@ =~= anchor_marker());
        assert(href_m@ =~= href_marker());
        assert(dslash@ =~= double_slash());
        assert(https6@ =~= https_scheme());
        assert(http@ =~= http_prefix());
        assert(ddg@ =~= provider_domain());
    }
    let mut pos: usize = 0;
    while res.len() < max
        invariant
            pos <= html@.len() + 1,
            marker@ == anchor_marker(),
            href_m@ == href_marker(),
            dslash@ == double_slash(),
            https6@ == https_scheme(),
            http@ == http_prefix(),
            ddg@ == provider_domain(),
            anchor_results(html@, 0, max as nat, views_of(old(res)@)) == anchor_results(
                html@,
                pos as int,
                max as nat,
                views_of(res@),
            ),
        decreases html@.len() + 1 - pos,
    {
        match find_pat(html, &marker, pos) {
            None => {
                proof {
                    lemma_find_pat_from_props(html@, marker@, pos as int);
                    lemma_scan_none(
                        html@,
                        anchor_marker(),
                        anchor_accept_fn(html@),
                        pos as int,
                        max as nat,
                        views_of(res@),
                    );
                }
                return;
            },
            Some(i) => {
                proof {
                    lemma_find_pat_from_props(html@, marker@, pos as int);
                    lemma_scan_skip(
                        html@,
                        anchor_marker(),
                        anchor_accept_fn(html@),
                        pos as int,
                        i as int,
                        max as nat,
                        views_of(res@),
                    );
                    lemma_scan_step(
                        html@,
                        anchor_marker(),
                        anchor_accept_fn(html@),
                        i as int,
                        max as nat,
                        views_of(res@),
                    );
                }
                // Reading the length bounds the index arithmetic below.
                let _hn = html.len();
                let p = i + marker.len();
                anchor_step(html, p, &href_m, &dslash, &https6, &http, &ddg, res);
                pos = p;
            },
        }
    }
}

/// The filter patterns of the raw-URL strategy, built once per scan.
struct RawPats {
    ddgp: Vec<char>,
    improving: Vec<char>,
    cdn: Vec<char>,
    js: Vec<char>,
    css: Vec<char>,
    png: Vec<char>,
    ico: Vec<char>,
    dot: Vec<char>,
}

impl RawPats {
    spec fn wf(&self) -> bool {
        self.ddgp@ == provider_prefix() && self.improving@ == analytics_prefix() && self.cdn@
            == cdn_pat() && self.js@ == js_pat() && self.css@ == css_pat() && self.png@
            == png_pat() && self.ico@ == ico_pat() && self.dot@ == dot_pat()
    }

    fn new() -> (r: Self)
        ensures
            r.wf(),
    {
        let r = RawPats {
            ddgp: vec!['d', 'u', 'c', 'k', 'd', 'u', 'c', 'k', 'g', 'o'],
            improving: vec![
                'i', 'm', 'p', 'r', 'o', 'v', 'i', 'n', 'g', '.', 'd', 'u', 'c', 'k', 'd', 'u',
                'c', 'k', 'g', 'o',
            ],
            cdn: vec!['c', 'd', 'n', '.'],
            js: vec!['.', 'j', 's'],
            css: vec!['.', 'c', 's', 's'],
            png: vec!['.', 'p', 'n', 'g'],
            ico: vec!['.', 'i', 'c', 'o'],
            dot: vec!['.'],
        };
        proof {
            assert(r.ddgp@ =~= provider_prefix());
            assert(r.improving@ =~= analytics_prefix());
            assert(r.cdn@ =~= cdn_pat());
            assert(r.js@ =~= js_pat());
            assert(r.css@ =~= css_pat());
            assert(r.png@ =~= png_pat());
            assert(r.ico@ =~= ico_pat());
            assert(r.dot@ =~= dot_pat());
        }
        r
    }
}

/// Performs the raw-URL acceptance step with the host starting at `p`.
fn raw_step(html: &Vec<char>, p: usize, pats: &RawPats, res: &mut Vec<SearchResult>)
    requires
        pats.wf(),
    ensures
        views_of(final(res)@) == raw_accept(html@, p as int, views_of(old(res)@)),
{
    match find_term(html, p) {
        None => {},
        Some(e) => {
            proof {
                lemma_find_where_from_props(html@, term_pred(), p as int);
            }
            let dp = subvec(html, p, e);
            let ok = !begins_with(&dp, &pats.ddgp) && !begins_with(&dp, &pats.improving)
                && !contains(&dp, &pats.cdn) && !contains(&dp, &pats.js) && !contains(
                &dp,
                &pats.css,
            ) && !contains(&dp, &pats.png) && !contains(&dp, &pats.ico) && contains(
                &dp,
                &pats.dot,
            ) && dp.len() > 5;
            if ok {
                let mut u: Vec<char> = vec!['h', 't', 't', 'p', 's', ':', '/', '/'];
                proof {
                    assert(u@ =~= raw_marker());
                }
                extend(&mut u, &dp);
                if !has_url_vec(res, &u) {
                    push_result(res, &u, generic_snippet_string());
                }
            }
        },
    }
}

/// Runs the raw-URL strategy over the whole page.
fn raw_scan(html: &Vec<char>, max: usize, res: &mut Vec<SearchResult>)
    ensures
        views_of(final(res)@) == raw_results(html@, 0, max as nat, views_of(old(res)@)),
{
    let marker: Vec<char> = vec!['h', 't', 't', 'p', 's', ':', '/', '/'];
    let pats = RawPats::new();
    proof {
        assert(marker@ =~= raw_marker());
    }
    let mut pos: usize = 0;
    while res.len() < max
        invariant
            pos <= html@.len() + 1,
            marker@ == raw_marker(),
            pats.wf(),
            raw_results(html@, 0, max as nat, views_of(old(res)@)) == raw_results(
                html@,
                pos as int,
                max as nat,
                views_of(res@),
            ),
        decreases html@.len() + 1 - pos,
    {
        match find_pat(html, &marker, pos) {
            None => {
                proof {
                    lemma_find_pat_from_props(html@, marker@, pos as int);
                    lemma_scan_none(
                        html@,
                        raw_marker(),
                        raw_accept_fn(html@),
                        pos as int,
                        max as nat,
                        views_of(res@),
                    );
                }
                return;
            },
            Some(i) => {
                proof {
                    lemma_find_pat_from_props(html@, marker@, pos as int);
                    lemma_scan_skip(
                        html@,
                        raw_marker(),
                        raw_accept_fn(html@),
                        pos as int,
                        i as int,
                        max as nat,
                        views_of(res@),
                    );
                    lemma_scan_step(
                        html@,
                        raw_marker(),
                        raw_accept_fn(html@),
                        i as int,
                        max as nat,
                        views_of(res@),
                    );
                }
                // Reading the length bounds the index arithmetic below.
                let _hn = html.len();
                let p = i + marker.len();
                raw_step(html, p, &pats, res);
                pos = p;
            },
        }
    }
}

// ---------------------------------------------------------------------------
// The web-search tool
// ---------------------------------------------------------------------------

/// The extraction engine together with its configured result cap.
#[derive(Debug, Clone, Copy)]
pub struct WebSearchTool {
    /// Maximum number of results to return per extraction.
    max_results: usize,
}

impl WebSearchTool {
    /// The configured result cap.
    pub closed spec fn spec_max_results(&self) -> nat {
        self.max_results as nat
    }

    /// Creates a tool that returns at most `max_results` results per search.
    pub fn new(max_results: usize) -> (t: Self)
        ensures
            t.spec_max_results() == max_results as nat,
    {
        WebSearchTool { max_results }
    }

    /// The configured result cap, executably.
    pub fn max_results(&self) -> (m: usize)
        ensures
            m as nat == self.spec_max_results(),
    {
        self.max_results
    }

    /// Extracts search results from a provider HTML page using the three
    /// strategies in fixed order: exactly `spec_extract`, so the output is
    /// deterministic, holds at most the configured maximum, and no two
    /// entries share a URL.
    pub fn parse_html(&self, html: &str) -> (res: Vec<SearchResult>)
        ensures
            views_of(res@) == spec_extract(html@, self.spec_max_results()),
            res@.len() <= self.spec_max_results(),
            urls_distinct(views_of(res@)),
            results_wf(views_of(res@)),
    {
        let hv = chars_of(html);
        let mut res: Vec<SearchResult> = Vec::new();
        proof {
            assert(views_of(res@) =~= Seq::<ResultModel>::empty());
        }
        redirect_scan(&hv, self.max_results, &mut res);
        anchor_scan(&hv, self.max_results, &mut res);
        raw_scan(&hv, self.max_results, &mut res);
        proof {
            lemma_extract_bounded_and_deduped(html@, self.spec_max_results());
            lemma_extract_results_wf(html@, self.spec_max_results());
        }
        res
    }
}

} // verus!
