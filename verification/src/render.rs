//! Rendering of a result list as human-readable text: one numbered block
//! per result, blocks separated by blank lines, and a fixed notice when
//! there is nothing to show.

use vstd::prelude::*;
use vstd::string::*;

use crate::extract::{
    anchor_marker, lemma_extract_empty_without_markers, raw_marker, redirect_marker, spec_extract,
};
use crate::model::{views_of, ResultModel, SearchResult};
use crate::text::{chars_of, contains_pat, dec_of, extend, push_dec, string_of};

verus! {

/// The rendering of the result `r` under the 1-based index `i`:
/// `<index>. <title>`, then the URL and the snippet on indented lines,
/// each line closed by a newline.
pub open spec fn spec_entry(i: nat, r: ResultModel) -> Seq<char> {
    dec_of(i) + seq!['.', ' '] + r.title + seq!['\n', ' ', ' ', ' '] + r.url + seq![
        '\n',
        ' ',
        ' ',
        ' ',
    ] + r.snippet + seq!['\n']
}

/// The renderings of the results from index `j` on, joined with blank
/// lines (each entry already ends in a newline; the separator adds one).
pub open spec fn spec_entries_from(rs: Seq<ResultModel>, j: int) -> Seq<char>
    decreases rs.len() - j,
{
    if j < 0 || j >= rs.len() {
        Seq::empty()
    } else if j == rs.len() - 1 {
        spec_entry((j + 1) as nat, rs[j])
    } else {
        spec_entry((j + 1) as nat, rs[j]) + seq!['\n'] + spec_entries_from(rs, j + 1)
    }
}

/// What `format_results` returns: the joined entries, or a notice naming
/// the query when there are no results.
pub open spec fn spec_format(rs: Seq<ResultModel>, query: Seq<char>) -> Seq<char> {
    if rs.len() == 0 {
        "No results found for: "@ + query
    } else {
        spec_entries_from(rs, 0)
    }
}

/// A page holding no occurrence of any strategy marker yields no results,
/// and the rendering of those results is exactly the notice naming the
/// query.
pub proof fn lemma_no_markers_renders_notice(html: Seq<char>, max: nat, query: Seq<char>)
    requires
        !contains_pat(html, redirect_marker()),
        !contains_pat(html, anchor_marker()),
        !contains_pat(html, raw_marker()),
    ensures
        spec_format(spec_extract(html, max), query) == "No results found for: "@ + query,
{
    lemma_extract_empty_without_markers(html, max);
}

/// Renders a result list, exactly as `spec_format` gives it.
pub fn format_results(results: &Vec<SearchResult>, query: &str) -> (s: String)
    ensures
        s@ == spec_format(views_of(results@), query@),
{
    let n = results.len();
    if n == 0 {
        let mut out = String::from_str("No results found for: ");
        out.append(query);
        return out;
    }
    let ghost rs = views_of(results@);
    let mut out: Vec<char> = Vec::new();
    let mut k: usize = 0;
    while k < n
        invariant
            n == results@.len(),
            1 <= n,
            k <= n,
            rs == views_of(results@),
            rs.len() == n,
            k == 0 ==> out@ == Seq::<char>::empty(),
            1 <= k < n ==> spec_entries_from(rs, 0) == out@ + seq!['\n'] + spec_entries_from(
                rs,
                k as int,
            ),
            k == n ==> out@ == spec_entries_from(rs, 0),
        decreases n - k,
    {
        let ghost out_prev = out@;
        if k > 0 {
            out.push('\n');
        }
        let ghost start = out@;
        push_dec((k + 1) as u64, &mut out);
        out.push('.');
        out.push(' ');
        let tc = chars_of(results[k].title.as_str());
        extend(&mut out, &tc);
        out.push('\n');
        out.push(' ');
        out.push(' ');
        out.push(' ');
        let uc = chars_of(results[k].url.as_str());
        extend(&mut out, &uc);
        out.push('\n');
        out.push(' ');
        out.push(' ');
        out.push(' ');
        let sc = chars_of(results[k].snippet.as_str());
        extend(&mut out, &sc);
        out.push('\n');
        proof {
            assert(out@ =~= start + spec_entry((k + 1) as nat, rs[k as int]));
            if k == 0 {
                if k + 1 < n {
                    assert(spec_entries_from(rs, 0) =~= out@ + seq!['\n'] + spec_entries_from(
                        rs,
                        k + 1,
                    ));
                } else {
                    assert(out@ =~= spec_entries_from(rs, 0));
                }
            } else {
                assert(start =~= out_prev + seq!['\n']);
                if k + 1 < n {
                    assert(spec_entries_from(rs, k as int) =~= spec_entry((k + 1) as nat, rs[k as int])
                        + seq!['\n'] + spec_entries_from(rs, k + 1));
                    assert(spec_entries_from(rs, 0) =~= out@ + seq!['\n'] + spec_entries_from(
                        rs,
                        k + 1,
                    ));
                } else {
                    assert(spec_entries_from(rs, k as int) =~= spec_entry(
                        (k + 1) as nat,
                        rs[k as int],
                    ));
                    assert(out@ =~= spec_entries_from(rs, 0));
                }
            }
        }
        k += 1;
    }
    string_of(&out)
}

} // verus!
