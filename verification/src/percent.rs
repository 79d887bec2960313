//! Trusted boundary to the `urlencoding` crate: percent-decoding of
//! redirect-parameter values and percent-encoding of outbound queries.
//! Both calls compute from their argument alone, so each result is given
//! a name the contracts of the verified callers speak of.

use vstd::prelude::*;

verus! {

/// What `urlencoding::decode` returns on the characters `s`: the
/// percent-decoded text, or `None` where the decoded bytes are not valid
/// UTF-8. The result depends on `s` alone.
pub uninterp spec fn percent_decoded(s: Seq<char>) -> Option<Seq<char>>;

/// What `urlencoding::encode` returns on the characters `s`: the text with
/// every byte outside alphanumerics and `-`, `_`, `.`, `~` percent-encoded.
/// The result depends on `s` alone.
pub uninterp spec fn percent_encoded(s: Seq<char>) -> Seq<char>;

/// Relies on `urlencoding::decode`: percent-decodes its input assuming
/// UTF-8, and fails exactly when the decoded bytes are not valid UTF-8.
#[verifier::external_body]
pub fn percent_decode(s: &Vec<char>) -> (r: Option<Vec<char>>)
    ensures
        match r {
            Some(d) => percent_decoded(s@) == Some(d@),
            None => percent_decoded(s@) is None,
        },
{
    let text: String = s.iter().collect();
    match urlencoding::decode(&text) {
        Ok(decoded) => Some(decoded.chars().collect()),
        Err(_) => None,
    }
}

/// Relies on `urlencoding::encode`: percent-encodes every byte of its
/// input except alphanumerics and `-`, `_`, `.`, `~`.
#[verifier::external_body]
pub fn percent_encode(s: &str) -> (r: String)
    ensures
        r@ == percent_encoded(s@),
{
    urlencoding::encode(s).into_owned()
}

} // verus!
