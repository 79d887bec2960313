//! Character-sequence scanning primitives: substring search, delimiter
//! search, prefix tests, conversions between `str`, `Vec<char>` and
//! `String`, and decimal rendering of integers. Every executable function
//! is specified exactly against a spec-level counterpart.

use vstd::prelude::*;
use vstd::string::*;

verus! {

// ---------------------------------------------------------------------------
// Substring matching
// ---------------------------------------------------------------------------

/// `pat` occurs in `s` starting at index `i`.
pub open spec fn is_match_at(s: Seq<char>, pat: Seq<char>, i: int) -> bool {
    0 <= i && i + pat.len() <= s.len() && s.subrange(i, i + pat.len() as int) == pat
}

/// `pat` occurs somewhere in `s`.
pub open spec fn contains_pat(s: Seq<char>, pat: Seq<char>) -> bool {
    exists|i: int| is_match_at(s, pat, i)
}

/// `s` begins with `p`.
pub open spec fn starts_with(s: Seq<char>, p: Seq<char>) -> bool {
    is_match_at(s, p, 0)
}

/// The least index `i >= from` at which `pat` occurs in `s`, if any.
pub open spec fn find_pat_from(s: Seq<char>, pat: Seq<char>, from: int) -> Option<int>
    decreases s.len() + 1 - from,
{
    if from < 0 || from + pat.len() > s.len() {
        None
    } else if is_match_at(s, pat, from) {
        Some(from)
    } else {
        find_pat_from(s, pat, from + 1)
    }
}

/// `find_pat_from` returns exactly the least match position at or after
/// `from`, and `None` exactly when no such position exists.
pub proof fn lemma_find_pat_from_props(s: Seq<char>, pat: Seq<char>, from: int)
    requires
        0 <= from,
    ensures
        match find_pat_from(s, pat, from) {
            Some(i) => from <= i && is_match_at(s, pat, i) && (forall|j: int|
                from <= j < i ==> !is_match_at(s, pat, j)),
            None => forall|j: int| from <= j ==> !is_match_at(s, pat, j),
        },
    decreases s.len() + 1 - from,
{
    if from + pat.len() > s.len() {
        assert(forall|j: int| from <= j ==> !is_match_at(s, pat, j));
    } else if is_match_at(s, pat, from) {
    } else {
        lemma_find_pat_from_props(s, pat, from + 1);
    }
}

/// `pat` occurs in `s` exactly when a search from the start finds it.
pub proof fn lemma_contains_iff_find(s: Seq<char>, pat: Seq<char>)
    ensures
        contains_pat(s, pat) <==> find_pat_from(s, pat, 0) is Some,
{
    lemma_find_pat_from_props(s, pat, 0);
    if find_pat_from(s, pat, 0) is Some {
        let i = find_pat_from(s, pat, 0)->Some_0;
        assert(is_match_at(s, pat, i));
    }
}

/// Exec test: does `pat` occur in `s` at index `i`?
fn match_at(s: &Vec<char>, pat: &Vec<char>, i: usize) -> (r: bool)
    requires
        i + pat@.len() <= s@.len(),
    ensures
        r == is_match_at(s@, pat@, i as int),
{
    let ghost send: int = i + pat@.len();
    let n = s.len();
    let mut j: usize = 0;
    while j < pat.len()
        invariant
            j <= pat@.len(),
            i + pat@.len() <= s@.len(),
            n == s@.len(),
            forall|k: int| 0 <= k < j ==> s@[i + k] == pat@[k],
        decreases pat@.len() - j,
    {
        if s[i + j] != pat[j] {
            proof {
                assert(!is_match_at(s@, pat@, i as int)) by {
                    if is_match_at(s@, pat@, i as int) {
                        assert(s@.subrange(i as int, send)[j as int] == s@[i + j]);
                    }
                };
            }
            return false;
        }
        j += 1;
    }
    proof {
        assert(s@.subrange(i as int, send) =~= pat@);
    }
    true
}

/// Exec substring search: the least index `i >= from` where `pat` occurs
/// in `s`, exactly as `find_pat_from` gives it.
pub fn find_pat(s: &Vec<char>, pat: &Vec<char>, from: usize) -> (r: Option<usize>)
    ensures
        match r {
            Some(i) => find_pat_from(s@, pat@, from as int) == Some(i as int),
            None => find_pat_from(s@, pat@, from as int) is None,
        },
{
    if pat.len() == 0 {
        if from <= s.len() {
            proof {
                assert(s@.subrange(from as int, from as int) =~= pat@);
            }
            return Some(from);
        } else {
            return None;
        }
    }
    if pat.len() > s.len() || from > s.len() - pat.len() {
        proof {
            lemma_find_pat_from_props(s@, pat@, from as int);
            assert(forall|j: int| from <= j ==> !is_match_at(s@, pat@, j));
        }
        return None;
    }
    let n = s.len();
    let end = n - pat.len();
    let mut i = from;
    while i <= end
        invariant
            from <= i <= end + 1,
            end == s@.len() - pat@.len(),
            1 <= pat@.len() <= s@.len(),
            n == s@.len(),
            forall|j: int| from <= j < i ==> !is_match_at(s@, pat@, j),
        decreases end + 1 - i,
    {
        if match_at(s, pat, i) {
            proof {
                lemma_find_pat_from_props(s@, pat@, from as int);
            }
            return Some(i);
        }
        i += 1;
    }
    proof {
        lemma_find_pat_from_props(s@, pat@, from as int);
        assert(forall|j: int| from <= j && is_match_at(s@, pat@, j) ==> j <= end);
    }
    None
}

/// Exec test: does `pat` occur anywhere in `s`?
pub fn contains(s: &Vec<char>, pat: &Vec<char>) -> (r: bool)
    ensures
        r == contains_pat(s@, pat@),
{
    proof {
        lemma_contains_iff_find(s@, pat@);
    }
    match find_pat(s, pat, 0) {
        Some(_) => true,
        None => false,
    }
}

/// Exec test: does `s` begin with `p`?
pub fn begins_with(s: &Vec<char>, p: &Vec<char>) -> (r: bool)
    ensures
        r == starts_with(s@, p@),
{
    if p.len() > s.len() {
        return false;
    }
    match_at(s, p, 0)
}

// ---------------------------------------------------------------------------
// Single-character searches
// ---------------------------------------------------------------------------

/// The least index `i >= from` with `pred(s[i])`, if any.
pub open spec fn find_where_from(s: Seq<char>, pred: spec_fn(char) -> bool, from: int) -> Option<
    int,
>
    decreases s.len() - from,
{
    if from < 0 || from >= s.len() {
        None
    } else if pred(s[from]) {
        Some(from)
    } else {
        find_where_from(s, pred, from + 1)
    }
}

/// `find_where_from` returns exactly the least index at or after `from`
/// whose character satisfies `pred`, and `None` exactly when none does.
pub proof fn lemma_find_where_from_props(s: Seq<char>, pred: spec_fn(char) -> bool, from: int)
    requires
        0 <= from,
    ensures
        match find_where_from(s, pred, from) {
            Some(i) => from <= i < s.len() && pred(s[i]) && (forall|j: int|
                from <= j < i ==> !pred(s[j])),
            None => forall|j: int| from <= j < s.len() ==> !pred(s[j]),
        },
    decreases s.len() - from,
{
    if from >= s.len() {
    } else if pred(s[from]) {
    } else {
        lemma_find_where_from_props(s, pred, from + 1);
    }
}

/// The delimiters that end a redirect-parameter value.
pub open spec fn is_delim(c: char) -> bool {
    c == '&' || c == '"' || c == '\''
}

/// The terminators that end a raw URL candidate.
pub open spec fn is_term(c: char) -> bool {
    c == '"' || c == '\'' || c == '<' || c == '>' || c == ' ' || c == ')'
}

pub open spec fn delim_pred() -> spec_fn(char) -> bool {
    |c: char| is_delim(c)
}

pub open spec fn term_pred() -> spec_fn(char) -> bool {
    |c: char| is_term(c)
}

pub open spec fn char_pred(ch: char) -> spec_fn(char) -> bool {
    |c: char| c == ch
}

/// Exec search for the first redirect-parameter delimiter at or after `from`.
pub fn find_delim(s: &Vec<char>, from: usize) -> (r: Option<usize>)
    ensures
        match r {
            Some(i) => find_where_from(s@, delim_pred(), from as int) == Some(i as int),
            None => find_where_from(s@, delim_pred(), from as int) is None,
        },
{
    let mut i = from;
    while i < s.len()
        invariant
            from <= i,
            forall|j: int| from <= j < i && j < s@.len() ==> !(delim_pred())(s@[j]),
        decreases s@.len() - i,
    {
        let c = s[i];
        if c == '&' || c == '"' || c == '\'' {
            proof {
                lemma_find_where_from_props(s@, delim_pred(), from as int);
            }
            return Some(i);
        }
        i += 1;
    }
    proof {
        lemma_find_where_from_props(s@, delim_pred(), from as int);
    }
    None
}

/// Exec search for the first raw-URL terminator at or after `from`.
pub fn find_term(s: &Vec<char>, from: usize) -> (r: Option<usize>)
    ensures
        match r {
            Some(i) => find_where_from(s@, term_pred(), from as int) == Some(i as int),
            None => find_where_from(s@, term_pred(), from as int) is None,
        },
{
    let mut i = from;
    while i < s.len()
        invariant
            from <= i,
            forall|j: int| from <= j < i && j < s@.len() ==> !(term_pred())(s@[j]),
        decreases s@.len() - i,
    {
        let c = s[i];
        if c == '"' || c == '\'' || c == '<' || c == '>' || c == ' ' || c == ')' {
            proof {
                lemma_find_where_from_props(s@, term_pred(), from as int);
            }
            return Some(i);
        }
        i += 1;
    }
    proof {
        lemma_find_where_from_props(s@, term_pred(), from as int);
    }
    None
}

/// Exec search for the first occurrence of the character `ch` at or after
/// `from`.
pub fn find_char(s: &Vec<char>, ch: char, from: usize) -> (r: Option<usize>)
    ensures
        match r {
            Some(i) => find_where_from(s@, char_pred(ch), from as int) == Some(i as int),
            None => find_where_from(s@, char_pred(ch), from as int) is None,
        },
{
    let mut i = from;
    while i < s.len()
        invariant
            from <= i,
            forall|j: int| from <= j < i && j < s@.len() ==> !(char_pred(ch))(s@[j]),
        decreases s@.len() - i,
    {
        if s[i] == ch {
            proof {
                lemma_find_where_from_props(s@, char_pred(ch), from as int);
            }
            return Some(i);
        }
        i += 1;
    }
    proof {
        lemma_find_where_from_props(s@, char_pred(ch), from as int);
    }
    None
}

// ---------------------------------------------------------------------------
// Conversions
// ---------------------------------------------------------------------------

/// The characters of `s`, as a vector.
pub fn chars_of(s: &str) -> (v: Vec<char>)
    ensures
        v@ == s@,
{
    let n = s.unicode_len();
    let mut v: Vec<char> = Vec::new();
    let mut i: usize = 0;
    while i < n
        invariant
            i <= n,
            n == s@.len(),
            v@ == s@.subrange(0, i as int),
        decreases n - i,
    {
        let c = s.get_char(i);
        v.push(c);
        proof {
            assert(v@ =~= s@.subrange(0, i + 1 as int));
        }
        i += 1;
    }
    proof {
        assert(v@ =~= s@);
    }
    v
}

/// Relies on `String::push` of std: it appends the given character to the
/// end of the string.
pub assume_specification[ String::push ](s: &mut String, ch: char)
    ensures
        final(s)@ == old(s)@.push(ch),
;

/// A `String` holding exactly the characters of `v`.
pub fn string_of(v: &Vec<char>) -> (s: String)
    ensures
        s@ == v@,
{
    let mut s = String::new();
    let mut i: usize = 0;
    while i < v.len()
        invariant
            i <= v@.len(),
            s@ == v@.subrange(0, i as int),
        decreases v@.len() - i,
    {
        s.push(v[i]);
        proof {
            assert(s@ =~= v@.subrange(0, i + 1 as int));
        }
        i += 1;
    }
    proof {
        assert(s@ =~= v@);
    }
    s
}

/// The sub-vector of `v` from index `a` (inclusive) to `b` (exclusive).
pub fn subvec(v: &Vec<char>, a: usize, b: usize) -> (r: Vec<char>)
    requires
        a <= b <= v@.len(),
    ensures
        r@ == v@.subrange(a as int, b as int),
{
    let mut r: Vec<char> = Vec::new();
    let mut i = a;
    while i < b
        invariant
            a <= i <= b <= v@.len(),
            r@ == v@.subrange(a as int, i as int),
        decreases b - i,
    {
        r.push(v[i]);
        proof {
            assert(r@ =~= v@.subrange(a as int, i + 1 as int));
        }
        i += 1;
    }
    r
}

/// Appends `w` to `v`.
pub fn extend(v: &mut Vec<char>, w: &Vec<char>)
    ensures
        final(v)@ == old(v)@ + w@,
{
    let mut i: usize = 0;
    while i < w.len()
        invariant
            i <= w@.len(),
            v@ == old(v)@ + w@.subrange(0, i as int),
        decreases w@.len() - i,
    {
        v.push(w[i]);
        proof {
            assert(v@ =~= old(v)@ + w@.subrange(0, i + 1 as int));
        }
        i += 1;
    }
    proof {
        assert(v@ =~= old(v)@ + w@);
    }
}

// ---------------------------------------------------------------------------
// Decimal rendering
// ---------------------------------------------------------------------------

/// The character for the decimal digit `d`.
pub open spec fn digit_char(d: nat) -> char {
    if d == 0 {
        '0'
    } else if d == 1 {
        '1'
    } else if d == 2 {
        '2'
    } else if d == 3 {
        '3'
    } else if d == 4 {
        '4'
    } else if d == 5 {
        '5'
    } else if d == 6 {
        '6'
    } else if d == 7 {
        '7'
    } else if d == 8 {
        '8'
    } else {
        '9'
    }
}

/// The decimal rendering of `n`, most significant digit first, without
/// leading zeros (`dec_of(0)` is `"0"`).
pub open spec fn dec_of(n: nat) -> Seq<char>
    decreases n,
{
    if n < 10 {
        seq![digit_char(n)]
    } else {
        dec_of(n / 10).push(digit_char(n % 10))
    }
}

/// The character for the decimal digit `d`, executably.
fn digit_of(d: u64) -> (c: char)
    requires
        d < 10,
    ensures
        c == digit_char(d as nat),
{
    if d == 0 {
        '0'
    } else if d == 1 {
        '1'
    } else if d == 2 {
        '2'
    } else if d == 3 {
        '3'
    } else if d == 4 {
        '4'
    } else if d == 5 {
        '5'
    } else if d == 6 {
        '6'
    } else if d == 7 {
        '7'
    } else if d == 8 {
        '8'
    } else {
        '9'
    }
}

/// Appends the decimal rendering of `n` to `out`.
pub fn push_dec(n: u64, out: &mut Vec<char>)
    ensures
        final(out)@ == old(out)@ + dec_of(n as nat),
    decreases n,
{
    if n < 10 {
        out.push(digit_of(n));
        proof {
            assert(out@ =~= old(out)@ + dec_of(n as nat));
        }
    } else {
        push_dec(n / 10, out);
        out.push(digit_of(n % 10));
        proof {
            assert(out@ =~= old(out)@ + dec_of(n as nat));
        }
    }
}

} // verus!
