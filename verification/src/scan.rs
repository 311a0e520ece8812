//! Scanning one window of candidates for its first match.

use crate::digest::{candidate_digest, digest_of, is_digest_text, DIGEST_LEN};
use crate::zeros::{ends_with_zeroes, has_zero_tail};
use vstd::prelude::*;

verus! {

/// The candidate `c` matches a request for `n` trailing zeros: its digest ends
/// with at least `n` characters `0`. A run longer than a digest matches
/// nothing.
pub open spec fn is_match(n: nat, c: nat) -> bool {
    n <= DIGEST_LEN && has_zero_tail(candidate_digest(c), n)
}

/// No candidate in `[start, end)` matches.
pub open spec fn no_match_in(n: nat, start: nat, end: nat) -> bool {
    forall|c: nat| start <= c < end ==> !is_match(n, c)
}

/// `c` is the smallest matching candidate in `[start, end)`.
pub open spec fn is_first_match(n: nat, start: nat, end: nat, c: nat) -> bool {
    &&& start <= c < end
    &&& is_match(n, c)
    &&& no_match_in(n, start, c)
}

/// The smallest matching candidate in `[start, end)`, if the window has one.
pub open spec fn first_match(n: nat, start: nat, end: nat) -> Option<nat> {
    if exists|c: nat| is_first_match(n, start, end, c) {
        Some(choose|c: nat| is_first_match(n, start, end, c))
    } else {
        None
    }
}

/// What a scan of `[start, end)` yields: the first match with its digest.
pub open spec fn scan_result(n: nat, start: nat, end: nat) -> Option<(nat, Seq<char>)> {
    match first_match(n, start, end) {
        Some(c) => Some((c, candidate_digest(c))),
        None => None,
    }
}

/// The mathematical content of a scan's outcome.
pub open spec fn scan_view(found: Option<(u32, String)>) -> Option<(nat, Seq<char>)> {
    match found {
        Some(m) => Some((m.0 as nat, m.1@)),
        None => None,
    }
}

/// `found` is a correct outcome of scanning `[start, end)` for `n` trailing
/// zeros: the window's first match together with its digest, or nothing when
/// no candidate of the window matches.
pub open spec fn is_scan_outcome(found: Option<(u32, String)>, n: nat, start: nat, end: nat) -> bool {
    match found {
        Some(m) => {
            &&& is_first_match(n, start, end, m.0 as nat)
            &&& m.1@ == candidate_digest(m.0 as nat)
            &&& is_digest_text(m.1@)
        },
        None => no_match_in(n, start, end),
    }
}

/// A window has at most one first match.
pub proof fn lemma_first_match_unique(n: nat, start: nat, end: nat, a: nat, b: nat)
    requires
        is_first_match(n, start, end, a),
        is_first_match(n, start, end, b),
    ensures
        a == b,
{
    if a < b {
        assert(!is_match(n, a));
    } else if b < a {
        assert(!is_match(n, b));
    }
}

/// A window that holds a match holds a first one.
proof fn lemma_least_match_exists(n: nat, start: nat, end: nat, c: nat)
    requires
        start <= c < end,
        is_match(n, c),
    ensures
        exists|f: nat| is_first_match(n, start, end, f),
    decreases c - start,
{
    if no_match_in(n, start, c) {
        assert(is_first_match(n, start, end, c));
    } else {
        let d = choose|d: nat| start <= d < c && is_match(n, d);
        lemma_least_match_exists(n, start, end, d);
    }
}

/// `first_match` names the smallest match of the window, and is `None` exactly
/// when the window holds no match.
pub proof fn lemma_first_match_characterized(n: nat, start: nat, end: nat)
    ensures
        match first_match(n, start, end) {
            Some(c) => is_first_match(n, start, end, c),
            None => no_match_in(n, start, end),
        },
        forall|c: nat|
            is_first_match(n, start, end, c) ==> first_match(n, start, end) == Some(c),
{
    if exists|c: nat| is_first_match(n, start, end, c) {
        let f = choose|c: nat| is_first_match(n, start, end, c);
        assert forall|c: nat| is_first_match(n, start, end, c) implies first_match(n, start, end)
            == Some(c) by {
            lemma_first_match_unique(n, start, end, c, f);
        }
    } else {
        assert forall|c: nat| start <= c < end implies !is_match(n, c) by {
            if is_match(n, c) {
                lemma_least_match_exists(n, start, end, c);
            }
        }
    }
}

/// Scans the candidates `start, start + 1, ..` below `end` in increasing order
/// and returns the first one whose digest ends with at least `n` zeros,
/// together with that digest; `None` when no candidate of the window matches
/// (an empty window, or a run of zeros longer than a digest, among others).
pub fn find_hash_with_n_zeroes_in_range(n: usize, start: u32, end: u32) -> (found: Option<
    (u32, String),
>)
    ensures
        is_scan_outcome(found, n as nat, start as nat, end as nat),
        scan_view(found) == scan_result(n as nat, start as nat, end as nat),
{
    let mut num: u32 = start;
    while num < end
        invariant
            start <= num,
            no_match_in(n as nat, start as nat, num as nat),
        decreases end - num,
    {
        let hash = digest_of(num);
        if ends_with_zeroes(hash.as_str(), n) {
            proof {
                lemma_first_match_characterized(n as nat, start as nat, end as nat);
            }
            return Some((num, hash));
        }
        num = num + 1;
    }
    proof {
        lemma_first_match_characterized(n as nat, start as nat, end as nat);
    }
    None
}

/// Two correct outcomes of scanning the same window for the same run of zeros
/// have the same content: the scan is a function of its arguments.
pub proof fn lemma_scan_is_deterministic(
    n: nat,
    start: nat,
    end: nat,
    first: Option<(u32, String)>,
    second: Option<(u32, String)>,
)
    requires
        is_scan_outcome(first, n, start, end),
        is_scan_outcome(second, n, start, end),
    ensures
        scan_view(first) == scan_view(second),
        scan_view(first) == scan_result(n, start, end),
{
    lemma_first_match_characterized(n, start, end);
}

/// Whatever a scan returns honours the request: the returned candidate lies in
/// the window and its digest ends with at least `n` zeros.
pub proof fn lemma_scan_match_is_genuine(n: nat, start: nat, end: nat)
    ensures
        scan_result(n, start, end) matches Some(m) ==> start <= m.0 < end && m.1
            == candidate_digest(m.0) && has_zero_tail(m.1, n),
{
    lemma_first_match_characterized(n, start, end);
}

/// With no zeros asked for, every candidate matches.
pub proof fn lemma_zero_count_matches_all(c: nat)
    ensures
        is_match(0, c),
{
}

/// With no zeros asked for, a window that is not empty yields its own start.
pub proof fn lemma_zero_count_yields_start(start: nat, end: nat)
    requires
        start < end,
    ensures
        first_match(0, start, end) == Some(start),
        scan_result(0, start, end) == Some((start, candidate_digest(start))),
{
    assert(is_first_match(0, start, end, start));
    lemma_first_match_characterized(0, start, end);
}

/// A run of zeros longer than a digest is matched by no candidate, so every
/// window comes back empty.
pub proof fn lemma_oversized_run_matches_nothing(n: nat, start: nat, end: nat)
    requires
        n > DIGEST_LEN,
    ensures
        no_match_in(n, start, end),
        first_match(n, start, end) is None,
        scan_result(n, start, end) is None,
{
}

/// An empty window yields nothing.
pub proof fn lemma_empty_window_yields_nothing(n: nat, start: nat, end: nat)
    requires
        start >= end,
    ensures
        first_match(n, start, end) is None,
{
}

} // verus!
