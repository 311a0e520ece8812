//! The search: windows are dispatched in order, each is scanned once, and the
//! matches are collected until the quota is met or the domain is used up.
//!
//! `SearchCoordinator` holds the state of one search and takes every decision:
//! which window comes next, whether the search goes on, and what joins the
//! results. Scanning a window is the only work it hands out, so a caller may
//! run `scan_window` wherever it likes and hand the outcome back.
//! `find_hash_with_n_zeroes` runs the whole search in place.

use crate::digest::{candidate_digest, is_digest_text, DIGEST_LEN};
use crate::scan::{
    find_hash_with_n_zeroes_in_range, is_first_match, is_match, is_scan_outcome,
    lemma_first_match_characterized, scan_result, scan_view,
};
use crate::window::{
    at_most, lemma_window_bounds, lemma_window_follows, lemma_window_starts_increase, nth_window,
    window_end, window_start, ScanWindow, DOMAIN_MAX, FIRST_CANDIDATE, WINDOW_COUNT,
};
use crate::zeros::has_zero_tail;
use vstd::prelude::*;

verus! {

/// The matches that the first `k` windows yield, in window order: for each
/// window its first match with the digest, where it has one.
pub open spec fn hits(n: nat, k: nat) -> Seq<(nat, Seq<char>)>
    decreases k,
{
    if k == 0 {
        Seq::empty()
    } else {
        let before = hits(n, (k - 1) as nat);
        match scan_result(n, window_start((k - 1) as nat), window_end((k - 1) as nat)) {
            Some(m) => before.push(m),
            None => before,
        }
    }
}

/// What a search for `q` matches with `n` trailing zeros returns: the first
/// `q` of the matches that the windows of the whole domain yield, or all of
/// them where they are fewer.
pub open spec fn search_result(n: nat, q: nat) -> Seq<(nat, Seq<char>)> {
    let all = hits(n, WINDOW_COUNT as nat);
    if q <= all.len() {
        all.take(q as int)
    } else {
        all
    }
}

/// The mathematical content of a list of matches.
pub open spec fn matches_view(found: Seq<(u32, String)>) -> Seq<(nat, Seq<char>)> {
    Seq::new(found.len(), |i: int| (found[i].0 as nat, found[i].1@))
}

/// Every match of the list carries a text of a digest's shape.
pub open spec fn all_digest_texts(found: Seq<(u32, String)>) -> bool {
    forall|i: int| 0 <= i < found.len() ==> is_digest_text((#[trigger] found[i]).1@)
}

/// Where a search stands.
#[derive(Clone, Copy, Debug, PartialEq, Eq, Structural)]
pub enum SearchState {
    /// The quota is not met and a window is left: the search goes on.
    Dispatch,
    /// As many matches as were asked for have been collected.
    Satisfied,
    /// The domain is used up, or no digest can end with the run asked for,
    /// and the matches collected are fewer than the quota.
    Exhausted,
}

/// The mathematical content of a `SearchCoordinator`.
pub struct CoordinatorView {
    /// Length of the run of zeros asked for.
    pub zero_count: nat,
    /// Number of matches asked for.
    pub quota: nat,
    /// Number of windows scanned and recorded so far.
    pub dispatched: nat,
    /// The matches collected so far.
    pub results: Seq<(nat, Seq<char>)>,
}

impl CoordinatorView {
    /// The state a search starts in.
    pub open spec fn initial(n: nat, q: nat) -> CoordinatorView {
        CoordinatorView { zero_count: n, quota: q, dispatched: 0, results: Seq::empty() }
    }

    /// What holds of every coordinator: the results are exactly what the
    /// windows recorded so far yield, and they never exceed the quota.
    pub open spec fn wf(self) -> bool {
        &&& self.dispatched <= WINDOW_COUNT
        &&& self.results == hits(self.zero_count, self.dispatched)
        &&& self.results.len() <= self.quota
    }

    /// The state of the search.
    pub open spec fn state(self) -> SearchState {
        if self.results.len() >= self.quota {
            SearchState::Satisfied
        } else if self.dispatched >= WINDOW_COUNT || self.zero_count > DIGEST_LEN {
            SearchState::Exhausted
        } else {
            SearchState::Dispatch
        }
    }

    /// The window to scan next.
    pub open spec fn window(self) -> ScanWindow {
        nth_window(self.dispatched)
    }

    /// The search waits for exactly this outcome: it goes on, and the outcome
    /// is that of its next window for its run of zeros.
    pub open spec fn accepts(self, outcome: ScanOutcomeView) -> bool {
        &&& self.state() == SearchState::Dispatch
        &&& outcome.zero_count == self.zero_count
        &&& outcome.window == self.window()
    }

    /// The state after the next window's outcome has been recorded.
    pub open spec fn advance(self, found: Option<(nat, Seq<char>)>) -> CoordinatorView {
        CoordinatorView {
            zero_count: self.zero_count,
            quota: self.quota,
            dispatched: self.dispatched + 1,
            results: match found {
                Some(m) => self.results.push(m),
                None => self.results,
            },
        }
    }
}

/// The mathematical content of a `ScanOutcome`.
pub struct ScanOutcomeView {
    /// Length of the run of zeros that was looked for.
    pub zero_count: nat,
    /// The window that was scanned.
    pub window: ScanWindow,
    /// The first match of the window with its digest, if any.
    pub found: Option<(nat, Seq<char>)>,
}

/// The outcome of scanning one window. Only `scan_window` makes one, so an
/// outcome always tells the truth about its window.
pub struct ScanOutcome {
    zero_count: usize,
    window: ScanWindow,
    found: Option<(u32, String)>,
}

impl ScanOutcome {
    #[verifier::type_invariant]
    spec fn truthful(self) -> bool {
        is_scan_outcome(
            self.found,
            self.zero_count as nat,
            self.window.start as nat,
            self.window.end as nat,
        )
    }

    /// The mathematical content of the outcome.
    pub closed spec fn view(&self) -> ScanOutcomeView {
        ScanOutcomeView {
            zero_count: self.zero_count as nat,
            window: self.window,
            found: scan_view(self.found),
        }
    }

    /// Length of the run of zeros that was looked for.
    pub fn zero_count(&self) -> (n: usize)
        ensures
            n == self@.zero_count,
    {
        self.zero_count
    }

    /// The window that was scanned.
    pub fn window(&self) -> (window: ScanWindow)
        ensures
            window == self@.window,
    {
        self.window
    }

    /// The match that was found, if any. It is the first match of the window.
    pub fn found(&self) -> (found: &Option<(u32, String)>)
        ensures
            scan_view(*found) == self@.found,
            *found matches Some(m) ==> is_digest_text(m.1@),
            self@.found == scan_result(
                self@.zero_count,
                self@.window.start as nat,
                self@.window.end as nat,
            ),
    {
        proof {
            use_type_invariant(self);
            lemma_first_match_characterized(
                self.zero_count as nat,
                self.window.start as nat,
                self.window.end as nat,
            );
        }
        &self.found
    }

    /// Gives up the outcome for the match that was found, if any.
    pub fn into_found(self) -> (found: Option<(u32, String)>)
        ensures
            scan_view(found) == self@.found,
            found matches Some(m) ==> is_digest_text(m.1@),
            self@.found == scan_result(
                self@.zero_count,
                self@.window.start as nat,
                self@.window.end as nat,
            ),
    {
        proof {
            use_type_invariant(&self);
            lemma_first_match_characterized(
                self.zero_count as nat,
                self.window.start as nat,
                self.window.end as nat,
            );
        }
        self.found
    }
}

/// Scans `window` for its first candidate whose digest ends with at least
/// `zero_count` zeros, and keeps the request beside the result.
pub fn scan_window(zero_count: usize, window: ScanWindow) -> (outcome: ScanOutcome)
    ensures
        outcome@ == (ScanOutcomeView {
            zero_count: zero_count as nat,
            window,
            found: scan_result(zero_count as nat, window.start as nat, window.end as nat),
        }),
{
    let found = find_hash_with_n_zeroes_in_range(zero_count, window.start, window.end);
    ScanOutcome { zero_count, window, found }
}

/// Taking more windows only adds matches at the end: what the first `i`
/// windows yield is the beginning of what the first `j >= i` windows yield.
pub proof fn lemma_hits_grow(n: nat, i: nat, j: nat)
    requires
        i <= j,
    ensures
        hits(n, i).len() <= hits(n, j).len(),
        hits(n, j).take(hits(n, i).len() as int) == hits(n, i),
    decreases j - i,
{
    if i == j {
        assert(hits(n, j).take(hits(n, i).len() as int) =~= hits(n, i));
    } else {
        lemma_hits_grow(n, i, (j - 1) as nat);
        let before = hits(n, (j - 1) as nat);
        assert(hits(n, j).take(hits(n, i).len() as int) =~= before.take(hits(n, i).len() as int));
    }
}

/// Each window adds at most one match.
pub proof fn lemma_hits_len(n: nat, k: nat)
    ensures
        hits(n, k).len() <= k,
    decreases k,
{
    if k > 0 {
        lemma_hits_len(n, (k - 1) as nat);
    }
}

/// Every match that the first `k` windows yield is genuine: the candidate lies
/// in one of these windows, the digest is the candidate's, and it ends with
/// at least `n` zeros.
pub proof fn lemma_hits_genuine(n: nat, k: nat, i: int)
    requires
        0 <= i < hits(n, k).len(),
    ensures
        exists|w: nat| w < k && #[trigger] nth_window(w).holds(hits(n, k)[i].0),
        hits(n, k)[i].1 == candidate_digest(hits(n, k)[i].0),
        is_match(n, hits(n, k)[i].0),
        has_zero_tail(hits(n, k)[i].1, n),
    decreases k,
{
    let w = (k - 1) as nat;
    let before = hits(n, w);
    if i < before.len() {
        lemma_hits_genuine(n, w, i);
        let earlier = choose|e: nat| e < w && #[trigger] nth_window(e).holds(before[i].0);
        assert(earlier < k && nth_window(earlier).holds(hits(n, k)[i].0));
    } else {
        lemma_first_match_characterized(n, window_start(w), window_end(w));
        lemma_window_bounds(w);
        assert(nth_window(w).holds(hits(n, k)[i].0));
    }
}

/// The matches come in strictly increasing order of their candidates, and all
/// of them lie below the end of the last window taken.
pub proof fn lemma_hits_increase(n: nat, k: nat)
    ensures
        forall|i: int, j: int|
            0 <= i < j < hits(n, k).len() ==> (#[trigger] hits(n, k)[i]).0 < (#[trigger] hits(
                n,
                k,
            )[j]).0,
        forall|i: int|
            0 <= i < hits(n, k).len() ==> k > 0 && (#[trigger] hits(n, k)[i]).0 < window_end(
                (k - 1) as nat,
            ),
    decreases k,
{
    if k > 0 {
        let w = (k - 1) as nat;
        let before = hits(n, w);
        let now = hits(n, k);
        lemma_hits_increase(n, w);
        lemma_first_match_characterized(n, window_start(w), window_end(w));
        lemma_window_bounds(w);
        assert forall|i: int| 0 <= i < before.len() implies (#[trigger] before[i]).0
            < window_start(w) by {
            lemma_window_bounds((w - 1) as nat);
            if w - 1 < WINDOW_COUNT {
                lemma_window_starts_increase((w - 1) as nat, w);
            }
        }
        assert forall|i: int| 0 <= i < now.len() implies (#[trigger] now[i]).0 < window_end(
            w,
        ) by {
            if i < before.len() {
                assert(now[i] == before[i]);
            }
        }
        assert forall|i: int, j: int| 0 <= i < j < now.len() implies (#[trigger] now[i]).0 < (
        #[trigger] now[j]).0 by {
            assert(now[i] == before[i]);
            if j < before.len() {
                assert(now[j] == before[j]);
            }
        }
    }
}

/// A run of zeros longer than a digest leaves every window without a match.
pub proof fn lemma_hits_oversized(n: nat, k: nat)
    requires
        n > DIGEST_LEN,
    ensures
        hits(n, k) == Seq::<(nat, Seq<char>)>::empty(),
    decreases k,
{
    if k > 0 {
        lemma_hits_oversized(n, (k - 1) as nat);
        lemma_first_match_characterized(n, window_start((k - 1) as nat), window_end((k - 1) as nat));
    }
}

/// With no zeros asked for, each window inside the domain yields its own
/// start.
pub proof fn lemma_hits_zero_count(k: nat)
    requires
        k <= WINDOW_COUNT,
    ensures
        hits(0, k).len() == k,
        forall|i: int|
            0 <= i < k ==> #[trigger] hits(0, k)[i] == (
                window_start(i as nat),
                candidate_digest(window_start(i as nat)),
            ),
    decreases k,
{
    if k > 0 {
        let w = (k - 1) as nat;
        lemma_hits_zero_count(w);
        lemma_window_bounds(w);
        assert(is_first_match(0, window_start(w), window_end(w), window_start(w)));
        lemma_first_match_characterized(0, window_start(w), window_end(w));
    }
}

/// Recording the outcome of the next window keeps a coordinator well formed.
pub proof fn lemma_advance_keeps_wf(v: CoordinatorView)
    requires
        v.wf(),
        v.state() == SearchState::Dispatch,
    ensures
        v.advance(
            scan_result(v.zero_count, v.window().start as nat, v.window().end as nat),
        ).wf(),
{
    lemma_window_bounds(v.dispatched);
}

/// A search that has stopped holds exactly the search's result.
pub proof fn lemma_finished_search(v: CoordinatorView)
    requires
        v.wf(),
        v.state() != SearchState::Dispatch,
    ensures
        v.results == search_result(v.zero_count, v.quota),
{
    if v.results.len() >= v.quota {
        lemma_hits_grow(v.zero_count, v.dispatched, WINDOW_COUNT as nat);
    } else if v.dispatched >= WINDOW_COUNT {
    } else {
        lemma_hits_oversized(v.zero_count, v.dispatched);
        lemma_hits_oversized(v.zero_count, WINDOW_COUNT as nat);
    }
}

/// A search never returns more matches than were asked for, nor more than
/// there are windows; asked for none, it returns none.
pub proof fn lemma_search_result_bounded(n: nat, q: nat)
    ensures
        search_result(n, q).len() <= q,
        search_result(n, q).len() <= WINDOW_COUNT,
        q == 0 ==> search_result(n, q) == Seq::<(nat, Seq<char>)>::empty(),
        search_result(n, q).len() < q ==> search_result(n, q) == hits(n, WINDOW_COUNT as nat),
{
    lemma_hits_len(n, WINDOW_COUNT as nat);
    if q == 0 {
        assert(search_result(n, q) =~= Seq::empty());
    }
}

/// Every match that a search returns is genuine: the candidate lies in the
/// domain, the digest is the candidate's, and it ends with at least `n`
/// zeros.
pub proof fn lemma_search_result_genuine(n: nat, q: nat, i: int)
    requires
        0 <= i < search_result(n, q).len(),
    ensures
        FIRST_CANDIDATE <= search_result(n, q)[i].0 < DOMAIN_MAX,
        search_result(n, q)[i].1 == candidate_digest(search_result(n, q)[i].0),
        is_match(n, search_result(n, q)[i].0),
        has_zero_tail(search_result(n, q)[i].1, n),
{
    let all = hits(n, WINDOW_COUNT as nat);
    assert(search_result(n, q)[i] == all[i]);
    lemma_hits_genuine(n, WINDOW_COUNT as nat, i);
    let w = choose|w: nat| w < WINDOW_COUNT && #[trigger] nth_window(w).holds(all[i].0);
    lemma_window_bounds(w);
}

/// A search returns its matches in strictly increasing order of their
/// candidates.
pub proof fn lemma_search_result_increases(n: nat, q: nat, i: int, j: int)
    requires
        0 <= i < j < search_result(n, q).len(),
    ensures
        search_result(n, q)[i].0 < search_result(n, q)[j].0,
{
    let all = hits(n, WINDOW_COUNT as nat);
    lemma_hits_increase(n, WINDOW_COUNT as nat);
    assert(search_result(n, q)[i] == all[i]);
    assert(search_result(n, q)[j] == all[j]);
}

/// With no zeros asked for, a search returns the starts of the first windows:
/// one match per window, as many as were asked for and the domain has.
pub proof fn lemma_search_result_zero_count(q: nat)
    ensures
        search_result(0, q).len() == at_most(q as int, WINDOW_COUNT as int),
        forall|i: int|
            0 <= i < search_result(0, q).len() ==> #[trigger] search_result(0, q)[i] == (
                window_start(i as nat),
                candidate_digest(window_start(i as nat)),
            ),
        q > 0 ==> search_result(0, q)[0] == (
            FIRST_CANDIDATE as nat,
            candidate_digest(FIRST_CANDIDATE as nat),
        ),
{
    let all = hits(0, WINDOW_COUNT as nat);
    lemma_hits_zero_count(WINDOW_COUNT as nat);
    assert forall|i: int| 0 <= i < search_result(0, q).len() implies #[trigger] search_result(
        0,
        q,
    )[i] == (window_start(i as nat), candidate_digest(window_start(i as nat))) by {
        assert(search_result(0, q)[i] == all[i]);
    }
}

/// A run of zeros longer than a digest is found nowhere: the search returns
/// nothing, whatever the quota.
pub proof fn lemma_search_result_oversized(n: nat, q: nat)
    requires
        n > DIGEST_LEN,
    ensures
        search_result(n, q) == Seq::<(nat, Seq<char>)>::empty(),
{
    lemma_hits_oversized(n, WINDOW_COUNT as nat);
    assert(search_result(n, q) =~= Seq::empty());
}

/// A search for no matches is satisfied from the start: it dispatches no
/// window and returns nothing.
pub proof fn lemma_zero_quota_dispatches_nothing(n: nat)
    ensures
        CoordinatorView::initial(n, 0).wf(),
        CoordinatorView::initial(n, 0).state() == SearchState::Satisfied,
        search_result(n, 0) == Seq::<(nat, Seq<char>)>::empty(),
{
    lemma_search_result_bounded(n, 0);
}

/// The state of one search: the request, the start of the next window, and
/// the matches collected so far.
pub struct SearchCoordinator {
    zero_count: usize,
    quota: usize,
    dispatched: u32,
    start: u32,
    results: Vec<(u32, String)>,
}

impl SearchCoordinator {
    #[verifier::type_invariant]
    spec fn coherent(self) -> bool {
        &&& self@.wf()
        &&& self.start == window_start(self.dispatched as nat)
        &&& all_digest_texts(self.results@)
    }

    /// The mathematical content of the coordinator.
    pub closed spec fn view(&self) -> CoordinatorView {
        CoordinatorView {
            zero_count: self.zero_count as nat,
            quota: self.quota as nat,
            dispatched: self.dispatched as nat,
            results: matches_view(self.results@),
        }
    }

    /// Starts a search for `quota` matches with `zero_count` trailing zeros:
    /// no window recorded, no match collected.
    pub fn new(zero_count: usize, quota: usize) -> (coordinator: SearchCoordinator)
        ensures
            coordinator@ == CoordinatorView::initial(zero_count as nat, quota as nat),
            coordinator@.wf(),
    {
        let results: Vec<(u32, String)> = Vec::new();
        assert(matches_view(results@) =~= Seq::empty());
        SearchCoordinator { zero_count, quota, dispatched: 0, start: FIRST_CANDIDATE, results }
    }

    /// Length of the run of zeros asked for.
    pub fn zero_count(&self) -> (n: usize)
        ensures
            n == self@.zero_count,
    {
        self.zero_count
    }

    /// Number of matches asked for.
    pub fn quota(&self) -> (q: usize)
        ensures
            q == self@.quota,
    {
        self.quota
    }

    /// Number of windows scanned and recorded so far.
    pub fn dispatched(&self) -> (count: u32)
        ensures
            count == self@.dispatched,
            count <= WINDOW_COUNT,
    {
        proof {
            use_type_invariant(self);
        }
        self.dispatched
    }

    /// Number of matches collected so far; never more than the quota.
    pub fn len(&self) -> (count: usize)
        ensures
            count == self@.results.len(),
            count <= self@.quota,
    {
        proof {
            use_type_invariant(self);
        }
        self.results.len()
    }

    /// The matches collected so far: what the windows recorded so far yield.
    pub fn results(&self) -> (found: &Vec<(u32, String)>)
        ensures
            matches_view(found@) == self@.results,
            all_digest_texts(found@),
            self@.wf(),
    {
        proof {
            use_type_invariant(self);
        }
        &self.results
    }

    /// Ends the search and hands out the matches collected.
    pub fn into_results(self) -> (found: Vec<(u32, String)>)
        ensures
            matches_view(found@) == self@.results,
            all_digest_texts(found@),
            self@.wf(),
    {
        proof {
            use_type_invariant(&self);
        }
        self.results
    }

    /// Where the search stands: satisfied once the quota is met, exhausted
    /// once no window is left or no digest can match, dispatching otherwise.
    pub fn state(&self) -> (state: SearchState)
        ensures
            state == self@.state(),
            self@.wf(),
    {
        proof {
            use_type_invariant(self);
            lemma_window_bounds(self.dispatched as nat);
        }
        if self.results.len() >= self.quota {
            SearchState::Satisfied
        } else if self.start >= DOMAIN_MAX || self.zero_count > DIGEST_LEN {
            SearchState::Exhausted
        } else {
            SearchState::Dispatch
        }
    }

    /// The window to scan next, or `None` when the search has stopped.
    pub fn next_window(&self) -> (window: Option<ScanWindow>)
        ensures
            window == (if self@.state() == SearchState::Dispatch {
                Some(self@.window())
            } else {
                None
            }),
            self@.wf(),
    {
        proof {
            use_type_invariant(self);
            lemma_window_bounds(self.dispatched as nat);
        }
        match self.state() {
            SearchState::Dispatch => Some(ScanWindow::starting_at(self.start)),
            _ => None,
        }
    }

    /// Records the outcome of the window that `next_window` handed out: its
    /// match, if any, joins the results, and the search moves on to the
    /// following window. Any other outcome (of another window, for another
    /// run of zeros, or offered to a search that has stopped) is dropped and
    /// the coordinator comes back unchanged.
    pub fn record(self, outcome: ScanOutcome) -> (next: SearchCoordinator)
        ensures
            next@ == (if self@.accepts(outcome@) {
                self@.advance(outcome@.found)
            } else {
                self@
            }),
            next@.wf(),
    {
        proof {
            use_type_invariant(&self);
            lemma_window_bounds(self.dispatched as nat);
            lemma_window_follows(self.dispatched as nat);
        }
        let expected = match self.next_window() {
            Some(window) => window,
            None => {
                return self;
            },
        };
        if outcome.zero_count() != self.zero_count || outcome.window() != expected {
            return self;
        }
        proof {
            lemma_advance_keeps_wf(self@);
        }
        let ghost before = self@;
        let ghost offered = outcome@;
        let SearchCoordinator { zero_count, quota, dispatched, start: _, results } = self;
        let mut results = results;
        let ghost old_results = results@;
        match outcome.into_found() {
            Some(found) => {
                results.push(found);
                assert(matches_view(results@) =~= matches_view(old_results).push(
                    (found.0 as nat, found.1@),
                ));
            },
            None => {},
        }
        let next = SearchCoordinator {
            zero_count,
            quota,
            dispatched: dispatched + 1,
            start: expected.following_start(),
            results,
        };
        assert(next@ == before.advance(offered.found));
        next
    }
}

/// Searches the candidates from `FIRST_CANDIDATE` on, window by window, for
/// `q` matches whose digests end with at least `n` zeros. Each window gives
/// its first match, if it has one. The search stops as soon as `q` matches
/// are collected; where the domain holds fewer, it returns those it found.
pub fn find_hash_with_n_zeroes(n: usize, q: usize) -> (found: Vec<(u32, String)>)
    ensures
        matches_view(found@) == search_result(n as nat, q as nat),
        found@.len() == search_result(n as nat, q as nat).len(),
        found@.len() <= q,
        all_digest_texts(found@),
        forall|i: int|
            0 <= i < found@.len() ==> (#[trigger] found@[i]).1@ == candidate_digest(
                found@[i].0 as nat,
            ) && has_zero_tail(found@[i].1@, n as nat),
        forall|i: int, j: int|
            0 <= i < j < found@.len() ==> (#[trigger] found@[i]).0 < (#[trigger] found@[j]).0,
{
    let mut coordinator = SearchCoordinator::new(n, q);
    loop
        invariant
            coordinator@.wf(),
            coordinator@.zero_count == n,
            coordinator@.quota == q,
        ensures
            coordinator@.wf(),
            coordinator@.zero_count == n,
            coordinator@.quota == q,
            coordinator@.state() != SearchState::Dispatch,
        decreases WINDOW_COUNT - coordinator@.dispatched,
    {
        match coordinator.next_window() {
            Some(window) => {
                let outcome = scan_window(n, window);
                coordinator = coordinator.record(outcome);
            },
            None => {
                break;
            },
        }
    }
    proof {
        lemma_finished_search(coordinator@);
    }
    let found = coordinator.into_results();
    proof {
        let shown = matches_view(found@);
        assert forall|i: int| 0 <= i < found@.len() implies (#[trigger] found@[i]).1@
            == candidate_digest(found@[i].0 as nat) && has_zero_tail(found@[i].1@, n as nat) by {
            assert(shown[i] == (found@[i].0 as nat, found@[i].1@));
            lemma_search_result_genuine(n as nat, q as nat, i);
        }
        assert forall|i: int, j: int| 0 <= i < j < found@.len() implies (#[trigger] found@[i]).0 < (
        #[trigger] found@[j]).0 by {
            assert(shown[i] == (found@[i].0 as nat, found@[i].1@));
            assert(shown[j] == (found@[j].0 as nat, found@[j].1@));
            lemma_search_result_increases(n as nat, q as nat, i, j);
        }
    }
    found
}

} // verus!
