//! The partition of the candidate domain into scan windows.
//!
//! Candidates run from `FIRST_CANDIDATE` up to, but not including,
//! `DOMAIN_MAX`. Window `i` starts at `FIRST_CANDIDATE + i * STRIDE` and holds
//! `STEP` candidates, cut off at the end of the domain. Since `STRIDE` is one
//! more than `STEP`, one candidate between two neighbouring windows belongs to
//! neither of them.

use vstd::prelude::*;

verus! {

/// Number of candidates in a full window.
pub const STEP: u32 = 1000;

/// Distance between the starts of two neighbouring windows.
pub const STRIDE: u32 = 1001;

/// The first candidate of the first window.
pub const FIRST_CANDIDATE: u32 = 1;

/// End of the candidate domain: no candidate is this large.
pub const DOMAIN_MAX: u32 = 4294967295;

/// Number of windows that start inside the domain.
pub const WINDOW_COUNT: u32 = 4290677;

/// A half-open range `[start, end)` of candidates.
#[derive(Clone, Copy, Debug, PartialEq, Eq, Structural)]
pub struct ScanWindow {
    pub start: u32,
    pub end: u32,
}

/// The smaller of two numbers.
pub open spec fn at_most(a: int, limit: int) -> int {
    if a <= limit {
        a
    } else {
        limit
    }
}

/// Start of window `i`; windows past the last one start at the domain's end.
pub open spec fn window_start(i: nat) -> nat {
    at_most(FIRST_CANDIDATE + i * STRIDE, DOMAIN_MAX as int) as nat
}

/// End of window `i`, cut off at the domain's end.
pub open spec fn window_end(i: nat) -> nat {
    at_most(window_start(i) + STEP, DOMAIN_MAX as int) as nat
}

/// Window `i` as a value.
pub open spec fn nth_window(i: nat) -> ScanWindow {
    ScanWindow { start: window_start(i) as u32, end: window_end(i) as u32 }
}

impl ScanWindow {
    /// The candidate `c` lies in the window.
    pub open spec fn holds(self, c: nat) -> bool {
        self.start <= c < self.end
    }

    /// The window that starts at `start`: `STEP` candidates long, or as many as
    /// the domain still has.
    pub fn starting_at(start: u32) -> (window: ScanWindow)
        ensures
            window.start == start,
            window.end == at_most(start + STEP, DOMAIN_MAX as int),
    {
        ScanWindow { start, end: start.saturating_add(STEP) }
    }

    /// Start of the window that follows this one: one past this window's full
    /// length, and never past the domain's end.
    pub fn following_start(&self) -> (start: u32)
        ensures
            start == at_most(self.start + STRIDE, DOMAIN_MAX as int),
    {
        self.start.saturating_add(STRIDE)
    }
}

/// Every window lies inside the domain; the windows that start before the
/// domain's end are the first `WINDOW_COUNT` ones, and each of those holds at
/// least one candidate.
pub proof fn lemma_window_bounds(i: nat)
    ensures
        FIRST_CANDIDATE <= window_start(i) <= window_end(i) <= DOMAIN_MAX,
        window_start(i) < DOMAIN_MAX <==> i < WINDOW_COUNT,
        window_start(i) < window_end(i) <==> i < WINDOW_COUNT,
        i < WINDOW_COUNT ==> window_start(i) == FIRST_CANDIDATE + i * STRIDE,
        i + 1 < WINDOW_COUNT ==> window_end(i) == window_start(i) + STEP,
{
}

/// Each window starts where stepping on from the one before it leads.
pub proof fn lemma_window_follows(i: nat)
    ensures
        window_start(0) == FIRST_CANDIDATE,
        window_start(i + 1) == at_most(window_start(i) + STRIDE, DOMAIN_MAX as int),
        window_end(i) == at_most(window_start(i) + STEP, DOMAIN_MAX as int),
{
}

/// Between two neighbouring windows lies a gap of exactly one candidate: the
/// later window starts one past the end of the earlier one.
pub proof fn lemma_window_gap(i: nat)
    requires
        i + 1 < WINDOW_COUNT,
    ensures
        window_start(i + 1) == window_end(i) + 1,
{
}

/// Window starts increase strictly while they are inside the domain.
pub proof fn lemma_window_starts_increase(i: nat, j: nat)
    requires
        i < j,
        i < WINDOW_COUNT,
    ensures
        window_start(i) < window_start(j),
        window_end(i) <= window_start(j),
{
    assert(i * STRIDE + STRIDE <= j * STRIDE) by (nonlinear_arith)
        requires
            i < j,
    ;
}

/// No candidate lies in two different windows.
pub proof fn lemma_windows_disjoint(i: nat, j: nat, c: nat)
    requires
        i != j,
        nth_window(i).holds(c),
    ensures
        !nth_window(j).holds(c),
{
    lemma_window_bounds(i);
    lemma_window_bounds(j);
    if i < j {
        lemma_window_starts_increase(i, j);
    } else {
        if j < WINDOW_COUNT {
            lemma_window_starts_increase(j, i);
        }
    }
}

/// The candidate in the gap after window `i` lies in no window at all: it is
/// never scanned.
pub proof fn lemma_gap_is_skipped(i: nat, j: nat)
    requires
        i + 1 < WINDOW_COUNT,
    ensures
        !nth_window(j).holds(window_end(i)),
{
    lemma_window_bounds(i);
    lemma_window_bounds(j);
    lemma_window_gap(i);
    if j <= i {
        if j < i {
            lemma_window_starts_increase(j, i);
        }
    } else if j > i + 1 {
        lemma_window_starts_increase(i + 1, j);
    }
}

} // verus!
