//! The trailing-zero test on a digest.

use vstd::prelude::*;
use vstd::string::*;

verus! {

/// `text` ends with at least `n` characters `0`.
pub open spec fn has_zero_tail(text: Seq<char>, n: nat) -> bool {
    &&& n <= text.len()
    &&& forall|i: int| text.len() - n <= i < text.len() ==> text[i] == '0'
}

/// The text made of `n` characters `0`.
pub open spec fn zero_run(n: nat) -> Seq<char> {
    Seq::new(n, |i: int| '0')
}

/// Tells whether `text` ends with at least `n` characters `0`.
pub fn ends_with_zeroes(text: &str, n: usize) -> (yes: bool)
    ensures
        yes == has_zero_tail(text@, n as nat),
{
    let len = text.unicode_len();
    if n > len {
        return false;
    }
    let mut i: usize = len - n;
    while i < len
        invariant
            len == text@.len(),
            n <= len,
            len - n <= i <= len,
            forall|k: int| len - n <= k < i ==> text@[k] == '0',
        decreases len - i,
    {
        if text.get_char(i) != '0' {
            return false;
        }
        i = i + 1;
    }
    true
}

/// A zero tail is a suffix equal to a run of zeros, and the other way round.
pub proof fn lemma_zero_tail_is_suffix(text: Seq<char>, n: nat)
    ensures
        has_zero_tail(text, n) <==> (n <= text.len() && text.subrange(
            text.len() - n,
            text.len() as int,
        ) == zero_run(n)),
{
    if n <= text.len() {
        let tail = text.subrange(text.len() - n, text.len() as int);
        if has_zero_tail(text, n) {
            assert(tail =~= zero_run(n));
        }
        if tail == zero_run(n) {
            assert forall|i: int| text.len() - n <= i < text.len() implies text[i] == '0' by {
                assert(text[i] == tail[i - (text.len() - n)]);
            }
        }
    }
}

/// A text that ends with `n` zeros ends with every shorter run of zeros too.
pub proof fn lemma_zero_tail_shorter(text: Seq<char>, n: nat, m: nat)
    requires
        has_zero_tail(text, n),
        m <= n,
    ensures
        has_zero_tail(text, m),
{
}

/// Every text ends with an empty run of zeros.
pub proof fn lemma_zero_tail_empty(text: Seq<char>)
    ensures
        has_zero_tail(text, 0),
{
}

} // verus!
