//! The byte-delta filter, as functions on byte sequences.
//!
//! The filter sees a flat run of 8-bit samples, whatever the pixel or row
//! boundaries. The first sample stays; every other one is replaced by its
//! difference from the sample before it, modulo 256.

use vstd::prelude::*;

verus! {

/// `a - b` modulo 256.
pub open spec fn wrapping_diff(a: u8, b: u8) -> u8 {
    ((a - b) % 256) as u8
}

/// `a + b` modulo 256.
pub open spec fn wrapping_sum(a: u8, b: u8) -> u8 {
    ((a + b) % 256) as u8
}

/// The filtered form of `s`: `s[0]`, then `s[i] - s[i - 1]` modulo 256.
pub open spec fn delta_forward(s: Seq<u8>) -> Seq<u8> {
    Seq::new(
        s.len(),
        |i: int|
            if i == 0 {
                s[0]
            } else {
                wrapping_diff(s[i], s[i - 1])
            },
    )
}

/// The sum of `s[0]` to `s[i]`, modulo 256.
pub open spec fn running_sum(s: Seq<u8>, i: int) -> u8
    decreases i,
{
    if i <= 0 {
        s[0]
    } else {
        wrapping_sum(running_sum(s, i - 1), s[i])
    }
}

/// The samples of which `s` is the filtered form: the running sums of `s`.
pub open spec fn delta_inverse(s: Seq<u8>) -> Seq<u8> {
    Seq::new(s.len(), |i: int| running_sum(s, i))
}

/// The running sums of a filtered sequence are the samples it was made of.
pub proof fn lemma_running_sum_of_forward(s: Seq<u8>, i: int)
    requires
        0 <= i < s.len(),
    ensures
        running_sum(delta_forward(s), i) == s[i],
    decreases i,
{
    if i > 0 {
        lemma_running_sum_of_forward(s, i - 1);
    }
}

/// The inverse filter undoes the forward filter, on every byte sequence.
pub proof fn lemma_delta_inverse_of_forward(s: Seq<u8>)
    ensures
        delta_forward(s).len() == s.len(),
        delta_inverse(delta_forward(s)) == s,
{
    assert forall|i: int| 0 <= i < s.len() implies delta_inverse(delta_forward(s))[i] == s[i] by {
        lemma_running_sum_of_forward(s, i);
    }
    assert(delta_inverse(delta_forward(s)) =~= s);
}

} // verus!
