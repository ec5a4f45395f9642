//! Endian normalizer: the PNG container stores 16-bit samples big-endian,
//! while the canonical in-memory form is little-endian, so every 16-bit
//! buffer has its byte pairs swapped in place when it crosses that boundary.
use vstd::prelude::*;

verus! {

/// The sequence `s` with the two bytes of every 16-bit unit exchanged.
/// Meaningful for even-length sequences; every stage that uses it requires
/// an even byte length.
pub open spec fn swapped(s: Seq<u8>) -> Seq<u8> {
    Seq::new(s.len(), |i: int| if i % 2 == 0 { s[i + 1] } else { s[i - 1] })
}

/// Swapping byte pairs twice gives back the original buffer: the endian
/// correction is an involution on every even-length sequence.
pub proof fn lemma_swapped_involution(s: Seq<u8>)
    requires
        s.len() % 2 == 0,
    ensures
        swapped(swapped(s)) == s,
{
    assert forall|i: int| 0 <= i < s.len() implies swapped(swapped(s))[i] == s[i] by {
        if i % 2 == 0 {
            assert(i + 1 < s.len());
            assert(swapped(swapped(s))[i] == swapped(s)[i + 1]);
        } else {
            assert(swapped(swapped(s))[i] == swapped(s)[i - 1]);
        }
    }
    assert(swapped(swapped(s)) =~= s);
}

/// Swap the two bytes of every 16-bit sample of `data`, in place.
pub fn swap_endian(data: &mut Vec<u8>)
    requires
        old(data)@.len() % 2 == 0,
    ensures
        final(data)@ == swapped(old(data)@),
{
    let ghost s = old(data)@;
    let n: usize = data.len() / 2;
    let mut i: usize = 0;
    while i < n
        invariant
            i <= n,
            n <= usize::MAX / 2,
            data@.len() == s.len(),
            s.len() == 2 * n,
            forall|j: int| 0 <= j < 2 * i ==> data@[j] == swapped(s)[j],
            forall|j: int| 2 * i <= j < s.len() ==> data@[j] == s[j],
        decreases n - i,
    {
        let a = data[2 * i];
        let b = data[2 * i + 1];
        data.set(2 * i, b);
        data.set(2 * i + 1, a);
        i += 1;
    }
    assert(data@ =~= swapped(s));
}

} // verus!
