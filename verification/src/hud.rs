//! Colours of the heads-up display.

use vstd::prelude::*;

verus! {

/// One channel darkened to seven eighths, rounding down.
pub open spec fn darken(c: u8) -> u8 {
    (c as int * 7 / 8) as u8
}

/// `darken(c)` is seven eighths of `c` rounded down.
pub proof fn lemma_darken(c: u8)
    ensures
        8 * (darken(c) as int) <= 7 * (c as int) < 8 * (darken(c) as int) + 8,
{
}

/// The side panel's fill colour at seven eighths of the theme's, every
/// channel (alpha included) scaled and rounded down.
pub fn darken_fill(fill: [u8; 4]) -> (out: [u8; 4])
    ensures
        forall|i: int| 0 <= i < 4 ==> out@[i] == darken(fill@[i]),
        forall|i: int| 0 <= i < 4 ==> out@[i] <= fill@[i],
{
    let mut out = fill;
    let mut i: usize = 0;
    while i < 4
        invariant
            0 <= i <= 4,
            forall|j: int| 0 <= j < i ==> out@[j] == darken(fill@[j]) && out@[j] <= fill@[j],
            forall|j: int| i <= j < 4 ==> out@[j] == fill@[j],
        decreases 4 - i,
    {
        let c = fill[i];
        out[i] = (c as u32 * 7 / 8) as u8;
        i = i + 1;
    }
    out
}

} // verus!
