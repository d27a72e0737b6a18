//! A small seedable pseudo-random source.
//!
//! Every session owns one `Rng64`, so generated sequences are reproducible
//! from the seed alone.  No distribution claim is proved; the contracts
//! bound the domain of each draw, which is what record validity rests on.

use vstd::prelude::*;

verus! {

/// Xorshift-style generator over a 64-bit state word.
pub struct Rng64 {
    state: u64,
}

impl Rng64 {
    /// A zero seed would make xorshift degenerate, so it is replaced by a
    /// fixed odd constant.
    pub fn new(seed: u64) -> (r: Rng64) {
        if seed == 0 {
            Rng64 { state: 0x9E3779B97F4A7C15u64 }
        } else {
            Rng64 { state: seed }
        }
    }

    /// One raw 64-bit draw.
    pub fn next_u64(&mut self) -> u64 {
        let mut x = self.state;
        x = x ^ (x << 13u64);
        x = x ^ (x >> 7u64);
        x = x ^ (x << 17u64);
        self.state = x;
        x
    }

    /// A draw strictly below `n`.
    pub fn below(&mut self, n: u64) -> (r: u64)
        requires
            n > 0,
        ensures
            r < n,
    {
        self.next_u64() % n
    }

    /// A draw in the half-open range `[lo, hi)`.
    pub fn range_u64(&mut self, lo: u64, hi: u64) -> (r: u64)
        requires
            lo < hi,
        ensures
            lo <= r < hi,
    {
        lo + self.below(hi - lo)
    }

    /// A weighted coin: true with probability `num / den` of the draws.
    pub fn chance(&mut self, num: u64, den: u64) -> (r: bool)
        requires
            den > 0,
    {
        self.below(den) < num
    }
}

} // verus!
