//! The thresholds and limits of a search.

use vstd::prelude::*;
use crate::cycle::MAX_HOPS;

verus! {

/// What a search is run with. Amounts and values count millionths.
#[derive(Clone, Copy, Debug)]
pub struct SearchConfig {
    /// Pools with less liquidity than this are not traversed.
    pub min_tvl: u64,
    /// A cycle is reported only if its net profit exceeds this.
    pub min_profit: u64,
    /// The most hops a cycle may have; never more than [`MAX_HOPS`] are explored.
    pub max_hops: usize,
    /// The amount of the reference token that each search starts with.
    pub initial_amount: u64,
    /// The largest share of a pool's input reserve that one trade may put in,
    /// in parts per million.
    pub impact_cap_ppm: u64,
    /// The fixed network cost of one hop, in the reference token.
    pub tx_cost: u64,
}

impl SearchConfig {
    /// The number of hops that a search explores at most.
    pub open spec fn hop_limit(self) -> nat {
        if self.max_hops > MAX_HOPS {
            MAX_HOPS as nat
        } else {
            self.max_hops as nat
        }
    }

    /// The usual settings: pools of at least ten dollars, a profit above one
    /// dollar, four hops, trades of at most three tenths of a reserve, and five
    /// millionths of the reference token per hop.
    pub fn standard(initial_amount: u64) -> (r: SearchConfig)
        ensures
            r == (SearchConfig {
                min_tvl: 10_000_000,
                min_profit: 1_000_000,
                max_hops: 4,
                initial_amount,
                impact_cap_ppm: 300_000,
                tx_cost: 5,
            }),
    {
        SearchConfig {
            min_tvl: 10_000_000,
            min_profit: 1_000_000,
            max_hops: 4,
            initial_amount,
            impact_cap_ppm: 300_000,
            tx_cost: 5,
        }
    }

    /// The number of hops that a search explores at most.
    pub fn depth_bound(&self) -> (r: usize)
        ensures
            r == self.hop_limit(),
            r <= MAX_HOPS,
    {
        if self.max_hops > MAX_HOPS {
            MAX_HOPS
        } else {
            self.max_hops
        }
    }
}

} // verus!
