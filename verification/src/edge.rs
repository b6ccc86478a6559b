//! The normalized pool graph: one directed edge per trading direction of a pool.

use vstd::prelude::*;

verus! {

/// Number of fixed-point units in one whole unit (amounts, prices, values),
/// and the denominator of every fee rate.
pub const SCALE: u64 = 1_000_000;

/// The venue that issued a pool.
#[derive(Clone, Copy, Debug, PartialEq, Eq, Structural)]
pub enum PoolSource {
    Meteora,
    Raydium,
}

/// "Swap `token_in` for `token_out` through this pool": a point-in-time
/// snapshot that a search only reads.
#[derive(Debug)]
pub struct PoolEdge {
    pub pool_address: String,
    pub source: PoolSource,
    pub token_in: String,
    pub token_out: String,
    /// Fee charged on the input amount, in parts per million.
    pub fee_ppm: u64,
    /// Liquidity of the pool in millionths of a dollar.
    pub total_value_locked: u64,
    pub reserve_in: u64,
    pub reserve_out: u64,
}

/// The mathematical content of a [`PoolEdge`].
pub struct EdgeView {
    pub pool_address: Seq<char>,
    pub source: PoolSource,
    pub token_in: Seq<char>,
    pub token_out: Seq<char>,
    pub fee_ppm: nat,
    pub total_value_locked: nat,
    pub reserve_in: nat,
    pub reserve_out: nat,
}

impl View for PoolEdge {
    type V = EdgeView;

    open spec fn view(&self) -> EdgeView {
        EdgeView {
            pool_address: self.pool_address@,
            source: self.source,
            token_in: self.token_in@,
            token_out: self.token_out@,
            fee_ppm: self.fee_ppm as nat,
            total_value_locked: self.total_value_locked as nat,
            reserve_in: self.reserve_in as nat,
            reserve_out: self.reserve_out as nat,
        }
    }
}

impl EdgeView {
    /// Both reserves are positive, so the pool can be traded against.
    pub open spec fn usable(self) -> bool {
        self.reserve_in > 0 && self.reserve_out > 0
    }

    /// The fee rate is a fraction in `[0, 1)`.
    pub open spec fn fee_in_range(self) -> bool {
        self.fee_ppm < SCALE
    }
}

/// The views of a list of edges, position by position.
pub open spec fn edge_views(edges: Seq<PoolEdge>) -> Seq<EdgeView> {
    Seq::new(edges.len(), |i: int| edges[i]@)
}

/// The same pool traded in the other direction.
pub open spec fn reverse_of(e: EdgeView) -> EdgeView {
    EdgeView {
        pool_address: e.pool_address,
        source: e.source,
        token_in: e.token_out,
        token_out: e.token_in,
        fee_ppm: e.fee_ppm,
        total_value_locked: e.total_value_locked,
        reserve_in: e.reserve_out,
        reserve_out: e.reserve_in,
    }
}

/// Turning an edge round twice gives the edge back.
pub proof fn lemma_reverse_twice(e: EdgeView)
    ensures
        reverse_of(reverse_of(e)) == e,
{
}

impl PoolEdge {
    /// The edge for the other trading direction of the same pool.
    pub fn reversed(&self) -> (r: PoolEdge)
        ensures
            r@ == reverse_of(self@),
    {
        PoolEdge {
            pool_address: self.pool_address.clone(),
            source: self.source,
            token_in: self.token_out.clone(),
            token_out: self.token_in.clone(),
            fee_ppm: self.fee_ppm,
            total_value_locked: self.total_value_locked,
            reserve_in: self.reserve_out,
            reserve_out: self.reserve_in,
        }
    }

    /// Whether both reserves are positive.
    pub fn is_usable(&self) -> (r: bool)
        ensures
            r == self@.usable(),
    {
        self.reserve_in > 0 && self.reserve_out > 0
    }

    /// Whether the pool holds at least `min_tvl` of liquidity.
    pub fn has_liquidity(&self, min_tvl: u64) -> (r: bool)
        ensures
            r == (self@.total_value_locked >= min_tvl),
    {
        self.total_value_locked >= min_tvl
    }
}

} // verus!
