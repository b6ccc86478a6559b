//! Rows of the pool table.

use vstd::prelude::*;
use crate::common::{other_token_name, parse_other_token_name, CHEESE_MINT};
use crate::raydium::{find_symbol, symbol_of, RaydiumMintItem};

verus! {

/// One pool as a row of text: the quantities are already formatted.
#[derive(Debug)]
pub struct DisplayPool {
    /// "Meteora" or "Raydium".
    pub source: String,
    pub other_mint: String,
    pub other_symbol: String,
    pub cheese_qty: String,
    pub other_qty: String,
    pub pool_type: String,
    pub liquidity_usd: String,
    pub volume_usd: String,
    pub fee: String,
    pub pool_address: String,
}

/// The positions of cheese and of the other token among the mints of a pool.
/// In a pool of two, cheese is first if the first mint is cheese, else second;
/// any other pool gives the first position for both.
pub open spec fn sides_of(mints: Seq<String>) -> (int, int) {
    if mints.len() == 2 {
        if mints[0]@ == CHEESE_MINT@ {
            (0, 1)
        } else {
            (1, 0)
        }
    } else {
        (0, 0)
    }
}

/// The positions of cheese and of the other token among the mints of a pool.
pub fn cheese_sides(mints: &Vec<String>) -> (r: (usize, usize))
    ensures
        (r.0 as int, r.1 as int) == sides_of(mints@),
{
    if mints.len() == 2 {
        if mints[0] == CHEESE_MINT.to_owned() {
            (0, 1)
        } else {
            (1, 0)
        }
    } else {
        (0, 0)
    }
}

/// The symbol shown for the other token of a pool: the one Raydium lists for
/// its mint, else what the pool's name tells.
pub open spec fn shown_symbol(
    items: Seq<Option<RaydiumMintItem>>,
    other_mint: Seq<char>,
    pool_name: Seq<char>,
) -> Seq<char> {
    match symbol_of(items, other_mint) {
        Some(symbol) => symbol,
        None => other_token_name(pool_name),
    }
}

/// The symbol to show for the other token of a pool.
pub fn other_symbol(items: &Vec<Option<RaydiumMintItem>>, other_mint: &String, pool_name: &str)
    -> (r: String)
    ensures
        r@ == shown_symbol(items@, other_mint@, pool_name@),
{
    match find_symbol(items, other_mint) {
        Some(symbol) => symbol,
        None => parse_other_token_name(pool_name),
    }
}

} // verus!
