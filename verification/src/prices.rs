//! Reference-currency prices, as supplied by a price oracle.

use vstd::prelude::*;
use crate::edge::SCALE;

verus! {

/// The largest value that an amount and a price can give.
pub const VALUE_LIMIT: u128 = 340_282_366_920_938_463_463_374_607_431_768;

/// The oracle's price of one token, in millionths of the reference currency.
#[derive(Debug)]
pub struct TokenPrice {
    pub mint: String,
    pub price: u64,
}

/// The prices a search works with: that of the reference token itself, and the
/// oracle's list for the others. Where a mint is listed twice the first entry
/// counts.
#[derive(Debug)]
pub struct PriceBook {
    pub reference_token: String,
    pub reference_price: u64,
    pub quotes: Vec<TokenPrice>,
}

/// The mathematical content of a [`PriceBook`]: `listed` maps each mint that
/// the oracle priced to its price.
pub struct BookView {
    pub reference_token: Seq<char>,
    pub reference_price: nat,
    pub listed: Map<Seq<char>, nat>,
}

/// The listing that the first `n` entries of `quotes` give, earlier entries
/// taking precedence.
pub open spec fn listing(quotes: Seq<TokenPrice>, n: nat) -> Map<Seq<char>, nat>
    decreases n,
{
    if n == 0 || n > quotes.len() {
        Map::empty()
    } else {
        let earlier = listing(quotes, (n - 1) as nat);
        let entry = quotes[n - 1];
        if earlier.dom().contains(entry.mint@) {
            earlier
        } else {
            earlier.insert(entry.mint@, entry.price as nat)
        }
    }
}

impl View for PriceBook {
    type V = BookView;

    open spec fn view(&self) -> BookView {
        BookView {
            reference_token: self.reference_token@,
            reference_price: self.reference_price as nat,
            listed: listing(self.quotes@, self.quotes@.len()),
        }
    }
}

impl BookView {
    /// The price of `mint`: the reference price for the reference token, the
    /// oracle's price where it lists one, and zero for a token it does not know.
    pub open spec fn price_of(self, mint: Seq<char>) -> nat {
        if mint == self.reference_token {
            self.reference_price
        } else if self.listed.dom().contains(mint) {
            self.listed[mint]
        } else {
            0
        }
    }
}

/// The value of `amount` at `price`, rounded down.
pub open spec fn value_of(amount: nat, price: nat) -> nat {
    (amount * price) / (SCALE as nat)
}

/// The share `rate_ppm` of `value`, rounded down.
pub open spec fn share_of(value: nat, rate_ppm: nat) -> nat {
    (value * rate_ppm) / (SCALE as nat)
}

/// The value of `amount` at `price`.
pub fn value(amount: u64, price: u64) -> (v: u128)
    ensures
        v == value_of(amount as nat, price as nat),
        v <= VALUE_LIMIT,
{
    assert(amount as u128 * price as u128 <= u64::MAX as u128 * u64::MAX as u128)
        by (nonlinear_arith)
        requires
            amount as u128 <= u64::MAX as u128,
            price as u128 <= u64::MAX as u128,
    ;
    (amount as u128 * price as u128) / (SCALE as u128)
}

/// The share `rate_ppm` of `value`, for a rate below the whole.
pub(crate) fn share(value: u128, rate_ppm: u64) -> (v: u128)
    requires
        value <= VALUE_LIMIT,
        rate_ppm < SCALE,
    ensures
        v == share_of(value as nat, rate_ppm as nat),
        v <= value,
{
    assert(value * rate_ppm as u128 <= VALUE_LIMIT * SCALE as u128) by (nonlinear_arith)
        requires
            value <= VALUE_LIMIT,
            (rate_ppm as u128) < SCALE as u128,
    ;
    proof {
        let v = value as int;
        let r = rate_ppm as int;
        assert(v * r <= v * SCALE) by (nonlinear_arith)
            requires
                0 <= v,
                0 <= r < SCALE,
        ;
        vstd::arithmetic::div_mod::lemma_div_is_ordered(v * r, v * SCALE, SCALE as int);
        vstd::arithmetic::div_mod::lemma_div_multiples_vanish(v, SCALE as int);
        assert(v * SCALE == SCALE * v) by (nonlinear_arith);
    }
    (value * rate_ppm as u128) / (SCALE as u128)
}

impl PriceBook {
    /// The oracle's price of `mint`, if it lists one.
    pub fn listed_price(&self, mint: &String) -> (r: Option<u64>)
        ensures
            r.is_some() == self@.listed.dom().contains(mint@),
            r.is_some() ==> r.unwrap() == self@.listed[mint@],
    {
        let mut i: usize = 0;
        while i < self.quotes.len()
            invariant
                i <= self.quotes.len(),
                !listing(self.quotes@, i as nat).dom().contains(mint@),
            decreases self.quotes.len() - i,
        {
            if self.quotes[i].mint == *mint {
                proof {
                    lemma_listing_keeps(self.quotes@, (i + 1) as nat, self.quotes@.len(), mint@);
                }
                return Some(self.quotes[i].price);
            }
            i += 1;
        }
        None
    }

    /// The price of `mint` in the reference currency; zero where none is known.
    pub fn price(&self, mint: &String) -> (r: u64)
        ensures
            r == self@.price_of(mint@),
    {
        if *mint == self.reference_token {
            self.reference_price
        } else {
            match self.listed_price(mint) {
                Some(p) => p,
                None => 0,
            }
        }
    }
}

/// Once a mint is listed, later entries do not change its price.
pub proof fn lemma_listing_keeps(quotes: Seq<TokenPrice>, n: nat, m: nat, mint: Seq<char>)
    requires
        n <= m <= quotes.len(),
        listing(quotes, n).dom().contains(mint),
    ensures
        listing(quotes, m).dom().contains(mint),
        listing(quotes, m)[mint] == listing(quotes, n)[mint],
    decreases m - n,
{
    if n < m {
        lemma_listing_keeps(quotes, n, (m - 1) as nat, mint);
    }
}

} // verus!
