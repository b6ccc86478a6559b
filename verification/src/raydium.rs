//! What Raydium tells about mints.

use vstd::prelude::*;

verus! {

/// A mint and the symbol it trades under.
#[derive(Debug)]
pub struct RaydiumMintItem {
    pub address: String,
    pub symbol: String,
}

/// The answer to a query for mints: one entry for each mint asked for, empty
/// where Raydium does not know the mint.
#[derive(Debug)]
pub struct RaydiumMintIdsResponse {
    pub id: String,
    pub success: bool,
    pub data: Vec<Option<RaydiumMintItem>>,
}

/// Whether the entry at position `i` names `mint`. An entry without an
/// address names nothing.
pub open spec fn names_mint(items: Seq<Option<RaydiumMintItem>>, i: int, mint: Seq<char>) -> bool {
    &&& 0 <= i < items.len()
    &&& items[i].is_some()
    &&& items[i].unwrap().address@ == mint
    &&& mint.len() > 0
}

/// The symbol that the first `n` entries give for `mint`: that of the last of
/// them that names it.
pub open spec fn symbol_among(items: Seq<Option<RaydiumMintItem>>, mint: Seq<char>, n: int)
    -> Option<Seq<char>>
    decreases n,
{
    if n <= 0 {
        None
    } else if names_mint(items, n - 1, mint) {
        Some(items[n - 1].unwrap().symbol@)
    } else {
        symbol_among(items, mint, n - 1)
    }
}

/// The symbol that `items` give for `mint`, if any.
pub open spec fn symbol_of(items: Seq<Option<RaydiumMintItem>>, mint: Seq<char>) -> Option<
    Seq<char>,
> {
    symbol_among(items, mint, items.len() as int)
}

impl RaydiumMintIdsResponse {
    /// The entries of an answer that reports success; `None` for one that
    /// reports failure.
    pub fn into_items(self) -> (r: Option<Vec<Option<RaydiumMintItem>>>)
        ensures
            r.is_some() == self.success,
            r.is_some() ==> r.unwrap() == self.data,
    {
        if self.success {
            Some(self.data)
        } else {
            None
        }
    }
}

/// Looks up the symbol of `mint`. Where several entries name the mint the
/// last one counts.
pub fn find_symbol(items: &Vec<Option<RaydiumMintItem>>, mint: &String) -> (r: Option<String>)
    ensures
        r.is_some() == symbol_of(items@, mint@).is_some(),
        r.is_some() ==> r.unwrap()@ == symbol_of(items@, mint@).unwrap(),
{
    if mint.as_str().unicode_len() == 0 {
        proof {
            lemma_nothing_names_the_empty(items@, mint@, items.len() as int);
        }
        return None;
    }
    let mut i: usize = items.len();
    while i > 0
        invariant
            i <= items.len(),
            mint@.len() > 0,
            symbol_of(items@, mint@) == symbol_among(items@, mint@, i as int),
        decreases i,
    {
        i -= 1;
        match &items[i] {
            Some(item) => {
                if item.address == *mint {
                    return Some(item.symbol.clone());
                }
            },
            None => {},
        }
    }
    None
}

/// No entry names the mint without an address.
proof fn lemma_nothing_names_the_empty(
    items: Seq<Option<RaydiumMintItem>>,
    mint: Seq<char>,
    n: int,
)
    requires
        mint.len() == 0,
    ensures
        symbol_among(items, mint, n).is_none(),
    decreases n,
{
    if n > 0 {
        lemma_nothing_names_the_empty(items, mint, n - 1);
    }
}

} // verus!
