//! The entry point: search, then rank.

use vstd::prelude::*;
use vstd::seq_lib::to_multiset_contains;
use crate::config::SearchConfig;
use crate::cycle::{cycle_views, ArbitrageCycle, CycleView};
use crate::edge::PoolEdge;
use crate::prices::PriceBook;
use crate::rank::{rank_cycles, ranked};
use crate::routes::{lemma_found_exactly_the_profitable, lemma_profitable_route_is_sound};
use crate::search::{market_of, search_cycles, Market};

verus! {

/// Every cycle found is sound, and the cycle of every profitable route is
/// among those found.
pub proof fn lemma_found_cycles(m: Market)
    ensures
        forall|c: CycleView| m.found_cycles().contains(c) ==> #[trigger] m.sound_cycle(c),
        forall|c: CycleView|
            m.found_cycles().contains(c) ==> #[trigger] m.is_profitable_cycle(c),
        forall|route: Seq<int>|
            m.is_profitable_route(route) ==> m.found_cycles().contains(
                #[trigger] m.cycle_on(route),
            ),
        m.found_cycles().len() == m.found_routes().len(),
{
    let routes = m.found_routes();
    let cycles = m.found_cycles();
    assert forall|c: CycleView| cycles.contains(c) implies #[trigger] m.sound_cycle(c) by {
        let i = choose|i: int| 0 <= i < cycles.len() && cycles[i] == c;
        assert(routes.contains(routes[i]));
        lemma_found_exactly_the_profitable(m, routes[i]);
        lemma_profitable_route_is_sound(m, routes[i]);
    }
    assert forall|c: CycleView| cycles.contains(c) implies #[trigger] m.is_profitable_cycle(
        c,
    ) by {
        let i = choose|i: int| 0 <= i < cycles.len() && cycles[i] == c;
        assert(routes.contains(routes[i]));
        lemma_found_exactly_the_profitable(m, routes[i]);
        assert(c == m.cycle_on(routes[i]));
    }
    assert forall|route: Seq<int>| m.is_profitable_route(route) implies cycles.contains(
        #[trigger] m.cycle_on(route),
    ) by {
        lemma_found_exactly_the_profitable(m, route);
        let i = choose|i: int| 0 <= i < routes.len() && routes[i] == route;
        assert(cycles[i] == m.cycle_on(route));
    }
}

/// Finds the profitable cycles through `edges` that start and end on the
/// reference token of `book`, the most profitable first.
///
/// A route qualifies if it has two to four hops (fewer where `config` says so),
/// every edge of it holds the minimum liquidity and gives a quote, each hop
/// sells all that the hop before bought and stays within its edge's cap, no
/// pool is used twice, the reference token is reached again with the last hop
/// and with no hop between the first and the last, and the net profit is
/// above the threshold. Each such route is reported once, and nothing else is.
pub fn find_arbitrage_cycles(edges: &Vec<PoolEdge>, config: &SearchConfig, book: &PriceBook) -> (r:
    Vec<ArbitrageCycle>)
    ensures
        ranked(cycle_views(r@)),
        cycle_views(r@).to_multiset() == market_of(
            edges@,
            *config,
            *book,
        ).found_cycles().to_multiset(),
        r.len() == market_of(edges@, *config, *book).found_routes().len(),
        forall|i: int|
            0 <= i < r.len() ==> market_of(edges@, *config, *book).sound_cycle(
                #[trigger] cycle_views(r@)[i],
            ),
        forall|i: int|
            0 <= i < r.len() ==> market_of(edges@, *config, *book).is_profitable_cycle(
                #[trigger] cycle_views(r@)[i],
            ),
        forall|route: Seq<int>|
            market_of(edges@, *config, *book).is_profitable_route(route) ==> cycle_views(
                r@,
            ).contains(#[trigger] market_of(edges@, *config, *book).cycle_on(route)),
{
    let ghost m = market_of(edges@, *config, *book);
    let found = search_cycles(edges, config, book);
    let r = rank_cycles(found);
    proof {
        let given = m.found_cycles();
        let out = cycle_views(r@);
        lemma_found_cycles(m);
        assert forall|i: int| 0 <= i < r.len() implies m.sound_cycle(#[trigger] out[i])
            && m.is_profitable_cycle(out[i]) by {
            assert(out.contains(out[i]));
            to_multiset_contains(out, out[i]);
            to_multiset_contains(given, out[i]);
            assert(given.contains(out[i]));
        }
        assert forall|route: Seq<int>| m.is_profitable_route(route) implies out.contains(
            #[trigger] m.cycle_on(route),
        ) by {
            to_multiset_contains(out, m.cycle_on(route));
            to_multiset_contains(given, m.cycle_on(route));
        }
    }
    r
}

} // verus!
