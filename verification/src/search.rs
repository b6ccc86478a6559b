//! The cycle search: a depth-bounded, depth-first walk over the pool graph.

use vstd::prelude::*;
use crate::config::SearchConfig;
use crate::cycle::{
    clone_steps, cycle_views, fees_in_range, step_along, step_views, ArbitrageCycle, CycleView,
    StepView, TradeStep,
};
use crate::edge::{edge_views, EdgeView, PoolEdge, SCALE};
use crate::prices::{BookView, PriceBook};
use crate::profit::{clears_threshold, cycle_of, evaluate_cycle};
use crate::quote::{has_quote, quoted_output, simulate_quote};

verus! {

/// Everything a search reads: the edges, the settings and the prices.
/// A route through it is a sequence of positions in `edges`.
pub struct Market {
    pub edges: Seq<EdgeView>,
    pub config: SearchConfig,
    pub book: BookView,
}

/// The market that a search over `edges` with `config` and `book` sees.
pub open spec fn market_of(edges: Seq<PoolEdge>, config: SearchConfig, book: PriceBook) -> Market {
    Market { edges: edge_views(edges), config, book: book@ }
}

impl Market {
    /// The most that one trade may put into edge `e`.
    pub open spec fn impact_cap(self, e: int) -> nat {
        (self.edges[e].reserve_in * (self.config.impact_cap_ppm as nat)) / (SCALE as nat)
    }

    /// The amount that a search starting on edge `e` trades: its budget, cut
    /// down to the edge's cap.
    pub open spec fn opening_amount(self, e: int) -> nat {
        if self.config.initial_amount <= self.impact_cap(e) {
            self.config.initial_amount as nat
        } else {
            self.impact_cap(e)
        }
    }

    /// The amount that hop `i` of `route` sells: the opening amount at first,
    /// then whatever the hop before bought.
    pub open spec fn amount_at(self, route: Seq<int>, i: int) -> nat
        decreases i,
    {
        if i <= 0 {
            self.opening_amount(route[0])
        } else {
            quoted_output(self.edges[route[i - 1]], self.amount_at(route, i - 1))
        }
    }

    /// Hop `i` of `route` as a trade step.
    pub open spec fn step_at(self, route: Seq<int>, i: int) -> StepView {
        step_along(
            self.edges[route[i]],
            self.amount_at(route, i),
            quoted_output(self.edges[route[i]], self.amount_at(route, i)),
        )
    }

    /// The trade steps of `route`.
    pub open spec fn route_steps(self, route: Seq<int>) -> Seq<StepView> {
        Seq::new(route.len(), |i: int| self.step_at(route, i))
    }

    /// The cycle that `route` describes, with its figures.
    pub open spec fn cycle_on(self, route: Seq<int>) -> CycleView {
        cycle_of(self.book, self.config.tx_cost as nat, self.route_steps(route))
    }

    /// The cycles of a list of routes, position by position.
    pub open spec fn cycles_on(self, routes: Seq<Seq<int>>) -> Seq<CycleView> {
        Seq::new(routes.len(), |i: int| self.cycle_on(routes[i]))
    }

    /// Whether the cycle of `route` clears the profit threshold.
    pub open spec fn pays(self, route: Seq<int>) -> bool {
        clears_threshold(self.cycle_on(route), self.config.min_profit as nat)
    }

    /// Whether no hop of `route` goes through the pool of edge `e`.
    pub open spec fn pool_unused(self, route: Seq<int>, e: int) -> bool {
        forall|i: int|
            0 <= i < route.len() ==> (#[trigger] self.edges[route[i]]).pool_address
                != self.edges[e].pool_address
    }

    /// Whether the search may take edge `e` after `route`. The edge must hold
    /// enough liquidity and give a quote. A first edge must sell the reference
    /// token. A later edge must sell what the hop before bought, through a pool
    /// not yet used, and must take the whole of what that hop bought.
    pub open spec fn may_extend(self, route: Seq<int>, e: int) -> bool {
        &&& 0 <= e < self.edges.len()
        &&& self.edges[e].total_value_locked >= self.config.min_tvl
        &&& if route.len() == 0 {
            self.edges[e].token_in == self.book.reference_token
        } else {
            &&& self.edges[e].token_in == self.edges[route.last()].token_out
            &&& self.pool_unused(route, e)
            &&& self.amount_at(route.push(e), route.len() as int) <= self.impact_cap(e)
        }
        &&& has_quote(self.edges[e], self.amount_at(route.push(e), route.len() as int))
    }

    /// Whether taking edge `e` after `route` closes a cycle: the route is not
    /// empty and the edge buys the reference token.
    pub open spec fn closes(self, route: Seq<int>, e: int) -> bool {
        route.len() > 0 && self.edges[e].token_out == self.book.reference_token
    }

    /// The routes that the search reports once it has walked `route` and turns
    /// to edge `e`, in the order in which it finds them.
    pub open spec fn routes_via(self, route: Seq<int>, e: int) -> Seq<Seq<int>>
        decreases self.config.hop_limit() - route.len(), 0int,
    {
        if route.len() >= self.config.hop_limit() || !self.may_extend(route, e) {
            Seq::empty()
        } else if self.closes(route, e) {
            if self.pays(route.push(e)) {
                seq![route.push(e)]
            } else {
                Seq::empty()
            }
        } else {
            self.routes_upto(route.push(e), self.edges.len() as int)
        }
    }

    /// The routes that the search reports after `route` through the first `n`
    /// edges.
    pub open spec fn routes_upto(self, route: Seq<int>, n: int) -> Seq<Seq<int>>
        decreases self.config.hop_limit() - route.len(), n + 1,
    {
        if n <= 0 {
            Seq::empty()
        } else {
            self.routes_upto(route, n - 1) + self.routes_via(route, n - 1)
        }
    }

    /// Every route that the search reports, in the order of discovery.
    pub open spec fn found_routes(self) -> Seq<Seq<int>> {
        self.routes_upto(Seq::empty(), self.edges.len() as int)
    }

    /// The cycles that the search reports, in the order of discovery.
    pub open spec fn found_cycles(self) -> Seq<CycleView> {
        self.cycles_on(self.found_routes())
    }
}

/// What a hop sells depends only on the hops before it.
pub proof fn lemma_amount_of_prefix(m: Market, r1: Seq<int>, r2: Seq<int>, i: int)
    requires
        r1[0] == r2[0],
        forall|j: int| 0 <= j < i ==> r1[j] == r2[j],
    ensures
        m.amount_at(r1, i) == m.amount_at(r2, i),
    decreases i,
{
    if i > 0 {
        lemma_amount_of_prefix(m, r1, r2, i - 1);
    }
}

/// Taking one more edge leaves the steps walked so far as they were.
pub proof fn lemma_steps_of_extension(m: Market, route: Seq<int>, e: int)
    ensures
        m.route_steps(route.push(e)) == m.route_steps(route).push(
            m.step_at(route.push(e), route.len() as int),
        ),
{
    let longer = route.push(e);
    assert forall|i: int| 0 <= i < route.len() implies m.step_at(longer, i) == m.step_at(
        route,
        i,
    ) by {
        lemma_amount_of_prefix(m, longer, route, i);
    }
    assert(m.route_steps(longer) =~= m.route_steps(route).push(
        m.step_at(longer, route.len() as int),
    ));
}

/// The cycles of two lists of routes, one after the other.
pub proof fn lemma_cycles_on_concat(m: Market, a: Seq<Seq<int>>, b: Seq<Seq<int>>)
    ensures
        m.cycles_on(a + b) == m.cycles_on(a) + m.cycles_on(b),
{
    assert(m.cycles_on(a + b) =~= m.cycles_on(a) + m.cycles_on(b));
}

/// Whether a step of `path` goes through the pool at `address`.
fn uses_pool(path: &Vec<TradeStep>, address: &String) -> (used: bool)
    ensures
        used == exists|i: int| 0 <= i < path.len() && (#[trigger] path[i]).pool_address@ == address@,
{
    let mut i: usize = 0;
    while i < path.len()
        invariant
            i <= path.len(),
            forall|j: int| 0 <= j < i ==> (#[trigger] path[j]).pool_address@ != address@,
        decreases path.len() - i,
    {
        if path[i].pool_address == *address {
            return true;
        }
        i += 1;
    }
    false
}

/// The most that one trade may put into `edge`.
fn trade_cap(edge: &PoolEdge, config: &SearchConfig) -> (cap: u128)
    ensures
        cap == (edge@.reserve_in * (config.impact_cap_ppm as nat)) / (SCALE as nat),
{
    assert(edge.reserve_in as u128 * config.impact_cap_ppm as u128 <= u64::MAX as u128
        * u64::MAX as u128) by (nonlinear_arith)
        requires
            edge.reserve_in as u128 <= u64::MAX as u128,
            config.impact_cap_ppm as u128 <= u64::MAX as u128,
    ;
    (edge.reserve_in as u128 * config.impact_cap_ppm as u128) / (SCALE as u128)
}

/// Walks on from `path` along edge `e` and appends every cycle found to
/// `found`. `path` is handed back as it was.
fn explore(
    edges: &Vec<PoolEdge>,
    config: &SearchConfig,
    book: &PriceBook,
    e: usize,
    path: &mut Vec<TradeStep>,
    found: &mut Vec<ArbitrageCycle>,
    Ghost(route): Ghost<Seq<int>>,
)
    requires
        e < edges.len(),
        route.len() == old(path).len(),
        forall|i: int| 0 <= i < route.len() ==> 0 <= #[trigger] route[i] < edges.len(),
        step_views(old(path)@) == market_of(edges@, *config, *book).route_steps(route),
        fees_in_range(step_views(old(path)@)),
    ensures
        final(path)@ == old(path)@,
        cycle_views(final(found)@) == cycle_views(old(found)@) + market_of(
            edges@,
            *config,
            *book,
        ).cycles_on(market_of(edges@, *config, *book).routes_via(route, e as int)),
    decreases config.hop_limit() - old(path).len(),
{
    let ghost m = market_of(edges@, *config, *book);
    let ghost found0 = cycle_views(found@);
    let ghost path0 = path@;
    let ghost longer = route.push(e as int);
    let depth = path.len();
    proof {
        assert(m.cycles_on(Seq::empty()) =~= Seq::<CycleView>::empty());
        assert(found0 + Seq::<CycleView>::empty() =~= found0);
        assert(m.edges[e as int] == edges[e as int]@);
    }
    if depth >= config.depth_bound() {
        return ;
    }
    let edge = &edges[e];
    if !edge.has_liquidity(config.min_tvl) {
        return ;
    }
    let cap = trade_cap(edge, config);
    let amount: u64;
    if depth == 0 {
        if edge.token_in != book.reference_token {
            return ;
        }
        amount = if config.initial_amount as u128 <= cap {
            config.initial_amount
        } else {
            cap as u64
        };
        assert(amount == m.amount_at(longer, 0));
    } else {
        let last = &path[depth - 1];
        proof {
            let k = depth - 1;
            assert(step_views(path@)[k] == last@);
            assert(m.route_steps(route)[k] == m.step_at(route, k));
            assert(route.last() == route[k]);
            assert(m.edges[route[k]] == edges[route[k]]@);
            lemma_amount_of_prefix(m, longer, route, k);
            assert(longer[k] == route[k]);
            assert(m.amount_at(longer, depth as int) == last.expected_out);
        }
        if edge.token_in != last.buy_token {
            return ;
        }
        let used = uses_pool(path, &edge.pool_address);
        proof {
            if used {
                let i = choose|i: int|
                    0 <= i < path.len() && (#[trigger] path[i]).pool_address@
                        == edge.pool_address@;
                assert(step_views(path@)[i] == path[i]@);
                assert(m.route_steps(route)[i] == m.step_at(route, i));
                assert(m.edges[route[i]].pool_address == m.edges[e as int].pool_address);
            } else {
                assert forall|i: int| 0 <= i < route.len() implies (
                #[trigger] m.edges[route[i]]).pool_address != m.edges[e as int].pool_address by {
                    assert(step_views(path@)[i] == path[i]@);
                    assert(m.route_steps(route)[i] == m.step_at(route, i));
                }
            }
        }
        if used {
            return ;
        }
        if last.expected_out as u128 > cap {
            return ;
        }
        amount = last.expected_out;
    }
    let out = match simulate_quote(edge, amount) {
        Some(out) => out,
        None => {
            return ;
        },
    };
    assert(m.may_extend(route, e as int));
    path.push(TradeStep::along(edge, amount, out));
    proof {
        lemma_steps_of_extension(m, route, e as int);
        assert(step_views(path@) =~= step_views(path0).push(path@[depth as int]@));
        assert(step_views(path@) == m.route_steps(longer));
    }
    if depth > 0 && edge.token_out == book.reference_token {
        let cycle = evaluate_cycle(clone_steps(path), config, book);
        match cycle {
            Some(c) => {
                if c.is_profitable(config.min_profit) {
                    found.push(c);
                    proof {
                        assert(m.routes_via(route, e as int) == seq![longer]);
                        assert(m.cycles_on(seq![longer]) =~= seq![c@]);
                        assert(cycle_views(found@) =~= found0 + seq![c@]);
                    }
                }
            },
            None => {
                assert(false);
            },
        }
    } else {
        let n = edges.len();
        let mut i: usize = 0;
        while i < n
            invariant
                i <= n == edges.len(),
                e < edges.len(),
                m == market_of(edges@, *config, *book),
                longer == route.push(e as int),
                path.len() == depth + 1,
                depth == old(path).len(),
                depth < config.hop_limit(),
                path@.drop_last() == path0,
                longer.len() == path.len(),
                forall|k: int| 0 <= k < longer.len() ==> 0 <= #[trigger] longer[k] < edges.len(),
                step_views(path@) == m.route_steps(longer),
                fees_in_range(step_views(path@)),
                cycle_views(found@) == found0 + m.cycles_on(m.routes_upto(longer, i as int)),
            decreases n - i,
        {
            explore(edges, config, book, i, path, found, Ghost(longer));
            proof {
                lemma_cycles_on_concat(
                    m,
                    m.routes_upto(longer, i as int),
                    m.routes_via(longer, i as int),
                );
            }
            i += 1;
        }
    }
    path.pop();
    assert(path@ =~= path0);
}

/// Finds every cycle that starts and ends on the reference token of `book`,
/// in the order in which a depth-first walk over `edges` comes upon them.
pub fn search_cycles(edges: &Vec<PoolEdge>, config: &SearchConfig, book: &PriceBook) -> (found:
    Vec<ArbitrageCycle>)
    ensures
        cycle_views(found@) == market_of(edges@, *config, *book).found_cycles(),
{
    let ghost m = market_of(edges@, *config, *book);
    let mut path: Vec<TradeStep> = Vec::new();
    let mut found: Vec<ArbitrageCycle> = Vec::new();
    let n = edges.len();
    let mut i: usize = 0;
    proof {
        assert(step_views(path@) =~= m.route_steps(Seq::empty()));
        assert(cycle_views(found@) =~= m.cycles_on(m.routes_upto(Seq::empty(), 0)));
    }
    while i < n
        invariant
            i <= n == edges.len(),
            m == market_of(edges@, *config, *book),
            path@ == Seq::<TradeStep>::empty(),
            step_views(path@) == m.route_steps(Seq::empty()),
            cycle_views(found@) == m.cycles_on(m.routes_upto(Seq::empty(), i as int)),
        decreases n - i,
    {
        explore(edges, config, book, i, &mut path, &mut found, Ghost(Seq::empty()));
        proof {
            lemma_cycles_on_concat(
                m,
                m.routes_upto(Seq::empty(), i as int),
                m.routes_via(Seq::empty(), i as int),
            );
        }
        i += 1;
    }
    found
}

} // verus!
