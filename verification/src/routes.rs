//! What the search finds, stated without reference to how it walks: the
//! routes that are closed, connected, within all limits and profitable.

use vstd::prelude::*;
use crate::cycle::{
    amount_continuous, fees_in_range, pools_distinct, token_continuous, CycleView, MAX_HOPS,
};
use crate::profit::cycle_of;
use crate::quote::{has_quote, lemma_quote_needs_fee_in_range};
use crate::search::{lemma_amount_of_prefix, Market};

verus! {

impl Market {
    /// Hop `i` of `route` goes along an edge of the market that holds enough
    /// liquidity and gives a quote for what the hop sells.
    pub open spec fn hop_valid(self, route: Seq<int>, i: int) -> bool {
        &&& 0 <= route[i] < self.edges.len()
        &&& self.edges[route[i]].total_value_locked >= self.config.min_tvl
        &&& has_quote(self.edges[route[i]], self.amount_at(route, i))
    }

    /// Hop `i` of `route` sells the token that the hop before it bought, and
    /// all of what that hop bought, without exceeding the edge's cap.
    pub open spec fn hop_linked(self, route: Seq<int>, i: int) -> bool {
        &&& self.edges[route[i]].token_in == self.edges[route[i - 1]].token_out
        &&& self.amount_at(route, i) <= self.impact_cap(route[i])
    }

    /// Hops `i` and `j` of `route` go through different pools.
    pub open spec fn hops_apart(self, route: Seq<int>, i: int, j: int) -> bool {
        self.edges[route[i]].pool_address != self.edges[route[j]].pool_address
    }

    /// Hop `i` of `route` buys the reference token.
    pub open spec fn hop_returns(self, route: Seq<int>, i: int) -> bool {
        self.edges[route[i]].token_out == self.book.reference_token
    }

    /// The hops of `route` are valid, linked one to the next, and no pool
    /// occurs twice; the first hop sells the reference token.
    pub open spec fn connected(self, route: Seq<int>) -> bool {
        &&& route.len() > 0 ==> self.edges[route[0]].token_in == self.book.reference_token
        &&& forall|i: int| 0 <= i < route.len() ==> #[trigger] self.hop_valid(route, i)
        &&& forall|i: int| 0 < i < route.len() ==> #[trigger] self.hop_linked(route, i)
        &&& forall|i: int, j: int|
            0 <= i < j < route.len() ==> #[trigger] self.hops_apart(route, i, j)
    }

    /// An unfinished walk: connected, within the hop limit, and after its
    /// first hop it has not come back to the reference token.
    pub open spec fn is_trail(self, route: Seq<int>) -> bool {
        &&& route.len() <= self.config.hop_limit()
        &&& self.connected(route)
        &&& forall|i: int| 0 < i < route.len() ==> !#[trigger] self.hop_returns(route, i)
    }

    /// A closed route: two hops or more within the hop limit, connected, and
    /// back at the reference token with its last hop and not before it (the
    /// first hop aside).
    pub open spec fn is_route(self, route: Seq<int>) -> bool {
        &&& 2 <= route.len() <= self.config.hop_limit()
        &&& self.connected(route)
        &&& forall|i: int| 0 < i < route.len() - 1 ==> !#[trigger] self.hop_returns(route, i)
        &&& self.hop_returns(route, route.len() - 1)
    }

    /// A route that the search is to report: closed and above the profit
    /// threshold.
    pub open spec fn is_profitable_route(self, route: Seq<int>) -> bool {
        self.is_route(route) && self.pays(route)
    }

    /// A cycle that the search is to report: the cycle of a profitable route.
    pub open spec fn is_profitable_cycle(self, c: CycleView) -> bool {
        exists|route: Seq<int>| self.is_profitable_route(route) && c == self.cycle_on(route)
    }
}

/// A walk and the same walk with one more edge agree on every earlier hop.
proof fn lemma_extension_agrees(m: Market, route: Seq<int>, e: int)
    ensures
        forall|i: int|
            0 <= i < route.len() ==> m.hop_valid(route.push(e), i) == m.hop_valid(route, i),
        forall|i: int|
            0 < i < route.len() ==> m.hop_linked(route.push(e), i) == m.hop_linked(route, i),
        forall|i: int, j: int|
            0 <= i < j < route.len() ==> m.hops_apart(route.push(e), i, j) == m.hops_apart(
                route,
                i,
                j,
            ),
        forall|i: int|
            0 <= i < route.len() ==> m.hop_returns(route.push(e), i) == m.hop_returns(route, i),
{
    let longer = route.push(e);
    assert forall|i: int| 0 <= i < route.len() implies m.amount_at(longer, i) == m.amount_at(
        route,
        i,
    ) by {
        lemma_amount_of_prefix(m, longer, route, i);
    }
}

/// One more edge on a trail gives a closed route if the edge closes it, and a
/// longer trail if not.
pub proof fn lemma_extend_trail(m: Market, route: Seq<int>, e: int)
    requires
        m.is_trail(route),
        route.len() < m.config.hop_limit(),
        m.may_extend(route, e),
    ensures
        m.closes(route, e) ==> m.is_route(route.push(e)),
        !m.closes(route, e) ==> m.is_trail(route.push(e)),
{
    let longer = route.push(e);
    let n = route.len() as int;
    lemma_extension_agrees(m, route, e);
    assert(longer[n] == e);
    assert forall|i: int| 0 <= i < longer.len() implies #[trigger] m.hop_valid(longer, i) by {
        if i < n {
            assert(m.hop_valid(route, i));
        }
    }
    assert forall|i: int| 0 < i < longer.len() implies #[trigger] m.hop_linked(longer, i) by {
        if i < n {
            assert(m.hop_linked(route, i));
        } else {
            assert(longer[n - 1] == route.last());
        }
    }
    assert forall|i: int, j: int| 0 <= i < j < longer.len() implies #[trigger] m.hops_apart(
        longer,
        i,
        j,
    ) by {
        if j < n {
            assert(m.hops_apart(route, i, j));
        } else {
            assert(longer[i] == route[i]);
        }
    }
    assert(m.connected(longer));
    assert forall|i: int| 0 < i < n implies !#[trigger] m.hop_returns(longer, i) by {
        assert(!m.hop_returns(route, i));
    }
}

/// A trail or closed route without its last edge is a trail that the search
/// may extend by that edge; the edge closes it exactly if the whole is a
/// closed route.
pub proof fn lemma_shorten(m: Market, route: Seq<int>, e: int)
    requires
        m.is_trail(route.push(e)) || m.is_route(route.push(e)),
    ensures
        m.is_trail(route),
        route.len() < m.config.hop_limit(),
        m.may_extend(route, e),
        m.closes(route, e) == m.is_route(route.push(e)),
        m.closes(route, e) == !m.is_trail(route.push(e)),
{
    let longer = route.push(e);
    let n = route.len() as int;
    lemma_extension_agrees(m, route, e);
    assert(longer[n] == e);
    assert forall|i: int| 0 <= i < n implies #[trigger] m.hop_valid(route, i) by {
        assert(m.hop_valid(longer, i));
    }
    assert forall|i: int| 0 < i < n implies #[trigger] m.hop_linked(route, i) by {
        assert(m.hop_linked(longer, i));
    }
    assert forall|i: int, j: int| 0 <= i < j < n implies #[trigger] m.hops_apart(
        route,
        i,
        j,
    ) by {
        assert(m.hops_apart(longer, i, j));
    }
    assert forall|i: int| 0 < i < n implies !#[trigger] m.hop_returns(route, i) by {
        assert(!m.hop_returns(longer, i));
    }
    if n > 0 {
        assert(longer[0] == route[0]);
        assert(m.hop_valid(longer, 0));
    }
    assert(m.is_trail(route));
    assert(m.hop_valid(longer, n));
    if n > 0 {
        assert(m.hop_linked(longer, n));
        assert(longer[n - 1] == route.last());
        assert forall|i: int| 0 <= i < n implies (#[trigger] m.edges[route[i]]).pool_address
            != m.edges[e].pool_address by {
            assert(m.hops_apart(longer, i, n));
            assert(longer[i] == route[i]);
        }
    }
    assert(m.may_extend(route, e));
    assert(m.hop_returns(longer, n) == (m.edges[e].token_out == m.book.reference_token));
    if m.is_route(longer) {
        assert(m.closes(route, e));
        assert(!m.is_trail(longer));
    } else {
        if n > 0 {
            assert(!m.hop_returns(longer, n));
        }
    }
}

/// `route` begins with the hops of `start`.
pub open spec fn begins_with(route: Seq<int>, start: Seq<int>) -> bool {
    start.len() <= route.len() && forall|i: int| 0 <= i < start.len() ==> route[i] == start[i]
}

/// Every beginning of a trail is a trail, and so is every beginning of a
/// closed route that is shorter than the route.
pub proof fn lemma_beginning_is_trail(m: Market, route: Seq<int>, k: int)
    requires
        0 <= k <= route.len(),
        m.is_trail(route) || (m.is_route(route) && k < route.len()),
    ensures
        m.is_trail(route.take(k)),
    decreases route.len() - k,
{
    if k == route.len() {
        assert(route.take(k) =~= route);
    } else {
        let shorter = route.drop_last();
        assert(shorter.push(route.last()) =~= route);
        lemma_shorten(m, shorter, route.last());
        lemma_beginning_is_trail(m, shorter, k);
        assert(shorter.take(k) =~= route.take(k));
    }
}

/// A list made of two holds what either of them holds.
proof fn lemma_contains_concat(a: Seq<Seq<int>>, b: Seq<Seq<int>>, r: Seq<int>)
    ensures
        (a + b).contains(r) <==> a.contains(r) || b.contains(r),
{
    if a.contains(r) {
        let i = choose|i: int| 0 <= i < a.len() && a[i] == r;
        assert((a + b)[i] == r);
    }
    if b.contains(r) {
        let i = choose|i: int| 0 <= i < b.len() && b[i] == r;
        assert((a + b)[a.len() + i] == r);
    }
    if (a + b).contains(r) {
        let i = choose|i: int| 0 <= i < (a + b).len() && (a + b)[i] == r;
        if i < a.len() {
            assert(a[i] == r);
        } else {
            assert(b[i - a.len()] == r);
        }
    }
}

/// Past a trail and along edge `e` the search reports exactly the profitable
/// routes that begin with the trail and that edge.
pub proof fn lemma_routes_via(m: Market, route: Seq<int>, e: int, r: Seq<int>)
    requires
        m.is_trail(route),
    ensures
        m.routes_via(route, e).contains(r) <==> m.is_profitable_route(r) && begins_with(
            r,
            route.push(e),
        ),
    decreases m.config.hop_limit() - route.len(), 0int,
{
    let longer = route.push(e);
    let k = longer.len() as int;
    if m.routes_via(route, e).contains(r) {
        assert(route.len() < m.config.hop_limit() && m.may_extend(route, e));
        lemma_extend_trail(m, route, e);
        if m.closes(route, e) {
            assert(m.pays(longer));
            assert(seq![longer].contains(r));
            assert(r == longer);
        } else {
            lemma_routes_upto(m, longer, m.edges.len() as int, r);
        }
    }
    if m.is_profitable_route(r) && begins_with(r, longer) {
        assert(r.take(k) =~= longer);
        if r.len() == k {
            assert(r =~= longer);
            lemma_shorten(m, route, e);
            assert(m.routes_via(route, e) == seq![longer]);
            assert(seq![longer][0] == r);
        } else {
            lemma_beginning_is_trail(m, r, k);
            lemma_shorten(m, route, e);
            assert(m.hop_valid(r, k));
            lemma_routes_upto(m, longer, m.edges.len() as int, r);
        }
    }
}

/// Past a trail and through the first `n` edges the search reports exactly
/// the profitable routes that begin with the trail and go on along one of
/// those edges.
pub proof fn lemma_routes_upto(m: Market, route: Seq<int>, n: int, r: Seq<int>)
    requires
        m.is_trail(route),
    ensures
        m.routes_upto(route, n).contains(r) <==> {
            &&& m.is_profitable_route(r)
            &&& begins_with(r, route)
            &&& r.len() > route.len()
            &&& 0 <= r[route.len() as int] < n
        },
    decreases m.config.hop_limit() - route.len(), n + 1,
{
    if n > 0 {
        let before = m.routes_upto(route, n - 1);
        let last = m.routes_via(route, n - 1);
        lemma_contains_concat(before, last, r);
        lemma_routes_upto(m, route, n - 1, r);
        lemma_routes_via(m, route, n - 1, r);
        if begins_with(r, route.push(n - 1)) {
            assert(r[route.len() as int] == route.push(n - 1)[route.len() as int]);
            assert forall|i: int| 0 <= i < route.len() implies r[i] == route[i] by {
                assert(route.push(n - 1)[i] == route[i]);
            }
        }
        if begins_with(r, route) && r.len() > route.len() && r[route.len() as int] == n - 1 {
            assert(begins_with(r, route.push(n - 1)));
        }
    }
}

/// Past a trail the search reports no route twice.
pub proof fn lemma_routes_via_distinct(m: Market, route: Seq<int>, e: int)
    requires
        m.is_trail(route),
    ensures
        m.routes_via(route, e).no_duplicates(),
    decreases m.config.hop_limit() - route.len(), 0int,
{
    if route.len() < m.config.hop_limit() && m.may_extend(route, e) && !m.closes(route, e) {
        lemma_extend_trail(m, route, e);
        lemma_routes_upto_distinct(m, route.push(e), m.edges.len() as int);
    }
}

/// Past a trail and through the first `n` edges the search reports no route
/// twice.
pub proof fn lemma_routes_upto_distinct(m: Market, route: Seq<int>, n: int)
    requires
        m.is_trail(route),
    ensures
        m.routes_upto(route, n).no_duplicates(),
    decreases m.config.hop_limit() - route.len(), n + 1,
{
    if n > 0 {
        let before = m.routes_upto(route, n - 1);
        let last = m.routes_via(route, n - 1);
        lemma_routes_upto_distinct(m, route, n - 1);
        lemma_routes_via_distinct(m, route, n - 1);
        assert forall|i: int, j: int| 0 <= i < before.len() && 0 <= j < last.len() implies before[i]
            != last[j] by {
            assert(before.contains(before[i]));
            assert(last.contains(last[j]));
            lemma_routes_upto(m, route, n - 1, before[i]);
            lemma_routes_via(m, route, n - 1, last[j]);
            assert(last[j][route.len() as int] == route.push(n - 1)[route.len() as int]);
        }
        vstd::seq_lib::lemma_no_dup_in_concat(before, last);
    }
}

/// The search is sound and complete: it reports a route if and only if the
/// route is closed, connected, within all limits and above the profit
/// threshold.
pub proof fn lemma_found_exactly_the_profitable(m: Market, r: Seq<int>)
    ensures
        m.found_routes().contains(r) <==> m.is_profitable_route(r),
{
    let none = Seq::<int>::empty();
    assert(m.is_trail(none));
    lemma_routes_upto(m, none, m.edges.len() as int, r);
    if m.is_profitable_route(r) {
        assert(m.hop_valid(r, 0));
    }
}

/// The search reports each route once.
pub proof fn lemma_found_once(m: Market)
    ensures
        m.found_routes().no_duplicates(),
{
    let none = Seq::<int>::empty();
    assert(m.is_trail(none));
    lemma_routes_upto_distinct(m, none, m.edges.len() as int);
}

impl Market {
    /// What holds of a cycle that the search reports: it has two to four
    /// steps, uses no pool twice, hands each step's proceeds to the next, starts
    /// from and returns to the reference token, carries the figures that the
    /// evaluator gives its steps, and nets more than the profit threshold.
    pub open spec fn sound_cycle(self, c: CycleView) -> bool {
        &&& 2 <= c.steps.len() <= MAX_HOPS
        &&& c.steps.len() <= self.config.hop_limit()
        &&& pools_distinct(c.steps)
        &&& amount_continuous(c.steps)
        &&& token_continuous(c.steps)
        &&& fees_in_range(c.steps)
        &&& forall|i: int| 0 <= i < c.steps.len() ==> (#[trigger] c.steps[i]).expected_out > 0
        &&& c.steps.first().sell_token == self.book.reference_token
        &&& c.steps.last().buy_token == self.book.reference_token
        &&& c == cycle_of(self.book, self.config.tx_cost as nat, c.steps)
        &&& c.net_profit > self.config.min_profit
    }
}

/// The steps of a closed route use no pool twice, and each hands its
/// proceeds and its token to the next.
proof fn lemma_route_steps_chain(m: Market, route: Seq<int>)
    requires
        m.is_route(route),
    ensures
        pools_distinct(m.route_steps(route)),
        amount_continuous(m.route_steps(route)),
        token_continuous(m.route_steps(route)),
{
    let steps = m.route_steps(route);
    assert forall|i: int, j: int| 0 <= i < j < steps.len() implies (
    #[trigger] steps[i]).pool_address != (#[trigger] steps[j]).pool_address by {
        assert(m.hops_apart(route, i, j));
    }
    assert forall|i: int, j: int| 0 <= i && j == i + 1 && j < steps.len() implies (
    #[trigger] steps[i]).expected_out == (#[trigger] steps[j]).amount_in by {
        assert(m.amount_at(route, j) == crate::quote::quoted_output(
            m.edges[route[j - 1]],
            m.amount_at(route, j - 1),
        ));
    }
    assert forall|i: int, j: int| 0 <= i && j == i + 1 && j < steps.len() implies (
    #[trigger] steps[i]).buy_token == (#[trigger] steps[j]).sell_token by {
        assert(m.hop_linked(route, j));
    }
}

/// Every step of a closed route pays out something, at a fee below the whole.
proof fn lemma_route_steps_pay(m: Market, route: Seq<int>)
    requires
        m.is_route(route),
    ensures
        fees_in_range(m.route_steps(route)),
        forall|i: int|
            0 <= i < route.len() ==> (#[trigger] m.route_steps(route)[i]).expected_out > 0,
{
    let steps = m.route_steps(route);
    assert forall|i: int| 0 <= i < steps.len() implies (#[trigger] steps[i]).fee_ppm
        < crate::edge::SCALE && steps[i].expected_out > 0 by {
        assert(m.hop_valid(route, i));
        lemma_quote_needs_fee_in_range(m.edges[route[i]], m.amount_at(route, i));
    }
}

/// The cycle of a profitable route is sound.
pub proof fn lemma_profitable_route_is_sound(m: Market, route: Seq<int>)
    requires
        m.is_profitable_route(route),
    ensures
        m.sound_cycle(m.cycle_on(route)),
        m.cycle_on(route).steps == m.route_steps(route),
        m.cycle_on(route).steps.len() == route.len(),
{
    lemma_route_steps_chain(m, route);
    lemma_route_steps_pay(m, route);
    assert(m.hop_returns(route, route.len() - 1));
}

} // verus!
