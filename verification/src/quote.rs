//! The constant-product quote simulator.

use vstd::prelude::*;
use crate::edge::{EdgeView, PoolEdge, SCALE};

verus! {

/// What is left of `amount_in` once the pool has taken its fee, rounded down.
/// A fee of the whole input or more leaves nothing.
pub open spec fn net_input(amount_in: nat, fee_ppm: nat) -> nat {
    if fee_ppm >= SCALE {
        0
    } else {
        (amount_in * (SCALE - fee_ppm)) as nat / (SCALE as nat)
    }
}

/// The output that keeps the product of the reserves from falling when
/// `net_in` is added to the input side, rounded down.
pub open spec fn swap_output(reserve_in: nat, reserve_out: nat, net_in: nat) -> nat {
    if reserve_in == 0 {
        0
    } else {
        (reserve_out * net_in) / (reserve_in + net_in)
    }
}

/// The output of trading `amount_in` along `e`.
pub open spec fn quoted_output(e: EdgeView, amount_in: nat) -> nat {
    swap_output(e.reserve_in, e.reserve_out, net_input(amount_in, e.fee_ppm))
}

/// A quote exists when the pool is usable and the trade yields something.
pub open spec fn has_quote(e: EdgeView, amount_in: nat) -> bool {
    e.usable() && quoted_output(e, amount_in) > 0
}

/// The quote for `amount_in` along `e`, if there is one.
pub open spec fn quote_of(e: EdgeView, amount_in: nat) -> Option<nat> {
    if has_quote(e, amount_in) {
        Some(quoted_output(e, amount_in))
    } else {
        None
    }
}

/// The output is less than the output reserve: a trade never drains a pool.
pub proof fn lemma_output_below_reserve(reserve_in: nat, reserve_out: nat, net_in: nat)
    requires
        reserve_in > 0,
    ensures
        swap_output(reserve_in, reserve_out, net_in) <= reserve_out,
        reserve_out > 0 ==> swap_output(reserve_in, reserve_out, net_in) < reserve_out,
{
    let d = reserve_in + net_in;
    let q = (reserve_out * net_in) / d;
    vstd::arithmetic::div_mod::lemma_fundamental_div_mod((reserve_out * net_in) as int, d as int);
    vstd::arithmetic::div_mod::lemma_mod_pos_bound((reserve_out * net_in) as int, d as int);
    assert(q * d <= reserve_out * net_in) by (nonlinear_arith)
        requires
            reserve_out * net_in == d * q + (reserve_out * net_in) % d,
            (reserve_out * net_in) % d >= 0,
    ;
    if q >= reserve_out && reserve_out > 0 {
        assert(q * d >= reserve_out * d) by (nonlinear_arith)
            requires
                q >= reserve_out,
                d > 0,
        ;
        assert(reserve_out * d > reserve_out * net_in) by (nonlinear_arith)
            requires
                d > net_in,
                reserve_out > 0,
        ;
    }
    if reserve_out == 0 {
        assert(reserve_out * net_in == 0) by (nonlinear_arith)
            requires
                reserve_out == 0,
        ;
    }
}

/// What remains after the fee is no more than what was put in.
pub proof fn lemma_net_input_bounded(amount_in: nat, fee_ppm: nat)
    ensures
        net_input(amount_in, fee_ppm) <= amount_in,
{
    if fee_ppm < SCALE {
        let k = (SCALE - fee_ppm) as nat;
        assert(amount_in * k <= amount_in * SCALE) by (nonlinear_arith)
            requires
                k <= SCALE,
        ;
        vstd::arithmetic::div_mod::lemma_div_is_ordered(
            (amount_in * k) as int,
            (amount_in * SCALE) as int,
            SCALE as int,
        );
        vstd::arithmetic::div_mod::lemma_div_multiples_vanish(amount_in as int, SCALE as int);
        assert(amount_in * SCALE == SCALE * amount_in) by (nonlinear_arith);
    }
}

/// The constant-product law. With the fee taken off the input, the product of
/// the reserves after the trade is at least the product before it, and exceeds
/// it by less than one unit of output: the whole of the rounding.
pub proof fn lemma_product_preserved(e: EdgeView, amount_in: nat)
    requires
        e.reserve_in > 0,
    ensures
        quoted_output(e, amount_in) <= e.reserve_out,
        (e.reserve_in + net_input(amount_in, e.fee_ppm)) * (e.reserve_out - quoted_output(
            e,
            amount_in,
        )) >= e.reserve_in * e.reserve_out,
        (e.reserve_in + net_input(amount_in, e.fee_ppm)) * (e.reserve_out - quoted_output(
            e,
            amount_in,
        )) < e.reserve_in * e.reserve_out + (e.reserve_in + net_input(amount_in, e.fee_ppm)),
{
    let a = net_input(amount_in, e.fee_ppm);
    let d = e.reserve_in + a;
    let s = e.reserve_out;
    let q = quoted_output(e, amount_in);
    let rem = (s * a) % d;
    lemma_output_below_reserve(e.reserve_in, s, a);
    vstd::arithmetic::div_mod::lemma_fundamental_div_mod((s * a) as int, d as int);
    vstd::arithmetic::div_mod::lemma_mod_pos_bound((s * a) as int, d as int);
    assert(d * (s - q) == e.reserve_in * s + rem) by (nonlinear_arith)
        requires
            s * a == d * q + rem,
            d == e.reserve_in + a,
    ;
}

/// Rounded-down division keeps the order of two fractions.
proof fn lemma_fraction_order(x1: nat, y1: nat, x2: nat, y2: nat)
    requires
        y1 > 0,
        y2 > 0,
        x1 * y2 <= x2 * y1,
    ensures
        x1 / y1 <= x2 / y2,
{
    let q1 = x1 / y1;
    vstd::arithmetic::div_mod::lemma_fundamental_div_mod(x1 as int, y1 as int);
    vstd::arithmetic::div_mod::lemma_mod_pos_bound(x1 as int, y1 as int);
    assert(q1 * y2 <= x2) by (nonlinear_arith)
        requires
            x1 == y1 * q1 + x1 % y1,
            x1 % y1 >= 0,
            x1 * y2 <= x2 * y1,
            y1 > 0,
    ;
    vstd::arithmetic::div_mod::lemma_div_is_ordered((q1 * y2) as int, x2 as int, y2 as int);
    vstd::arithmetic::div_mod::lemma_div_multiples_vanish(q1 as int, y2 as int);
    assert(q1 * y2 == y2 * q1) by (nonlinear_arith);
}

/// A larger input leaves at least as much after the fee.
pub proof fn lemma_net_input_monotonic(a1: nat, a2: nat, fee_ppm: nat)
    requires
        a1 <= a2,
    ensures
        net_input(a1, fee_ppm) <= net_input(a2, fee_ppm),
{
    if fee_ppm < SCALE {
        let k = (SCALE - fee_ppm) as nat;
        assert(a1 * k <= a2 * k) by (nonlinear_arith)
            requires
                a1 <= a2,
        ;
        vstd::arithmetic::div_mod::lemma_div_is_ordered(
            (a1 * k) as int,
            (a2 * k) as int,
            SCALE as int,
        );
    }
}

/// Monotonicity: a larger input never yields a smaller output.
pub proof fn lemma_quote_monotonic(e: EdgeView, a1: nat, a2: nat)
    requires
        a1 <= a2,
    ensures
        quoted_output(e, a1) <= quoted_output(e, a2),
        has_quote(e, a1) ==> has_quote(e, a2),
{
    if e.reserve_in > 0 {
        let n1 = net_input(a1, e.fee_ppm);
        let n2 = net_input(a2, e.fee_ppm);
        let r = e.reserve_in;
        let s = e.reserve_out;
        lemma_net_input_monotonic(a1, a2, e.fee_ppm);
        assert((s * n1) * (r + n2) <= (s * n2) * (r + n1)) by (nonlinear_arith)
            requires
                n1 <= n2,
        ;
        lemma_fraction_order(s * n1, r + n1, s * n2, r + n2);
    }
}

/// A pool whose fee is the whole input or more gives no quote.
pub proof fn lemma_quote_needs_fee_in_range(e: EdgeView, amount_in: nat)
    requires
        has_quote(e, amount_in),
    ensures
        e.fee_in_range(),
        net_input(amount_in, e.fee_ppm) > 0,
        amount_in > 0,
{
    if net_input(amount_in, e.fee_ppm) == 0 {
        assert(e.reserve_out * 0nat == 0) by (nonlinear_arith);
    }
    if amount_in == 0 {
        lemma_zero_input_yields_nothing(e);
    }
}

/// An input of zero yields nothing, whatever the pool.
pub proof fn lemma_zero_input_yields_nothing(e: EdgeView)
    ensures
        quoted_output(e, 0) == 0,
        !has_quote(e, 0),
{
    if e.fee_ppm < SCALE {
        assert(0nat * ((SCALE - e.fee_ppm) as nat) == 0) by (nonlinear_arith);
    }
    assert(e.reserve_out * 0nat == 0) by (nonlinear_arith);
}

/// Simulates trading `amount_in` along `edge` against its snapshot, which is
/// left untouched. Returns `None` when a reserve is empty or when the trade
/// would yield nothing; in particular an input of zero has no quote.
pub fn simulate_quote(edge: &PoolEdge, amount_in: u64) -> (r: Option<u64>)
    ensures
        r.is_some() == has_quote(edge@, amount_in as nat),
        r.is_some() ==> r.unwrap() == quoted_output(edge@, amount_in as nat),
        amount_in == 0 ==> r.is_none(),
        edge.reserve_in == 0 || edge.reserve_out == 0 ==> r.is_none(),
        r.is_some() ==> edge.fee_ppm < SCALE && r.unwrap() < edge.reserve_out,
{
    if edge.reserve_in == 0 || edge.reserve_out == 0 || edge.fee_ppm >= SCALE {
        proof {
            if edge.fee_ppm >= SCALE && edge.reserve_in > 0 {
                assert(edge.reserve_out as nat * 0nat == 0) by (nonlinear_arith);
            }
        }
        return None;
    }
    let keep: u128 = (SCALE - edge.fee_ppm) as u128;
    assert(amount_in as u128 * keep <= u64::MAX as u128 * SCALE as u128) by (nonlinear_arith)
        requires
            keep <= SCALE as u128,
            amount_in as u128 <= u64::MAX as u128,
    ;
    let net: u128 = (amount_in as u128 * keep) / (SCALE as u128);
    proof {
        lemma_net_input_bounded(amount_in as nat, edge.fee_ppm as nat);
        assert(net == net_input(amount_in as nat, edge.fee_ppm as nat));
    }
    assert(edge.reserve_out as u128 * net <= u64::MAX as u128 * u64::MAX as u128)
        by (nonlinear_arith)
        requires
            net <= u64::MAX as u128,
            edge.reserve_out as u128 <= u64::MAX as u128,
    ;
    let out: u128 = (edge.reserve_out as u128 * net) / (edge.reserve_in as u128 + net);
    proof {
        lemma_output_below_reserve(edge.reserve_in as nat, edge.reserve_out as nat, net as nat);
        assert(out == quoted_output(edge@, amount_in as nat));
        if amount_in == 0 {
            assert(0u128 * keep == 0) by (nonlinear_arith);
            assert(edge.reserve_out as u128 * 0u128 == 0) by (nonlinear_arith);
        }
    }
    if out == 0 {
        None
    } else {
        Some(out as u64)
    }
}

} // verus!
