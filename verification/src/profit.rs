//! The profitability evaluator: a cycle's figures in the reference currency.

use vstd::prelude::*;
use crate::config::SearchConfig;
use crate::cycle::{
    fees_in_range, step_views, ArbitrageCycle, CycleView, StepView, TradeStep, MAX_HOPS,
};
use crate::edge::SCALE;
use crate::prices::{share, share_of, value, value_of, BookView, PriceBook, VALUE_LIMIT};

verus! {

/// The value of what a step sells.
pub open spec fn value_in(book: BookView, s: StepView) -> nat {
    value_of(s.amount_in, book.price_of(s.sell_token))
}

/// The value of what a step buys.
pub open spec fn value_out(book: BookView, s: StepView) -> nat {
    value_of(s.expected_out, book.price_of(s.buy_token))
}

/// The fee that the pool of a step takes, as a value.
pub open spec fn pool_fee(book: BookView, s: StepView) -> nat {
    share_of(value_in(book, s), s.fee_ppm)
}

/// The pool fees of all steps together.
pub open spec fn pool_fees(book: BookView, steps: Seq<StepView>) -> nat
    decreases steps.len(),
{
    if steps.len() == 0 {
        0
    } else {
        pool_fees(book, steps.drop_last()) + pool_fee(book, steps.last())
    }
}

/// The fixed network cost of `hops` hops, as a value.
pub open spec fn network_fees(book: BookView, tx_cost: nat, hops: nat) -> nat {
    hops * value_of(tx_cost, book.reference_price)
}

/// Network cost plus pool fees.
pub open spec fn total_fees(book: BookView, tx_cost: nat, steps: Seq<StepView>) -> nat {
    network_fees(book, tx_cost, steps.len()) + pool_fees(book, steps)
}

/// The value that the last step buys less the value that the first step sells.
pub open spec fn gross_profit(book: BookView, steps: Seq<StepView>) -> int {
    value_out(book, steps.last()) - value_in(book, steps.first())
}

/// Gross profit less all fees.
pub open spec fn net_profit(book: BookView, tx_cost: nat, steps: Seq<StepView>) -> int {
    gross_profit(book, steps) - total_fees(book, tx_cost, steps)
}

/// The steps that the evaluator accepts: two to four of them, each with a fee
/// rate below the whole.
pub open spec fn can_evaluate(steps: Seq<StepView>) -> bool {
    2 <= steps.len() <= MAX_HOPS && fees_in_range(steps)
}

/// The cycle that `steps` form, with its figures.
pub open spec fn cycle_of(book: BookView, tx_cost: nat, steps: Seq<StepView>) -> CycleView {
    CycleView {
        steps,
        initial_amount: steps.first().amount_in,
        final_amount: steps.last().expected_out,
        total_fees: total_fees(book, tx_cost, steps),
        gross_profit: gross_profit(book, steps),
        net_profit: net_profit(book, tx_cost, steps),
    }
}

/// Whether a cycle clears the profit threshold.
pub open spec fn clears_threshold(c: CycleView, min_profit: nat) -> bool {
    c.net_profit > min_profit
}

/// Whether every step has a fee rate below the whole.
fn check_fees(steps: &Vec<TradeStep>) -> (ok: bool)
    ensures
        ok == fees_in_range(step_views(steps@)),
{
    let mut i: usize = 0;
    while i < steps.len()
        invariant
            i <= steps.len(),
            forall|j: int| 0 <= j < i ==> (#[trigger] step_views(steps@)[j]).fee_ppm < SCALE,
        decreases steps.len() - i,
    {
        if steps[i].fee_ppm >= SCALE {
            assert(step_views(steps@)[i as int].fee_ppm >= SCALE);
            return false;
        }
        i += 1;
    }
    true
}

/// Sums the pool fees of steps that [`can_evaluate`] accepts.
fn sum_pool_fees(steps: &Vec<TradeStep>, book: &PriceBook) -> (total: u128)
    requires
        steps.len() <= MAX_HOPS,
        fees_in_range(step_views(steps@)),
    ensures
        total == pool_fees(book@, step_views(steps@)),
        total <= steps.len() * VALUE_LIMIT,
{
    let mut total: u128 = 0;
    let mut i: usize = 0;
    let ghost views = step_views(steps@);
    while i < steps.len()
        invariant
            i <= steps.len() <= MAX_HOPS,
            views == step_views(steps@),
            fees_in_range(views),
            total == pool_fees(book@, views.take(i as int)),
            total <= i * VALUE_LIMIT,
        decreases steps.len() - i,
    {
        let step = &steps[i];
        assert(views[i as int] == step@);
        let sold = value(step.amount_in, book.price(&step.sell_token));
        let fee = share(sold, step.fee_ppm);
        proof {
            assert(views.take(i + 1).drop_last() =~= views.take(i as int));
            assert(views.take(i + 1).last() == step@);
            assert((i + 1) * VALUE_LIMIT == i * VALUE_LIMIT + VALUE_LIMIT) by (nonlinear_arith);
            assert(i * VALUE_LIMIT <= 4 * VALUE_LIMIT) by (nonlinear_arith)
                requires
                    i <= 4,
            ;
        }
        total = total + fee;
        i += 1;
    }
    assert(views.take(i as int) =~= views);
    total
}

/// Turns a completed path into a cycle with its figures: the fixed cost of
/// each hop and each pool's fee are taken off the difference between the value
/// that comes out and the value that goes in. Returns `None` for fewer than two
/// or more than four steps, and for a step whose fee rate is the whole or more.
pub fn evaluate_cycle(steps: Vec<TradeStep>, config: &SearchConfig, book: &PriceBook) -> (r:
    Option<ArbitrageCycle>)
    ensures
        r.is_some() == can_evaluate(step_views(steps@)),
        r.is_some() ==> r.unwrap()@ == cycle_of(
            book@,
            config.tx_cost as nat,
            step_views(steps@),
        ),
{
    let n = steps.len();
    if n < 2 || n > MAX_HOPS {
        return None;
    }
    if !check_fees(&steps) {
        return None;
    }
    let ghost views = step_views(steps@);
    let first = &steps[0];
    let last = &steps[n - 1];
    assert(views.first() == first@);
    assert(views.last() == last@);
    let sold = value(first.amount_in, book.price(&first.sell_token));
    let bought = value(last.expected_out, book.price(&last.buy_token));
    let hop_cost = value(config.tx_cost, book.reference_price);
    assert(n * hop_cost <= 4 * VALUE_LIMIT) by (nonlinear_arith)
        requires
            n <= 4,
            hop_cost <= VALUE_LIMIT,
    ;
    let network = (n as u128) * hop_cost;
    let pools = sum_pool_fees(&steps, book);
    assert(n * VALUE_LIMIT <= 4 * VALUE_LIMIT) by (nonlinear_arith)
        requires
            n <= 4,
    ;
    let fees = network + pools;
    let gross = bought as i128 - sold as i128;
    let net = gross - fees as i128;
    let initial_amount = first.amount_in;
    let final_amount = last.expected_out;
    Some(
        ArbitrageCycle {
            steps,
            initial_amount,
            final_amount,
            total_fees: fees,
            gross_profit: gross,
            net_profit: net,
        },
    )
}

impl ArbitrageCycle {
    /// Whether the net profit exceeds `min_profit`.
    pub fn is_profitable(&self, min_profit: u64) -> (r: bool)
        ensures
            r == clears_threshold(self@, min_profit as nat),
    {
        self.net_profit > min_profit as i128
    }
}

} // verus!
