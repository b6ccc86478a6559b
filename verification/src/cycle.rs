//! Trade steps and the cycles they form.

use vstd::prelude::*;
use crate::edge::{EdgeView, PoolEdge, PoolSource, SCALE};

verus! {

/// The most hops a cycle may have.
pub const MAX_HOPS: usize = 4;

/// One hop of a candidate cycle: what is sold into which pool, and what the
/// pool is expected to pay out.
#[derive(Debug)]
pub struct TradeStep {
    pub pool_address: String,
    pub source: PoolSource,
    pub sell_token: String,
    pub buy_token: String,
    pub amount_in: u64,
    pub expected_out: u64,
    /// The pool's fee on the input, in parts per million.
    pub fee_ppm: u64,
}

/// The mathematical content of a [`TradeStep`].
pub struct StepView {
    pub pool_address: Seq<char>,
    pub source: PoolSource,
    pub sell_token: Seq<char>,
    pub buy_token: Seq<char>,
    pub amount_in: nat,
    pub expected_out: nat,
    pub fee_ppm: nat,
}

impl View for TradeStep {
    type V = StepView;

    open spec fn view(&self) -> StepView {
        StepView {
            pool_address: self.pool_address@,
            source: self.source,
            sell_token: self.sell_token@,
            buy_token: self.buy_token@,
            amount_in: self.amount_in as nat,
            expected_out: self.expected_out as nat,
            fee_ppm: self.fee_ppm as nat,
        }
    }
}

/// The views of a list of steps, position by position.
pub open spec fn step_views(steps: Seq<TradeStep>) -> Seq<StepView> {
    Seq::new(steps.len(), |i: int| steps[i]@)
}

/// The step that trades `amount_in` along `e` for `expected_out`.
pub open spec fn step_along(e: EdgeView, amount_in: nat, expected_out: nat) -> StepView {
    StepView {
        pool_address: e.pool_address,
        source: e.source,
        sell_token: e.token_in,
        buy_token: e.token_out,
        amount_in,
        expected_out,
        fee_ppm: e.fee_ppm,
    }
}

impl Clone for TradeStep {
    fn clone(&self) -> (r: Self)
        ensures
            r@ == self@,
    {
        TradeStep {
            pool_address: self.pool_address.clone(),
            source: self.source,
            sell_token: self.sell_token.clone(),
            buy_token: self.buy_token.clone(),
            amount_in: self.amount_in,
            expected_out: self.expected_out,
            fee_ppm: self.fee_ppm,
        }
    }
}

impl TradeStep {
    /// Records a trade of `amount_in` along `edge` that pays `expected_out`.
    pub fn along(edge: &PoolEdge, amount_in: u64, expected_out: u64) -> (r: TradeStep)
        ensures
            r@ == step_along(edge@, amount_in as nat, expected_out as nat),
    {
        TradeStep {
            pool_address: edge.pool_address.clone(),
            source: edge.source,
            sell_token: edge.token_in.clone(),
            buy_token: edge.token_out.clone(),
            amount_in,
            expected_out,
            fee_ppm: edge.fee_ppm,
        }
    }
}

/// Copies a list of steps.
pub fn clone_steps(steps: &Vec<TradeStep>) -> (r: Vec<TradeStep>)
    ensures
        step_views(r@) == step_views(steps@),
{
    let mut out: Vec<TradeStep> = Vec::new();
    let mut i: usize = 0;
    while i < steps.len()
        invariant
            i <= steps.len(),
            out.len() == i,
            forall|j: int| 0 <= j < i ==> out[j]@ == steps[j]@,
        decreases steps.len() - i,
    {
        out.push(steps[i].clone());
        i += 1;
    }
    assert(step_views(out@) =~= step_views(steps@));
    out
}

/// A closed loop of trades with its figures in the reference currency.
#[derive(Debug)]
pub struct ArbitrageCycle {
    pub steps: Vec<TradeStep>,
    /// What the first step sells.
    pub initial_amount: u64,
    /// What the last step buys.
    pub final_amount: u64,
    /// Pool fees plus the fixed cost of each hop.
    pub total_fees: u128,
    /// Value of what comes out less value of what goes in.
    pub gross_profit: i128,
    /// Gross profit less the total fees.
    pub net_profit: i128,
}

/// The mathematical content of an [`ArbitrageCycle`].
pub struct CycleView {
    pub steps: Seq<StepView>,
    pub initial_amount: nat,
    pub final_amount: nat,
    pub total_fees: nat,
    pub gross_profit: int,
    pub net_profit: int,
}

impl View for ArbitrageCycle {
    type V = CycleView;

    open spec fn view(&self) -> CycleView {
        CycleView {
            steps: step_views(self.steps@),
            initial_amount: self.initial_amount as nat,
            final_amount: self.final_amount as nat,
            total_fees: self.total_fees as nat,
            gross_profit: self.gross_profit as int,
            net_profit: self.net_profit as int,
        }
    }
}

/// The views of a list of cycles, position by position.
pub open spec fn cycle_views(cycles: Seq<ArbitrageCycle>) -> Seq<CycleView> {
    Seq::new(cycles.len(), |i: int| cycles[i]@)
}

/// Each step sells exactly what the step before it bought.
pub open spec fn amount_continuous(steps: Seq<StepView>) -> bool {
    forall|i: int, j: int|
        0 <= i && j == i + 1 && j < steps.len() ==> (#[trigger] steps[i]).expected_out == (
        #[trigger] steps[j]).amount_in
}

/// Each step sells the token that the step before it bought.
pub open spec fn token_continuous(steps: Seq<StepView>) -> bool {
    forall|i: int, j: int|
        0 <= i && j == i + 1 && j < steps.len() ==> (#[trigger] steps[i]).buy_token == (
        #[trigger] steps[j]).sell_token
}

/// No pool is used twice.
pub open spec fn pools_distinct(steps: Seq<StepView>) -> bool {
    forall|i: int, j: int|
        0 <= i < j < steps.len() ==> (#[trigger] steps[i]).pool_address != (
        #[trigger] steps[j]).pool_address
}

/// Every fee rate is a fraction in `[0, 1)`.
pub open spec fn fees_in_range(steps: Seq<StepView>) -> bool {
    forall|i: int| 0 <= i < steps.len() ==> (#[trigger] steps[i]).fee_ppm < SCALE
}

} // verus!
