//! The rules of executing a swap: what is sent to the pool program, how much
//! slippage is tolerated, and when a failed attempt is tried again.

use vstd::prelude::*;
use vstd::bytes::{spec_u64_to_le_bytes, u64_to_le_bytes};

verus! {

/// The most attempts made on one trade.
pub const MAX_RETRIES: u32 = 3;

/// The pause before a further attempt, in seconds.
pub const RETRY_DELAY_SECS: u64 = 1;

/// What must come out of a swap for it to go through: the expected output
/// less half a percent, rounded down.
pub open spec fn minimum_out_of(expected_out: nat) -> nat {
    (expected_out * 995) / 1000
}

/// The least output that a swap accepts.
pub fn minimum_out(expected_out: u64) -> (r: u64)
    ensures
        r == minimum_out_of(expected_out as nat),
        r <= expected_out,
{
    let scaled: u128 = expected_out as u128 * 995;
    let r: u128 = scaled / 1000;
    assert(r <= expected_out) by (nonlinear_arith)
        requires
            r == (expected_out as u128 * 995) / 1000,
    ;
    r as u64
}

/// The eight bytes that select the swap instruction of the pool program.
pub open spec fn swap_selector() -> Seq<u8> {
    seq![248u8, 198u8, 158u8, 145u8, 225u8, 117u8, 135u8, 200u8]
}

/// The data of a swap instruction: the selector, then the input amount and
/// the minimum output, each as eight bytes with the lowest first.
pub open spec fn swap_data(amount_in: u64, minimum_amount_out: u64) -> Seq<u8> {
    swap_selector() + spec_u64_to_le_bytes(amount_in) + spec_u64_to_le_bytes(minimum_amount_out)
}

/// Builds the data of a swap instruction.
pub fn swap_instruction_data(amount_in: u64, minimum_amount_out: u64) -> (data: Vec<u8>)
    ensures
        data@ == swap_data(amount_in, minimum_amount_out),
        data.len() == 24,
{
    let mut data: Vec<u8> = vec![248u8, 198u8, 158u8, 145u8, 225u8, 117u8, 135u8, 200u8];
    assert(data@ =~= swap_selector());
    let mut amount = u64_to_le_bytes(amount_in);
    let mut least = u64_to_le_bytes(minimum_amount_out);
    data.append(&mut amount);
    data.append(&mut least);
    data
}

/// What follows an attempt at a trade.
#[derive(Clone, Copy, Debug, PartialEq, Eq, Structural)]
pub enum NextStep {
    /// The trade went through.
    Done,
    /// Wait this many seconds, then make the attempt with this number.
    Retry { attempt: u32, wait_secs: u64 },
    /// The trade failed for good: the last error is the trade's error.
    GiveUp,
}

/// What follows attempt number `attempt` (counted from zero): nothing more
/// after a success, another attempt after a failure while fewer than
/// [`MAX_RETRIES`] were made, and else the end.
pub open spec fn step_after(attempt: nat, succeeded: bool) -> NextStep {
    if succeeded {
        NextStep::Done
    } else if attempt + 1 < MAX_RETRIES {
        NextStep::Retry { attempt: (attempt + 1) as u32, wait_secs: RETRY_DELAY_SECS }
    } else {
        NextStep::GiveUp
    }
}

/// Decides what follows attempt number `attempt`.
pub fn after_attempt(attempt: u32, succeeded: bool) -> (r: NextStep)
    ensures
        r == step_after(attempt as nat, succeeded),
{
    if succeeded {
        NextStep::Done
    } else if attempt < MAX_RETRIES - 1 {
        NextStep::Retry { attempt: attempt + 1, wait_secs: RETRY_DELAY_SECS }
    } else {
        NextStep::GiveUp
    }
}

/// No trade is attempted more than [`MAX_RETRIES`] times: an attempt that is
/// asked for has a number below the limit if the one before it had.
pub proof fn lemma_attempts_stay_below_limit(attempt: nat, succeeded: bool)
    ensures
        step_after(attempt, succeeded) matches NextStep::Retry { attempt: next, .. } ==> next
            == attempt + 1 && next < MAX_RETRIES,
        attempt + 1 >= MAX_RETRIES ==> !(step_after(attempt, succeeded) is Retry),
{
}

/// Whether a balance covers the amount to be traded.
pub fn covers(balance: u64, amount: u64) -> (r: bool)
    ensures
        r == (balance >= amount),
{
    balance >= amount
}

/// Whether a swap of `input_mint` goes from the first token of the pool to
/// the second: it does if the first mint is the input. The protocol fee is
/// paid in the account of that side.
pub fn swaps_first_to_second(pool_token_mints: &Vec<String>, input_mint: &String) -> (r: bool)
    requires
        pool_token_mints.len() > 0,
    ensures
        r == (pool_token_mints[0]@ == input_mint@),
{
    pool_token_mints[0] == *input_mint
}

} // verus!
