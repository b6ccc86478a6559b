use libcheese::edge::{PoolEdge, PoolSource, SCALE};
use libcheese::quote::simulate_quote;

fn edge(reserve_in: u64, reserve_out: u64, fee_ppm: u64) -> PoolEdge {
    PoolEdge {
        pool_address: "pool".to_string(),
        source: PoolSource::Meteora,
        token_in: "A".to_string(),
        token_out: "B".to_string(),
        fee_ppm,
        total_value_locked: 2_000 * SCALE,
        reserve_in,
        reserve_out,
    }
}

#[test]
fn quote_without_fee_follows_the_constant_product() {
    let e = edge(1_000 * SCALE, 1_000 * SCALE, 0);
    assert_eq!(simulate_quote(&e, 100 * SCALE), Some(90_909_090));
}

#[test]
fn quote_takes_the_fee_off_the_input() {
    let e = edge(1_000 * SCALE, 1_000 * SCALE, 3_000);
    assert_eq!(simulate_quote(&e, 100 * SCALE), Some(90_661_089));
}

#[test]
fn quote_of_nothing_is_no_quote() {
    let e = edge(1_000 * SCALE, 1_000 * SCALE, 3_000);
    assert_eq!(simulate_quote(&e, 0), None);
}

#[test]
fn quote_needs_an_input_reserve() {
    let e = edge(0, 1_000 * SCALE, 3_000);
    assert_eq!(simulate_quote(&e, 100 * SCALE), None);
    assert!(!e.is_usable());
}

#[test]
fn quote_needs_an_output_reserve() {
    let e = edge(1_000 * SCALE, 0, 3_000);
    assert_eq!(simulate_quote(&e, 100 * SCALE), None);
    assert!(!e.is_usable());
}

#[test]
fn quote_that_rounds_to_nothing_is_no_quote() {
    let e = edge(1_000 * SCALE, 10, 0);
    assert_eq!(simulate_quote(&e, 1), None);
}

#[test]
fn quote_with_a_fee_of_everything_is_no_quote() {
    let whole = edge(1_000 * SCALE, 1_000 * SCALE, SCALE);
    assert_eq!(simulate_quote(&whole, 100 * SCALE), None);
    let more = edge(1_000 * SCALE, 1_000 * SCALE, 2 * SCALE);
    assert_eq!(simulate_quote(&more, 100 * SCALE), None);
}

#[test]
fn quote_leaves_the_edge_as_it_was() {
    let e = edge(1_000 * SCALE, 500 * SCALE, 3_000);
    let first = simulate_quote(&e, 7 * SCALE);
    let second = simulate_quote(&e, 7 * SCALE);
    assert_eq!(first, second);
    assert_eq!(e.reserve_in, 1_000 * SCALE);
    assert_eq!(e.reserve_out, 500 * SCALE);
}

#[test]
fn quote_never_lowers_the_product_of_the_reserves() {
    let fees = [0u64, 3_000, 250_000];
    let amounts = [1u64, 999, 10 * SCALE, 300 * SCALE, 5_000 * SCALE];
    for fee in fees {
        let e = edge(1_000 * SCALE, 737 * SCALE, fee);
        for amount in amounts {
            if let Some(out) = simulate_quote(&e, amount) {
                let net = (amount as u128) * ((SCALE - fee) as u128) / (SCALE as u128);
                let before = (e.reserve_in as u128) * (e.reserve_out as u128);
                let new_in = e.reserve_in as u128 + net;
                let after = new_in * ((e.reserve_out - out) as u128);
                assert!(after >= before);
                assert!(after < before + new_in);
            }
        }
    }
}

#[test]
fn quote_grows_with_the_input() {
    let e = edge(1_000 * SCALE, 1_000 * SCALE, 3_000);
    let mut last = 0u64;
    let mut amount = 1u64;
    while amount < 400 * SCALE {
        let out = simulate_quote(&e, amount).unwrap_or(0);
        assert!(out >= last);
        last = out;
        amount = amount * 3 + 1;
    }
}

#[test]
fn quote_of_the_largest_amounts_does_not_overflow() {
    let e = edge(u64::MAX, u64::MAX, 0);
    assert_eq!(simulate_quote(&e, u64::MAX), Some(u64::MAX / 2));
}

#[test]
fn liquidity_gate_is_inclusive() {
    let e = edge(1, 1, 0);
    assert!(e.has_liquidity(2_000 * SCALE));
    assert!(!e.has_liquidity(2_000 * SCALE + 1));
}
