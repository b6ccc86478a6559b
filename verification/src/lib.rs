//! Tools for the liquidity pools that trade cheese.
//!
//! The heart is the search for arbitrage cycles over constant-product pools:
//! [`quote`] simulates a swap, [`search`] walks the pool graph, [`profit`]
//! puts a cycle's figures into the reference currency, [`rank`] orders what
//! was found, [`routes`] says what exactly is found, and [`finder`] is the
//! entry point. Around it stand helpers for pool names, the pool table, the
//! venues' answers, the rules of executing a swap, and key handling.
//!
//! Every quantity is a fixed-point integer: token amounts, prices and dollar
//! values count millionths of a unit, fee rates count parts per million.

pub mod common;
pub mod config;
pub mod cycle;
pub mod edge;
pub mod finder;
pub mod paging;
pub mod prices;
pub mod profit;
pub mod quote;
pub mod rank;
pub mod raydium;
pub mod routes;
pub mod search;
pub mod text;
pub mod trade;
pub mod updater;
pub mod wallet;
