//! The core of a small blockchain node, verified with Verus.
//!
//! A node keeps an account-based ledger: a chain of blocks, the accounts
//! that the blocks have made, and a mempool of transactions that wait for a
//! block. This library holds the rules of that ledger and proves them:
//!
//! - `account`, `transaction`, `block`: the data and its models;
//! - `ledger`: when a transaction is valid and what it does to the accounts;
//! - `state`: the state of a node, and how blocks and the faucet change it;
//! - `submit`, `signature`: transactions handed in by a caller, signed or not;
//! - `producer`: sealing the mempool into the next block;
//! - `gossip`, `sync`: blocks and transactions from peers, and catching up;
//! - `payments`: payment intents that follow the ledger;
//! - `laws`: what holds of all of this, whatever the inputs.
//!
//! The library does no input or output. A program around it reads requests,
//! talks to peers and writes snapshots, and hands plain values in and out.

pub mod account;
pub mod block;
pub mod clock;
pub mod config;
pub mod encoding;
pub mod gossip;
pub mod ids;
pub mod laws;
pub mod ledger;
pub mod payments;
pub mod producer;
pub mod rate_limit;
pub mod rewards;
pub mod sdk;
pub mod search;
pub mod signature;
pub mod state;
pub mod submit;
pub mod sync;
pub mod text;
pub mod transaction;
pub mod wallet;
