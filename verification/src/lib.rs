//! Token balance arithmetic: amounts, coins and canonical coin sets, with the
//! account, key-value and message types that travel with them.

pub mod abci;
pub mod account;
pub mod address;
pub mod amount;
pub mod any;
pub mod appmodule;
pub mod auth;
pub mod authz;
pub mod codec;
pub mod coin;
pub mod coins;
pub mod compare;
pub mod comet;
pub mod crypto;
pub mod denom;
pub mod equality;
pub mod errors;
pub mod kv;
pub mod laws;
pub mod merge;
pub mod sanitize;
pub mod staking;
pub mod text;
