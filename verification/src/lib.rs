//! A reward-forwarding proxy: it sits between a liquidity-incentive
//! controller (the generator) and an end reward protocol that custodies
//! staked LP shares and accrues yield.  The proxy re-stakes deposited LP
//! shares, relays accrued reward tokens, and returns LP shares on
//! withdrawal.  Every mutating operation is guarded by an authorization
//! gate; each operation yields an ordered list of outbound requests that
//! the host environment executes atomically.

pub mod codec;
pub mod config;
pub mod error;
pub mod laws;
pub mod msgs;
pub mod proxy;
pub mod world;
