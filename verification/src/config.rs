use vstd::prelude::*;

verus! {

/// The five participant addresses, fixed at initialization and never
/// mutated afterwards.  Addresses are carried as plain strings; the host
/// validates that each is a well-formed address before the proxy is
/// initialized.
pub struct Config {
    /// The sole authorized caller for every custody-moving operation.
    pub generator: String,
    /// The ledger of LP shares whose transfer-with-payload events are
    /// trusted as deposits.
    pub lp_pool: String,
    /// The end reward protocol that custodies staked LP shares.
    pub reward_protocol: String,
    /// The staking pool or vault within the end reward protocol (may
    /// equal `reward_protocol`).
    pub reward_protocol_entry: String,
    /// The fungible-token ledger used to pay rewards.
    pub reward_token: String,
}

/// The initialization input: the five identities of the configuration,
/// already validated by the host to be well-formed addresses.
pub struct InstantiateMsg {
    pub generator: String,
    pub lp_pool: String,
    pub reward_protocol: String,
    pub reward_protocol_entry: String,
    pub reward_token: String,
}

} // verus!
