use vstd::prelude::*;

verus! {

/// The payload kinds a transfer-with-payload event may carry.  Only the
/// `Deposit` kind is meaningful to this proxy; everything else is rejected.
#[derive(Clone, Copy, Debug, PartialEq, Eq, Structural)]
pub enum HookMsg {
    /// Stake the transferred LP shares at the end reward protocol.
    Deposit,
}

/// An incoming transfer-with-payload event, as handed over by the LP-share
/// ledger: the declared sender, the transferred amount, and the raw payload
/// bytes still to be decoded.
pub struct ReceiveEvent {
    pub sender: String,
    pub amount: u128,
    pub payload: Vec<u8>,
}

/// The mutating operations the proxy exposes.
pub enum ExecuteMsg {
    /// A transfer-with-payload event from a ledger.
    Receive(ReceiveEvent),
    /// Ask the end reward protocol to realize pending yield.
    UpdateRewards,
    /// Pay out already-accrued reward tokens.
    SendRewards { account: String, amount: u128 },
    /// Unstake LP shares and forward them to an account.
    Withdraw { account: String, amount: u128 },
    /// Like `Withdraw`, but through the protocol's forced-exit path.
    EmergencyWithdraw { account: String, amount: u128 },
}

/// The read-only views the proxy exposes.
#[derive(Clone, Copy, Debug, PartialEq, Eq, Structural)]
pub enum QueryMsg {
    /// The amount of LP shares the proxy has staked at the end protocol.
    Deposit,
    /// The reward-token balance held directly by the proxy.
    Reward,
    /// Yield accrued at the end protocol but not yet realized, if known.
    PendingToken,
    /// The configured reward-token identity.
    RewardInfo,
}

/// What a query answers with.
#[derive(Debug, PartialEq, Eq)]
pub enum QueryAnswer {
    /// An exact amount.
    Amount(u128),
    /// An amount the end protocol may not expose; `None` means "no data",
    /// which is distinct from zero.
    MaybeAmount(Option<u128>),
    /// A configured token identity.
    Token(String),
}

/// One outbound request to a collaborator.  An operation returns an ordered
/// list of these; the host executes them in order and rolls the whole
/// operation back if any of them fails.
#[derive(Debug, PartialEq, Eq)]
pub enum Request {
    /// Stake `amount` LP shares at the end reward protocol.
    Stake { protocol: String, entry: String, amount: u128 },
    /// Ask the end reward protocol to realize pending yield into reward
    /// tokens held by the proxy.
    AccrueRewards { protocol: String },
    /// Unstake `amount` LP shares from the end reward protocol back to the
    /// proxy.
    Unstake { protocol: String, amount: u128 },
    /// Unstake through the protocol's emergency exit, forfeiting any yield
    /// still pending there.
    EmergencyUnstake { protocol: String, amount: u128 },
    /// Move `amount` units of the fungible token managed by the ledger
    /// `token` from the proxy to `recipient`.
    Cw20Transfer { token: String, recipient: String, amount: u128 },
}

/// The successful outcome of an operation: the ordered list of outbound
/// requests the host must execute atomically, in order.
#[derive(Debug, PartialEq, Eq)]
pub struct Response {
    pub requests: Vec<Request>,
}

} // verus!
