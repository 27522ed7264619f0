use vstd::prelude::*;

verus! {

/// Everything that can go wrong inside the proxy.  Every failure aborts
/// the whole operation: an `Err` result carries no outbound requests, so
/// a failed operation has no effect on any collaborator.
#[derive(Clone, Copy, Debug, PartialEq, Eq, Structural)]
pub enum ContractError {
    /// A guarded operation was invoked by the wrong caller, or a deposit
    /// event came from the wrong ledger or declared the wrong sender.
    Unauthorized,
    /// The payload of a transfer-with-payload event did not decode to the
    /// `Deposit` variant.
    IncorrectPayloadVariant,
    /// A ledger was asked to move more than the available balance.
    InsufficientBalance,
    /// A collaborator rejected a request issued to it.
    CollaboratorFailure,
}

} // verus!
