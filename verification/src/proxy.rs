use vstd::prelude::*;
use crate::codec::hook_of;
use crate::config::{Config, InstantiateMsg};
use crate::error::ContractError;
use crate::msgs::{ExecuteMsg, HookMsg, QueryAnswer, QueryMsg, ReceiveEvent, Request, Response};

verus! {

/// Builds the proxy's configuration from the validated initialization
/// input.  Every identity is taken exactly as given, and nothing may
/// change any of them afterwards.
pub fn instantiate(msg: InstantiateMsg) -> (cfg: Config)
    ensures
        cfg.generator@ == msg.generator@,
        cfg.lp_pool@ == msg.lp_pool@,
        cfg.reward_protocol@ == msg.reward_protocol@,
        cfg.reward_protocol_entry@ == msg.reward_protocol_entry@,
        cfg.reward_token@ == msg.reward_token@,
{
    Config {
        generator: msg.generator,
        lp_pool: msg.lp_pool,
        reward_protocol: msg.reward_protocol,
        reward_protocol_entry: msg.reward_protocol_entry,
        reward_token: msg.reward_token,
    }
}

/// The authorization gate for a deposit event: the declared sender of the
/// payload must be the generator, and the ledger that emitted the transfer
/// must be the LP-share pool.
pub open spec fn deposit_authorized(cfg: Config, ledger: Seq<char>, sender: Seq<char>) -> bool {
    sender == cfg.generator@ && ledger == cfg.lp_pool@
}

/// The authorization gate for SendRewards, Withdraw and EmergencyWithdraw:
/// only the generator may call them.  UpdateRewards is open to any caller,
/// and queries are read-only, so neither appears here.
pub open spec fn caller_authorized(cfg: Config, caller: Seq<char>) -> bool {
    caller == cfg.generator@
}

/// The requests an accepted deposit issues: exactly one stake request to
/// the end reward protocol for the full transferred amount.
pub open spec fn deposit_requests(cfg: Config, amount: u128) -> Seq<Request> {
    seq![
        Request::Stake {
            protocol: cfg.reward_protocol,
            entry: cfg.reward_protocol_entry,
            amount,
        },
    ]
}

/// The requests UpdateRewards issues: exactly one accrual request to the
/// end reward protocol.
pub open spec fn update_rewards_requests(cfg: Config) -> Seq<Request> {
    seq![Request::AccrueRewards { protocol: cfg.reward_protocol }]
}

/// The requests an authorized SendRewards issues: exactly one reward-token
/// transfer from the proxy to the account.
pub open spec fn send_rewards_requests(cfg: Config, account: String, amount: u128) -> Seq<
    Request,
> {
    seq![
        Request::Cw20Transfer { token: cfg.reward_token, recipient: account, amount },
    ]
}

/// The requests an authorized Withdraw issues, in order: unstake the
/// shares back to the proxy, then forward them to the account.  The
/// forward is sequenced strictly after the unstake; the host executes
/// them in this order and discards the second if the first fails.
pub open spec fn withdraw_requests(cfg: Config, account: String, amount: u128) -> Seq<Request> {
    seq![
        Request::Unstake { protocol: cfg.reward_protocol, amount },
        Request::Cw20Transfer { token: cfg.lp_pool, recipient: account, amount },
    ]
}

/// The requests an authorized EmergencyWithdraw issues: as for Withdraw,
/// but through the protocol's forced-exit path.
pub open spec fn emergency_withdraw_requests(cfg: Config, account: String, amount: u128) -> Seq<
    Request,
> {
    seq![
        Request::EmergencyUnstake { protocol: cfg.reward_protocol, amount },
        Request::Cw20Transfer { token: cfg.lp_pool, recipient: account, amount },
    ]
}

/// Handles a transfer-with-payload event.  The payload must decode to the
/// `Deposit` variant; then the event is accepted only if its declared
/// sender is the generator and the emitting ledger is the LP-share pool.
/// An accepted deposit issues exactly one stake request for the full
/// transferred amount — nothing is skimmed and nothing is recorded
/// locally.  A rejected event issues no requests at all.
pub fn receive_cw20(cfg: &Config, ledger: &String, event: ReceiveEvent) -> (r: Result<
    Response,
    ContractError,
>)
    ensures
        hook_of(event.payload@) is None ==> r == Err::<Response, _>(
            ContractError::IncorrectPayloadVariant,
        ),
        hook_of(event.payload@) == Some(HookMsg::Deposit) && !deposit_authorized(
            *cfg,
            ledger@,
            event.sender@,
        ) ==> r == Err::<Response, _>(ContractError::Unauthorized),
        hook_of(event.payload@) == Some(HookMsg::Deposit) && deposit_authorized(
            *cfg,
            ledger@,
            event.sender@,
        ) ==> (r matches Ok(resp) && resp.requests@ == deposit_requests(*cfg, event.amount)),
{
    match crate::codec::decode_hook(&event.payload) {
        Some(HookMsg::Deposit) => {
            if !(event.sender == cfg.generator) || !(*ledger == cfg.lp_pool) {
                return Err(ContractError::Unauthorized);
            }
            let requests = vec![
                Request::Stake {
                    protocol: cfg.reward_protocol.clone(),
                    entry: cfg.reward_protocol_entry.clone(),
                    amount: event.amount,
                },
            ];
            proof {
                assert(requests@ =~= deposit_requests(*cfg, event.amount));
            }
            Ok(Response { requests })
        },
        None => Err(ContractError::IncorrectPayloadVariant),
    }
}

/// Asks the end reward protocol to realize any pending yield into reward
/// tokens held by the proxy.  Open to any caller: it can only pull funds
/// into the proxy, never move them out.  Always succeeds; when no yield is
/// pending the accrual is a no-op at the protocol, not an error.
pub fn update_rewards(cfg: &Config) -> (r: Response)
    ensures
        r.requests@ == update_rewards_requests(*cfg),
{
    let requests = vec![
        Request::AccrueRewards { protocol: cfg.reward_protocol.clone() },
    ];
    proof {
        assert(requests@ =~= update_rewards_requests(*cfg));
    }
    Response { requests }
}

/// Pays out `amount` of already-accrued reward tokens to `account`.  Only
/// the generator may call it; any other caller gets `Unauthorized` and no
/// request is issued.  The proxy does not auto-accrue: if its reward-token
/// balance is short, the ledger rejects the transfer and the host rolls
/// the whole operation back.
pub fn send_rewards(cfg: &Config, caller: &String, account: String, amount: u128) -> (r: Result<
    Response,
    ContractError,
>)
    requires
        amount > 0,
    ensures
        !caller_authorized(*cfg, caller@) ==> r == Err::<Response, _>(ContractError::Unauthorized),
        caller_authorized(*cfg, caller@) ==> (r matches Ok(resp) && resp.requests@
            == send_rewards_requests(*cfg, account, amount)),
{
    if !(*caller == cfg.generator) {
        return Err(ContractError::Unauthorized);
    }
    let ghost account_spec = account;
    let requests = vec![
        Request::Cw20Transfer { token: cfg.reward_token.clone(), recipient: account, amount },
    ];
    proof {
        assert(requests@ =~= send_rewards_requests(*cfg, account_spec, amount));
    }
    Ok(Response { requests })
}

/// Unstakes `amount` LP shares from the end reward protocol and forwards
/// them to `account`.  Only the generator may call it.  The two requests
/// are issued in order — unstake first, forward second — so the forward
/// never executes unless the unstake succeeded.
pub fn withdraw(cfg: &Config, caller: &String, account: String, amount: u128) -> (r: Result<
    Response,
    ContractError,
>)
    requires
        amount > 0,
    ensures
        !caller_authorized(*cfg, caller@) ==> r == Err::<Response, _>(ContractError::Unauthorized),
        caller_authorized(*cfg, caller@) ==> (r matches Ok(resp) && resp.requests@
            == withdraw_requests(*cfg, account, amount)),
{
    if !(*caller == cfg.generator) {
        return Err(ContractError::Unauthorized);
    }
    let ghost account_spec = account;
    let requests = vec![
        Request::Unstake { protocol: cfg.reward_protocol.clone(), amount },
        Request::Cw20Transfer { token: cfg.lp_pool.clone(), recipient: account, amount },
    ];
    proof {
        assert(requests@ =~= withdraw_requests(*cfg, account_spec, amount));
    }
    Ok(Response { requests })
}

/// As `withdraw`, but unstakes through the protocol's emergency exit,
/// forfeiting any yield still pending there in exchange for guaranteed
/// return of principal.
pub fn emergency_withdraw(cfg: &Config, caller: &String, account: String, amount: u128) -> (r:
    Result<Response, ContractError>)
    requires
        amount > 0,
    ensures
        !caller_authorized(*cfg, caller@) ==> r == Err::<Response, _>(ContractError::Unauthorized),
        caller_authorized(*cfg, caller@) ==> (r matches Ok(resp) && resp.requests@
            == emergency_withdraw_requests(*cfg, account, amount)),
{
    if !(*caller == cfg.generator) {
        return Err(ContractError::Unauthorized);
    }
    let ghost account_spec = account;
    let requests = vec![
        Request::EmergencyUnstake { protocol: cfg.reward_protocol.clone(), amount },
        Request::Cw20Transfer { token: cfg.lp_pool.clone(), recipient: account, amount },
    ];
    proof {
        assert(requests@ =~= emergency_withdraw_requests(*cfg, account_spec, amount));
    }
    Ok(Response { requests })
}

/// What `execute` must return for a given message, stated over the
/// per-operation gates and request lists.  `caller` is the direct sender
/// of the call; for a `Receive` event that is the emitting ledger.
pub open spec fn execute_spec(cfg: Config, caller: Seq<char>, msg: ExecuteMsg, r: Result<
    Response,
    ContractError,
>) -> bool {
    match msg {
        ExecuteMsg::Receive(event) => {
            &&& hook_of(event.payload@) is None ==> r == Err::<Response, ContractError>(
                ContractError::IncorrectPayloadVariant,
            )
            &&& hook_of(event.payload@) == Some(HookMsg::Deposit) && !deposit_authorized(
                cfg,
                caller,
                event.sender@,
            ) ==> r == Err::<Response, ContractError>(ContractError::Unauthorized)
            &&& hook_of(event.payload@) == Some(HookMsg::Deposit) && deposit_authorized(
                cfg,
                caller,
                event.sender@,
            ) ==> (r matches Ok(resp) && resp.requests@ == deposit_requests(cfg, event.amount))
        },
        ExecuteMsg::UpdateRewards => r matches Ok(resp) && resp.requests@
            == update_rewards_requests(cfg),
        ExecuteMsg::SendRewards { account, amount } => {
            &&& !caller_authorized(cfg, caller) ==> r == Err::<Response, ContractError>(
                ContractError::Unauthorized,
            )
            &&& caller_authorized(cfg, caller) ==> (r matches Ok(resp) && resp.requests@
                == send_rewards_requests(cfg, account, amount))
        },
        ExecuteMsg::Withdraw { account, amount } => {
            &&& !caller_authorized(cfg, caller) ==> r == Err::<Response, ContractError>(
                ContractError::Unauthorized,
            )
            &&& caller_authorized(cfg, caller) ==> (r matches Ok(resp) && resp.requests@
                == withdraw_requests(cfg, account, amount))
        },
        ExecuteMsg::EmergencyWithdraw { account, amount } => {
            &&& !caller_authorized(cfg, caller) ==> r == Err::<Response, ContractError>(
                ContractError::Unauthorized,
            )
            &&& caller_authorized(cfg, caller) ==> (r matches Ok(resp) && resp.requests@
                == emergency_withdraw_requests(cfg, account, amount))
        },
    }
}

/// Dispatches a mutating operation.  `caller` is the identity the
/// environment attests as the direct sender of the call; for a `Receive`
/// event that identity is the ledger that emitted the transfer.
pub fn execute(cfg: &Config, caller: &String, msg: ExecuteMsg) -> (r: Result<
    Response,
    ContractError,
>)
    requires
        match msg {
            ExecuteMsg::SendRewards { amount, .. } => amount > 0,
            ExecuteMsg::Withdraw { amount, .. } => amount > 0,
            ExecuteMsg::EmergencyWithdraw { amount, .. } => amount > 0,
            _ => true,
        },
    ensures
        execute_spec(*cfg, caller@, msg, r),
{
    match msg {
        ExecuteMsg::Receive(event) => receive_cw20(cfg, caller, event),
        ExecuteMsg::UpdateRewards => Ok(update_rewards(cfg)),
        ExecuteMsg::SendRewards { account, amount } => send_rewards(cfg, caller, account, amount),
        ExecuteMsg::Withdraw { account, amount } => withdraw(cfg, caller, account, amount),
        ExecuteMsg::EmergencyWithdraw { account, amount } => emergency_withdraw(
            cfg,
            caller,
            account,
            amount,
        ),
    }
}

/// What the proxy can observe of its collaborators when answering a
/// query: its staked amount and unrealized yield at the end protocol, and
/// its own balance at the reward-token ledger.  The host gathers these
/// from the collaborators; the proxy keeps no local counter of any of
/// them.
pub struct Observation {
    /// LP shares the end protocol reports as staked by the proxy.
    pub staked: u128,
    /// The proxy's balance at the reward-token ledger.
    pub reward_balance: u128,
    /// Unrealized yield at the end protocol, or `None` where the protocol
    /// does not expose the figure.
    pub pending: Option<u128>,
}

/// Answers a read-only query from the configuration and the current
/// observation of the collaborators.  Queries never mutate anything and
/// never fail.
pub fn query(cfg: &Config, obs: &Observation, msg: QueryMsg) -> (r: QueryAnswer)
    ensures
        msg == QueryMsg::Deposit ==> r == QueryAnswer::Amount(obs.staked),
        msg == QueryMsg::Reward ==> r == QueryAnswer::Amount(obs.reward_balance),
        msg == QueryMsg::PendingToken ==> r == QueryAnswer::MaybeAmount(obs.pending),
        msg == QueryMsg::RewardInfo ==> (r matches QueryAnswer::Token(t) && t@
            == cfg.reward_token@),
{
    match msg {
        QueryMsg::Deposit => QueryAnswer::Amount(obs.staked),
        QueryMsg::Reward => QueryAnswer::Amount(obs.reward_balance),
        QueryMsg::PendingToken => QueryAnswer::MaybeAmount(obs.pending),
        QueryMsg::RewardInfo => QueryAnswer::Token(cfg.reward_token.clone()),
    }
}

/// Migration is a no-op state transition: it transforms no data and
/// issues no requests; the configuration stays as it is.
pub fn migrate(cfg: &Config) -> (r: Response)
    ensures
        r.requests@ == Seq::<Request>::empty(),
{
    let requests: Vec<Request> = Vec::new();
    proof {
        assert(requests@ =~= Seq::<Request>::empty());
    }
    Response { requests }
}

} // verus!
