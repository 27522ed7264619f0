use vstd::prelude::*;
use crate::config::Config;
use crate::error::ContractError;
use crate::msgs::Request;
use crate::proxy::{emergency_withdraw_requests, update_rewards_requests, withdraw_requests};
use crate::world::{lemma_run_one, lemma_run_two, run, step, WorldView};

verus! {

/// Law: UpdateRewards is idempotent.  Once its accrual request has been
/// applied, applying the same request again — with no new yield accrued in
/// between — succeeds and leaves every observable balance, the proxy's
/// reward-token balance included, exactly as the first application left
/// it.
pub proof fn lemma_update_rewards_idempotent(cfg: Config, pre: WorldView, mid: WorldView)
    requires
        pre.reward_protocol == cfg.reward_protocol@,
        run(pre, update_rewards_requests(cfg)) == Ok::<WorldView, ContractError>(mid),
    ensures
        run(mid, update_rewards_requests(cfg)) == Ok::<WorldView, ContractError>(mid),
{
    let req = Request::AccrueRewards { protocol: cfg.reward_protocol };
    assert(update_rewards_requests(cfg) =~= seq![req]);
    lemma_run_one(pre, req);
    lemma_run_one(mid, req);
    assert(step(pre, req) == Ok::<WorldView, ContractError>(mid));
    assert(mid.pending == 0);
    let again = step(mid, req);
    assert(again is Ok);
    assert(again.unwrap() =~= mid);
}

/// Law: a successful withdraw conserves LP shares exactly.  Where the two
/// requests of `Withdraw(account, amount)` both take effect, the end
/// protocol's staked amount drops by exactly `amount`, the account's
/// LP-share balance rises by exactly `amount`, every other LP-share
/// balance is untouched, and no reward-token balance or pending yield
/// moves at all.
pub proof fn lemma_withdraw_conservation(
    cfg: Config,
    account: String,
    amount: u128,
    pre: WorldView,
    post: WorldView,
)
    requires
        pre.reward_protocol == cfg.reward_protocol@,
        pre.lp_token == cfg.lp_pool@,
        run(pre, withdraw_requests(cfg, account, amount)) == Ok::<WorldView, ContractError>(post),
    ensures
        amount <= pre.staked,
        post.staked == pre.staked - amount,
        post.lp[account@] == pre.lp[account@] + amount,
        account@ != pre.proxy ==> post.lp[pre.proxy] == pre.lp[pre.proxy],
        forall|b: Seq<char>| b != account@ && b != pre.proxy ==> post.lp[b] == pre.lp[b],
        post.reward == pre.reward,
        post.pending == pre.pending,
{
    let unstake = Request::Unstake { protocol: cfg.reward_protocol, amount };
    let forward = Request::Cw20Transfer { token: cfg.lp_pool, recipient: account, amount };
    assert(withdraw_requests(cfg, account, amount) =~= seq![unstake, forward]);
    lemma_run_two(pre, unstake, forward);
    assert(step(pre, unstake) is Ok);
    let mid = step(pre, unstake).unwrap();
    assert(step(mid, forward) == Ok::<WorldView, ContractError>(post));
}

/// Law: the emergency exit conserves principal exactly as a withdraw does
/// — staked amount down by `amount`, the account's LP-share balance up by
/// `amount`, every other LP-share and reward-token balance untouched —
/// but any yield still pending at the end protocol is forfeited.
pub proof fn lemma_emergency_withdraw_conservation(
    cfg: Config,
    account: String,
    amount: u128,
    pre: WorldView,
    post: WorldView,
)
    requires
        pre.reward_protocol == cfg.reward_protocol@,
        pre.lp_token == cfg.lp_pool@,
        run(pre, emergency_withdraw_requests(cfg, account, amount)) == Ok::<
            WorldView,
            ContractError,
        >(post),
    ensures
        amount <= pre.staked,
        post.staked == pre.staked - amount,
        post.lp[account@] == pre.lp[account@] + amount,
        account@ != pre.proxy ==> post.lp[pre.proxy] == pre.lp[pre.proxy],
        forall|b: Seq<char>| b != account@ && b != pre.proxy ==> post.lp[b] == pre.lp[b],
        post.reward == pre.reward,
        post.pending == 0,
{
    let unstake = Request::EmergencyUnstake { protocol: cfg.reward_protocol, amount };
    let forward = Request::Cw20Transfer { token: cfg.lp_pool, recipient: account, amount };
    assert(emergency_withdraw_requests(cfg, account, amount) =~= seq![unstake, forward]);
    lemma_run_two(pre, unstake, forward);
    assert(step(pre, unstake) is Ok);
    let mid = step(pre, unstake).unwrap();
    assert(step(mid, forward) == Ok::<WorldView, ContractError>(post));
}

/// Law: withdraw is atomic.  Where the unstake request must fail — more is
/// asked back than the end protocol holds as staked — the whole request
/// list fails, so the forward-to-account request sequenced after it never
/// executes and no balance anywhere changes (the host rolls a failed run
/// back, per `World::apply_response`).
pub proof fn lemma_withdraw_atomicity(cfg: Config, account: String, amount: u128, pre: WorldView)
    requires
        pre.reward_protocol == cfg.reward_protocol@,
        amount > pre.staked,
    ensures
        run(pre, withdraw_requests(cfg, account, amount)) == Err::<WorldView, ContractError>(
            ContractError::CollaboratorFailure,
        ),
{
    let unstake = Request::Unstake { protocol: cfg.reward_protocol, amount };
    let forward = Request::Cw20Transfer { token: cfg.lp_pool, recipient: account, amount };
    assert(withdraw_requests(cfg, account, amount) =~= seq![unstake, forward]);
    lemma_run_two(pre, unstake, forward);
    assert(step(pre, unstake) == Err::<WorldView, ContractError>(
        ContractError::CollaboratorFailure,
    ));
}

} // verus!
