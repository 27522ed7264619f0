use generator_proxy::config::Config;
use generator_proxy::error::ContractError;
use generator_proxy::msgs::{QueryAnswer, QueryMsg, ReceiveEvent};
use generator_proxy::proxy::{
    emergency_withdraw, query, receive_cw20, send_rewards, update_rewards, withdraw,
};
use generator_proxy::world::{Ledger, World};

fn config() -> Config {
    Config {
        generator: String::from("generator"),
        lp_pool: String::from("lp_pool"),
        reward_protocol: String::from("reward_protocol"),
        reward_protocol_entry: String::from("reward_entry"),
        reward_token: String::from("reward_token"),
    }
}

fn world(staked: u128, pending_yield: u128) -> World {
    World {
        proxy: String::from("proxy"),
        reward_protocol: String::from("reward_protocol"),
        reward_protocol_entry: String::from("reward_entry"),
        lp_token: String::from("lp_pool"),
        reward_token: String::from("reward_token"),
        staked,
        pending_yield,
        lp: Ledger::new(),
        reward: Ledger::new(),
    }
}

fn deposit_payload() -> Vec<u8> {
    cosmwasm_std::to_binary(&astroport::generator_proxy::Cw20HookMsg::Deposit {})
        .unwrap()
        .0
}

#[test]
fn legitimate_deposit_stakes_the_full_amount() {
    let cfg = config();
    let mut w = world(0, 0);
    // The transfer that raised the event has already credited the proxy.
    assert!(w.lp.credit(&String::from("proxy"), 1000));
    let event = ReceiveEvent {
        sender: String::from("generator"),
        amount: 1000,
        payload: deposit_payload(),
    };
    let resp = receive_cw20(&cfg, &String::from("lp_pool"), event).unwrap();
    assert_eq!(resp.requests.len(), 1);
    w.apply_response(&resp).unwrap();
    let obs = w.observe();
    assert_eq!(query(&cfg, &obs, QueryMsg::Deposit), QueryAnswer::Amount(1000));
    assert_eq!(w.lp_balance_of(&String::from("proxy")), 0);
}

#[test]
fn unauthorized_withdraw_changes_nothing() {
    let cfg = config();
    let mut w = world(1000, 0);
    let err = withdraw(&cfg, &String::from("mallory"), String::from("x"), 500).unwrap_err();
    assert_eq!(err, ContractError::Unauthorized);
    // A failed operation yields no response, so nothing reaches the world.
    let obs = w.observe();
    assert_eq!(query(&cfg, &obs, QueryMsg::Deposit), QueryAnswer::Amount(1000));
    assert_eq!(w.lp_balance_of(&String::from("x")), 0);
}

#[test]
fn reward_round_trip_pays_out_what_was_pulled() {
    let cfg = config();
    let mut w = world(0, 50);
    w.apply_response(&update_rewards(&cfg)).unwrap();
    let obs = w.observe();
    assert_eq!(query(&cfg, &obs, QueryMsg::Reward), QueryAnswer::Amount(50));
    let resp = send_rewards(&cfg, &String::from("generator"), String::from("y"), 50).unwrap();
    w.apply_response(&resp).unwrap();
    assert_eq!(w.reward_balance_of(&String::from("y")), 50);
    assert_eq!(w.reward_balance_of(&String::from("proxy")), 0);
}

#[test]
fn update_rewards_twice_equals_once() {
    let cfg = config();
    let mut w = world(0, 50);
    w.apply_response(&update_rewards(&cfg)).unwrap();
    let after_once = w.reward_balance_of(&String::from("proxy"));
    // No new yield accrues in between: the second call changes nothing.
    w.apply_response(&update_rewards(&cfg)).unwrap();
    assert_eq!(w.reward_balance_of(&String::from("proxy")), after_once);
    assert_eq!(after_once, 50);
}

#[test]
fn successful_withdraw_conserves_shares_exactly() {
    let cfg = config();
    let mut w = world(700, 0);
    assert!(w.lp.credit(&String::from("x"), 5));
    let resp = withdraw(&cfg, &String::from("generator"), String::from("x"), 300).unwrap();
    w.apply_response(&resp).unwrap();
    assert_eq!(w.staked, 400);
    assert_eq!(w.lp_balance_of(&String::from("x")), 305);
    assert_eq!(w.lp_balance_of(&String::from("proxy")), 0);
}

#[test]
fn failed_unstake_rolls_the_whole_withdraw_back() {
    let cfg = config();
    let mut w = world(100, 0);
    let resp = withdraw(&cfg, &String::from("generator"), String::from("x"), 500).unwrap();
    let err = w.apply_response(&resp).unwrap_err();
    assert_eq!(err, ContractError::CollaboratorFailure);
    assert_eq!(w.staked, 100);
    assert_eq!(w.lp_balance_of(&String::from("x")), 0);
    assert_eq!(w.lp_balance_of(&String::from("proxy")), 0);
}

#[test]
fn ledger_transfer_to_self_changes_nothing() {
    let mut ledger = Ledger::new();
    assert!(ledger.credit(&String::from("a"), 10));
    assert!(ledger.transfer(&String::from("a"), &String::from("a"), 7));
    assert_eq!(ledger.balance(&String::from("a")), 10);
}

#[test]
fn ledger_credit_beyond_capacity_fails_and_changes_nothing() {
    let mut ledger = Ledger::new();
    assert!(ledger.credit(&String::from("a"), u128::MAX));
    assert!(!ledger.credit(&String::from("a"), 1));
    assert_eq!(ledger.balance(&String::from("a")), u128::MAX);
}

#[test]
fn emergency_withdraw_recovers_principal_and_forfeits_yield() {
    let cfg = config();
    let mut w = world(700, 50);
    let resp =
        emergency_withdraw(&cfg, &String::from("generator"), String::from("x"), 300).unwrap();
    w.apply_response(&resp).unwrap();
    assert_eq!(w.staked, 400);
    assert_eq!(w.lp_balance_of(&String::from("x")), 300);
    assert_eq!(w.pending_yield, 0);
}

#[test]
fn send_rewards_beyond_balance_fails_with_insufficient_balance() {
    let cfg = config();
    let mut w = world(0, 10);
    w.apply_response(&update_rewards(&cfg)).unwrap();
    let resp = send_rewards(&cfg, &String::from("generator"), String::from("y"), 50).unwrap();
    let err = w.apply_response(&resp).unwrap_err();
    assert_eq!(err, ContractError::InsufficientBalance);
    assert_eq!(w.reward_balance_of(&String::from("proxy")), 10);
    assert_eq!(w.reward_balance_of(&String::from("y")), 0);
}
