use generator_proxy::config::{Config, InstantiateMsg};
use generator_proxy::error::ContractError;
use generator_proxy::msgs::{ExecuteMsg, QueryAnswer, QueryMsg, ReceiveEvent, Request};
use generator_proxy::proxy::{
    execute, instantiate, migrate, query, receive_cw20, send_rewards, update_rewards, withdraw,
    Observation,
};

fn config() -> Config {
    Config {
        generator: String::from("generator"),
        lp_pool: String::from("lp_pool"),
        reward_protocol: String::from("reward_protocol"),
        reward_protocol_entry: String::from("reward_entry"),
        reward_token: String::from("reward_token"),
    }
}

fn deposit_payload() -> Vec<u8> {
    let binary = cosmwasm_std::to_binary(&astroport::generator_proxy::Cw20HookMsg::Deposit {})
        .unwrap();
    binary.0
}

#[test]
fn instantiate_sets_every_identity() {
    let cfg = instantiate(InstantiateMsg {
        generator: String::from("g"),
        lp_pool: String::from("l"),
        reward_protocol: String::from("p"),
        reward_protocol_entry: String::from("e"),
        reward_token: String::from("t"),
    });
    assert_eq!(cfg.generator, "g");
    assert_eq!(cfg.lp_pool, "l");
    assert_eq!(cfg.reward_protocol, "p");
    assert_eq!(cfg.reward_protocol_entry, "e");
    assert_eq!(cfg.reward_token, "t");
}

#[test]
fn deposit_accepted_issues_one_stake_request() {
    let cfg = config();
    let event = ReceiveEvent {
        sender: String::from("generator"),
        amount: 1000,
        payload: deposit_payload(),
    };
    let resp = receive_cw20(&cfg, &String::from("lp_pool"), event).unwrap();
    assert_eq!(
        resp.requests,
        vec![Request::Stake {
            protocol: String::from("reward_protocol"),
            entry: String::from("reward_entry"),
            amount: 1000,
        }]
    );
}

#[test]
fn deposit_from_wrong_sender_is_unauthorized() {
    let cfg = config();
    let event = ReceiveEvent {
        sender: String::from("mallory"),
        amount: 1000,
        payload: deposit_payload(),
    };
    let err = receive_cw20(&cfg, &String::from("lp_pool"), event).unwrap_err();
    assert_eq!(err, ContractError::Unauthorized);
}

#[test]
fn deposit_from_wrong_ledger_is_unauthorized() {
    let cfg = config();
    let event = ReceiveEvent {
        sender: String::from("generator"),
        amount: 1000,
        payload: deposit_payload(),
    };
    let err = receive_cw20(&cfg, &String::from("other_token"), event).unwrap_err();
    assert_eq!(err, ContractError::Unauthorized);
}

#[test]
fn deposit_with_undecodable_payload_is_rejected() {
    let cfg = config();
    let event = ReceiveEvent {
        sender: String::from("generator"),
        amount: 1000,
        payload: b"not json at all".to_vec(),
    };
    let err = receive_cw20(&cfg, &String::from("lp_pool"), event).unwrap_err();
    assert_eq!(err, ContractError::IncorrectPayloadVariant);
}

#[test]
fn deposit_with_unknown_variant_is_rejected() {
    let cfg = config();
    let event = ReceiveEvent {
        sender: String::from("generator"),
        amount: 1000,
        payload: b"{\"withdraw\":{}}".to_vec(),
    };
    let err = receive_cw20(&cfg, &String::from("lp_pool"), event).unwrap_err();
    assert_eq!(err, ContractError::IncorrectPayloadVariant);
}

#[test]
fn update_rewards_issues_one_accrual_request() {
    let cfg = config();
    let resp = update_rewards(&cfg);
    assert_eq!(
        resp.requests,
        vec![Request::AccrueRewards { protocol: String::from("reward_protocol") }]
    );
}

#[test]
fn send_rewards_by_stranger_is_unauthorized() {
    let cfg = config();
    let err = send_rewards(&cfg, &String::from("mallory"), String::from("alice"), 50)
        .unwrap_err();
    assert_eq!(err, ContractError::Unauthorized);
}

#[test]
fn send_rewards_by_generator_issues_one_transfer() {
    let cfg = config();
    let resp = send_rewards(&cfg, &String::from("generator"), String::from("alice"), 50)
        .unwrap();
    assert_eq!(
        resp.requests,
        vec![Request::Cw20Transfer {
            token: String::from("reward_token"),
            recipient: String::from("alice"),
            amount: 50,
        }]
    );
}

#[test]
fn withdraw_by_generator_sequences_unstake_then_forward() {
    let cfg = config();
    let resp = withdraw(&cfg, &String::from("generator"), String::from("alice"), 300).unwrap();
    assert_eq!(
        resp.requests,
        vec![
            Request::Unstake { protocol: String::from("reward_protocol"), amount: 300 },
            Request::Cw20Transfer {
                token: String::from("lp_pool"),
                recipient: String::from("alice"),
                amount: 300,
            },
        ]
    );
}

#[test]
fn withdraw_by_stranger_is_unauthorized() {
    let cfg = config();
    let err = withdraw(&cfg, &String::from("mallory"), String::from("alice"), 500).unwrap_err();
    assert_eq!(err, ContractError::Unauthorized);
}

#[test]
fn emergency_withdraw_dispatches_like_withdraw_but_forced() {
    let cfg = config();
    let resp = execute(
        &cfg,
        &String::from("generator"),
        ExecuteMsg::EmergencyWithdraw { account: String::from("alice"), amount: 40 },
    )
    .unwrap();
    assert_eq!(
        resp.requests,
        vec![
            Request::EmergencyUnstake {
                protocol: String::from("reward_protocol"),
                amount: 40,
            },
            Request::Cw20Transfer {
                token: String::from("lp_pool"),
                recipient: String::from("alice"),
                amount: 40,
            },
        ]
    );
}

#[test]
fn emergency_withdraw_by_stranger_is_unauthorized() {
    let cfg = config();
    let err = execute(
        &cfg,
        &String::from("mallory"),
        ExecuteMsg::EmergencyWithdraw { account: String::from("alice"), amount: 40 },
    )
    .unwrap_err();
    assert_eq!(err, ContractError::Unauthorized);
}

#[test]
fn queries_answer_from_config_and_observation() {
    let cfg = config();
    let obs = Observation { staked: 1000, reward_balance: 50, pending: Some(7) };
    assert_eq!(query(&cfg, &obs, QueryMsg::Deposit), QueryAnswer::Amount(1000));
    assert_eq!(query(&cfg, &obs, QueryMsg::Reward), QueryAnswer::Amount(50));
    assert_eq!(query(&cfg, &obs, QueryMsg::PendingToken), QueryAnswer::MaybeAmount(Some(7)));
    assert_eq!(
        query(&cfg, &obs, QueryMsg::RewardInfo),
        QueryAnswer::Token(String::from("reward_token"))
    );
}

#[test]
fn pending_token_distinguishes_no_data_from_zero() {
    let cfg = config();
    let obs = Observation { staked: 0, reward_balance: 0, pending: None };
    assert_eq!(query(&cfg, &obs, QueryMsg::PendingToken), QueryAnswer::MaybeAmount(None));
    let obs_zero = Observation { staked: 0, reward_balance: 0, pending: Some(0) };
    assert_eq!(
        query(&cfg, &obs_zero, QueryMsg::PendingToken),
        QueryAnswer::MaybeAmount(Some(0))
    );
}

#[test]
fn migrate_issues_nothing() {
    let cfg = config();
    let resp = migrate(&cfg);
    assert!(resp.requests.is_empty());
}

#[test]
fn transfer_wire_form_matches_the_ledger_encoding() {
    let wire = generator_proxy::codec::cw20_transfer_wire(&String::from("alice"), 50).unwrap();
    let expected = cosmwasm_std::to_binary(&cw20::Cw20ExecuteMsg::Transfer {
        recipient: String::from("alice"),
        amount: cosmwasm_std::Uint128::new(50),
    })
    .unwrap();
    assert_eq!(wire, expected.0);
}
