use nft_escrow::contract::{
    execute, execute_approve, execute_change_config, execute_receive_nft, execute_withdraw,
    instantiate,
};
use nft_escrow::error::ContractError;
use nft_escrow::msg::{
    Coin, CosmosMsg, Env, EscrowInfoMsg, ExecuteMsg, MessageInfo, ReceiveNftMsg,
};
use nft_escrow::query::query_escrow;
use nft_escrow::state::State;
use nft_escrow::store::{escrows, EscrowStore};

const NOW: u64 = 1_000_000;

fn env_at(t: u64) -> Env {
    Env { block_time: t }
}

fn setup() -> (EscrowStore, State) {
    let msg = nft_escrow::msg::InstantiateMsg {
        admin: "admin".to_string(),
        denom: "ujuno".to_string(),
    };
    let (state, _res) = instantiate(msg);
    (escrows(), state)
}

fn no_funds(sender: &str) -> MessageInfo {
    MessageInfo {
        sender: sender.to_string(),
        funds: vec![],
    }
}

fn one_coin(sender: &str, denom: &str, amount: u128) -> MessageInfo {
    MessageInfo {
        sender: sender.to_string(),
        funds: vec![Coin {
            denom: denom.to_string(),
            amount,
        }],
    }
}

fn deposit(
    store: &mut EscrowStore,
    collection: &str,
    source: &str,
    token_id: &str,
    recipient: &str,
    price: u128,
    expiration: u64,
) -> Result<nft_escrow::msg::Response, ContractError> {
    let info = no_funds(collection);
    execute_receive_nft(
        store,
        &env_at(NOW),
        &info,
        ReceiveNftMsg {
            sender: source.to_string(),
            token_id: token_id.to_string(),
            msg: EscrowInfoMsg {
                recipient: recipient.to_string(),
                price,
                expiration,
            },
        },
    )
}

#[test]
fn deposit_then_get_returns_record() {
    let (mut store, _config) = setup();
    deposit(&mut store, "C1", "S1", "Test.1", "R1", 50, NOW + 300).unwrap();

    let r = query_escrow(&store, "C1".to_string(), "Test.1".to_string());
    let e = r.escrow.expect("escrow stored");
    assert_eq!(e.source, "S1");
    assert_eq!(e.recipient, "R1");
    assert_eq!(e.price, 50);
    assert_eq!(e.expires_at, NOW + 300);
    assert_eq!(e.collection, "C1");
    assert_eq!(e.token_id, "Test.1");
}

#[test]
fn deposit_zero_price_fails_and_stores_nothing() {
    let (mut store, _config) = setup();
    let err = deposit(&mut store, "C1", "S1", "Test.1", "R1", 0, NOW + 300).unwrap_err();
    assert_eq!(err, ContractError::NotEnoughFunds);
    assert_eq!(store.len(), 0);
    let r = query_escrow(&store, "C1".to_string(), "Test.1".to_string());
    assert!(r.escrow.is_none());
}

#[test]
fn deposit_already_expired_fails() {
    let (mut store, _config) = setup();
    let err = deposit(&mut store, "C1", "S1", "Test.1", "R1", 50, NOW).unwrap_err();
    assert_eq!(err, ContractError::EscrowExpired);
    assert_eq!(store.len(), 0);
}

#[test]
fn deposit_overwrites_existing_record() {
    let (mut store, _config) = setup();
    deposit(&mut store, "C1", "S1", "Test.1", "R1", 50, NOW + 300).unwrap();
    deposit(&mut store, "C1", "S2", "Test.1", "R2", 70, NOW + 600).unwrap();
    assert_eq!(store.len(), 1);
    let e = query_escrow(&store, "C1".to_string(), "Test.1".to_string())
        .escrow
        .unwrap();
    assert_eq!(e.source, "S2");
    assert_eq!(e.recipient, "R2");
    assert_eq!(e.price, 70);
}

#[test]
fn withdraw_before_expiry_fails_and_keeps_record() {
    let (mut store, _config) = setup();
    deposit(&mut store, "C1", "S1", "Test.1", "R1", 50, NOW + 300).unwrap();

    let err = execute_withdraw(
        &mut store,
        &env_at(NOW + 100),
        &no_funds("S1"),
        "C1".to_string(),
        "Test.1".to_string(),
    )
    .unwrap_err();
    assert_eq!(err, ContractError::EscrowNotExpired);
    assert!(query_escrow(&store, "C1".to_string(), "Test.1".to_string())
        .escrow
        .is_some());
}

#[test]
fn withdraw_after_expiry_returns_item_to_source() {
    let (mut store, _config) = setup();
    deposit(&mut store, "C1", "S1", "Test.1", "R1", 50, NOW + 300).unwrap();

    let res = execute_withdraw(
        &mut store,
        &env_at(NOW + 300),
        &no_funds("S1"),
        "C1".to_string(),
        "Test.1".to_string(),
    )
    .unwrap();
    assert_eq!(res.messages.len(), 1);
    assert_eq!(
        res.messages[0],
        CosmosMsg::TransferNft {
            collection: "C1".to_string(),
            recipient: "S1".to_string(),
            token_id: "Test.1".to_string(),
        }
    );
    assert!(query_escrow(&store, "C1".to_string(), "Test.1".to_string())
        .escrow
        .is_none());
}

#[test]
fn withdraw_with_payment_fails() {
    let (mut store, _config) = setup();
    deposit(&mut store, "C1", "S1", "Test.1", "R1", 50, NOW + 300).unwrap();

    let err = execute_withdraw(
        &mut store,
        &env_at(NOW + 400),
        &one_coin("S1", "ujuno", 1),
        "C1".to_string(),
        "Test.1".to_string(),
    )
    .unwrap_err();
    assert_eq!(err, ContractError::NonPayable);
    assert!(query_escrow(&store, "C1".to_string(), "Test.1".to_string())
        .escrow
        .is_some());
}

#[test]
fn withdraw_by_stranger_fails() {
    let (mut store, _config) = setup();
    deposit(&mut store, "C1", "S1", "Test.1", "R1", 50, NOW + 300).unwrap();

    let err = execute_withdraw(
        &mut store,
        &env_at(NOW + 400),
        &no_funds("intruder"),
        "C1".to_string(),
        "Test.1".to_string(),
    )
    .unwrap_err();
    assert_eq!(err, ContractError::Unauthorized);
}

#[test]
fn withdraw_nonexistent_fails_no_escrow() {
    let (mut store, _config) = setup();
    let err = execute_withdraw(
        &mut store,
        &env_at(NOW),
        &no_funds("S1"),
        "C1".to_string(),
        "missing".to_string(),
    )
    .unwrap_err();
    assert_eq!(err, ContractError::NoEscrow);
}

#[test]
fn approve_nonexistent_fails_no_escrow() {
    let (mut store, config) = setup();
    let err = execute_approve(
        &mut store,
        &config,
        &env_at(NOW),
        &one_coin("R1", "ujuno", 50),
        "C1".to_string(),
        "missing".to_string(),
    )
    .unwrap_err();
    assert_eq!(err, ContractError::NoEscrow);
}

#[test]
fn approve_pays_source_then_transfers_item() {
    let (mut store, config) = setup();
    deposit(&mut store, "C1", "S1", "Test.1", "R1", 50, NOW + 300).unwrap();

    let res = execute_approve(
        &mut store,
        &config,
        &env_at(NOW + 100),
        &one_coin("R1", "ujuno", 50),
        "C1".to_string(),
        "Test.1".to_string(),
    )
    .unwrap();
    assert_eq!(res.messages.len(), 2);
    assert_eq!(
        res.messages[0],
        CosmosMsg::BankSend {
            to_address: "S1".to_string(),
            denom: "ujuno".to_string(),
            amount: 50,
        }
    );
    assert_eq!(
        res.messages[1],
        CosmosMsg::TransferNft {
            collection: "C1".to_string(),
            recipient: "R1".to_string(),
            token_id: "Test.1".to_string(),
        }
    );
    assert!(query_escrow(&store, "C1".to_string(), "Test.1".to_string())
        .escrow
        .is_none());
}

#[test]
fn approve_after_expiry_fails() {
    let (mut store, config) = setup();
    deposit(&mut store, "C1", "S1", "Test.1", "R1", 50, NOW + 300).unwrap();

    let err = execute_approve(
        &mut store,
        &config,
        &env_at(NOW + 300),
        &one_coin("R1", "ujuno", 50),
        "C1".to_string(),
        "Test.1".to_string(),
    )
    .unwrap_err();
    assert_eq!(err, ContractError::EscrowExpired);
    assert!(query_escrow(&store, "C1".to_string(), "Test.1".to_string())
        .escrow
        .is_some());
}

#[test]
fn approve_wrong_denom_fails() {
    let (mut store, config) = setup();
    deposit(&mut store, "C1", "S1", "Test.1", "R1", 50, NOW + 300).unwrap();

    let err = execute_approve(
        &mut store,
        &config,
        &env_at(NOW + 100),
        &one_coin("R1", "uatom", 50),
        "C1".to_string(),
        "Test.1".to_string(),
    )
    .unwrap_err();
    assert_eq!(
        err,
        ContractError::NotExpectedDenom {
            denom: "uatom".to_string()
        }
    );
    assert!(query_escrow(&store, "C1".to_string(), "Test.1".to_string())
        .escrow
        .is_some());
}

#[test]
fn approve_with_two_coins_fails() {
    let (mut store, config) = setup();
    deposit(&mut store, "C1", "S1", "Test.1", "R1", 50, NOW + 300).unwrap();

    let info = MessageInfo {
        sender: "R1".to_string(),
        funds: vec![
            Coin {
                denom: "ujuno".to_string(),
                amount: 25,
            },
            Coin {
                denom: "ujuno".to_string(),
                amount: 25,
            },
        ],
    };
    let err = execute_approve(
        &mut store,
        &config,
        &env_at(NOW + 100),
        &info,
        "C1".to_string(),
        "Test.1".to_string(),
    )
    .unwrap_err();
    assert_eq!(err, ContractError::OnlyOneCoinAvailable);
    assert!(query_escrow(&store, "C1".to_string(), "Test.1".to_string())
        .escrow
        .is_some());
}

#[test]
fn approve_with_no_coins_fails() {
    let (mut store, config) = setup();
    deposit(&mut store, "C1", "S1", "Test.1", "R1", 50, NOW + 300).unwrap();

    let err = execute_approve(
        &mut store,
        &config,
        &env_at(NOW + 100),
        &no_funds("R1"),
        "C1".to_string(),
        "Test.1".to_string(),
    )
    .unwrap_err();
    assert_eq!(err, ContractError::OnlyOneCoinAvailable);
}

#[test]
fn approve_wrong_amount_fails() {
    let (mut store, config) = setup();
    deposit(&mut store, "C1", "S1", "Test.1", "R1", 50, NOW + 300).unwrap();

    let err = execute_approve(
        &mut store,
        &config,
        &env_at(NOW + 100),
        &one_coin("R1", "ujuno", 49),
        "C1".to_string(),
        "Test.1".to_string(),
    )
    .unwrap_err();
    assert_eq!(err, ContractError::NotEnoughFunds);

    let err = execute_approve(
        &mut store,
        &config,
        &env_at(NOW + 100),
        &one_coin("R1", "ujuno", 51),
        "C1".to_string(),
        "Test.1".to_string(),
    )
    .unwrap_err();
    assert_eq!(err, ContractError::NotEnoughFunds);
    assert!(query_escrow(&store, "C1".to_string(), "Test.1".to_string())
        .escrow
        .is_some());
}

#[test]
fn approve_by_non_recipient_fails() {
    let (mut store, config) = setup();
    deposit(&mut store, "C1", "S1", "Test.1", "R1", 50, NOW + 300).unwrap();

    let err = execute_approve(
        &mut store,
        &config,
        &env_at(NOW + 100),
        &one_coin("intruder", "ujuno", 50),
        "C1".to_string(),
        "Test.1".to_string(),
    )
    .unwrap_err();
    assert_eq!(err, ContractError::Unauthorized);
}

#[test]
fn settled_escrow_cannot_settle_twice() {
    let (mut store, config) = setup();
    deposit(&mut store, "C1", "S1", "Test.1", "R1", 50, NOW + 300).unwrap();

    execute_approve(
        &mut store,
        &config,
        &env_at(NOW + 100),
        &one_coin("R1", "ujuno", 50),
        "C1".to_string(),
        "Test.1".to_string(),
    )
    .unwrap();

    let err = execute_approve(
        &mut store,
        &config,
        &env_at(NOW + 100),
        &one_coin("R1", "ujuno", 50),
        "C1".to_string(),
        "Test.1".to_string(),
    )
    .unwrap_err();
    assert_eq!(err, ContractError::NoEscrow);

    let err = execute_withdraw(
        &mut store,
        &env_at(NOW + 400),
        &no_funds("S1"),
        "C1".to_string(),
        "Test.1".to_string(),
    )
    .unwrap_err();
    assert_eq!(err, ContractError::NoEscrow);
}

#[test]
fn change_config_by_non_admin_fails() {
    let (mut store, mut config) = setup();
    let msg = ExecuteMsg::ChangeConfig {
        state: State {
            admin: "intruder".to_string(),
            denom: "uatom".to_string(),
        },
    };
    let err = execute(
        &mut store,
        &mut config,
        &env_at(NOW),
        &no_funds("intruder"),
        msg,
    )
    .unwrap_err();
    assert_eq!(err, ContractError::Unauthorized);
    assert_eq!(config.admin, "admin");
    assert_eq!(config.denom, "ujuno");
}

#[test]
fn change_config_by_admin_replaces_config() {
    let (mut store, mut config) = setup();
    deposit(&mut store, "C1", "S1", "Test.1", "R1", 50, NOW + 300).unwrap();

    let new_state = State {
        admin: "admin2".to_string(),
        denom: "uatom".to_string(),
    };
    execute_change_config(&mut config, &no_funds("admin"), new_state).unwrap();
    assert_eq!(config.admin, "admin2");
    assert_eq!(config.denom, "uatom");

    // the new denomination governs subsequent approvals
    let err = execute_approve(
        &mut store,
        &config,
        &env_at(NOW + 100),
        &one_coin("R1", "ujuno", 50),
        "C1".to_string(),
        "Test.1".to_string(),
    )
    .unwrap_err();
    assert_eq!(
        err,
        ContractError::NotExpectedDenom {
            denom: "ujuno".to_string()
        }
    );
    execute_approve(
        &mut store,
        &config,
        &env_at(NOW + 100),
        &one_coin("R1", "uatom", 50),
        "C1".to_string(),
        "Test.1".to_string(),
    )
    .unwrap();
}
