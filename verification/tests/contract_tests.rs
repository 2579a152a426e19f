use nft_escrow::contract::{execute, instantiate};
use nft_escrow::msg::{
    Coin, CosmosMsg, Env, EscrowInfoMsg, ExecuteMsg, MessageInfo, ReceiveNftMsg,
};
use nft_escrow::query::{
    query_escrow, query_escrows_by_recipient, query_escrows_by_source, query_state_info,
};
use nft_escrow::msg::CollectionOffset;
use nft_escrow::state::State;
use nft_escrow::store::{escrows, EscrowStore};

const NOW: u64 = 1_571_797_419;

fn mock_env() -> Env {
    Env { block_time: NOW }
}

fn setup_contract() -> (EscrowStore, State) {
    let instantiate_msg = nft_escrow::msg::InstantiateMsg {
        admin: "admin".to_string(),
        denom: "ujuno".to_string(),
    };
    let (state, res) = instantiate(instantiate_msg);
    assert_eq!(res.messages.len(), 0);
    (escrows(), state)
}

fn send_nft(
    store: &mut EscrowStore,
    config: &mut State,
    env: &Env,
    collection: &str,
    sender: String,
    token_id: String,
    recipient: String,
    price: u128,
) {
    let sell_msg = EscrowInfoMsg {
        recipient,
        price,
        expiration: env.block_time + 300,
    };
    let info = MessageInfo {
        sender: collection.to_string(),
        funds: vec![],
    };
    let msg = ExecuteMsg::ReceiveNft(ReceiveNftMsg {
        sender,
        token_id,
        msg: sell_msg,
    });
    execute(store, config, env, &info, msg).unwrap();
}

#[test]
fn init_contract() {
    let instantiate_msg = nft_escrow::msg::InstantiateMsg {
        admin: "admin".to_string(),
        denom: "ujuno".to_string(),
    };
    let (state, res) = instantiate(instantiate_msg);
    assert_eq!(0, res.messages.len());
    let state = query_state_info(&state);
    assert_eq!(state.admin, "admin".to_string());
    assert_eq!(state.denom, "ujuno".to_string());
}

#[test]
fn send_nft_to_escrow_contract() {
    let env = mock_env();
    let (mut store, mut config) = setup_contract();

    send_nft(
        &mut store,
        &mut config,
        &env,
        "collection1",
        "source1".to_string(),
        "Test.1".to_string(),
        "receiver1".to_string(),
        50,
    );
    send_nft(
        &mut store,
        &mut config,
        &env,
        "collection2",
        "source1".to_string(),
        "Test.2".to_string(),
        "receiver2".to_string(),
        50,
    );

    let escrows_by_source =
        query_escrows_by_source(&store, "source1".to_string(), None, Some(30));
    assert_eq!(escrows_by_source.escrows.len(), 2);
    assert_eq!(escrows_by_source.escrows[0].collection, "collection1");
    assert_eq!(escrows_by_source.escrows[0].token_id, "Test.1");
    assert_eq!(escrows_by_source.escrows[1].collection, "collection2");
    assert_eq!(escrows_by_source.escrows[1].token_id, "Test.2");

    let escrows_by_source = query_escrows_by_source(
        &store,
        "source1".to_string(),
        Some(CollectionOffset {
            collection: "collection1".to_string(),
            token_id: "Test.1".to_string(),
        }),
        Some(30),
    );
    assert_eq!(escrows_by_source.escrows.len(), 1);
    assert_eq!(escrows_by_source.escrows[0].token_id, "Test.2");

    let escrows_by_recipient =
        query_escrows_by_recipient(&store, "receiver1".to_string(), None, Some(30));
    assert_eq!(escrows_by_recipient.escrows.len(), 1);
    assert_eq!(escrows_by_recipient.escrows[0].recipient, "receiver1");
    assert_eq!(escrows_by_recipient.escrows[0].token_id, "Test.1");
}

#[test]
fn approve() {
    let env = mock_env();
    let (mut store, mut config) = setup_contract();

    send_nft(
        &mut store,
        &mut config,
        &env,
        "collection1",
        "source1".to_string(),
        "Test.1".to_string(),
        "receiver1".to_string(),
        50,
    );
    send_nft(
        &mut store,
        &mut config,
        &env,
        "collection2",
        "source1".to_string(),
        "Test.2".to_string(),
        "receiver2".to_string(),
        50,
    );

    let info = MessageInfo {
        sender: "receiver1".to_string(),
        funds: vec![Coin {
            denom: "ujuno".to_string(),
            amount: 50,
        }],
    };
    let msg = ExecuteMsg::Approve {
        collection: "collection1".to_string(),
        token_id: "Test.1".to_string(),
    };
    let res = execute(&mut store, &mut config, &env, &info, msg).unwrap();
    assert_eq!(res.messages.len(), 2);

    assert_eq!(
        res.messages[0],
        CosmosMsg::BankSend {
            to_address: "source1".to_string(),
            denom: "ujuno".to_string(),
            amount: 50,
        }
    );
    assert_eq!(
        res.messages[1],
        CosmosMsg::TransferNft {
            collection: "collection1".to_string(),
            recipient: "receiver1".to_string(),
            token_id: "Test.1".to_string(),
        }
    );

    let escrows_by_source =
        query_escrows_by_source(&store, "source1".to_string(), None, Some(30));
    assert_eq!(escrows_by_source.escrows.len(), 1);
    assert_eq!(escrows_by_source.escrows[0].token_id, "Test.2");

    let gone = query_escrow(&store, "collection1".to_string(), "Test.1".to_string());
    assert!(gone.escrow.is_none());
}
